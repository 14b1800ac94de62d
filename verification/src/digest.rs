//! The digest engine: streams a file's bytes, in bounded chunks, through a
//! cryptographic hash and yields the digest as a lowercase hex string.
//!
//! The hash itself is sha2's SHA-256; the library does not restate the
//! algorithm. Instead `sha256_hex` names its result: a pure function of the
//! bytes fed in, which is all the scanner's logic needs — identical content
//! gives identical digests. Opening and reading files is I/O and happens
//! outside the library; callers feed byte chunks in through [`DigestStream`].

use vstd::prelude::*;
use sha2::Digest;

verus! {

/// The lowercase hex encoding of the SHA-256 digest of `bytes`: a function
/// of the bytes alone, named rather than restated.
pub uninterp spec fn sha256_hex(bytes: Seq<u8>) -> Seq<char>;

/// The bytes a [`DigestStream`] has absorbed so far.
pub uninterp spec fn stream_fed(s: DigestStream) -> Seq<u8>;

/// A lowercase hexadecimal digit.
pub open spec fn is_hex_char(c: char) -> bool {
    ('0' <= c && c <= '9') || ('a' <= c && c <= 'f')
}

/// A well-formed digest string: 64 lowercase hex digits (256 bits).
pub open spec fn is_hex_digest(s: Seq<char>) -> bool {
    &&& s.len() == 64
    &&& forall|i: int| 0 <= i < s.len() ==> is_hex_char(#[trigger] s[i])
}

/// An incremental digest accumulator. Holds sha2's SHA-256 hasher, whose
/// type cannot be written out here; the model of a stream is the byte
/// sequence it has absorbed, `stream_fed`.
#[verifier::external_body]
pub struct DigestStream {
    inner: sha2::Sha256,
}

/// Relies on sha2's `Sha256::new`: a fresh hasher has absorbed nothing.
#[verifier::external_body]
fn sha_new() -> (r: DigestStream)
    ensures
        stream_fed(r) == Seq::<u8>::empty(),
{
    DigestStream { inner: sha2::Sha256::new() }
}

/// Relies on sha2's `Digest::update`: feeding a chunk appends it to the
/// bytes absorbed so far.
#[verifier::external_body]
fn sha_update(s: &mut DigestStream, chunk: &[u8])
    ensures
        stream_fed(*final(s)) == stream_fed(*old(s)) + chunk@,
{
    s.inner.update(chunk);
}

/// Relies on sha2's `Digest::finalize` and generic-array's `LowerHex`
/// formatting: the result is the 32-byte SHA-256 digest of the absorbed
/// bytes, printed as 64 lowercase hex digits, two per byte.
#[verifier::external_body]
fn sha_finalize_hex(s: DigestStream) -> (r: String)
    ensures
        r@ == sha256_hex(stream_fed(s)),
        is_hex_digest(r@),
{
    format!("{:x}", s.inner.finalize())
}

impl DigestStream {
    /// The bytes absorbed so far.
    pub open spec fn fed(self) -> Seq<u8> {
        stream_fed(self)
    }

    /// A stream that has absorbed nothing yet.
    pub fn start() -> (r: DigestStream)
        ensures
            r.fed() == Seq::<u8>::empty(),
    {
        sha_new()
    }

    /// Absorbs one chunk of content.
    pub fn absorb(&mut self, chunk: &[u8])
        ensures
            final(self).fed() == old(self).fed() + chunk@,
    {
        sha_update(self, chunk);
    }

    /// Finishes the stream, yielding the hex digest of everything absorbed.
    pub fn hex_digest(self) -> (r: String)
        ensures
            r@ == sha256_hex(self.fed()),
            is_hex_digest(r@),
    {
        sha_finalize_hex(self)
    }
}

/// The size of one read chunk: content is digested in bounded pieces, never
/// as one buffer.
pub const CHUNK_LEN: usize = 8192;

/// Digests a whole byte string, feeding it through a [`DigestStream`] in
/// chunks of at most [`CHUNK_LEN`] bytes.
pub fn digest_bytes(data: &[u8]) -> (r: String)
    ensures
        r@ == sha256_hex(data@),
        is_hex_digest(r@),
{
    let n = data.len();
    let mut stream = DigestStream::start();
    let mut i: usize = 0;
    while i < n
        invariant
            i <= n,
            n == data@.len(),
            stream.fed() == data@.subrange(0, i as int),
        decreases n - i,
    {
        let j = if n - i < CHUNK_LEN {
            n
        } else {
            i + CHUNK_LEN
        };
        stream.absorb(&data[i..j]);
        proof {
            assert(data@.subrange(0, i as int) + data@.subrange(i as int, j as int) =~= data@
                .subrange(0, j as int));
        }
        i = j;
    }
    proof {
        assert(data@.subrange(0, n as int) =~= data@);
    }
    stream.hex_digest()
}

/// Determinism of the digest engine: identical byte content always yields
/// the identical digest.
pub proof fn lemma_digest_deterministic(b1: Seq<u8>, b2: Seq<u8>)
    requires
        b1 == b2,
    ensures
        sha256_hex(b1) == sha256_hex(b2),
{
}

/// Idempotence of digesting: two digests of the same unchanged content are
/// the same string of characters.
pub proof fn lemma_digest_idempotent(content: Seq<u8>, first: Seq<char>, second: Seq<char>)
    requires
        first == sha256_hex(content),
        second == sha256_hex(content),
    ensures
        first == second,
{
}

} // verus!
