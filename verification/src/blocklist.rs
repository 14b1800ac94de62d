//! The blocklist store: a set of known-bad digests loaded from a
//! newline-delimited text source.
//!
//! Each source line is trimmed of leading and trailing whitespace; blank
//! lines and `#` comment lines yield no entry; every other trimmed line is
//! inserted verbatim (no case folding, no format validation — a malformed
//! entry simply never matches). Entries carry set semantics: duplicates
//! collapse and order is irrelevant. Reading the source file is I/O and
//! happens outside the library; it hands lines in one at a time.

use vstd::prelude::*;
use vstd::string::*;

verus! {

/// A character with the Unicode White_Space property: what trimming strips
/// from both ends of a source line.
pub open spec fn is_space_char(c: char) -> bool {
    let u = c as u32;
    (9 <= u && u <= 13) || u == 32 || u == 0x85 || u == 0xA0 || u == 0x1680 || (0x2000 <= u && u
        <= 0x200A) || u == 0x2028 || u == 0x2029 || u == 0x202F || u == 0x205F || u == 0x3000
}

/// Decides [`is_space_char`] on one character.
pub fn is_space(c: char) -> (r: bool)
    ensures
        r == is_space_char(c),
{
    let u = c as u32;
    (9 <= u && u <= 13) || u == 32 || u == 0x85 || u == 0xA0 || u == 0x1680 || (0x2000 <= u && u
        <= 0x200A) || u == 0x2028 || u == 0x2029 || u == 0x202F || u == 0x205F || u == 0x3000
}

/// `s` without its leading whitespace.
pub open spec fn trim_start_spec(s: Seq<char>) -> Seq<char>
    decreases s.len(),
{
    if s.len() > 0 && is_space_char(s[0]) {
        trim_start_spec(s.drop_first())
    } else {
        s
    }
}

/// `s` without its trailing whitespace.
pub open spec fn trim_end_spec(s: Seq<char>) -> Seq<char>
    decreases s.len(),
{
    if s.len() > 0 && is_space_char(s.last()) {
        trim_end_spec(s.drop_last())
    } else {
        s
    }
}

/// `s` without leading and trailing whitespace.
pub open spec fn trim_spec(s: Seq<char>) -> Seq<char> {
    trim_end_spec(trim_start_spec(s))
}

/// The entry one source line yields: its trimmed text, unless that is blank
/// or starts the line as a `#` comment.
pub open spec fn parsed_entry(line: Seq<char>) -> Option<Seq<char>> {
    let t = trim_spec(line);
    if t.len() == 0 || t[0] == '#' {
        None
    } else {
        Some(t)
    }
}

/// The set of entries a whole source yields, line by line.
pub open spec fn entries_of_lines(lines: Seq<Seq<char>>) -> Set<Seq<char>>
    decreases lines.len(),
{
    if lines.len() == 0 {
        Set::empty()
    } else {
        let rest = entries_of_lines(lines.drop_last());
        match parsed_entry(lines.last()) {
            Some(e) => rest.insert(e),
            None => rest,
        }
    }
}

/// Trims leading and trailing whitespace from one source line.
pub fn trim_line(line: &str) -> (r: &str)
    ensures
        r@ == trim_spec(line@),
{
    let n = line.unicode_len();
    proof {
        assert(line@.subrange(0, n as int) =~= line@);
    }
    let mut start: usize = 0;
    while start < n && is_space(line.get_char(start))
        invariant
            start <= n,
            n == line@.len(),
            trim_start_spec(line@) == trim_start_spec(line@.subrange(start as int, n as int)),
        decreases n - start,
    {
        proof {
            let tail = line@.subrange(start as int, n as int);
            assert(tail.drop_first() =~= line@.subrange(start as int + 1, n as int));
        }
        start = start + 1;
    }
    proof {
        if start == n {
            assert(line@.subrange(start as int, n as int).len() == 0);
        }
    }
    let mut end: usize = n;
    while end > start && is_space(line.get_char(end - 1))
        invariant
            start <= end <= n,
            n == line@.len(),
            trim_start_spec(line@) == line@.subrange(start as int, n as int),
            trim_end_spec(line@.subrange(start as int, n as int)) == trim_end_spec(
                line@.subrange(start as int, end as int),
            ),
        decreases end,
    {
        proof {
            let part = line@.subrange(start as int, end as int);
            assert(part.last() == line@[end - 1]);
            assert(part.drop_last() =~= line@.subrange(start as int, end as int - 1));
        }
        end = end - 1;
    }
    proof {
        if end == start {
            assert(line@.subrange(start as int, end as int).len() == 0);
        }
    }
    line.substring_char(start, end)
}

/// A set of known-bad digests with exact-match membership. Its model is the
/// set of entry character strings it holds.
#[derive(Clone)]
pub struct BlocklistStore {
    entries: Vec<String>,
}

impl View for BlocklistStore {
    type V = Set<Seq<char>>;

    closed spec fn view(&self) -> Set<Seq<char>> {
        Set::new(
            |d: Seq<char>|
                exists|i: int| 0 <= i < self.entries@.len() && #[trigger] self.entries@[i]@ == d,
        )
    }
}

impl BlocklistStore {
    /// Entries are stored without duplicates: set semantics. Constructors
    /// establish this and every mutation preserves it.
    pub closed spec fn wf(self) -> bool {
        forall|i: int, j: int|
            0 <= i < j < self.entries@.len() ==> #[trigger] self.entries@[i]@ != #[trigger] self.entries@[j]@
    }

    /// An empty store: nothing is known bad.
    pub fn new() -> (r: BlocklistStore)
        ensures
            r@ == Set::<Seq<char>>::empty(),
            r.wf(),
    {
        let r = BlocklistStore { entries: Vec::new() };
        proof {
            assert(r@ =~= Set::<Seq<char>>::empty());
        }
        r
    }

    /// Exact-match membership of a digest in the blocklist.
    pub fn contains(&self, digest: &String) -> (r: bool)
        ensures
            r == self@.contains(digest@),
    {
        let n = self.entries.len();
        let mut i: usize = 0;
        while i < n
            invariant
                i <= n,
                n == self.entries@.len(),
                forall|k: int| 0 <= k < i ==> #[trigger] self.entries@[k]@ != digest@,
            decreases n - i,
        {
            if self.entries[i].eq(digest) {
                return true;
            }
            i = i + 1;
        }
        false
    }

    /// Feeds one source line into the store: the trimmed line is inserted
    /// unless it is blank or a `#` comment.
    pub fn add_line(&mut self, line: &str)
        requires
            old(self).wf(),
        ensures
            final(self).wf(),
            final(self)@ == (match parsed_entry(line@) {
                Some(e) => old(self)@.insert(e),
                None => old(self)@,
            }),
    {
        let trimmed = trim_line(line);
        let m = trimmed.unicode_len();
        if m == 0 {
            return ;
        }
        if trimmed.get_char(0) == '#' {
            return ;
        }
        let entry = trimmed.to_owned();
        if self.contains(&entry) {
            proof {
                assert(old(self)@.insert(entry@) =~= old(self)@);
            }
            return ;
        }
        let ghost before = self.entries@;
        self.entries.push(entry);
        proof {
            assert forall|i: int, j: int| 0 <= i < j < self.entries@.len() implies #[trigger] self
                .entries@[i]@ != #[trigger] self.entries@[j]@ by {
                if j == before.len() {
                    assert(!old(self)@.contains(self.entries@[j]@));
                    assert(before[i]@ != self.entries@[j]@);
                }
            }
            assert forall|d: Seq<char>| self@.contains(d) implies old(self)@.insert(entry@).contains(
                d,
            ) by {
                let i = choose|i: int|
                    0 <= i < self.entries@.len() && #[trigger] self.entries@[i]@ == d;
                if i < before.len() {
                    assert(before[i]@ == d);
                }
            }
            assert forall|d: Seq<char>| old(self)@.insert(entry@).contains(d) implies self@.contains(
                d,
            ) by {
                if d == entry@ {
                    assert(self.entries@[before.len() as int]@ == d);
                } else {
                    let i = choose|i: int| 0 <= i < before.len() && #[trigger] before[i]@ == d;
                    assert(self.entries@[i]@ == d);
                }
            }
            assert(self@ =~= old(self)@.insert(entry@));
        }
    }

    /// Builds a store from a whole source, one line at a time.
    pub fn from_lines(lines: &Vec<String>) -> (r: BlocklistStore)
        ensures
            r@ == entries_of_lines(lines@.map_values(|l: String| l@)),
            r.wf(),
    {
        let ghost views = lines@.map_values(|l: String| l@);
        let mut store = BlocklistStore::new();
        let n = lines.len();
        let mut i: usize = 0;
        while i < n
            invariant
                i <= n,
                n == lines@.len(),
                views == lines@.map_values(|l: String| l@),
                store.wf(),
                store@ == entries_of_lines(views.take(i as int)),
            decreases n - i,
        {
            store.add_line(lines[i].as_str());
            proof {
                let upto = views.take(i as int + 1);
                assert(upto.drop_last() =~= views.take(i as int));
                assert(upto.last() == lines@[i as int]@);
            }
            i = i + 1;
        }
        proof {
            assert(views.take(n as int) =~= views);
        }
        store
    }
}

/// Membership in the set a source yields, characterized per line: an entry
/// is present exactly when some line parses to it.
pub proof fn lemma_entries_membership(lines: Seq<Seq<char>>, d: Seq<char>)
    ensures
        entries_of_lines(lines).contains(d) <==> (exists|i: int|
            0 <= i < lines.len() && #[trigger] parsed_entry(lines[i]) == Some(d)),
    decreases lines.len(),
{
    if lines.len() > 0 {
        lemma_entries_membership(lines.drop_last(), d);
        let shorter = lines.drop_last();
        if entries_of_lines(lines).contains(d) {
            if parsed_entry(lines.last()) == Some(d) {
                assert(parsed_entry(lines[lines.len() - 1]) == Some(d));
            } else {
                let i = choose|i: int|
                    0 <= i < shorter.len() && #[trigger] parsed_entry(shorter[i]) == Some(d);
                assert(parsed_entry(lines[i]) == Some(d));
            }
        }
        if exists|i: int| 0 <= i < lines.len() && #[trigger] parsed_entry(lines[i]) == Some(d) {
            let i = choose|i: int|
                0 <= i < lines.len() && #[trigger] parsed_entry(lines[i]) == Some(d);
            if i < lines.len() - 1 {
                assert(parsed_entry(shorter[i]) == Some(d));
            }
        }
    }
}

/// Order independence of loading: two sources whose lines are a permutation
/// of one another yield stores with the same entries, so `contains` agrees
/// on every digest.
pub proof fn lemma_load_order_independent(lines1: Seq<Seq<char>>, lines2: Seq<Seq<char>>)
    requires
        lines1.to_multiset() == lines2.to_multiset(),
    ensures
        entries_of_lines(lines1) == entries_of_lines(lines2),
{
    broadcast use vstd::seq_lib::group_to_multiset_ensures;

    assert forall|d: Seq<char>|
        entries_of_lines(lines1).contains(d) == entries_of_lines(lines2).contains(d) by {
        lemma_entries_membership(lines1, d);
        lemma_entries_membership(lines2, d);
        assert forall|l: Seq<char>| lines1.contains(l) == lines2.contains(l) by {
            assert(lines1.contains(l) <==> lines1.to_multiset().count(l) > 0);
            assert(lines2.contains(l) <==> lines2.to_multiset().count(l) > 0);
        }
        if exists|i: int| 0 <= i < lines1.len() && #[trigger] parsed_entry(lines1[i]) == Some(d) {
            let i = choose|i: int|
                0 <= i < lines1.len() && #[trigger] parsed_entry(lines1[i]) == Some(d);
            assert(lines1.contains(lines1[i]));
            assert(lines2.contains(lines1[i]));
            let j = choose|j: int| 0 <= j < lines2.len() && lines2[j] == lines1[i];
            assert(parsed_entry(lines2[j]) == Some(d));
        }
        if exists|i: int| 0 <= i < lines2.len() && #[trigger] parsed_entry(lines2[i]) == Some(d) {
            let i = choose|i: int|
                0 <= i < lines2.len() && #[trigger] parsed_entry(lines2[i]) == Some(d);
            assert(lines2.contains(lines2[i]));
            assert(lines1.contains(lines2[i]));
            let j = choose|j: int| 0 <= j < lines1.len() && lines1[j] == lines2[i];
            assert(parsed_entry(lines1[j]) == Some(d));
        }
    }
    assert(entries_of_lines(lines1) =~= entries_of_lines(lines2));
}

/// Blank lines and `#` comment lines never become entries: a source made of
/// only such lines yields a store that contains nothing.
pub proof fn lemma_skipped_lines_yield_nothing(lines: Seq<Seq<char>>)
    requires
        forall|i: int| 0 <= i < lines.len() ==> #[trigger] parsed_entry(lines[i]) is None,
    ensures
        entries_of_lines(lines) == Set::<Seq<char>>::empty(),
{
    assert forall|d: Seq<char>| !entries_of_lines(lines).contains(d) by {
        lemma_entries_membership(lines, d);
    }
    assert(entries_of_lines(lines) =~= Set::<Seq<char>>::empty());
}

} // verus!
