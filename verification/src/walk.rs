//! Candidate selection: which directory entries are executable-class
//! artifacts worth digesting.
//!
//! The directory walk itself is I/O and happens outside the library; the
//! policy deciding which file names qualify lives here. A file qualifies
//! when its extension is `exe` or `dll` (case-sensitive): the final path
//! component must end in `.exe` or `.dll` with at least one character of
//! stem before the dot, so a bare `.exe` (a hidden file with no stem) does
//! not qualify.

use vstd::prelude::*;
use vstd::string::*;

verus! {

/// A path-separator character; both directory-separator conventions are
/// recognized.
pub open spec fn is_sep_char(c: char) -> bool {
    c == '/' || c == '\\'
}

/// The path ends in `.` followed by the three given characters.
pub open spec fn has_dot_suffix(p: Seq<char>, a: char, b: char, c: char) -> bool {
    &&& p.len() >= 4
    &&& p[p.len() - 4] == '.'
    &&& p[p.len() - 3] == a
    &&& p[p.len() - 2] == b
    &&& p[p.len() - 1] == c
}

/// An executable-class path: its final component has extension `exe` or
/// `dll`. The character before the dot must exist within the same component
/// and not be a separator, so the stem is non-empty.
pub open spec fn spec_is_candidate(p: Seq<char>) -> bool {
    &&& p.len() >= 5
    &&& !is_sep_char(p[p.len() - 5])
    &&& (has_dot_suffix(p, 'e', 'x', 'e') || has_dot_suffix(p, 'd', 'l', 'l'))
}

/// Decides whether a file path names an executable-class artifact that the
/// scan should digest.
pub fn is_candidate_path(path: &str) -> (r: bool)
    ensures
        r == spec_is_candidate(path@),
{
    let n = path.unicode_len();
    if n < 5 {
        return false;
    }
    let stem_end = path.get_char(n - 5);
    if stem_end == '/' || stem_end == '\\' {
        return false;
    }
    let dot = path.get_char(n - 4);
    let e1 = path.get_char(n - 3);
    let e2 = path.get_char(n - 2);
    let e3 = path.get_char(n - 1);
    dot == '.' && ((e1 == 'e' && e2 == 'x' && e3 == 'e') || (e1 == 'd' && e2 == 'l' && e3 == 'l'))
}

/// Filters a walked list of paths down to the executable-class candidates,
/// in walk order: exactly the paths satisfying [`spec_is_candidate`] remain.
pub fn filter_candidates(paths: &Vec<String>) -> (r: Vec<String>)
    ensures
        r@.map_values(|s: String| s@) == paths@.map_values(|s: String| s@).filter(
            |p: Seq<char>| spec_is_candidate(p),
        ),
{
    let ghost views = paths@.map_values(|s: String| s@);
    let ghost pred = |p: Seq<char>| spec_is_candidate(p);
    let mut kept: Vec<String> = Vec::new();
    let n = paths.len();
    let mut i: usize = 0;
    proof {
        reveal(Seq::filter);
        assert(kept@.map_values(|s: String| s@) =~= views.take(0).filter(pred));
    }
    while i < n
        invariant
            i <= n,
            n == paths@.len(),
            views == paths@.map_values(|s: String| s@),
            pred == (|p: Seq<char>| spec_is_candidate(p)),
            kept@.map_values(|s: String| s@) == views.take(i as int).filter(pred),
        decreases n - i,
    {
        let ghost kept_before = kept@;
        let path = &paths[i];
        if is_candidate_path(path.as_str()) {
            kept.push(path.clone());
        }
        proof {
            reveal(Seq::filter);
            let upto = views.take(i as int + 1);
            assert(upto.drop_last() =~= views.take(i as int));
            assert(upto.last() == views[i as int]);
            if spec_is_candidate(views[i as int]) {
                assert(kept@.map_values(|s: String| s@) =~= kept_before.map_values(
                    |s: String| s@,
                ).push(views[i as int]));
            }
        }
        i = i + 1;
    }
    proof {
        assert(views.take(n as int) =~= views);
    }
    kept
}

} // verus!
