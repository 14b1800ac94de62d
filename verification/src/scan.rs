//! Scan orchestration: classifying each candidate file's digest outcome
//! against the blocklist and formatting the result lines.
//!
//! Workers outside the library read and digest the files — possibly many in
//! parallel, in no particular order — and hand in, per file, the path and
//! either its digest or a read-error message. Everything from there on is
//! the library's: classification, line formatting, aggregation, and the
//! rule that a blocklist failure aborts the whole scan while a per-file
//! failure only becomes one error line.

use vstd::prelude::*;
use crate::blocklist::BlocklistStore;

verus! {

/// One candidate file as the workers hand it in: its path and either its
/// hex digest or the message of the read error that prevented one.
pub struct ScanItem {
    pub path: String,
    pub outcome: Result<String, String>,
}

/// The classification of one candidate file.
pub enum ScanResult {
    /// The file's digest is in the blocklist.
    Flagged { path: String, digest: String },
    /// The file's digest is not in the blocklist.
    Clean { path: String, digest: String },
    /// The file could not be read; no digest was computed.
    ReadError { path: String, message: String },
}

/// The result line for a flagged file.
pub open spec fn flagged_line(path: Seq<char>, digest: Seq<char>) -> Seq<char> {
    "🚨 MALWARE DETECTED: "@ + path + " (hash: "@ + digest + ")"@
}

/// The result line for a clean file.
pub open spec fn clean_line(path: Seq<char>) -> Seq<char> {
    "✅ Clean: "@ + path
}

/// The result line for an unreadable file.
pub open spec fn error_line(path: Seq<char>, message: Seq<char>) -> Seq<char> {
    "❌ Error reading "@ + path + ": "@ + message
}

/// The classification a path and digest outcome get against a set of bad
/// digests.
pub open spec fn classify_spec(
    path: String,
    outcome: Result<String, String>,
    bad: Set<Seq<char>>,
) -> ScanResult {
    match outcome {
        Ok(digest) => if bad.contains(digest@) {
            (ScanResult::Flagged { path, digest })
        } else {
            (ScanResult::Clean { path, digest })
        },
        Err(message) => (ScanResult::ReadError { path, message }),
    }
}

/// The result line a path and digest outcome get against a set of bad
/// digests.
pub open spec fn line_spec(
    path: Seq<char>,
    outcome: Result<Seq<char>, Seq<char>>,
    bad: Set<Seq<char>>,
) -> Seq<char> {
    match outcome {
        Ok(digest) => if bad.contains(digest) {
            flagged_line(path, digest)
        } else {
            clean_line(path)
        },
        Err(message) => error_line(path, message),
    }
}

/// The view of a digest outcome: the character strings it carries.
pub open spec fn outcome_view(outcome: Result<String, String>) -> Result<Seq<char>, Seq<char>> {
    match outcome {
        Ok(digest) => Ok(digest@),
        Err(message) => Err(message@),
    }
}

impl ScanResult {
    /// The result line this classification formats to.
    pub open spec fn line_of(self) -> Seq<char> {
        match self {
            ScanResult::Flagged { path, digest } => flagged_line(path@, digest@),
            ScanResult::Clean { path, digest: _ } => clean_line(path@),
            ScanResult::ReadError { path, message } => error_line(path@, message@),
        }
    }

    /// Formats this classification as its human-readable result line.
    pub fn format_line(&self) -> (r: String)
        ensures
            r@ == self.line_of(),
    {
        match self {
            ScanResult::Flagged { path, digest } => {
                let mut line = String::from_str("🚨 MALWARE DETECTED: ");
                line.append(path.as_str());
                line.append(" (hash: ");
                line.append(digest.as_str());
                line.append(")");
                proof {
                    assert(line@ =~= self.line_of());
                }
                line
            },
            ScanResult::Clean { path, digest: _ } => {
                let mut line = String::from_str("✅ Clean: ");
                line.append(path.as_str());
                proof {
                    assert(line@ =~= self.line_of());
                }
                line
            },
            ScanResult::ReadError { path, message } => {
                let mut line = String::from_str("❌ Error reading ");
                line.append(path.as_str());
                line.append(": ");
                line.append(message.as_str());
                proof {
                    assert(line@ =~= self.line_of());
                }
                line
            },
        }
    }
}

/// Classifies one candidate file's digest outcome against the blocklist.
pub fn classify(path: &String, outcome: &Result<String, String>, store: &BlocklistStore) -> (r:
    ScanResult)
    ensures
        r == classify_spec(*path, *outcome, store@),
{
    match outcome {
        Ok(digest) => {
            if store.contains(digest) {
                ScanResult::Flagged { path: path.clone(), digest: digest.clone() }
            } else {
                ScanResult::Clean { path: path.clone(), digest: digest.clone() }
            }
        },
        Err(message) => ScanResult::ReadError { path: path.clone(), message: message.clone() },
    }
}

/// Classifies one candidate file and formats its result line.
pub fn classify_line(path: &String, outcome: &Result<String, String>, store: &BlocklistStore) -> (r:
    String)
    ensures
        r@ == line_spec(path@, outcome_view(*outcome), store@),
{
    let result = classify(path, outcome, store);
    result.format_line()
}

/// Classifies a whole batch of candidate files, one result line each.
pub fn scan_lines(items: &Vec<ScanItem>, store: &BlocklistStore) -> (r: Vec<String>)
    ensures
        r@.len() == items@.len(),
        forall|i: int|
            0 <= i < items@.len() ==> r@[i]@ == line_spec(
                items@[i].path@,
                outcome_view(items@[i].outcome),
                store@,
            ),
{
    let n = items.len();
    let mut lines: Vec<String> = Vec::new();
    let mut i: usize = 0;
    while i < n
        invariant
            i <= n,
            n == items@.len(),
            lines@.len() == i,
            forall|k: int|
                0 <= k < i ==> lines@[k]@ == line_spec(
                    items@[k].path@,
                    outcome_view(items@[k].outcome),
                    store@,
                ),
        decreases n - i,
    {
        let item = &items[i];
        let line = classify_line(&item.path, &item.outcome, store);
        lines.push(line);
        i = i + 1;
    }
    lines
}

/// Runs the decision part of a whole scan: a blocklist failure aborts with
/// that failure's message and no result list; otherwise every handed-in
/// file gets its line.
pub fn scan(blocklist: Result<&BlocklistStore, String>, items: &Vec<ScanItem>) -> (r: Result<
    Vec<String>,
    String,
>)
    ensures
        blocklist is Ok ==> (r matches Ok(lines) && lines@.len() == items@.len() && (forall|i: int|
            0 <= i < items@.len() ==> lines@[i]@ == line_spec(
                items@[i].path@,
                outcome_view(items@[i].outcome),
                blocklist->Ok_0@,
            ))),
        blocklist is Err ==> r == Err::<Vec<String>, String>(blocklist->Err_0),
{
    match blocklist {
        Ok(store) => Ok(scan_lines(items, store)),
        Err(message) => Err(message),
    }
}

} // verus!
