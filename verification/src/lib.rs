//! A local malware-signature scanner core.
//!
//! Given a root directory's candidate files and a blocklist of known-bad
//! digests, the library digests file contents, tests membership against the
//! blocklist, and formats one result line per file. File and directory I/O,
//! the worker pool and the async entry point live outside the library; the
//! library holds the logic and its proofs.

pub mod blocklist;
pub mod cache;
pub mod digest;
pub mod scan;
pub mod walk;
