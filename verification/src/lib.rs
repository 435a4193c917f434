//! Verified core of a recursive, concurrent text-search tool.
//!
//! Given a search pattern and the entries discovered beneath a root
//! directory, the library decides which entries are scanned, which lines
//! match, which diagnostics are emitted, and with which exit code a run
//! ends. All file system access, argument handling and thread dispatch
//! live outside the library; they hand plain values in and take plain
//! values back.

pub mod diag;
pub mod laws;
pub mod matching;
pub mod pipeline;
pub mod scan;
pub mod state;
pub mod traversal;
