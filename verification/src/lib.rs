//! Per-file commit history of a git repository, and the time bounds derived from it.
//!
//! The crate builds the arguments of the log query, reads what the log printed
//! into commits, and takes a file's creation and last-modification times from
//! them. Running git is left to the caller, who implements
//! [`history::GitFileHistory::call_git`] with whatever spawns the process.
//!
//! - [`history`]: commits, the log's arguments, the parser, lookups by file.
//! - [`file_time_record`]: the time bounds of a file.
//! - [`lines`], [`output`], [`json`], [`timestamp`]: the steps of the parser.
//! - [`error`]: what can go wrong.

pub mod error;
pub mod timestamp;
pub mod json;
pub mod lines;
pub mod output;
pub mod history;
pub mod file_time_record;
