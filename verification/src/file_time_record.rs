//! The creation and last-modification times of a file, taken from its history.
//!
//! The creation time is the date of the *first* commit of the history and the
//! last-modification time that of the *last* one, in the order in which the
//! history lists them. The log lists commits newest first, so for a file with
//! more than one commit the creation time is the later of the two. The record
//! is filled in by position, not by comparing dates: nothing here re-orders
//! the commits.

use vstd::prelude::*;
use vstd::string::StringExecFns;
use crate::error::HistoryError;
use crate::history::{commit_of_line, is_history_of, records, Commit, GitFileHistory, Lookup};
use crate::timestamp::Timestamp;

verus! {

/// The time bounds of one file.
#[derive(Debug)]
pub struct FileTimeRecord {
    /// The path that was asked about, as it was given.
    pub file: String,
    /// Date of the first commit of the history.
    pub create_time: Timestamp,
    /// Date of the last commit of the history.
    pub last_modify_time: Timestamp,
}

/// The two dates that a history gives: those of its first and of its last
/// commit. `None` for a history without commits.
pub open spec fn time_bounds(dates: Seq<Timestamp>) -> Option<(Timestamp, Timestamp)> {
    if dates.len() == 0 {
        None
    } else {
        Some((dates.first(), dates.last()))
    }
}

/// The dates of the commits of a history, in its order.
pub open spec fn dates_of(history: Seq<Commit>) -> Seq<Timestamp> {
    history.map_values(|commit: Commit| commit.date)
}

impl FileTimeRecord {
    /// Whether `r` is what the given lookup of the file's history leads to:
    /// the record with the bounds of the history, `NoHistory` for a history
    /// without commits, and the lookup's own failure where it failed.
    pub open spec fn summarizes(
        r: Result<FileTimeRecord, HistoryError>,
        file: Seq<char>,
        lookup: Lookup,
    ) -> bool {
        match lookup {
            Ok(history) => match time_bounds(dates_of(history@)) {
                Some((first, last)) => {
                    &&& r matches Ok(record)
                    &&& record.file@ == file
                    &&& record.create_time == first
                    &&& record.last_modify_time == last
                },
                None => r matches Err(e) && e.is_no_history(),
            },
            Err(failure) => r == Err::<FileTimeRecord, HistoryError>(failure),
        }
    }

    /// Takes the time bounds of a file from its history. A history without
    /// commits has none: that is the failure `NoHistory`.
    pub fn from_history(file: String, history: &Vec<Commit>) -> (r: Result<
        FileTimeRecord,
        HistoryError,
    >)
        ensures
            history@.len() == 0 <==> r is Err,
            r matches Err(e) ==> e.is_no_history(),
            r matches Ok(record) ==> {
                &&& record.file == file
                &&& record.create_time == history@[0].date
                &&& record.last_modify_time == history@[history@.len() - 1].date
            },
    {
        let n: usize = history.len();
        if n == 0 {
            Err(HistoryError::no_history())
        } else {
            Ok(
                FileTimeRecord {
                    file,
                    create_time: history[0].date,
                    last_modify_time: history[n - 1].date,
                },
            )
        }
    }

    /// Turns the outcome of a history lookup into the file's time bounds. A
    /// failed lookup stays the failure it was.
    pub fn from_lookup(file: String, lookup: Lookup) -> (r: Result<FileTimeRecord, HistoryError>)
        ensures
            FileTimeRecord::summarizes(r, file@, lookup),
    {
        match lookup {
            Ok(history) => FileTimeRecord::from_history(file, &history),
            Err(e) => Err(e),
        }
    }

    /// Looks the history of `file_path` up in the repository at `git_path` and
    /// takes the file's time bounds from it.
    pub fn get<H: GitFileHistory>(git_path: &H::Root, file_path: &str) -> (r: Result<
        FileTimeRecord,
        HistoryError,
    >)
        ensures
            exists|lookup: Lookup|
                call_ensures(H::history, (git_path, file_path), lookup)
                    && #[trigger] FileTimeRecord::summarizes(r, file_path@, lookup),
            r matches Ok(record) ==> record.file@ == file_path@,
    {
        let lookup = H::history(git_path, file_path);
        FileTimeRecord::from_lookup(String::from_str(file_path), lookup)
    }
}

/// The bounds follow the order of the log's text: where the text reads as a
/// history, the creation time is the date in its first record line and the
/// last-modification time the date in its last one.
pub proof fn lemma_bounds_follow_line_order(text: Seq<char>, history: Seq<Commit>)
    requires
        is_history_of(history, text),
    ensures
        records(text).len() == 0 <==> time_bounds(dates_of(history)) is None,
        time_bounds(dates_of(history)) matches Some((first, last)) ==> {
            &&& commit_of_line(records(text).first()) matches Some(commit) && commit.date == first
            &&& commit_of_line(records(text).last()) matches Some(commit) && commit.date == last
        },
{
}

} // verus!
