//! The failures that retrieving and summarising a file's history can end in.

use vstd::prelude::*;
use vstd::string::StringExecFns;

verus! {

/// Why an operation of this crate failed.
///
/// The variant tells a caller which of three things went wrong: running the
/// tool, the data it printed, or a file without tracked history. The text
/// inside is for people to read.
#[derive(Debug)]
pub enum HistoryError {
    /// The version-control tool could not be run, or what it printed was not text.
    ProcessInvocationFailed(String),
    /// A line of the log did not hold a commit record of the expected shape.
    ParseFailed(String),
    /// The log was read but holds no commit, so there is nothing to take bounds from.
    NoHistory(String),
}

impl HistoryError {
    /// The failure that a malformed log line is reported with.
    pub open spec fn is_parse_failure(self) -> bool {
        self matches HistoryError::ParseFailed(text) && text@ == "parse from json fail"@
    }

    /// The failure that an empty history is reported with.
    pub open spec fn is_no_history(self) -> bool {
        self matches HistoryError::NoHistory(text) && text@ == "could not get first"@
    }

    /// The failure that a tool which could not be run is reported with.
    pub open spec fn is_not_run(self) -> bool {
        self matches HistoryError::ProcessInvocationFailed(text) && text@ == "eval git fail"@
    }

    /// The failure that output which is no text is reported with.
    pub open spec fn is_unreadable_output(self) -> bool {
        self matches HistoryError::ProcessInvocationFailed(text) && text@
            == "tran output to string fail"@
    }

    /// The text that the failure carries, whatever its kind.
    pub open spec fn text(self) -> Seq<char> {
        match self {
            HistoryError::ProcessInvocationFailed(text) => text@,
            HistoryError::ParseFailed(text) => text@,
            HistoryError::NoHistory(text) => text@,
        }
    }

    /// Reports a log line that is no commit record.
    pub fn parse_failure() -> (e: HistoryError)
        ensures
            e.is_parse_failure(),
    {
        HistoryError::ParseFailed(String::from_str("parse from json fail"))
    }

    /// Reports a history without commits.
    pub fn no_history() -> (e: HistoryError)
        ensures
            e.is_no_history(),
    {
        HistoryError::NoHistory(String::from_str("could not get first"))
    }

    /// Reports that the tool could not be run.
    pub fn not_run() -> (e: HistoryError)
        ensures
            e.is_not_run(),
    {
        HistoryError::ProcessInvocationFailed(String::from_str("eval git fail"))
    }

    /// Reports output of the tool that is no text.
    pub fn unreadable_output() -> (e: HistoryError)
        ensures
            e.is_unreadable_output(),
    {
        HistoryError::ProcessInvocationFailed(String::from_str("tran output to string fail"))
    }

    /// Hands out the text that the failure carries.
    pub fn message(&self) -> (text: &str)
        ensures
            text@ == self.text(),
    {
        match self {
            HistoryError::ProcessInvocationFailed(text) => text.as_str(),
            HistoryError::ParseFailed(text) => text.as_str(),
            HistoryError::NoHistory(text) => text.as_str(),
        }
    }
}

} // verus!
