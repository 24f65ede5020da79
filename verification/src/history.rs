//! Commit records, the parser that reads them from the log's text, and the
//! retrieval interface built on it.

use vstd::prelude::*;
use vstd::hash_map::StringHashMap;
use vstd::string::StringExecFns;
use vstd::utf8::{decode_utf8, valid_utf8};
use crate::error::HistoryError;
use crate::json::{json_object, members, parse_object, text_field, text_member};
use crate::lines::{lines, lines_of};
use crate::output::text_of_output;
use crate::timestamp::{date_of, Timestamp};

verus! {

/// One revision that touched the file.
#[derive(Debug)]
pub struct Commit {
    /// Name of the author.
    pub author: String,
    /// When the commit was made.
    pub date: Timestamp,
    /// Subject line of the commit message.
    pub msg: String,
    /// Full hexadecimal object name of the commit.
    pub hash: String,
}

/// A commit as contracts speak of it: the texts as character sequences.
pub struct CommitView {
    pub author: Seq<char>,
    pub date: Timestamp,
    pub msg: Seq<char>,
    pub hash: Seq<char>,
}

impl View for Commit {
    type V = CommitView;

    open spec fn view(&self) -> CommitView {
        CommitView { author: self.author@, date: self.date, msg: self.msg@, hash: self.hash@ }
    }
}

/// The commit that four field texts make, where the date text is a date.
pub open spec fn commit_of_fields(
    author: Seq<char>,
    date: Seq<char>,
    msg: Seq<char>,
    hash: Seq<char>,
) -> Option<CommitView> {
    match date_of(date) {
        Some(stamp) => Some(CommitView { author, date: stamp, msg, hash }),
        None => None,
    }
}

/// The commit that the members of a JSON object make: `author`, `date`, `msg`
/// and `hash` must all be there as text, and `date` must read as a date. Other
/// members are ignored.
pub open spec fn commit_of_members(members: Map<Seq<char>, Option<Seq<char>>>) -> Option<
    CommitView,
> {
    match (
        text_member(members, "author"@),
        text_member(members, "date"@),
        text_member(members, "msg"@),
        text_member(members, "hash"@),
    ) {
        (Some(author), Some(date), Some(msg), Some(hash)) => commit_of_fields(
            author,
            date,
            msg,
            hash,
        ),
        _ => None,
    }
}

/// The commit that one line of the log encodes, or `None` where the line is
/// not a record.
pub open spec fn commit_of_line(line: Seq<char>) -> Option<CommitView> {
    match json_object(line) {
        Some(members) => commit_of_members(members),
        None => None,
    }
}

impl Commit {
    /// Builds a commit from its four fields as text. Fails where the date text
    /// is no date.
    pub fn from_fields(author: String, date: &str, msg: String, hash: String) -> (r: Result<
        Commit,
        HistoryError,
    >)
        ensures
            match r {
                Ok(commit) => commit_of_fields(author@, date@, msg@, hash@) == Some(commit@),
                Err(e) => commit_of_fields(author@, date@, msg@, hash@) is None
                    && e.is_parse_failure(),
            },
    {
        match Timestamp::parse(date) {
            Ok(stamp) => Ok(Commit { author, date: stamp, msg, hash }),
            Err(e) => Err(e),
        }
    }

    /// Reads a commit out of a decoded JSON object.
    pub fn from_object(obj: &serde_json::Map<String, serde_json::Value>) -> (r: Result<
        Commit,
        HistoryError,
    >)
        ensures
            match r {
                Ok(commit) => commit_of_members(members(*obj)) == Some(commit@),
                Err(e) => commit_of_members(members(*obj)) is None && e.is_parse_failure(),
            },
    {
        let author = match text_field(obj, "author") {
            Ok(text) => text,
            Err(e) => { return Err(e); },
        };
        let date = match text_field(obj, "date") {
            Ok(text) => text,
            Err(e) => { return Err(e); },
        };
        let msg = match text_field(obj, "msg") {
            Ok(text) => text,
            Err(e) => { return Err(e); },
        };
        let hash = match text_field(obj, "hash") {
            Ok(text) => text,
            Err(e) => { return Err(e); },
        };
        Commit::from_fields(author, date.as_str(), msg, hash)
    }

    /// Decodes one line of the log.
    pub fn from_line(line: &str) -> (r: Result<Commit, HistoryError>)
        ensures
            match r {
                Ok(commit) => commit_of_line(line@) == Some(commit@),
                Err(e) => commit_of_line(line@) is None && e.is_parse_failure(),
            },
    {
        match parse_object(line) {
            Ok(obj) => Commit::from_object(&obj),
            Err(_) => Err(HistoryError::parse_failure()),
        }
    }
}

/// Tells the lines that hold a record from the empty ones between them.
pub open spec fn holds_record() -> spec_fn(Seq<char>) -> bool {
    |line: Seq<char>| line.len() > 0
}

/// The lines of the log that hold a record: all but the empty ones, in the
/// order of the text.
pub open spec fn records(text: Seq<char>) -> Seq<Seq<char>> {
    lines_of(text).filter(holds_record())
}

/// Whether the commits are what the text of a log reads as: one commit for
/// each record line, with the fields of that line, in the order of the lines.
pub open spec fn is_history_of(history: Seq<Commit>, text: Seq<char>) -> bool {
    &&& history.len() == records(text).len()
    &&& forall|i: int|
        0 <= i < history.len() ==> commit_of_line(records(text)[i]) == Some(
            (#[trigger] history[i])@,
        )
}

/// Whether one of the record lines of the text is no commit record.
pub open spec fn has_bad_line(text: Seq<char>) -> bool {
    exists|i: int|
        0 <= i < records(text).len() && commit_of_line(#[trigger] records(text)[i]) is None
}

/// Reading the same text twice gives the same commits: as many, and field by
/// field the same.
pub proof fn lemma_history_is_determined(text: Seq<char>, first: Seq<Commit>, second: Seq<Commit>)
    requires
        is_history_of(first, text),
        is_history_of(second, text),
    ensures
        first.len() == second.len(),
        forall|i: int| 0 <= i < first.len() ==> (#[trigger] first[i])@ == second[i]@,
{
}

/// A text with a bad line reads as no history at all.
pub proof fn lemma_bad_line_excludes_history(text: Seq<char>, history: Seq<Commit>)
    requires
        has_bad_line(text),
    ensures
        !is_history_of(history, text),
{
    let bad = choose|i: int|
        0 <= i < records(text).len() && commit_of_line(#[trigger] records(text)[i]) is None;
    if is_history_of(history, text) {
        assert(commit_of_line(records(text)[bad]) == Some(history[bad]@));
    }
}

/// The format that the log is asked to print each commit in: one JSON object
/// per line, with the committer date in strict ISO 8601, the author's name,
/// the subject and the full hash.
pub const LOG_FORMAT: &'static str =
    "{\"date\":\"%cI\",\"author\":\"%an\",\"msg\":\"%s\",\"hash\":\"%H\"}";

/// Whether the arguments are those of the log query for one file: the log,
/// following renames, in date order, each commit printed in `LOG_FORMAT`, for
/// that file and nothing else.
pub open spec fn is_log_query(args: Seq<String>, file_path: Seq<char>) -> bool {
    &&& args.len() == 5
    &&& args[0]@ == "log"@
    &&& args[1]@ == "--follow"@
    &&& args[2]@ == "--date-order"@
    &&& args[3]@ == "--pretty="@ + LOG_FORMAT@
    &&& args[4]@ == file_path
}

/// The git command line, as far as this crate knows it.
#[derive(Debug)]
pub struct Git {}

impl Git {
    /// The arguments to run git with for the history of one file: the log,
    /// following renames, in date order, one record per commit.
    pub fn log_args(file_path: &str) -> (args: Vec<String>)
        ensures
            is_log_query(args@, file_path@),
    {
        let mut args: Vec<String> = Vec::new();
        args.push(String::from_str("log"));
        args.push(String::from_str("--follow"));
        args.push(String::from_str("--date-order"));
        args.push(String::from_str("--pretty=").concat(LOG_FORMAT));
        args.push(String::from_str(file_path));
        args
    }

    /// Turns the outcome of running the log into the outcome of the lookup. A
    /// run that failed stays the failure it was.
    pub fn lookup_of_run(run: Result<Vec<u8>, HistoryError>) -> (r: Lookup)
        ensures
            is_lookup_of_run(r, run),
    {
        match run {
            Ok(stdout) => Git::read_output(stdout),
            Err(e) => Err(e),
        }
    }

    /// Reads the bytes that the log printed into commits.
    pub fn read_output(stdout: Vec<u8>) -> (r: Lookup)
        ensures
            is_reading_of(r, stdout@),
    {
        match text_of_output(stdout) {
            Ok(text) => Git::trans(text),
            Err(e) => Err(e),
        }
    }

    /// Reads the text that the log printed into commits, in the order of the
    /// text. Empty lines are passed over. One line that is no record fails the
    /// whole text.
    pub fn trans(msg: String) -> (r: Result<Vec<Commit>, HistoryError>)
        ensures
            match r {
                Ok(list) => is_history_of(list@, msg@),
                Err(e) => e.is_parse_failure() && has_bad_line(msg@),
            },
    {
        let all = lines(msg.as_str());
        let ghost every = lines_of(msg@);
        let mut list: Vec<Commit> = Vec::new();
        let mut at: usize = 0;
        while at < all.len()
            invariant
                at <= all@.len(),
                every == lines_of(msg@),
                all@.len() == every.len(),
                forall|k: int| 0 <= k < all@.len() ==> (#[trigger] all@[k])@ == every[k],
                list@.len() == every.take(at as int).filter(holds_record()).len(),
                forall|i: int|
                    0 <= i < list@.len() ==> commit_of_line(
                        every.take(at as int).filter(holds_record())[i],
                    ) == Some((#[trigger] list@[i])@),
            decreases all@.len() - at,
        {
            let line = all[at];
            let ghost before = every.take(at as int);
            proof {
                assert(every.take(at + 1) =~= before.push(every[at as int]));
                before.lemma_filter_push(every[at as int], holds_record());
            }
            if !line.is_empty() {
                match Commit::from_line(line) {
                    Ok(commit) => {
                        list.push(commit);
                    },
                    Err(e) => {
                        proof {
                            let upto = every.take(at + 1);
                            let rest = every.skip(at + 1);
                            assert(every =~= upto + rest);
                            let found = before.filter(holds_record()).len() as int;
                            assert(commit_of_line(records(msg@)[found]) is None);
                        }
                        return Err(e);
                    },
                }
            }
            at = at + 1;
        }
        proof {
            assert(every.take(at as int) =~= every);
        }
        Ok(list)
    }
}

/// Whether `r` is what the bytes that the log printed lead to: their commits
/// where they are text that reads as a history, a parse failure where they are
/// text with a bad line, and a failure to run the tool where they are no text.
pub open spec fn is_reading_of(r: Lookup, stdout: Seq<u8>) -> bool {
    match r {
        Ok(list) => valid_utf8(stdout) && is_history_of(list@, decode_utf8(stdout)),
        Err(e) => if valid_utf8(stdout) {
            e.is_parse_failure() && has_bad_line(decode_utf8(stdout))
        } else {
            e.is_unreadable_output()
        },
    }
}

/// Whether `r` is what a run of the log leads to: the reading of the bytes
/// that it printed, or the failure to run it, as it came.
pub open spec fn is_lookup_of_run(r: Lookup, run: Result<Vec<u8>, HistoryError>) -> bool {
    match run {
        Ok(stdout) => is_reading_of(r, stdout@),
        Err(e) => r == Err::<Vec<Commit>, HistoryError>(e),
    }
}

/// Retrieval keeps the order of the log: where the run printed text whose
/// record lines are all commit records, the lookup succeeds with one commit
/// for each of these lines, in their order. Nothing is sorted, turned round,
/// dropped or merged.
pub proof fn lemma_retrieval_keeps_line_order(r: Lookup, stdout: Vec<u8>)
    requires
        is_lookup_of_run(r, Ok(stdout)),
        valid_utf8(stdout@),
        !has_bad_line(decode_utf8(stdout@)),
    ensures
        r matches Ok(list) && list@.len() == records(decode_utf8(stdout@)).len() && forall|i: int|
            0 <= i < list@.len() ==> commit_of_line(records(decode_utf8(stdout@))[i]) == Some(
                (#[trigger] list@[i])@,
            ),
{
}

/// What a lookup of one file's history ends in.
pub type Lookup = Result<Vec<Commit>, HistoryError>;

/// Histories by file path.
pub type HistoryMap = StringHashMap<Vec<Commit>>;

/// One step of collecting histories: a lookup that succeeded is entered under
/// its path, in place of an earlier entry for the same path; a failure, once
/// it has happened, is all that is left.
pub open spec fn bulk_step(
    so_far: Result<Map<Seq<char>, Vec<Commit>>, HistoryError>,
    path: Seq<char>,
    lookup: Lookup,
) -> Result<Map<Seq<char>, Vec<Commit>>, HistoryError> {
    match so_far {
        Ok(found) => match lookup {
            Ok(history) => Ok(found.insert(path, history)),
            Err(e) => Err(e),
        },
        Err(e) => Err(e),
    }
}

/// The outcome of looking the paths up one after the other, where `lookups`
/// holds what each lookup ended in.
pub open spec fn bulk_result(paths: Seq<Seq<char>>, lookups: Seq<Lookup>) -> Result<
    Map<Seq<char>, Vec<Commit>>,
    HistoryError,
>
    recommends
        paths.len() == lookups.len(),
    decreases paths.len(),
{
    if paths.len() == 0 {
        Ok(Map::empty())
    } else {
        bulk_step(bulk_result(paths.drop_last(), lookups.drop_last()), paths.last(), lookups.last())
    }
}

/// The paths as contracts speak of them.
pub open spec fn path_texts(paths: Seq<String>) -> Seq<Seq<char>> {
    paths.map_values(|path: String| path@)
}

/// Whether a collected map, or the failure in its place, is the given outcome.
pub open spec fn is_bulk_result(
    r: Result<HistoryMap, HistoryError>,
    outcome: Result<Map<Seq<char>, Vec<Commit>>, HistoryError>,
) -> bool {
    match (r, outcome) {
        (Ok(found), Ok(expected)) => found@ == expected,
        (Err(e), Err(expected)) => e == expected,
        _ => false,
    }
}

/// Enters the outcome of one lookup into the map collected so far. After a
/// failure the map is as it was, and the failure is handed back as it came.
pub fn record_lookup(found: &mut HistoryMap, path: String, lookup: Lookup) -> (r: Result<
    (),
    HistoryError,
>)
    ensures
        match lookup {
            Ok(history) => r is Ok && final(found)@ == old(found)@.insert(path@, history),
            Err(e) => r == Err::<(), HistoryError>(e) && final(found)@ == old(found)@,
        },
{
    match lookup {
        Ok(history) => {
            found.insert(path, history);
            Ok(())
        },
        Err(e) => Err(e),
    }
}

/// A failure among the first lookups is the outcome of the whole, whatever
/// the later lookups would have given.
pub proof fn lemma_bulk_failure_stays(paths: Seq<Seq<char>>, lookups: Seq<Lookup>, upto: int)
    requires
        paths.len() == lookups.len(),
        0 <= upto <= paths.len(),
        bulk_result(paths.take(upto), lookups.take(upto)) is Err,
    ensures
        bulk_result(paths, lookups) == bulk_result(paths.take(upto), lookups.take(upto)),
    decreases paths.len(),
{
    if upto == paths.len() {
        assert(paths.take(upto) =~= paths);
        assert(lookups.take(upto) =~= lookups);
    } else {
        assert(paths.drop_last().take(upto) =~= paths.take(upto));
        assert(lookups.drop_last().take(upto) =~= lookups.take(upto));
        lemma_bulk_failure_stays(paths.drop_last(), lookups.drop_last(), upto);
    }
}

/// Where every lookup succeeds, the collected map has an entry for each of
/// the paths and for nothing else, and a path leads to the history that its
/// last lookup gave.
pub proof fn lemma_bulk_all_found(paths: Seq<Seq<char>>, lookups: Seq<Lookup>)
    requires
        paths.len() == lookups.len(),
        forall|i: int| 0 <= i < lookups.len() ==> lookups[i] is Ok,
    ensures
        bulk_result(paths, lookups) matches Ok(found) && {
            &&& forall|path: Seq<char>| found.contains_key(path) <==> paths.contains(path)
            &&& forall|i: int|
                0 <= i < paths.len() && (forall|j: int| i < j < paths.len() ==> paths[j]
                    != paths[i]) ==> found[#[trigger] paths[i]] == lookups[i]->Ok_0
        },
    decreases paths.len(),
{
    if paths.len() > 0 {
        let front = paths.drop_last();
        lemma_bulk_all_found(front, lookups.drop_last());
        let found = bulk_result(paths, lookups)->Ok_0;
        assert forall|path: Seq<char>| found.contains_key(path) <==> paths.contains(path) by {
            if paths.contains(path) {
                let i = choose|i: int| 0 <= i < paths.len() && paths[i] == path;
                if i < front.len() {
                    assert(front[i] == path);
                }
            }
            if front.contains(path) {
                let i = choose|i: int| 0 <= i < front.len() && front[i] == path;
                assert(paths[i] == path);
            }
            if path == paths.last() {
                assert(paths[paths.len() - 1] == path);
            }
        }
        assert forall|i: int|
            0 <= i < paths.len() && (forall|j: int| i < j < paths.len() ==> paths[j]
                != paths[i]) implies found[#[trigger] paths[i]] == lookups[i]->Ok_0 by {
            if i < front.len() {
                assert(front[i] == paths[i]);
            }
        }
    }
}

/// The first lookup that fails decides the outcome: it is that failure, and
/// no map.
pub proof fn lemma_bulk_first_failure(paths: Seq<Seq<char>>, lookups: Seq<Lookup>, at: int)
    requires
        paths.len() == lookups.len(),
        0 <= at < lookups.len(),
        lookups[at] is Err,
        forall|i: int| 0 <= i < at ==> lookups[i] is Ok,
    ensures
        bulk_result(paths, lookups) == Err::<Map<Seq<char>, Vec<Commit>>, HistoryError>(
            lookups[at]->Err_0,
        ),
{
    let upto = paths.take(at + 1);
    let seen = lookups.take(at + 1);
    assert(upto.drop_last() =~= paths.take(at));
    assert(seen.drop_last() =~= lookups.take(at));
    lemma_bulk_all_found(paths.take(at), lookups.take(at));
    lemma_bulk_failure_stays(paths, lookups, at + 1);
}

/// Two different paths whose lookups both succeed give a map of exactly two
/// entries, each path with the history that its own lookup gave.
pub proof fn lemma_bulk_of_two_found(
    a: Seq<char>,
    b: Seq<char>,
    history_a: Vec<Commit>,
    history_b: Vec<Commit>,
)
    requires
        a != b,
    ensures
        bulk_result(seq![a, b], seq![Ok(history_a), Ok(history_b)]) matches Ok(found) && {
            &&& found.dom() == set![a, b]
            &&& found.len() == 2
            &&& found[a] == history_a
            &&& found[b] == history_b
        },
{
    let paths = seq![a, b];
    let lookups = seq![Ok::<Vec<Commit>, HistoryError>(history_a), Ok(history_b)];
    lemma_bulk_all_found(paths, lookups);
    let found = bulk_result(paths, lookups)->Ok_0;
    assert forall|path: Seq<char>| found.dom().contains(path) <==> set![a, b].contains(path) by {
        if path == a {
            assert(paths[0] == path);
        }
        if path == b {
            assert(paths[1] == path);
        }
        if paths.contains(path) {
            let i = choose|i: int| 0 <= i < paths.len() && paths[i] == path;
            assert(i == 0 || i == 1);
        }
    }
    assert(found.dom() =~= set![a, b]);
}

/// Where the second of two lookups fails, the call fails with that failure:
/// what the first lookup found is not handed out.
pub proof fn lemma_bulk_of_two_failing(
    a: Seq<char>,
    b: Seq<char>,
    history_a: Vec<Commit>,
    failure: HistoryError,
)
    ensures
        bulk_result(seq![a, b], seq![Ok(history_a), Err(failure)]) == Err::<
            Map<Seq<char>, Vec<Commit>>,
            HistoryError,
        >(failure),
{
    let lookups = seq![Ok::<Vec<Commit>, HistoryError>(history_a), Err(failure)];
    lemma_bulk_first_failure(seq![a, b], lookups, 1);
}

/// Retrieval of file histories from a repository.
///
/// An implementation supplies `call_git`, which runs the tool. What to ask it
/// and how to read its answer is decided here.
pub trait GitFileHistory {
    /// What names a repository to the implementation: the path of its root,
    /// in whatever form the implementation runs processes with.
    type Root;

    /// Runs git with the given arguments, with the root of the repository
    /// as working directory, and hands out the bytes that it printed on
    /// standard output.
    fn call_git(git_path: &Self::Root, args: &Vec<String>) -> Result<Vec<u8>, HistoryError>;

    /// The commits that touched `file_path` in the repository at `git_path`,
    /// in the order in which the log printed them: newest first. A file
    /// without history gives an empty list, not a failure.
    ///
    /// Git is run once, with the arguments of the log query for the file, and
    /// the lookup is the reading of what that run printed.
    fn history(git_path: &Self::Root, file_path: &str) -> (r: Lookup)
        ensures
            exists|args: Vec<String>, run: Result<Vec<u8>, HistoryError>|
                is_log_query(args@, file_path@) && #[trigger] call_ensures(
                    Self::call_git,
                    (git_path, &args),
                    run,
                ) && is_lookup_of_run(r, run),
    {
        let args = Git::log_args(file_path);
        let run = Self::call_git(git_path, &args);
        Git::lookup_of_run(run)
    }

    /// The histories of several files, by path. The paths are looked up in
    /// order, each with `history` in the repository at `git_path`. The first
    /// lookup that fails ends the call with its failure, and nothing of what
    /// was found before is handed out. Of a path that is given twice the later
    /// lookup counts.
    ///
    /// In the contract `asked` and `lookups` stand for what was handed to
    /// `history` and what it gave, path by path, up to the first failure.
    fn history_bulk(git_path: &Self::Root, file_paths: Vec<String>) -> (r: Result<
        HistoryMap,
        HistoryError,
    >)
        ensures
            exists|asked: Seq<&str>, lookups: Seq<Lookup>|
                #![trigger asked.len(), bulk_result(path_texts(file_paths@), lookups)]
                {
                    &&& asked.len() == file_paths@.len()
                    &&& lookups.len() == file_paths@.len()
                    &&& is_bulk_result(r, bulk_result(path_texts(file_paths@), lookups))
                    &&& forall|i: int|
                        0 <= i < lookups.len() && (forall|j: int|
                            0 <= j < i ==> (#[trigger] lookups[j]) is Ok)
                            ==> asked[i]@ == file_paths@[i]@
                            && call_ensures(
                                Self::history,
                                (git_path, #[trigger] asked[i]),
                                lookups[i],
                            )
                },
            r matches Ok(found) ==> forall|path: Seq<char>|
                found@.contains_key(path) <==> path_texts(file_paths@).contains(path),
    {
        let mut found: HistoryMap = StringHashMap::new();
        let ghost paths = path_texts(file_paths@);
        let ghost asked: Seq<&str> = Seq::empty();
        let ghost seen: Seq<Lookup> = Seq::empty();
        let mut at: usize = 0;
        while at < file_paths.len()
            invariant
                at <= file_paths@.len(),
                paths == path_texts(file_paths@),
                asked.len() == at,
                seen.len() == at,
                forall|i: int| 0 <= i < seen.len() ==> (#[trigger] seen[i]) is Ok,
                forall|i: int|
                    0 <= i < seen.len() ==> asked[i]@ == file_paths@[i]@ && call_ensures(
                        Self::history,
                        (git_path, #[trigger] asked[i]),
                        seen[i],
                    ),
                bulk_result(paths.take(at as int), seen) == Ok::<
                    Map<Seq<char>, Vec<Commit>>,
                    HistoryError,
                >(found@),
            decreases file_paths@.len() - at,
        {
            let path = file_paths[at].clone();
            let file_path: &str = path.as_str();
            let lookup = Self::history(git_path, file_path);
            proof {
                assert(paths.take(at + 1).drop_last() =~= paths.take(at as int));
                assert(seen.push(lookup).drop_last() =~= seen);
                asked = asked.push(file_path);
                seen = seen.push(lookup);
            }
            match record_lookup(&mut found, path, lookup) {
                Ok(()) => {},
                Err(e) => {
                    proof {
                        let rest = (file_paths@.len() - at - 1) as nat;
                        let all = seen + Seq::new(rest, |i: int| Err::<Vec<Commit>, HistoryError>(e));
                        let all_asked = asked + Seq::new(rest, |i: int| file_path);
                        assert(all.take(at + 1) =~= seen);
                        lemma_bulk_failure_stays(paths, all, at + 1);
                        assert(all_asked.len() == file_paths@.len());
                    }
                    return Err(e);
                },
            }
            at = at + 1;
        }
        proof {
            assert(paths.take(at as int) =~= paths);
            lemma_bulk_all_found(paths, seen);
        }
        Ok(found)
    }
}

} // verus!
