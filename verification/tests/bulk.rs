use std::sync::atomic::{AtomicUsize, Ordering};
use std::sync::Mutex;

use git_history::error::HistoryError;
use git_history::history::{record_lookup, Commit, GitFileHistory, HistoryMap};
use git_history::timestamp::Timestamp;

fn commit(msg: &str) -> Commit {
    Commit {
        author: "a".to_owned(),
        date: Timestamp { seconds: 1, nanos: 0, offset_seconds: 0 },
        msg: msg.to_owned(),
        hash: "h".to_owned(),
    }
}

fn subjects(history: &Vec<Commit>) -> Vec<&str> {
    history.iter().map(|c| c.msg.as_str()).collect()
}

fn log_of(subjects: &[&str]) -> Vec<u8> {
    let mut text = String::new();
    for subject in subjects {
        text.push_str(&format!(
            "{{\"date\":\"2017-10-21T15:00:33+08:00\",\"author\":\"a\",\"msg\":\"{}\",\"hash\":\"h\"}}\n",
            subject
        ));
    }
    text.into_bytes()
}

fn repo() -> String {
    "repo".to_owned()
}

/// A repository of three files: `a` with two commits, `b` with one, `empty`
/// with none. For any other path git cannot be run.
struct Fixed;

impl GitFileHistory for Fixed {
    type Root = String;

    fn call_git(_git_path: &String, args: &Vec<String>) -> Result<Vec<u8>, HistoryError> {
        match args[4].as_str() {
            "a" => Ok(log_of(&["a2", "a1"])),
            "b" => Ok(log_of(&["b1"])),
            "empty" => Ok(Vec::new()),
            other => Err(HistoryError::ProcessInvocationFailed(format!("no {}", other))),
        }
    }
}

static CALLS: AtomicUsize = AtomicUsize::new(0);

/// Answers each run with one commit that is numbered by the run.
struct Counting;

impl GitFileHistory for Counting {
    type Root = String;

    fn call_git(_git_path: &String, _args: &Vec<String>) -> Result<Vec<u8>, HistoryError> {
        let n = CALLS.fetch_add(1, Ordering::SeqCst);
        Ok(log_of(&[&format!("call {}", n)]))
    }
}

static TRIED: AtomicUsize = AtomicUsize::new(0);

/// Prints a line that is no record for every file and counts the runs.
struct Failing;

impl GitFileHistory for Failing {
    type Root = String;

    fn call_git(_git_path: &String, _args: &Vec<String>) -> Result<Vec<u8>, HistoryError> {
        TRIED.fetch_add(1, Ordering::SeqCst);
        Ok(b"fatal: bad revision\n".to_vec())
    }
}

static ASKED: Mutex<Vec<(String, Vec<String>)>> = Mutex::new(Vec::new());

/// Notes what it is asked and prints nothing.
struct Noting;

impl GitFileHistory for Noting {
    type Root = String;

    fn call_git(git_path: &String, args: &Vec<String>) -> Result<Vec<u8>, HistoryError> {
        ASKED.lock().unwrap().push((git_path.clone(), args.clone()));
        Ok(Vec::new())
    }
}

#[test]
fn bulk_of_two_paths_has_exactly_their_histories() {
    let found = Fixed::history_bulk(&repo(), vec!["a".to_owned(), "b".to_owned()]).unwrap();
    assert_eq!(found.len(), 2);
    assert_eq!(subjects(found.get("a").unwrap()), subjects(&Fixed::history(&repo(), "a").unwrap()));
    assert_eq!(subjects(found.get("b").unwrap()), subjects(&Fixed::history(&repo(), "b").unwrap()));
    assert_eq!(subjects(found.get("a").unwrap()), vec!["a2", "a1"]);
    assert_eq!(subjects(found.get("b").unwrap()), vec!["b1"]);
    assert!(found.get("empty").is_none());
}

#[test]
fn bulk_of_one_path() {
    let found = Fixed::history_bulk(&repo(), vec!["a".to_owned()]).unwrap();
    assert_eq!(found.len(), 1);
    assert_eq!(subjects(found.get("a").unwrap()), vec!["a2", "a1"]);
}

#[test]
fn bulk_of_no_paths_is_an_empty_map() {
    let found = Fixed::history_bulk(&repo(), Vec::new()).unwrap();
    assert_eq!(found.len(), 0);
    assert!(found.is_empty());
}

#[test]
fn bulk_enters_a_file_without_history_with_an_empty_list() {
    let found = Fixed::history_bulk(&repo(), vec!["a".to_owned(), "empty".to_owned()]).unwrap();
    assert_eq!(found.len(), 2);
    assert!(found.get("empty").unwrap().is_empty());
    assert_eq!(found.get("a").unwrap().len(), 2);
}

#[test]
fn bulk_fails_as_a_whole_when_a_lookup_fails() {
    let e = match Fixed::history_bulk(&repo(), vec!["a".to_owned(), "missing".to_owned()]) {
        Err(e) => e,
        Ok(found) => panic!("got a map of {} entries", found.len()),
    };
    assert!(matches!(&e, HistoryError::ProcessInvocationFailed(text) if text == "no missing"));
    let e = match Fixed::history_bulk(&repo(), vec!["missing".to_owned(), "a".to_owned()]) {
        Err(e) => e,
        Ok(found) => panic!("got a map of {} entries", found.len()),
    };
    assert!(matches!(&e, HistoryError::ProcessInvocationFailed(text) if text == "no missing"));
}

#[test]
fn bulk_stops_at_the_first_failure() {
    let paths = vec!["x".to_owned(), "y".to_owned(), "z".to_owned()];
    let e = match Failing::history_bulk(&repo(), paths) {
        Err(e) => e,
        Ok(found) => panic!("got a map of {} entries", found.len()),
    };
    assert!(matches!(&e, HistoryError::ParseFailed(text) if text == "parse from json fail"));
    assert_eq!(TRIED.load(Ordering::SeqCst), 1);
}

#[test]
fn bulk_keeps_the_later_lookup_of_a_path_given_twice() {
    let paths = vec!["p".to_owned(), "q".to_owned(), "p".to_owned()];
    let found = Counting::history_bulk(&repo(), paths).unwrap();
    assert_eq!(found.len(), 2);
    assert_eq!(subjects(found.get("p").unwrap()), vec!["call 2"]);
    assert_eq!(subjects(found.get("q").unwrap()), vec!["call 1"]);
}

#[test]
fn record_lookup_enters_a_history_and_hands_a_failure_back() {
    let mut found: HistoryMap = HistoryMap::new();
    assert!(record_lookup(&mut found, "a".to_owned(), Ok(vec![commit("one")])).is_ok());
    assert_eq!(found.len(), 1);
    assert_eq!(subjects(found.get("a").unwrap()), vec!["one"]);
    assert!(record_lookup(&mut found, "a".to_owned(), Ok(vec![commit("two"), commit("three")])).is_ok());
    assert_eq!(found.len(), 1);
    assert_eq!(subjects(found.get("a").unwrap()), vec!["two", "three"]);
    let e = record_lookup(&mut found, "b".to_owned(), Err(HistoryError::NoHistory("n".to_owned())))
        .unwrap_err();
    assert!(matches!(&e, HistoryError::NoHistory(text) if text == "n"));
    assert_eq!(found.len(), 1);
    assert!(found.get("b").is_none());
    assert!(record_lookup(&mut found, "b".to_owned(), Ok(Vec::new())).is_ok());
    assert_eq!(found.len(), 2);
}

#[test]
fn lookups_run_the_log_query_for_each_path_in_its_repository() {
    let found = Noting::history_bulk(&"some/root".to_owned(), vec!["x.md".to_owned(), "dir/y z".to_owned()])
        .unwrap();
    assert_eq!(found.len(), 2);
    let asked = ASKED.lock().unwrap().clone();
    assert_eq!(asked.len(), 2);
    for (n, path) in ["x.md", "dir/y z"].iter().enumerate() {
        assert_eq!(asked[n].0, "some/root");
        assert_eq!(
            asked[n].1,
            vec![
                "log",
                "--follow",
                "--date-order",
                "--pretty={\"date\":\"%cI\",\"author\":\"%an\",\"msg\":\"%s\",\"hash\":\"%H\"}",
                path,
            ]
        );
    }
}
