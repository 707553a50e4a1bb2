use std::cell::RefCell;

use conmon::child_reaper::{ChildReaper, ReapableChild};
use conmon::signal::signal_result;
use nix::sys::signal::Signal;

fn record(pid: i32) -> ReapableChild {
    ReapableChild { exit_paths: Vec::new(), pid, bundle_path: String::new() }
}

#[test]
fn for_each_visits_every_record_once() {
    let mut reaper = ChildReaper::new();
    reaper.insert("a".to_string(), record(1));
    reaper.insert("a".to_string(), record(2));
    reaper.insert("b".to_string(), record(3));
    reaper.insert("c".to_string(), record(4));
    let seen = RefCell::new(Vec::new());
    let refused = reaper.for_each(|r| {
        seen.borrow_mut().push(r.pid);
        true
    });
    assert!(refused.is_empty());
    let mut seen = seen.into_inner();
    // under one identifier the older record comes first
    let one = seen.iter().position(|p| *p == 1).unwrap();
    let two = seen.iter().position(|p| *p == 2).unwrap();
    assert!(one < two);
    seen.sort();
    assert_eq!(seen, vec![1, 2, 3, 4]);
}

#[test]
fn for_each_reports_the_refused_and_goes_on() {
    let mut reaper = ChildReaper::new();
    for pid in 1..=6 {
        reaper.insert(format!("c{}", pid), record(pid));
    }
    let calls = RefCell::new(0);
    let mut refused = reaper.for_each(|r| {
        *calls.borrow_mut() += 1;
        r.pid % 2 == 0
    });
    assert_eq!(calls.into_inner(), 6);
    refused.sort();
    assert_eq!(refused, vec![1, 3, 5]);
}

#[test]
fn for_each_on_an_empty_registry_calls_nothing() {
    let reaper = ChildReaper::new();
    let calls = RefCell::new(0);
    let refused = reaper.for_each(|_| {
        *calls.borrow_mut() += 1;
        false
    });
    assert!(refused.is_empty());
    assert_eq!(calls.into_inner(), 0);
}

#[test]
fn signal_result_is_ok_without_failures() {
    assert!(signal_result(Vec::new()).is_ok());
}

#[test]
fn signal_result_gathers_the_failures() {
    let e = signal_result(vec![5, 3, 5]).unwrap_err();
    assert_eq!(e.failed, vec![5, 3, 5]);
}

#[test]
fn kill_of_nobody_succeeds() {
    let reaper = ChildReaper::new();
    assert!(reaper.kill_grandchildren(Signal::SIGTERM).is_ok());
}

#[test]
fn kill_reports_processes_that_do_not_exist() {
    // no process has this id: process ids stay far below it
    let gone = i32::MAX;
    let mut reaper = ChildReaper::new();
    reaper.insert("gone".to_string(), record(gone));
    let e = reaper.kill_grandchildren(Signal::SIGCONT).unwrap_err();
    assert_eq!(e.failed, vec![gone]);
    // the registry is as it was
    assert!(reaper.is_tracked("gone".to_string()));
}

#[test]
fn kill_goes_on_after_a_failure() {
    let gone = i32::MAX;
    let me = nix::unistd::getpid().as_raw();
    let mut reaper = ChildReaper::new();
    reaper.insert("a".to_string(), record(gone));
    reaper.insert("b".to_string(), record(me));
    reaper.insert("c".to_string(), record(gone - 1));
    // SIGCONT does nothing to a process that runs
    let mut failed = reaper.kill_grandchildren(Signal::SIGCONT).unwrap_err().failed;
    failed.sort();
    assert_eq!(failed, vec![gone - 1, gone]);
}

#[test]
fn kill_of_a_live_process_succeeds() {
    let me = nix::unistd::getpid().as_raw();
    let mut reaper = ChildReaper::new();
    reaper.insert("me".to_string(), record(me));
    assert!(reaper.kill_grandchildren(Signal::SIGCONT).is_ok());
}
