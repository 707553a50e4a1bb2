use std::cell::RefCell;

use conmon::child_reaper::ReapableChild;
use conmon::exit_paths::{exit_code_text, exit_writes, write_to_exit_paths, PublishError};
use conmon::watch::{Completion, WaitOutcome};

fn paths(names: &[&str]) -> Vec<String> {
    names.iter().map(|p| p.to_string()).collect()
}

#[test]
fn exit_code_text_is_the_decimal_text() {
    assert_eq!(exit_code_text(0), "0");
    assert_eq!(exit_code_text(7), "7");
    assert_eq!(exit_code_text(9), "9");
    assert_eq!(exit_code_text(10), "10");
    assert_eq!(exit_code_text(137), "137");
    assert_eq!(exit_code_text(255), "255");
    assert_eq!(exit_code_text(1000), "1000");
    assert_eq!(exit_code_text(-1), "-1");
    assert_eq!(exit_code_text(-10), "-10");
    assert_eq!(exit_code_text(i32::MAX), "2147483647");
    assert_eq!(exit_code_text(i32::MIN), "-2147483648");
}

#[test]
fn exit_code_text_agrees_with_the_standard_formatting() {
    let mut code: i32 = -70000;
    while code < 70000 {
        assert_eq!(exit_code_text(code), format!("{}", code));
        code += 37;
    }
    for code in -300..300 {
        assert_eq!(exit_code_text(code), format!("{}", code));
    }
}

#[test]
fn exit_writes_has_one_write_for_each_path() {
    let writes = exit_writes(137, &paths(&["/a", "/b", "/a"]));
    let writes: Vec<(String, String)> = writes.into_iter().map(|w| (w.path, w.content)).collect();
    assert_eq!(
        writes,
        vec![
            ("/a".to_string(), "137".to_string()),
            ("/b".to_string(), "137".to_string()),
            ("/a".to_string(), "137".to_string()),
        ]
    );
    assert!(exit_writes(137, &Vec::new()).is_empty());
}

#[test]
fn every_path_receives_the_exact_text_once() {
    let log = RefCell::new(Vec::new());
    let r = write_to_exit_paths(42, &paths(&["/a", "/b", "/c"]), |p, t| {
        log.borrow_mut().push((p.clone(), t.clone()));
        true
    });
    assert_eq!(r, Ok(()));
    assert_eq!(
        log.into_inner(),
        vec![
            ("/a".to_string(), "42".to_string()),
            ("/b".to_string(), "42".to_string()),
            ("/c".to_string(), "42".to_string()),
        ]
    );
}

#[test]
fn no_paths_means_no_write() {
    let calls = RefCell::new(0);
    let r = write_to_exit_paths(1, &Vec::new(), |_, _| {
        *calls.borrow_mut() += 1;
        false
    });
    assert_eq!(r, Ok(()));
    assert_eq!(calls.into_inner(), 0);
}

#[test]
fn a_failed_write_aborts_the_rest() {
    let log = RefCell::new(Vec::new());
    let r = write_to_exit_paths(-3, &paths(&["/a", "/bad", "/c", "/d"]), |p, t| {
        log.borrow_mut().push((p.clone(), t.clone()));
        p != "/bad"
    });
    assert_eq!(r, Err(PublishError { index: 1 }));
    assert_eq!(
        log.into_inner(),
        vec![("/a".to_string(), "-3".to_string()), ("/bad".to_string(), "-3".to_string())]
    );
}

#[test]
fn a_path_listed_twice_is_written_twice_with_the_same_text() {
    let log = RefCell::new(Vec::new());
    let r = write_to_exit_paths(0, &paths(&["/a", "/a"]), |p, t| {
        log.borrow_mut().push((p.clone(), t.clone()));
        true
    });
    assert_eq!(r, Ok(()));
    assert_eq!(
        log.into_inner(),
        vec![("/a".to_string(), "0".to_string()), ("/a".to_string(), "0".to_string())]
    );
}

fn watcher(pid: i32, names: &[&str]) -> ReapableChild {
    ReapableChild { exit_paths: paths(names), pid, bundle_path: "/bundle".to_string() }
}

#[test]
fn normal_exit_publishes_the_code() {
    let log = RefCell::new(Vec::new());
    let done = watcher(1, &["/x", "/y"]).reap(WaitOutcome::Exited(3), |p, t| {
        log.borrow_mut().push((p.clone(), t.clone()));
        true
    });
    assert_eq!(done, Completion::Published { code: 3 });
    assert!(!done.is_failure());
    assert_eq!(
        log.into_inner(),
        vec![("/x".to_string(), "3".to_string()), ("/y".to_string(), "3".to_string())]
    );
}

#[test]
fn publish_failure_names_the_path() {
    let done = watcher(1, &["/x", "/y", "/z"]).reap(WaitOutcome::Exited(0), |p, _| p == "/x");
    assert_eq!(done, Completion::PublishFailure { code: 0, index: 1 });
    assert!(done.is_failure());
}

#[test]
fn benign_race_writes_nothing() {
    let calls = RefCell::new(0);
    let done = watcher(1, &["/x"]).reap(WaitOutcome::NoSuchChild, |_, _| {
        *calls.borrow_mut() += 1;
        true
    });
    assert_eq!(done, Completion::BenignRace);
    assert!(!done.is_failure());
    assert_eq!(calls.into_inner(), 0);
}

#[test]
fn kill_by_a_signal_writes_nothing() {
    let calls = RefCell::new(0);
    let done = watcher(1, &["/x"]).reap(WaitOutcome::Signaled(9), |_, _| {
        *calls.borrow_mut() += 1;
        true
    });
    assert_eq!(done, Completion::NoExitCode);
    assert!(!done.is_failure());
    assert_eq!(calls.into_inner(), 0);
}

#[test]
fn any_other_status_writes_nothing() {
    let calls = RefCell::new(0);
    let done = watcher(1, &["/x"]).reap(WaitOutcome::Other, |_, _| {
        *calls.borrow_mut() += 1;
        true
    });
    assert_eq!(done, Completion::NoExitCode);
    assert!(!done.is_failure());
    assert_eq!(calls.into_inner(), 0);
}

#[test]
fn wait_failure_writes_nothing_and_is_reported() {
    let calls = RefCell::new(0);
    let done = watcher(1, &["/x"]).reap(WaitOutcome::Failed(4), |_, _| {
        *calls.borrow_mut() += 1;
        true
    });
    assert_eq!(done, Completion::WaitFailure { errno: 4 });
    assert!(done.is_failure());
    assert_eq!(calls.into_inner(), 0);
}

#[test]
fn two_processes_publish_their_own_codes_to_their_own_paths() {
    let log = RefCell::new(Vec::new());
    let write = |p: &String, t: &String| {
        log.borrow_mut().push((p.clone(), t.clone()));
        true
    };
    let one = watcher(1, &["/one/a", "/one/b"]);
    let two = watcher(2, &["/two/a"]);
    assert_eq!(two.reap(WaitOutcome::Exited(22), &write), Completion::Published { code: 22 });
    assert_eq!(one.reap(WaitOutcome::Exited(11), &write), Completion::Published { code: 11 });
    let log = log.into_inner();
    for (path, text) in &log {
        if path.starts_with("/one/") {
            assert_eq!(text, "11");
        } else {
            assert_eq!(text, "22");
        }
    }
    assert_eq!(log.len(), 3);
}

#[test]
fn watch_of_a_process_that_is_no_child_is_a_benign_race() {
    // no process has this id, so the wait finds no such child
    let calls = RefCell::new(0);
    let done = watcher(i32::MAX, &["/x"]).watch(|_, _| {
        *calls.borrow_mut() += 1;
        true
    });
    assert_eq!(done, Completion::BenignRace);
    assert_eq!(calls.into_inner(), 0);
}
