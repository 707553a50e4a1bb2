use conmon::child::Child;
use conmon::child_reaper::{ChildReaper, Error, ReapableChild};

fn record(pid: i32, paths: &[&str], bundle: &str) -> ReapableChild {
    ReapableChild {
        exit_paths: paths.iter().map(|p| p.to_string()).collect(),
        pid,
        bundle_path: bundle.to_string(),
    }
}

fn child(id: &str, pid: i32, paths: &[&str]) -> Child {
    Child::new(
        id.to_string(),
        format!("/bundles/{}", id),
        pid,
        paths.iter().map(|p| p.to_string()).collect(),
    )
}

#[test]
fn child_new_keeps_every_field() {
    let c = Child::new(
        "ctr".to_string(),
        "/run/bundle".to_string(),
        4242,
        vec!["/run/exit/a".to_string(), "/run/exit/b".to_string()],
    );
    assert_eq!(c.id, "ctr");
    assert_eq!(c.bundle_path, "/run/bundle");
    assert_eq!(c.pid, 4242);
    assert_eq!(c.exit_paths, vec!["/run/exit/a".to_string(), "/run/exit/b".to_string()]);
}

#[test]
fn from_child_copies_pid_paths_and_bundle() {
    let c = child("ctr", 17, &["/a", "/b"]);
    let r = ReapableChild::from_child(&c);
    assert_eq!(r.pid, 17);
    assert_eq!(r.exit_paths, vec!["/a".to_string(), "/b".to_string()]);
    assert_eq!(r.bundle_path, "/bundles/ctr");
    assert_eq!(c.exit_paths, r.exit_paths);
}

#[test]
fn clone_of_a_record_is_equal_field_by_field() {
    let r = record(5, &["/x"], "/b");
    let c = r.clone();
    assert_eq!(c.pid, 5);
    assert_eq!(c.exit_paths, vec!["/x".to_string()]);
    assert_eq!(c.bundle_path, "/b");
}

#[test]
fn is_other_than_compares_the_pid() {
    let r = record(5, &[], "");
    assert!(!r.is_other_than(5));
    assert!(r.is_other_than(6));
    assert!(r.is_other_than(-5));
}

#[test]
fn new_registry_tracks_nothing() {
    let reaper = ChildReaper::new();
    assert!(!reaper.is_tracked("a".to_string()));
    assert!(!reaper.is_tracked(String::new()));
    assert_eq!(reaper.get("a".to_string()).err(), Some(Error::NotFound));
    let reaper = ChildReaper::default();
    assert!(!reaper.is_tracked("a".to_string()));
}

#[test]
fn tracked_immediately_after_insert() {
    let mut reaper = ChildReaper::new();
    assert!(!reaper.is_tracked("a".to_string()));
    reaper.insert("a".to_string(), record(1, &["/p"], "/b"));
    assert!(reaper.is_tracked("a".to_string()));
    assert!(!reaper.is_tracked("b".to_string()));
    assert!(!reaper.is_tracked("A".to_string()));
}

#[test]
fn tracked_immediately_after_watch() {
    let mut reaper = ChildReaper::new();
    assert!(!reaper.is_tracked("ctr".to_string()));
    let watcher = reaper.watch_grandchild(child("ctr", 33, &["/e1", "/e2"]));
    assert!(reaper.is_tracked("ctr".to_string()));
    assert_eq!(watcher.pid, 33);
    assert_eq!(watcher.exit_paths, vec!["/e1".to_string(), "/e2".to_string()]);
    assert_eq!(watcher.bundle_path, "/bundles/ctr");
    let held = reaper.get("ctr".to_string()).unwrap();
    assert_eq!(held.pid, 33);
    assert_eq!(held.exit_paths, watcher.exit_paths);
    assert_eq!(held.bundle_path, watcher.bundle_path);
}

#[test]
fn watch_under_a_tracked_identifier_keeps_the_oldest_in_front() {
    let mut reaper = ChildReaper::new();
    reaper.watch_grandchild(child("ctr", 1, &["/first"]));
    let watcher = reaper.watch_grandchild(child("ctr", 2, &["/second"]));
    assert_eq!(watcher.pid, 2);
    assert_eq!(reaper.get("ctr".to_string()).unwrap().pid, 1);
    reaper.forget_grandchild(1);
    let held = reaper.get("ctr".to_string()).unwrap();
    assert_eq!(held.pid, 2);
    assert_eq!(held.exit_paths, vec!["/second".to_string()]);
}

#[test]
fn get_returns_a_copy_of_the_oldest_record() {
    let mut reaper = ChildReaper::new();
    reaper.insert("a".to_string(), record(1, &["/one"], "/b1"));
    reaper.insert("a".to_string(), record(2, &["/two"], "/b2"));
    reaper.insert("b".to_string(), record(3, &["/three"], "/b3"));
    let first = reaper.get("a".to_string()).unwrap();
    assert_eq!(first.pid, 1);
    assert_eq!(first.exit_paths, vec!["/one".to_string()]);
    assert_eq!(first.bundle_path, "/b1");
    assert_eq!(reaper.get("b".to_string()).unwrap().pid, 3);
    // looking up changes nothing
    assert_eq!(reaper.get("a".to_string()).unwrap().pid, 1);
}

#[test]
fn get_of_an_unknown_identifier_is_not_found() {
    let mut reaper = ChildReaper::new();
    reaper.insert("a".to_string(), record(1, &[], ""));
    assert_eq!(reaper.get("b".to_string()).err(), Some(Error::NotFound));
    assert_eq!(reaper.get("".to_string()).err(), Some(Error::NotFound));
}

#[test]
fn insert_never_overwrites() {
    let mut reaper = ChildReaper::new();
    reaper.insert("a".to_string(), record(1, &[], ""));
    reaper.insert("a".to_string(), record(2, &[], ""));
    // the older record is still the one found
    assert_eq!(reaper.get("a".to_string()).unwrap().pid, 1);
    // and the younger one is found once the older is gone
    reaper.forget_grandchild(1);
    assert_eq!(reaper.get("a".to_string()).unwrap().pid, 2);
}

#[test]
fn forget_removes_every_record_of_the_pid() {
    let mut reaper = ChildReaper::new();
    reaper.insert("a".to_string(), record(7, &[], ""));
    reaper.insert("b".to_string(), record(7, &[], ""));
    reaper.insert("b".to_string(), record(8, &[], ""));
    reaper.insert("c".to_string(), record(9, &[], ""));
    reaper.forget_grandchild(7);
    assert!(!reaper.is_tracked("a".to_string()));
    assert_eq!(reaper.get("a".to_string()).err(), Some(Error::NotFound));
    assert_eq!(reaper.get("b".to_string()).unwrap().pid, 8);
    assert_eq!(reaper.get("c".to_string()).unwrap().pid, 9);
}

#[test]
fn forget_keeps_the_records_of_other_processes() {
    let mut reaper = ChildReaper::new();
    reaper.insert("a".to_string(), record(1, &["/a1"], "/ba"));
    reaper.insert("b".to_string(), record(2, &["/b1"], "/bb"));
    reaper.forget_grandchild(1);
    let b = reaper.get("b".to_string()).unwrap();
    assert_eq!(b.pid, 2);
    assert_eq!(b.exit_paths, vec!["/b1".to_string()]);
    assert_eq!(b.bundle_path, "/bb");
}

#[test]
fn forget_of_an_untracked_pid_changes_nothing() {
    let mut reaper = ChildReaper::new();
    reaper.insert("a".to_string(), record(1, &[], ""));
    reaper.forget_grandchild(2);
    assert!(reaper.is_tracked("a".to_string()));
    reaper.forget_grandchild(1);
    reaper.forget_grandchild(1);
    assert!(!reaper.is_tracked("a".to_string()));
}

#[test]
fn watched_then_forgotten_is_not_found() {
    let mut reaper = ChildReaper::new();
    let watcher = reaper.watch_grandchild(child("ctr", 100, &["/e"]));
    assert!(reaper.get("ctr".to_string()).is_ok());
    reaper.forget_grandchild(watcher.pid);
    assert_eq!(reaper.get("ctr".to_string()).err(), Some(Error::NotFound));
    assert!(!reaper.is_tracked("ctr".to_string()));
}

#[test]
fn registry_drains_as_processes_finish() {
    let mut reaper = ChildReaper::new();
    let ids = ["a", "b", "c", "d"];
    for (i, id) in ids.iter().enumerate() {
        reaper.watch_grandchild(child(id, 10 + i as i32, &[]));
    }
    let count = |r: &ChildReaper| ids.iter().filter(|id| r.is_tracked(id.to_string())).count();
    assert_eq!(count(&reaper), 4);
    reaper.forget_grandchild(12);
    assert_eq!(count(&reaper), 3);
    reaper.forget_grandchild(10);
    assert_eq!(count(&reaper), 2);
    reaper.forget_grandchild(13);
    assert_eq!(count(&reaper), 1);
    reaper.forget_grandchild(11);
    assert_eq!(count(&reaper), 0);
    assert!(reaper.for_each(|_| false).is_empty());
}

#[test]
fn error_messages() {
    assert_eq!(Error::TimeoutError.message(), "timeout");
    assert_eq!(Error::NotFound.message(), "not found");
    assert_eq!(Error::SpawnFailure.message(), "spawn child process");
    assert_eq!(Error::WaitFailure.message(), "wait for child process");
    assert_eq!(Error::PidDiscoveryFailure.message(), "grandchild pid parse error");
}
