//! The descriptor of one tracked container process.

use vstd::prelude::*;

verus! {

/// Everything the monitor knows about one container process once the runtime
/// has forked it and recorded its process id.
#[derive(Debug)]
pub struct Child {
    /// Identifier of the container.
    pub id: String,
    /// Process id of the container process.
    pub pid: i32,
    /// Files that receive the exit code once the process has terminated, in
    /// the order in which they are written.
    pub exit_paths: Vec<String>,
    /// Path of the container's bundle.
    pub bundle_path: String,
}

/// Mathematical value of a [`Child`].
pub ghost struct ChildView {
    pub id: Seq<char>,
    pub pid: i32,
    pub exit_paths: Seq<Seq<char>>,
    pub bundle_path: Seq<char>,
}

impl View for Child {
    type V = ChildView;

    open spec fn view(&self) -> ChildView {
        ChildView {
            id: self.id@,
            pid: self.pid,
            exit_paths: self.exit_paths.deep_view(),
            bundle_path: self.bundle_path@,
        }
    }
}

impl Child {
    /// Describes the container process `pid` of container `id`.
    pub fn new(id: String, bundle_path: String, pid: i32, exit_paths: Vec<String>) -> (child: Self)
        ensures
            child@ == (ChildView {
                id: id@,
                pid,
                exit_paths: exit_paths.deep_view(),
                bundle_path: bundle_path@,
            }),
    {
        Self { id, bundle_path, pid, exit_paths }
    }
}

} // verus!
