//! The registry of tracked container processes and what is decided about
//! their lifetime.

use multimap::MultiMap;
use nix::sys::signal::Signal;
use vstd::prelude::*;
use vstd::set_lib::lemma_set_subset_finite;

use crate::child::{Child, ChildView};
use crate::grandchildren::{
    multimap_get, multimap_insert, multimap_iter_all, multimap_new, multimap_retain_other_than,
    records, records_under, without_pid,
};
use crate::signal::{send_signal, signal_result, KillError};

verus! {

/// What a watcher needs of a [`Child`]: the process to wait for and where
/// its exit code goes.
#[derive(Debug, Default)]
pub struct ReapableChild {
    /// Files that receive the exit code, in the order in which they are
    /// written.
    pub exit_paths: Vec<String>,
    /// Process id of the container process.
    pub pid: i32,
    /// Path of the container's bundle.
    pub bundle_path: String,
}

/// Mathematical value of a [`ReapableChild`].
pub ghost struct ReapableChildView {
    pub exit_paths: Seq<Seq<char>>,
    pub pid: i32,
    pub bundle_path: Seq<char>,
}

impl View for ReapableChild {
    type V = ReapableChildView;

    open spec fn view(&self) -> ReapableChildView {
        ReapableChildView {
            exit_paths: self.exit_paths.deep_view(),
            pid: self.pid,
            bundle_path: self.bundle_path@,
        }
    }
}

impl DeepView for ReapableChild {
    type V = ReapableChildView;

    open spec fn deep_view(&self) -> ReapableChildView {
        self@
    }
}

impl ChildView {
    /// The record under which this child is reaped.
    pub open spec fn reapable(self) -> ReapableChildView {
        ReapableChildView {
            exit_paths: self.exit_paths,
            pid: self.pid,
            bundle_path: self.bundle_path,
        }
    }
}

impl Clone for ReapableChild {
    fn clone(&self) -> (copy: Self)
        ensures
            copy@ == self@,
    {
        let exit_paths = self.exit_paths.clone();
        assert(exit_paths.deep_view() =~= self.exit_paths.deep_view());
        Self { exit_paths, pid: self.pid, bundle_path: self.bundle_path.clone() }
    }
}

impl ReapableChild {
    /// The record under which `child` is reaped.
    pub fn from_child(child: &Child) -> (record: Self)
        ensures
            record@ == child@.reapable(),
    {
        let exit_paths = child.exit_paths.clone();
        assert(exit_paths.deep_view() =~= child.exit_paths.deep_view());
        Self { exit_paths, pid: child.pid, bundle_path: child.bundle_path.clone() }
    }

    /// Whether this record belongs to another process than `pid`.
    pub fn is_other_than(&self, pid: i32) -> (other: bool)
        ensures
            other == (self@.pid != pid),
    {
        self.pid != pid
    }
}

/// Why an operation of the lifecycle manager failed.
#[derive(Debug, Clone, Copy, PartialEq, Eq, Structural)]
pub enum Error {
    /// A synchronous exec ran past its deadline.
    TimeoutError,
    /// No record is held under the identifier.
    NotFound,
    /// The runtime or the command could not be launched.
    SpawnFailure,
    /// The wait for a command that had been launched failed.
    WaitFailure,
    /// The pidfile is missing, unreadable or holds no process id.
    PidDiscoveryFailure,
}

impl Error {
    /// The text that describes this error.
    pub open spec fn text(self) -> Seq<char> {
        match self {
            Error::TimeoutError => "timeout"@,
            Error::NotFound => "not found"@,
            Error::SpawnFailure => "spawn child process"@,
            Error::WaitFailure => "wait for child process"@,
            Error::PidDiscoveryFailure => "grandchild pid parse error"@,
        }
    }

    /// The text that describes this error.
    pub fn message(&self) -> (text: &'static str)
        ensures
            text@ == self.text(),
    {
        match self {
            Error::TimeoutError => "timeout",
            Error::NotFound => "not found",
            Error::SpawnFailure => "spawn child process",
            Error::WaitFailure => "wait for child process",
            Error::PidDiscoveryFailure => "grandchild pid parse error",
        }
    }
}

/// The registry that tracks nothing.
pub open spec fn no_records() -> Map<Seq<char>, Seq<ReapableChildView>> {
    Map::empty()
}

/// No identifier maps to an empty list of records.
pub open spec fn populated(held: Map<Seq<char>, Seq<ReapableChildView>>) -> bool {
    forall|id: Seq<char>| held.contains_key(id) ==> (#[trigger] held[id]).len() > 0
}

/// What every registry is: finitely many identifiers, each with at least
/// one record.
pub open spec fn well_formed(held: Map<Seq<char>, Seq<ReapableChildView>>) -> bool {
    held.dom().finite() && populated(held)
}

/// `held` with `record` added behind the records already under `id`.
pub open spec fn inserted(
    held: Map<Seq<char>, Seq<ReapableChildView>>,
    id: Seq<char>,
    record: ReapableChildView,
) -> Map<Seq<char>, Seq<ReapableChildView>> {
    held.insert(id, records_under(held, id).push(record))
}

/// Whether some record in `held` belongs to process `pid`.
pub open spec fn tracks(held: Map<Seq<char>, Seq<ReapableChildView>>, pid: i32) -> bool {
    exists|id: Seq<char>, i: int|
        held.contains_key(id) && 0 <= i < held[id].len() && (#[trigger] held[id][i]).pid == pid
}

/// `f` was applied to a record of value `record`, and where it answered
/// `false` the record's process is among `refused`.
pub open spec fn visited<F: Fn(&ReapableChild) -> bool>(
    f: F,
    record: ReapableChildView,
    refused: Seq<i32>,
) -> bool {
    exists|at: ReapableChild, accepted: bool|
        at@ == record && #[trigger] call_ensures(f, (&at,), accepted) && (!accepted
            ==> refused.contains(at.pid))
}

/// `f` answered `false` on a record that `held` has for process `pid`.
pub open spec fn turned_down<F: Fn(&ReapableChild) -> bool>(
    f: F,
    held: Map<Seq<char>, Seq<ReapableChildView>>,
    pid: i32,
) -> bool {
    exists|at: ReapableChild|
        at@.pid == pid && holds(held, at@) && #[trigger] call_ensures(f, (&at,), false)
}

/// Whether `record` is one of the records in `held`.
pub open spec fn holds(
    held: Map<Seq<char>, Seq<ReapableChildView>>,
    record: ReapableChildView,
) -> bool {
    exists|id: Seq<char>, i: int|
        held.contains_key(id) && 0 <= i < held[id].len() && #[trigger] held[id][i] == record
}

/// The registry of tracked container processes.
///
/// Its value is a map from container identifier to the records held under
/// it, oldest first. An identifier is a key only while it has a record, and
/// there are finitely many: the value is [`well_formed`].
#[derive(Debug)]
pub struct ChildReaper {
    grandchildren: MultiMap<String, ReapableChild>,
}

impl View for ChildReaper {
    type V = Map<Seq<char>, Seq<ReapableChildView>>;

    closed spec fn view(&self) -> Map<Seq<char>, Seq<ReapableChildView>> {
        records(self.grandchildren)
    }
}

impl Default for ChildReaper {
    fn default() -> (reaper: Self)
        ensures
            reaper@ == no_records(),
    {
        Self::new()
    }
}

impl ChildReaper {
    #[verifier::type_invariant]
    spec fn held_is_well_formed(&self) -> bool {
        well_formed(self@)
    }

    /// A registry that tracks nothing.
    pub fn new() -> (reaper: Self)
        ensures
            reaper@ == no_records(),
            well_formed(reaper@),
    {
        let grandchildren = multimap_new();
        assert(records(grandchildren) =~= no_records());
        Self { grandchildren }
    }

    /// Whether a record is held under `id`.
    pub fn is_tracked(&self, id: String) -> (found: bool)
        ensures
            well_formed(self@),
            found == self@.contains_key(id@),
    {
        proof {
            use_type_invariant(self);
        }
        multimap_get(&self.grandchildren, &id).is_some()
    }

    /// A copy of the oldest record held under `id`.
    pub fn get(&self, id: String) -> (found: Result<ReapableChild, Error>)
        ensures
            well_formed(self@),
            match found {
                Ok(record) => self@.contains_key(id@) && record@ == self@[id@][0],
                Err(e) => !self@.contains_key(id@) && e == Error::NotFound,
            },
    {
        proof {
            use_type_invariant(self);
        }
        match multimap_get(&self.grandchildren, &id) {
            Some(record) => Ok(record.clone()),
            None => Err(Error::NotFound),
        }
    }

    /// Adds `record` under `id`, behind the records already held there.
    pub fn insert(&mut self, id: String, record: ReapableChild)
        ensures
            final(self)@ == inserted(old(self)@, id@, record@),
            well_formed(final(self)@),
    {
        proof {
            use_type_invariant(&*self);
        }
        multimap_insert(&mut self.grandchildren, id, record);
    }

    /// Starts tracking `child`: its record enters the registry under the
    /// child's identifier, and a copy is handed to the watcher, which waits
    /// for the process without holding on to the registry.
    pub fn watch_grandchild(&mut self, child: Child) -> (watcher: ReapableChild)
        ensures
            final(self)@ == inserted(old(self)@, child@.id, child@.reapable()),
            well_formed(final(self)@),
            watcher@ == child@.reapable(),
    {
        let record = ReapableChild::from_child(&child);
        let watcher = record.clone();
        self.insert(child.id, record);
        watcher
    }

    /// Applies `f` to every record held, identifier by identifier and under
    /// each identifier oldest first, and returns the processes whose record
    /// `f` answered with `false`, in the order in which they were met.
    ///
    /// The order of the identifiers is that of the map and is not fixed.
    /// `f` has to take the records that are held, and no others: so it is
    /// applied to no other.
    pub fn for_each<F: Fn(&ReapableChild) -> bool>(&self, f: F) -> (refused: Vec<i32>)
        requires
            forall|record: ReapableChild|
                holds(self@, record@) ==> call_requires(f, (&record,)),
        ensures
            forall|id: Seq<char>, i: int|
                self@.contains_key(id) && 0 <= i < self@[id].len() ==> visited(
                    f,
                    #[trigger] self@[id][i],
                    refused@,
                ),
            forall|k: int|
                0 <= k < refused.len() ==> turned_down(f, self@, #[trigger] refused[k]),
    {
        let entries = multimap_iter_all(&self.grandchildren);
        let mut refused: Vec<i32> = Vec::new();
        let mut e: usize = 0;
        while e < entries.len()
            invariant
                e <= entries.len(),
                forall|i: int|
                    0 <= i < entries.len() ==> self@.contains_key((#[trigger] entries[i]).0@)
                        && self@[entries[i].0@] == entries[i].1.deep_view(),
                forall|record: ReapableChild|
                    holds(self@, record@) ==> call_requires(f, (&record,)),
                forall|n: int, i: int|
                    0 <= n < e && 0 <= i < entries[n].1.len() ==> visited(
                        f,
                        #[trigger] entries[n].1.deep_view()[i],
                        refused@,
                    ),
                forall|k: int|
                    0 <= k < refused.len() ==> turned_down(f, self@, #[trigger] refused[k]),
            decreases entries.len() - e,
        {
            let under: &Vec<ReapableChild> = entries[e].1;
            let ghost id = entries[e as int].0@;
            let mut r: usize = 0;
            while r < under.len()
                invariant
                    r <= under.len(),
                    e < entries.len(),
                    under == entries[e as int].1,
                    id == entries[e as int].0@,
                    self@.contains_key(id),
                    self@[id] == under.deep_view(),
                    forall|record: ReapableChild|
                        holds(self@, record@) ==> call_requires(f, (&record,)),
                    forall|n: int, i: int|
                        0 <= n < e && 0 <= i < entries[n].1.len() ==> visited(
                            f,
                            #[trigger] entries[n].1.deep_view()[i],
                            refused@,
                        ),
                    forall|i: int|
                        0 <= i < r ==> visited(f, #[trigger] under.deep_view()[i], refused@),
                    forall|k: int|
                        0 <= k < refused.len() ==> turned_down(
                            f,
                            self@,
                            #[trigger] refused[k],
                        ),
                decreases under.len() - r,
            {
                let record = &under[r];
                let ghost before = refused@;
                assert(under.deep_view()[r as int] == record@);
                assert(self@[id][r as int] == record@);
                assert(holds(self@, record@));
                let accepted = f(record);
                if !accepted {
                    refused.push(record.pid);
                }
                proof {
                    assert forall|p: i32| before.contains(p) implies refused@.contains(p) by {
                        let k = choose|k: int| 0 <= k < before.len() && before[k] == p;
                        assert(refused@[k] == p);
                    }
                    if !accepted {
                        assert(refused@[refused.len() - 1] == record.pid);
                    }
                    assert(visited(f, record@, refused@));
                }
                r += 1;
            }
            e += 1;
        }
        proof {
            assert forall|id: Seq<char>, i: int|
                self@.contains_key(id) && 0 <= i < self@[id].len() implies visited(
                f,
                #[trigger] self@[id][i],
                refused@,
            ) by {
                let n = choose|n: int| 0 <= n < entries.len() && (#[trigger] entries[n]).0@ == id;
                assert(entries[n].1.deep_view()[i] == self@[id][i]);
            }
        }
        refused
    }

    /// Sends `s` to every tracked process. A process that cannot be
    /// signalled does not stop the broadcast: the others are still tried,
    /// and the failures are reported together at the end.
    ///
    /// Whether a signal is accepted is for the operating system to say, so
    /// no success is promised but that of a broadcast to nobody.
    pub fn kill_grandchildren(&self, s: Signal) -> (sent: Result<(), KillError>)
        ensures
            self@ == no_records() ==> sent is Ok,
            sent matches Err(e) ==> e.failed.len() > 0 && forall|k: int|
                0 <= k < e.failed.len() ==> tracks(self@, #[trigger] e.failed[k]),
    {
        let send = |record: &ReapableChild| -> (delivered: bool) { send_signal(record.pid, s) };
        let refused = self.for_each(send);
        proof {
            assert forall|k: int| 0 <= k < refused.len() implies tracks(
                self@,
                #[trigger] refused[k],
            ) by {
                assert(turned_down(send, self@, refused[k]));
            }
            if self@ == no_records() && refused.len() > 0 {
                assert(tracks(self@, refused[0]));
            }
        }
        signal_result(refused)
    }

    /// Stops tracking process `pid`: every record of it leaves the registry,
    /// whatever identifier it is held under. The other records stay, in
    /// their order.
    pub fn forget_grandchild(&mut self, pid: i32)
        ensures
            final(self)@ == without_pid(old(self)@, pid),
            well_formed(final(self)@),
    {
        proof {
            use_type_invariant(&*self);
            lemma_set_subset_finite(self@.dom(), without_pid(self@, pid).dom());
        }
        multimap_retain_other_than(&mut self.grandchildren, pid);
    }
}

} // verus!
