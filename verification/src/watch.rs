//! The watch on a process: the wait for its end, what the wait can come
//! to, and how the watch ends.

use nix::errno::Errno;
use nix::sys::wait::{waitpid, WaitStatus};
use nix::unistd::Pid;
use vstd::prelude::*;

use crate::child_reaper::{ReapableChild, ReapableChildView};
use crate::exit_paths::{due, exit_writes_for, published, write_to_exit_paths, PublishError};

verus! {

/// What the operating system answered when the wait on a process returned.
#[derive(Debug, Clone, Copy, PartialEq, Eq, Structural)]
pub enum WaitOutcome {
    /// The process exited normally with this exit code.
    Exited(i32),
    /// A signal killed the process; this is the signal's number.
    Signaled(i32),
    /// The wait returned a status that is neither of the two above, as
    /// that of a process that was stopped.
    Other,
    /// There is no such child: somebody else has reaped the process.
    NoSuchChild,
    /// The wait failed with this error number, which is not that of a
    /// missing child.
    Failed(i32),
}

/// How a watch ended. Whatever the case, the process is forgotten next.
#[derive(Debug, Clone, Copy, PartialEq, Eq, Structural)]
pub enum Completion {
    /// The process exited with `code`, which was written to every exit
    /// path.
    Published { code: i32 },
    /// The process exited with `code`, but the exit path at `index` could
    /// not be written; the paths behind it were left alone.
    PublishFailure { code: i32, index: usize },
    /// The process left no exit code, as one that a signal killed; nothing
    /// was written.
    NoExitCode,
    /// The process had been reaped already; nothing was written, and
    /// nothing is wrong.
    BenignRace,
    /// The wait failed with `errno`; nothing was written.
    WaitFailure { errno: i32 },
}

impl Completion {
    /// What publishing the exit code came to: a failure at the exit path
    /// that could not be written, and success in every other case, also
    /// where there was nothing to publish.
    pub open spec fn publication(self) -> Result<(), PublishError> {
        match self {
            Completion::PublishFailure { index, .. } => Err(PublishError { index }),
            _ => Ok(()),
        }
    }

    /// Whether the watch ended in a way that deserves an error message. A
    /// process that was reaped elsewhere, or that left no exit code, does
    /// not.
    pub fn is_failure(&self) -> (failure: bool)
        ensures
            failure == (*self is PublishFailure || *self is WaitFailure),
    {
        match self {
            Completion::PublishFailure { .. } => true,
            Completion::WaitFailure { .. } => true,
            _ => false,
        }
    }
}

/// How a watch ends for a process that left `outcome`, where publishing
/// its exit code came to `written`.
pub open spec fn completion(outcome: WaitOutcome, written: Result<(), PublishError>) -> Completion {
    match outcome {
        WaitOutcome::Exited(code) => match written {
            Ok(()) => Completion::Published { code },
            Err(e) => Completion::PublishFailure { code, index: e.index },
        },
        WaitOutcome::Signaled(_) => Completion::NoExitCode,
        WaitOutcome::Other => Completion::NoExitCode,
        WaitOutcome::NoSuchChild => Completion::BenignRace,
        WaitOutcome::Failed(errno) => Completion::WaitFailure { errno },
    }
}

/// `nix::sys::wait::waitpid` on the process `pid`, without options: the
/// call returns once the process has ended, or as soon as the wait fails.
/// The status is handed on as it comes: an exit with its code, a signal's
/// kill with the signal's number, any other status as `Other`; so is the
/// error, that of a missing child apart from the rest. Nothing is claimed
/// of the answer, which is for the operating system to give. A `pid` of
/// zero or below waits for a group of processes, as `waitpid(2)` has it.
#[verifier::external_body]
pub(crate) fn wait_for(pid: i32) -> (outcome: WaitOutcome) {
    match waitpid(Pid::from_raw(pid), None) {
        Ok(WaitStatus::Exited(_, code)) => WaitOutcome::Exited(code),
        Ok(WaitStatus::Signaled(_, signal, _)) => WaitOutcome::Signaled(signal as i32),
        Ok(_) => WaitOutcome::Other,
        Err(Errno::ECHILD) => WaitOutcome::NoSuchChild,
        Err(errno) => WaitOutcome::Failed(errno as i32),
    }
}

/// The watch on a process with the record `record` ends in `done`, given
/// that the wait for it came to `outcome`: `done` says what the outcome
/// was, and for an exit code how publishing it to the exit paths, in
/// order, through `write` went.
pub open spec fn ends_in<F: Fn(&String, &String) -> bool>(
    record: ReapableChildView,
    write: F,
    outcome: WaitOutcome,
    done: Completion,
) -> bool {
    &&& done == completion(outcome, done.publication())
    &&& outcome matches WaitOutcome::Exited(code) ==> published(
        write,
        exit_writes_for(code, record.exit_paths),
        done.publication(),
    )
}

impl ReapableChild {
    /// Watches this process to its end: waits for it, and then ends the
    /// watch as [`ReapableChild::reap`] does for what the wait came to.
    ///
    /// The call returns when the process has ended, which may take as long
    /// as the process lives. Whatever the exit code turns out to be,
    /// `write` has to take the writes that are [`due`] for it on this
    /// record's exit paths, and no others: so no other write is made.
    pub fn watch<F: Fn(&String, &String) -> bool>(&self, write: F) -> (done: Completion)
        requires
            forall|code: i32, path: String, content: String|
                due(write, exit_writes_for(code, self@.exit_paths), path@, content@)
                    ==> call_requires(write, (&path, &content)),
        ensures
            exists|outcome: WaitOutcome| #[trigger] ends_in(self@, write, outcome, done),
    {
        let outcome = wait_for(self.pid);
        let done = self.reap(outcome, write);
        assert(ends_in(self@, write, outcome, done));
        done
    }

    /// Ends the watch on this process, once the wait for it has come to
    /// `outcome`.
    ///
    /// An exit code is published to the exit paths, in order, through
    /// `write`, which replaces a file's content by a text and says whether
    /// it could. `write` has to take the writes that are [`due`] for that
    /// exit code on this record's exit paths, and no others: so no other
    /// write is made, and none at all for an outcome without exit code.
    pub fn reap<F: Fn(&String, &String) -> bool>(&self, outcome: WaitOutcome, write: F) -> (done:
        Completion)
        requires
            outcome matches WaitOutcome::Exited(code) ==> forall|path: String, content: String|
                due(write, exit_writes_for(code, self@.exit_paths), path@, content@)
                    ==> call_requires(write, (&path, &content)),
        ensures
            ends_in(self@, write, outcome, done),
    {
        match outcome {
            WaitOutcome::Exited(code) => {
                assert(self.exit_paths.deep_view() == self@.exit_paths);
                match write_to_exit_paths(code, &self.exit_paths, write) {
                    Ok(()) => Completion::Published { code },
                    Err(e) => Completion::PublishFailure { code, index: e.index },
                }
            },
            WaitOutcome::Signaled(_) => Completion::NoExitCode,
            WaitOutcome::Other => Completion::NoExitCode,
            WaitOutcome::NoSuchChild => Completion::BenignRace,
            WaitOutcome::Failed(errno) => Completion::WaitFailure { errno },
        }
    }
}

} // verus!
