//! Sending a signal to a process, and what a broadcast amounts to.

use nix::sys::signal::Signal;
use vstd::prelude::*;

verus! {

/// `nix::sys::signal::Signal`, a signal's name. It is handed on as it
/// comes.
#[verifier::external_type_specification]
#[verifier::external_body]
pub struct ExSignal(Signal);

/// The processes that a broadcast did not reach.
#[derive(Debug)]
pub struct KillError {
    /// Process ids for which sending failed, in the order of the attempts.
    pub failed: Vec<i32>,
}

/// `nix::sys::signal::kill` on the process `pid`: whether the operating
/// system accepted the signal. Nothing is claimed of the answer, which
/// depends on the processes that exist when the call is made. A `pid` of
/// zero or below addresses a group of processes, as `kill(2)` has it.
#[verifier::external_body]
pub(crate) fn send_signal(pid: i32, signal: Signal) -> (delivered: bool) {
    nix::sys::signal::kill(nix::unistd::Pid::from_raw(pid), signal).is_ok()
}

/// What a broadcast reports once every process has been tried: success
/// where no attempt failed, else all the failures together.
pub fn signal_result(failed: Vec<i32>) -> (sent: Result<(), KillError>)
    ensures
        sent is Ok <==> failed@.len() == 0,
        sent matches Err(e) ==> e.failed@ == failed@,
{
    if failed.len() == 0 {
        Ok(())
    } else {
        Err(KillError { failed })
    }
}

} // verus!
