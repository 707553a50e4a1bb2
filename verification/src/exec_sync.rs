//! Running a command in a container under a deadline: what the run amounts
//! to, and what the caller is answered.

use vstd::prelude::*;
use vstd::utf8::{decode_utf8, valid_utf8};

use crate::child_reaper::{ChildReaper, Error, ReapableChildView};

verus! {

/// Exit code answered for a container that is not tracked.
pub const UNKNOWN_CONTAINER_EXIT_CODE: i32 = -1;

/// Exit code answered where the command could not be run to its end: it
/// did not start, could not be waited for, or ran past its deadline.
pub const EXEC_FAILED_EXIT_CODE: i32 = 255;

/// Exit code answered for a command that ended without one, as one that a
/// signal killed. It is never 0, so such an end is not taken for success.
pub const NO_EXIT_CODE: i32 = -2;

/// The seconds after which the timer of a synchronous exec fires, for a
/// timeout given in seconds: a timeout below zero is one of zero seconds.
pub fn deadline_seconds(timeout: i32) -> (seconds: u64)
    ensures
        seconds == if timeout < 0 {
            0
        } else {
            timeout as int
        },
{
    if timeout < 0 {
        0
    } else {
        timeout as u64
    }
}

/// How the run of a command ended.
#[derive(Debug)]
pub enum ExecOutcome {
    /// The command could not be started.
    SpawnFailed,
    /// The command was started, but the wait for its end failed.
    WaitFailed,
    /// The deadline passed first; the command has been terminated.
    TimedOut,
    /// The command ran to its end.
    Completed {
        /// Its exit code; none where a signal killed it.
        code: Option<i32>,
        /// What it wrote to standard output.
        stdout: Vec<u8>,
        /// What it wrote to standard error.
        stderr: Vec<u8>,
    },
}

/// What a command that ran to its end has left.
#[derive(Debug)]
pub struct ExecOutput {
    /// Its exit code; none where a signal killed it.
    pub exit_code: Option<i32>,
    /// Its standard output as text.
    pub stdout: String,
    /// Its standard error as text.
    pub stderr: String,
}

/// Mathematical value of an [`ExecOutput`].
pub ghost struct ExecOutputView {
    pub exit_code: Option<i32>,
    pub stdout: Seq<char>,
    pub stderr: Seq<char>,
}

impl View for ExecOutput {
    type V = ExecOutputView;

    open spec fn view(&self) -> ExecOutputView {
        ExecOutputView { exit_code: self.exit_code, stdout: self.stdout@, stderr: self.stderr@ }
    }
}

/// What the caller of a synchronous exec is answered.
#[derive(Debug)]
pub struct ExecSyncResponse {
    pub exit_code: i32,
    pub stdout: String,
    pub stderr: String,
}

/// Mathematical value of an [`ExecSyncResponse`].
pub ghost struct ExecSyncResponseView {
    pub exit_code: i32,
    pub stdout: Seq<char>,
    pub stderr: Seq<char>,
}

impl View for ExecSyncResponse {
    type V = ExecSyncResponseView;

    open spec fn view(&self) -> ExecSyncResponseView {
        ExecSyncResponseView {
            exit_code: self.exit_code,
            stdout: self.stdout@,
            stderr: self.stderr@,
        }
    }
}

/// The response that carries `exit_code` and no output.
pub open spec fn bare_answer(exit_code: i32) -> ExecSyncResponseView {
    ExecSyncResponseView { exit_code, stdout: Seq::empty(), stderr: Seq::empty() }
}

impl ExecSyncResponse {
    /// A response that carries an exit code and no output.
    pub fn code_only(exit_code: i32) -> (response: Self)
        ensures
            response@ == bare_answer(exit_code),
    {
        Self { exit_code, stdout: String::new(), stderr: String::new() }
    }
}

/// The text that `bytes` are read as: what they encode where they are valid
/// UTF-8, and else that text with a replacement character in place of each
/// run of bytes that encodes nothing.
pub uninterp spec fn lossy_text(bytes: Seq<u8>) -> Seq<char>;

/// `String::from_utf8_lossy`: the bytes as text, never failing. For bytes
/// that are valid UTF-8 the text is the one they encode.
#[verifier::external_body]
pub(crate) fn decode_lossy(bytes: &Vec<u8>) -> (text: String)
    ensures
        text@ == lossy_text(bytes@),
        valid_utf8(bytes@) ==> text@ == decode_utf8(bytes@),
{
    String::from_utf8_lossy(bytes).into_owned()
}

/// The value of what a synchronous exec ended in.
pub open spec fn result_view(result: Result<ExecOutput, Error>) -> Result<ExecOutputView, Error> {
    match result {
        Ok(output) => Ok(output@),
        Err(e) => Err(e),
    }
}

/// Whether a synchronous exec may run in the container `id`, given what
/// the registry holds: only in a container that is tracked.
pub open spec fn admission(
    held: Map<Seq<char>, Seq<ReapableChildView>>,
    id: Seq<char>,
) -> Result<(), Error> {
    if held.contains_key(id) {
        Ok(())
    } else {
        Err(Error::NotFound)
    }
}

/// What the run of a command amounts to: a failure where it did not start,
/// could not be waited for or ran past its deadline, and else its exit
/// code with its output read as text.
pub open spec fn outcome_result(outcome: ExecOutcome) -> Result<ExecOutputView, Error> {
    match outcome {
        ExecOutcome::SpawnFailed => Err(Error::SpawnFailure),
        ExecOutcome::WaitFailed => Err(Error::WaitFailure),
        ExecOutcome::TimedOut => Err(Error::TimeoutError),
        ExecOutcome::Completed { code, stdout, stderr } => Ok(
            ExecOutputView {
                exit_code: code,
                stdout: lossy_text(stdout@),
                stderr: lossy_text(stderr@),
            },
        ),
    }
}

/// What the caller is answered for a synchronous exec that ended in
/// `result`: the command's exit code and output where it ran to its end,
/// with [`NO_EXIT_CODE`] for a command that left none; and an exit code
/// without output where it did not, [`UNKNOWN_CONTAINER_EXIT_CODE`] for a
/// container that is not tracked and [`EXEC_FAILED_EXIT_CODE`] for every
/// other failure.
pub open spec fn answer(result: Result<ExecOutputView, Error>) -> ExecSyncResponseView {
    match result {
        Ok(output) => ExecSyncResponseView {
            exit_code: match output.exit_code {
                Some(code) => code,
                None => NO_EXIT_CODE,
            },
            stdout: output.stdout,
            stderr: output.stderr,
        },
        Err(Error::NotFound) => bare_answer(UNKNOWN_CONTAINER_EXIT_CODE),
        Err(_) => bare_answer(EXEC_FAILED_EXIT_CODE),
    }
}

/// Answers the caller of a synchronous exec that ended in `result`.
pub fn finish_exec_sync(result: Result<ExecOutput, Error>) -> (response: ExecSyncResponse)
    ensures
        response@ == answer(result_view(result)),
{
    match result {
        Ok(output) => {
            let exit_code = match output.exit_code {
                Some(code) => code,
                None => NO_EXIT_CODE,
            };
            ExecSyncResponse { exit_code, stdout: output.stdout, stderr: output.stderr }
        },
        Err(Error::NotFound) => ExecSyncResponse::code_only(UNKNOWN_CONTAINER_EXIT_CODE),
        Err(_) => ExecSyncResponse::code_only(EXEC_FAILED_EXIT_CODE),
    }
}

impl ChildReaper {
    /// Decides whether a synchronous exec may run in the container `id`.
    /// For a container that is not tracked the command is not to be run,
    /// and the failure is `NotFound`. The registry is only looked at.
    pub fn begin_exec_sync(&self, id: String) -> (admitted: Result<(), Error>)
        ensures
            admitted == admission(self@, id@),
    {
        if self.is_tracked(id) {
            Ok(())
        } else {
            Err(Error::NotFound)
        }
    }

    /// What the run of a command amounts to, once it has ended in
    /// `outcome`: a timeout where the deadline passed first, and the exit
    /// code with the output read as text where the command ran to its end.
    /// Output that is valid UTF-8 is read as the text it encodes; any other
    /// is read with replacement characters for what encodes nothing.
    pub fn exec_sync(outcome: ExecOutcome) -> (result: Result<ExecOutput, Error>)
        ensures
            result_view(result) == outcome_result(outcome),
            outcome matches ExecOutcome::Completed { stdout, stderr, .. } ==> {
                &&& result matches Ok(output)
                &&& valid_utf8(stdout@) ==> output.stdout@ == decode_utf8(stdout@)
                &&& valid_utf8(stderr@) ==> output.stderr@ == decode_utf8(stderr@)
            },
    {
        match outcome {
            ExecOutcome::SpawnFailed => Err(Error::SpawnFailure),
            ExecOutcome::WaitFailed => Err(Error::WaitFailure),
            ExecOutcome::TimedOut => Err(Error::TimeoutError),
            ExecOutcome::Completed { code, stdout, stderr } => {
                let stdout = decode_lossy(&stdout);
                let stderr = decode_lossy(&stderr);
                Ok(ExecOutput { exit_code: code, stdout, stderr })
            },
        }
    }
}

} // verus!
