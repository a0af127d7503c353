//! The process supervisor's reading of the operating system's answers.

use vstd::prelude::*;

verus! {

/// What a wait on the child that does not block came back with.
#[derive(PartialEq, Eq, Clone, Copy, Debug)]
pub enum WaitOutcome {
    /// The process is still running.
    Alive,
    /// The process has exited.  `code` is its exit code; there is none
    /// where a signal ended it.
    Exited { code: Option<i32> },
    /// The process could not be asked: there is no handle to it, or the
    /// wait failed.
    Unknown,
}

/// Whether the process has exited, and if so whether it did so with
/// success.
#[derive(PartialEq, Eq, Clone, Copy, Debug, Structural)]
pub enum ExitPoll {
    NotExited,
    Exited { success: bool },
}

/// Whether an exit code means success: only code zero does.  An exit
/// without a code does not.
pub open spec fn code_is_success(code: Option<i32>) -> bool {
    code == Some(0i32)
}

/// How a wait outcome is read.  A process that cannot be asked counts as
/// exited without success.
pub open spec fn poll_of(outcome: WaitOutcome) -> ExitPoll {
    match outcome {
        WaitOutcome::Alive => ExitPoll::NotExited,
        WaitOutcome::Exited { code } => ExitPoll::Exited { success: code_is_success(code) },
        WaitOutcome::Unknown => ExitPoll::Exited { success: false },
    }
}

/// Reads a wait outcome as an exit poll.
pub fn check_child_process_status(outcome: WaitOutcome) -> (poll: ExitPoll)
    ensures
        poll == poll_of(outcome),
{
    match outcome {
        WaitOutcome::Alive => ExitPoll::NotExited,
        WaitOutcome::Exited { code } => {
            let success = match code {
                Some(value) => value == 0,
                None => false,
            };
            ExitPoll::Exited { success }
        },
        WaitOutcome::Unknown => ExitPoll::Exited { success: false },
    }
}

} // verus!
