//! The status of a command as its runner reports it.

use vstd::prelude::*;

verus! {

/// What is known of the child process.
///
/// `Running` and `WaitingForInput` describe a live process; the other three
/// are terminal: once one of them has been reported, no later report
/// differs.
#[derive(PartialEq, Eq, Clone, Copy, Debug, Structural)]
pub enum CommandStatus {
    /// The process has not been seen to exit.
    Running,
    /// The process exited by itself and reported success.
    ExitedOk,
    /// The process exited by itself and reported failure.
    ExitedError,
    /// The process was killed at the caller's request.
    ForciblyTerminated,
    /// The process has not been seen to exit and its input pipe has room:
    /// an advisory label of `Running`, never stored.
    WaitingForInput,
}

impl CommandStatus {
    /// Whether the status is one of the three that end a run.
    pub open spec fn terminal(self) -> bool {
        self == CommandStatus::ExitedOk || self == CommandStatus::ExitedError || self
            == CommandStatus::ForciblyTerminated
    }

    /// Whether the status ends a run.
    pub fn is_stopped(&self) -> (stopped: bool)
        ensures
            stopped == self.terminal(),
    {
        match self {
            CommandStatus::ExitedOk | CommandStatus::ExitedError | CommandStatus::ForciblyTerminated => true,
            CommandStatus::Running | CommandStatus::WaitingForInput => false,
        }
    }

    /// Whether the status is exactly `Running`.
    pub fn is_running(&self) -> (running: bool)
        ensures
            running == (*self == CommandStatus::Running),
    {
        matches!(self, CommandStatus::Running)
    }
}

} // verus!
