//! The lifecycle coordinator: one status, derived on demand and latched
//! once it is terminal, and a termination that takes effect exactly once.
//!
//! The caller owns the process.  It polls the process without blocking and
//! hands the answer in; it performs the shutdown when `terminate` says so.

use crate::status::CommandStatus;
use crate::supervisor::{poll_of, ExitPoll, WaitOutcome};
use vstd::prelude::*;
use vstd::string::StringExecFns;

verus! {

/// What a [`Lifecycle`] stands for.
pub ghost struct LifecycleState {
    /// `Running`, or the terminal status that was latched.
    pub status: CommandStatus,
    /// Whether termination was requested.
    pub stop_requested: bool,
}

/// What can happen to a lifecycle.
pub ghost enum LifecycleEvent {
    /// The status was asked for.
    Query { poll: ExitPoll, stdin_writable: bool },
    /// Termination was asked for.
    Terminate { poll: ExitPoll },
}

impl LifecycleState {
    /// The state of a runner whose process was just spawned.
    pub open spec fn initial() -> LifecycleState {
        LifecycleState { status: CommandStatus::Running, stop_requested: false }
    }

    /// What holds of every state that can be reached: the advisory label is
    /// never stored, and a requested termination has ended the run.
    pub open spec fn valid(self) -> bool {
        &&& self.status != CommandStatus::WaitingForInput
        &&& self.stop_requested ==> self.status.terminal()
    }
}

/// The status that an exit with or without success latches.
pub open spec fn exit_status(success: bool) -> CommandStatus {
    if success {
        CommandStatus::ExitedOk
    } else {
        CommandStatus::ExitedError
    }
}

/// The stored status once a poll is taken into account.  A terminal status
/// stays; otherwise an exit that the poll reports is latched.
pub open spec fn latched(status: CommandStatus, poll: ExitPoll) -> CommandStatus {
    if status.terminal() {
        status
    } else {
        match poll {
            ExitPoll::NotExited => CommandStatus::Running,
            ExitPoll::Exited { success } => exit_status(success),
        }
    }
}

/// The status that a query answers with, given the stored one: a running
/// process whose input pipe has room is labelled as waiting for input.
pub open spec fn reported(status: CommandStatus, stdin_writable: bool) -> CommandStatus {
    if status == CommandStatus::Running && stdin_writable {
        CommandStatus::WaitingForInput
    } else {
        status
    }
}

/// The state after a query.
pub open spec fn after_query(state: LifecycleState, poll: ExitPoll) -> LifecycleState {
    LifecycleState { status: latched(state.status, poll), ..state }
}

/// The state after a call for termination.  Only the first call has an
/// effect.  It keeps a status that is terminal already, latches an exit
/// that the poll reports, and otherwise records the forced end.
pub open spec fn after_terminate(state: LifecycleState, poll: ExitPoll) -> LifecycleState {
    if state.stop_requested {
        state
    } else {
        LifecycleState {
            status: if latched(state.status, poll).terminal() {
                latched(state.status, poll)
            } else {
                CommandStatus::ForciblyTerminated
            },
            stop_requested: true,
        }
    }
}

/// The state after an event.
pub open spec fn after_event(state: LifecycleState, event: LifecycleEvent) -> LifecycleState {
    match event {
        LifecycleEvent::Query { poll, stdin_writable } => after_query(state, poll),
        LifecycleEvent::Terminate { poll } => after_terminate(state, poll),
    }
}

/// The status that the caller sees after an event: the answer to a query,
/// or the stored status after a termination.
pub open spec fn seen_after(state: LifecycleState, event: LifecycleEvent) -> CommandStatus {
    match event {
        LifecycleEvent::Query { poll, stdin_writable } => reported(
            after_query(state, poll).status,
            stdin_writable,
        ),
        LifecycleEvent::Terminate { poll } => after_terminate(state, poll).status,
    }
}

/// The state after a run of events.
pub open spec fn after_events(state: LifecycleState, events: Seq<LifecycleEvent>) -> LifecycleState
    decreases events.len(),
{
    if events.len() == 0 {
        state
    } else {
        after_events(after_event(state, events[0]), events.skip(1))
    }
}

/// How many events of a run are calls for termination that take effect,
/// that is, after which the caller shuts the process down.
pub open spec fn shutdowns(state: LifecycleState, events: Seq<LifecycleEvent>) -> nat
    decreases events.len(),
{
    if events.len() == 0 {
        0
    } else {
        let now: nat = if events[0] is Terminate && !state.stop_requested {
            1
        } else {
            0
        };
        now + shutdowns(after_event(state, events[0]), events.skip(1))
    }
}

/// The message for a status that is asked of a runner without a process.
pub open spec fn not_initialized() -> Seq<char> {
    "Child process is not initialized yet."@
}

/// A best-effort answer to whether the child's input pipe has room for a
/// write right now.  An answer must come at once; it is advisory.
pub trait ReadinessProbe {
    fn is_writable(&self) -> bool;
}

/// The probe for platforms without a way to tell: the pipe is never
/// reported writable.
#[derive(Debug, Clone, Copy)]
pub struct NeverWritable;

impl ReadinessProbe for NeverWritable {
    fn is_writable(&self) -> (writable: bool)
        ensures
            !writable,
    {
        false
    }
}

/// The coordinator's record of one run.
pub struct Lifecycle {
    status: CommandStatus,
    stop_requested: bool,
}

impl View for Lifecycle {
    type V = LifecycleState;

    closed spec fn view(&self) -> LifecycleState {
        LifecycleState { status: self.status, stop_requested: self.stop_requested }
    }
}

impl Lifecycle {
    #[verifier::type_invariant]
    spec fn reachable(self) -> bool {
        self@.valid()
    }

    /// The lifecycle of a process that was just spawned: running, with no
    /// termination requested.
    pub fn new() -> (lifecycle: Self)
        ensures
            lifecycle@ == LifecycleState::initial(),
            lifecycle@.valid(),
    {
        Lifecycle { status: CommandStatus::Running, stop_requested: false }
    }

    /// The stored status: `Running`, or the terminal status that was
    /// latched.
    pub fn status(&self) -> (status: CommandStatus)
        ensures
            status == self@.status,
            self@.valid(),
    {
        proof {
            use_type_invariant(self);
        }
        self.status
    }

    /// Whether termination was requested: the flag that every worker
    /// checks before it goes on.
    pub fn stop_requested(&self) -> (requested: bool)
        ensures
            requested == self@.stop_requested,
    {
        self.stop_requested
    }

    /// Answers a query for the status.  `poll` is what a wait on the
    /// process that does not block reported, `stdin_writable` what the
    /// readiness probe said.  An exit is latched; a latched status is
    /// answered whatever the poll says; a process that has exited is never
    /// reported as waiting for input.
    pub fn get_status(&mut self, poll: ExitPoll, stdin_writable: bool) -> (status: CommandStatus)
        ensures
            final(self)@ == after_query(old(self)@, poll),
            status == reported(final(self)@.status, stdin_writable),
            status == seen_after(old(self)@, LifecycleEvent::Query { poll, stdin_writable }),
            final(self)@.valid(),
    {
        proof {
            use_type_invariant(&*self);
        }
        if !self.status.is_stopped() {
            match poll {
                ExitPoll::NotExited => {},
                ExitPoll::Exited { success } => {
                    self.status = if success {
                        CommandStatus::ExitedOk
                    } else {
                        CommandStatus::ExitedError
                    };
                },
            }
        }
        if self.status.is_running() && stdin_writable {
            CommandStatus::WaitingForInput
        } else {
            self.status
        }
    }

    /// Asks for termination.  `poll` is what a wait on the process that
    /// does not block reported just before.  Returns whether the caller is
    /// to shut down now: raise the stop flag, wait for the workers, kill
    /// the process and reap it.  That is so for the first call only; every
    /// later call changes nothing.
    pub fn terminate(&mut self, poll: ExitPoll) -> (shutdown: bool)
        ensures
            final(self)@ == after_terminate(old(self)@, poll),
            shutdown == !old(self)@.stop_requested,
            final(self)@.stop_requested,
            final(self)@.status.terminal(),
            final(self)@.valid(),
    {
        proof {
            use_type_invariant(&*self);
        }
        if self.stop_requested {
            false
        } else {
            let status = if self.status.is_stopped() {
                self.status
            } else {
                match poll {
                    ExitPoll::NotExited => CommandStatus::ForciblyTerminated,
                    ExitPoll::Exited { success } => if success {
                        CommandStatus::ExitedOk
                    } else {
                        CommandStatus::ExitedError
                    },
                }
            };
            self.status = status;
            self.stop_requested = true;
            true
        }
    }

    /// Answers a query for the status like `get_status`, asking `probe`
    /// for the input pipe, and only where the process has not exited.
    /// Whatever the probe says, the stored status is as after
    /// `get_status`, and the answer is the stored status or, for a
    /// process that is alive, `WaitingForInput`.
    pub fn get_status_with<P: ReadinessProbe>(&mut self, poll: ExitPoll, probe: &P) -> (status:
        CommandStatus)
        ensures
            final(self)@ == after_query(old(self)@, poll),
            status == reported(final(self)@.status, false) || status == reported(
                final(self)@.status,
                true,
            ),
    {
        let stored = self.get_status(poll, false);
        if stored.is_running() {
            let writable = probe.is_writable();
            self.get_status(ExitPoll::NotExited, writable)
        } else {
            stored
        }
    }
}

/// The status of a runner that may have no process yet.  Without one the
/// answer is an error with the message `not_initialized`; with one it is
/// the answer of `Lifecycle::get_status`.
pub fn check_status(lifecycle: &mut Option<Lifecycle>, poll: ExitPoll, stdin_writable: bool) -> (answer:
    Result<CommandStatus, String>)
    ensures
        *old(lifecycle) is None ==> *final(lifecycle) is None && answer is Err && answer->Err_0@
            == not_initialized(),
        *old(lifecycle) is Some ==> *final(lifecycle) is Some && (*final(lifecycle))->0@
            == after_query((*old(lifecycle))->0@, poll) && answer == Ok::<CommandStatus, String>(
            reported((*final(lifecycle))->0@.status, stdin_writable),
        ),
{
    match lifecycle {
        Some(running) => Ok(running.get_status(poll, stdin_writable)),
        None => Err(String::from_str("Child process is not initialized yet.")),
    }
}

/// Every state that can be reached from a valid one is valid, and the
/// initial state is.
pub proof fn lemma_valid_is_kept(state: LifecycleState, events: Seq<LifecycleEvent>)
    requires
        state.valid(),
    ensures
        LifecycleState::initial().valid(),
        after_events(state, events).valid(),
    decreases events.len(),
{
    if events.len() > 0 {
        lemma_valid_is_kept(after_event(state, events[0]), events.skip(1));
    }
}

/// Right after the process was spawned the status is `Running`: a query
/// that finds the process alive, with an input pipe that is not reported
/// writable, is answered so.
pub proof fn lemma_starts_running()
    ensures
        LifecycleState::initial().status == CommandStatus::Running,
        seen_after(
            LifecycleState::initial(),
            LifecycleEvent::Query { poll: ExitPoll::NotExited, stdin_writable: false },
        ) == CommandStatus::Running,
{
}

/// A process that is alive is reported as `Running` or, where its input
/// pipe has room, as `WaitingForInput`; one that has exited is reported as
/// neither.
pub proof fn lemma_waiting_only_while_alive(state: LifecycleState, poll: ExitPoll, stdin_writable: bool)
    requires
        state.valid(),
    ensures
        poll is Exited ==> seen_after(state, LifecycleEvent::Query { poll, stdin_writable }).terminal(),
        seen_after(state, LifecycleEvent::Query { poll, stdin_writable })
            == CommandStatus::WaitingForInput ==> poll is NotExited && stdin_writable
            && !state.stop_requested,
{
}

/// A terminal status never reverts.  Whatever is asked or polled after it
/// was latched, in whatever order, the stored status stays what it was, and
/// it is what the caller sees after each event.
pub proof fn lemma_terminal_status_is_permanent(state: LifecycleState, events: Seq<LifecycleEvent>)
    requires
        state.status.terminal(),
    ensures
        after_events(state, events).status == state.status,
        forall|k: int|
            0 <= k < events.len() ==> seen_after(
                after_events(state, #[trigger] events.take(k)),
                events[k],
            ) == state.status,
    decreases events.len(),
{
    if events.len() > 0 {
        lemma_terminal_status_is_permanent(after_event(state, events[0]), events.skip(1));
    }
    assert forall|k: int| 0 <= k < events.len() implies seen_after(
        after_events(state, #[trigger] events.take(k)),
        events[k],
    ) == state.status by {
        lemma_terminal_status_stays(state, events.take(k));
    }
}

/// The stored status after a run of events that starts from a terminal
/// status is that status.
proof fn lemma_terminal_status_stays(state: LifecycleState, events: Seq<LifecycleEvent>)
    requires
        state.status.terminal(),
    ensures
        after_events(state, events).status == state.status,
    decreases events.len(),
{
    if events.len() > 0 {
        lemma_terminal_status_stays(after_event(state, events[0]), events.skip(1));
    }
}

/// The first query that finds the process exited with code zero is
/// answered `ExitedOk`, and so is seen after every later event.
pub proof fn lemma_zero_exit_is_exited_ok(
    state: LifecycleState,
    stdin_writable: bool,
    later: Seq<LifecycleEvent>,
)
    requires
        !state.status.terminal(),
    ensures
        ({
            let poll = poll_of(WaitOutcome::Exited { code: Some(0i32) });
            let query = LifecycleEvent::Query { poll, stdin_writable };
            &&& seen_after(state, query) == CommandStatus::ExitedOk
            &&& after_events(after_event(state, query), later).status == CommandStatus::ExitedOk
            &&& forall|k: int|
                0 <= k < later.len() ==> seen_after(
                    after_events(after_event(state, query), #[trigger] later.take(k)),
                    later[k],
                ) == CommandStatus::ExitedOk
        }),
{
    let poll = poll_of(WaitOutcome::Exited { code: Some(0i32) });
    let query = LifecycleEvent::Query { poll, stdin_writable };
    lemma_terminal_status_is_permanent(after_event(state, query), later);
}

/// The first query that finds the process exited with a code other than
/// zero, or ended by a signal, is answered `ExitedError`, and so is seen
/// after every later event.
pub proof fn lemma_failed_exit_is_exited_error(
    state: LifecycleState,
    code: Option<i32>,
    stdin_writable: bool,
    later: Seq<LifecycleEvent>,
)
    requires
        !state.status.terminal(),
        code != Some(0i32),
    ensures
        ({
            let poll = poll_of(WaitOutcome::Exited { code });
            let query = LifecycleEvent::Query { poll, stdin_writable };
            &&& seen_after(state, query) == CommandStatus::ExitedError
            &&& after_events(after_event(state, query), later).status == CommandStatus::ExitedError
            &&& forall|k: int|
                0 <= k < later.len() ==> seen_after(
                    after_events(after_event(state, query), #[trigger] later.take(k)),
                    later[k],
                ) == CommandStatus::ExitedError
        }),
{
    let poll = poll_of(WaitOutcome::Exited { code });
    let query = LifecycleEvent::Query { poll, stdin_writable };
    lemma_terminal_status_is_permanent(after_event(state, query), later);
}

/// Terminating twice is terminating once, and terminating after an exit
/// was latched leaves the latched status: it is not turned into
/// `ForciblyTerminated`.
pub proof fn lemma_terminate_is_safe_to_repeat(state: LifecycleState, first: ExitPoll, second: ExitPoll)
    ensures
        after_terminate(after_terminate(state, first), second) == after_terminate(state, first),
        state.status.terminal() ==> after_terminate(state, first).status == state.status,
        state.status.terminal() ==> after_terminate(after_terminate(state, first), second).status
            == state.status,
{
}

/// Terminating a process that is alive and has no terminal status makes
/// the status `ForciblyTerminated`, and so it is seen after every later
/// event.
pub proof fn lemma_forced_end_is_latched(state: LifecycleState, later: Seq<LifecycleEvent>)
    requires
        state.valid(),
        !state.status.terminal(),
    ensures
        ({
            let end = LifecycleEvent::Terminate { poll: ExitPoll::NotExited };
            &&& seen_after(state, end) == CommandStatus::ForciblyTerminated
            &&& after_events(after_event(state, end), later).status
                == CommandStatus::ForciblyTerminated
            &&& forall|k: int|
                0 <= k < later.len() ==> seen_after(
                    after_events(after_event(state, end), #[trigger] later.take(k)),
                    later[k],
                ) == CommandStatus::ForciblyTerminated
        }),
{
    let end = LifecycleEvent::Terminate { poll: ExitPoll::NotExited };
    lemma_terminal_status_is_permanent(after_event(state, end), later);
}

/// The process is shut down at most once: among any run of events at most
/// one call for termination takes effect, and none does once termination
/// was requested.
pub proof fn lemma_shutdown_at_most_once(state: LifecycleState, events: Seq<LifecycleEvent>)
    ensures
        shutdowns(state, events) <= 1,
        state.stop_requested ==> shutdowns(state, events) == 0,
        after_events(state, events).stop_requested == (state.stop_requested || shutdowns(
            state,
            events,
        ) == 1),
    decreases events.len(),
{
    if events.len() > 0 {
        lemma_shutdown_at_most_once(after_event(state, events[0]), events.skip(1));
    }
}

} // verus!
