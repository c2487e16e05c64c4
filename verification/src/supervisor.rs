//! The stream supervisor: the retry state machine that keeps a session's
//! underlying stream alive for the lifetime of the process. Establishment
//! failures and session terminations lead to a fixed-delay backoff, after
//! which the supervisor reconnects unconditionally; there is no terminal
//! state, no retry limit and no escalation.

use vstd::prelude::*;

verus! {

/// Fixed delay, in seconds, between a session ending and the next
/// connection attempt.
pub const RETRY_DELAY_SECS: u64 = 5;

/// The supervisor's state between two events of its driver.
#[derive(PartialEq, Eq, Structural, Clone, Copy, Debug)]
pub enum SupervisorState {
    /// A connection attempt for the underlying stream is outstanding.
    Connecting,
    /// The stream is open and the session loop is running.
    Running,
    /// The last stream ended; the fixed delay is being waited out.
    Backoff,
}

/// What the driver reports back to the supervisor.
#[derive(PartialEq, Eq, Structural, Clone, Copy, Debug)]
pub enum SessionEvent {
    /// The stream opened; the session loop may start.
    StreamOpened,
    /// The stream could not be established.
    ConnectFailed,
    /// The running session's loop ended, normally or on a fatal error.
    SessionEnded,
    /// The backoff delay has fully elapsed.
    DelayElapsed,
}

/// What the driver is to do next.
#[derive(PartialEq, Eq, Structural, Clone, Copy, Debug)]
pub enum SupervisorAction {
    /// Attempt to open the underlying stream.
    OpenStream,
    /// Run the session loop on the open stream.
    RunSession,
    /// Sleep for the given number of seconds, then report `DelayElapsed`.
    Wait(u64),
}

/// The events a state can meet when the driver follows the actions it is
/// handed.
pub open spec fn event_fits(state: SupervisorState, event: SessionEvent) -> bool {
    match event {
        SessionEvent::StreamOpened => state is Connecting,
        SessionEvent::ConnectFailed => state is Connecting,
        SessionEvent::SessionEnded => state is Running,
        SessionEvent::DelayElapsed => state is Backoff,
    }
}

/// The transition relation. A stream that opens starts the session; any
/// ending — establishment failure or session termination — backs off for the
/// fixed delay; an elapsed delay reconnects unconditionally. An event that
/// its protocol cannot deliver in the current state leaves the state as it
/// stands and repeats its standing action.
pub open spec fn spec_supervisor_step(state: SupervisorState, event: SessionEvent) -> (
    SupervisorState,
    SupervisorAction,
) {
    if event_fits(state, event) {
        match event {
            SessionEvent::StreamOpened => (
                SupervisorState::Running,
                SupervisorAction::RunSession,
            ),
            SessionEvent::ConnectFailed => (
                SupervisorState::Backoff,
                SupervisorAction::Wait(RETRY_DELAY_SECS),
            ),
            SessionEvent::SessionEnded => (
                SupervisorState::Backoff,
                SupervisorAction::Wait(RETRY_DELAY_SECS),
            ),
            SessionEvent::DelayElapsed => (
                SupervisorState::Connecting,
                SupervisorAction::OpenStream,
            ),
        }
    } else {
        (state, standing_action(state))
    }
}

/// The action a state asks of its driver while no event intervenes.
pub open spec fn standing_action(state: SupervisorState) -> SupervisorAction {
    match state {
        SupervisorState::Connecting => SupervisorAction::OpenStream,
        SupervisorState::Running => SupervisorAction::RunSession,
        SupervisorState::Backoff => SupervisorAction::Wait(RETRY_DELAY_SECS),
    }
}

/// Advance the supervisor by one reported event.
pub fn supervisor_step(state: SupervisorState, event: SessionEvent) -> (r: (
    SupervisorState,
    SupervisorAction,
))
    ensures
        r == spec_supervisor_step(state, event),
{
    match event {
        SessionEvent::StreamOpened => {
            if let SupervisorState::Connecting = state {
                (SupervisorState::Running, SupervisorAction::RunSession)
            } else {
                (state, standing_action_of(state))
            }
        },
        SessionEvent::ConnectFailed => {
            if let SupervisorState::Connecting = state {
                (SupervisorState::Backoff, SupervisorAction::Wait(RETRY_DELAY_SECS))
            } else {
                (state, standing_action_of(state))
            }
        },
        SessionEvent::SessionEnded => {
            if let SupervisorState::Running = state {
                (SupervisorState::Backoff, SupervisorAction::Wait(RETRY_DELAY_SECS))
            } else {
                (state, standing_action_of(state))
            }
        },
        SessionEvent::DelayElapsed => {
            if let SupervisorState::Backoff = state {
                (SupervisorState::Connecting, SupervisorAction::OpenStream)
            } else {
                (state, standing_action_of(state))
            }
        },
    }
}

/// Executable form of `standing_action`.
pub fn standing_action_of(state: SupervisorState) -> (a: SupervisorAction)
    ensures
        a == standing_action(state),
{
    match state {
        SupervisorState::Connecting => SupervisorAction::OpenStream,
        SupervisorState::Running => SupervisorAction::RunSession,
        SupervisorState::Backoff => SupervisorAction::Wait(RETRY_DELAY_SECS),
    }
}

/// The answers of a run: the state and action after each event of a trace.
pub open spec fn supervisor_trace(state: SupervisorState, events: Seq<SessionEvent>) -> Seq<
    (SupervisorState, SupervisorAction),
>
    decreases events.len(),
{
    if events.len() == 0 {
        Seq::empty()
    } else {
        let first = spec_supervisor_step(state, events[0]);
        seq![first] + supervisor_trace(first.0, events.drop_first())
    }
}

/// A run is well-driven when each event fits the state it meets.
pub open spec fn well_driven(state: SupervisorState, events: Seq<SessionEvent>) -> bool
    decreases events.len(),
{
    events.len() == 0 || (event_fits(state, events[0]) && well_driven(
        spec_supervisor_step(state, events[0]).0,
        events.drop_first(),
    ))
}

/// The supervisor answers every event of every run: there is no terminal
/// state and no attempt-count ceiling.
pub proof fn lemma_supervisor_total(state: SupervisorState, events: Seq<SessionEvent>)
    ensures
        supervisor_trace(state, events).len() == events.len(),
    decreases events.len(),
{
    if events.len() != 0 {
        lemma_supervisor_total(spec_supervisor_step(state, events[0]).0, events.drop_first());
    }
}

/// Liveness of the retry loop: in a well-driven run, every stream ending —
/// establishment failure or session termination — is answered by the fixed
/// backoff delay, and every elapsed delay by a new connection attempt.
pub proof fn lemma_supervisor_liveness(state: SupervisorState, events: Seq<SessionEvent>, i: int)
    requires
        well_driven(state, events),
        0 <= i < events.len(),
    ensures
        supervisor_trace(state, events).len() == events.len(),
        events[i] == SessionEvent::ConnectFailed || events[i] == SessionEvent::SessionEnded
            ==> supervisor_trace(state, events)[i] == (
            SupervisorState::Backoff,
            SupervisorAction::Wait(RETRY_DELAY_SECS),
        ),
        events[i] == SessionEvent::DelayElapsed ==> supervisor_trace(state, events)[i] == (
            SupervisorState::Connecting,
            SupervisorAction::OpenStream,
        ),
    decreases events.len(),
{
    lemma_supervisor_total(state, events);
    let next = spec_supervisor_step(state, events[0]);
    lemma_supervisor_total(next.0, events.drop_first());
    if i > 0 {
        lemma_supervisor_liveness(next.0, events.drop_first(), i - 1);
    }
}

} // verus!
