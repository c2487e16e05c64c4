use channel_acceptor::supervisor::{
    RETRY_DELAY_SECS, SessionEvent, SupervisorAction, SupervisorState, supervisor_step,
};

#[test]
fn opened_stream_starts_the_session() {
    let (state, action) = supervisor_step(SupervisorState::Connecting, SessionEvent::StreamOpened);
    assert_eq!(state, SupervisorState::Running);
    assert_eq!(action, SupervisorAction::RunSession);
}

#[test]
fn establishment_failure_backs_off_for_the_fixed_delay() {
    let (state, action) = supervisor_step(SupervisorState::Connecting, SessionEvent::ConnectFailed);
    assert_eq!(state, SupervisorState::Backoff);
    assert_eq!(action, SupervisorAction::Wait(RETRY_DELAY_SECS));
    assert_eq!(RETRY_DELAY_SECS, 5);
}

#[test]
fn session_end_backs_off_then_reconnects() {
    let (state, action) = supervisor_step(SupervisorState::Running, SessionEvent::SessionEnded);
    assert_eq!(state, SupervisorState::Backoff);
    assert_eq!(action, SupervisorAction::Wait(RETRY_DELAY_SECS));

    let (state, action) = supervisor_step(state, SessionEvent::DelayElapsed);
    assert_eq!(state, SupervisorState::Connecting);
    assert_eq!(action, SupervisorAction::OpenStream);
}

#[test]
fn retries_never_stop() {
    let mut state = SupervisorState::Connecting;
    for _ in 0..100 {
        let (s, action) = supervisor_step(state, SessionEvent::ConnectFailed);
        assert_eq!(action, SupervisorAction::Wait(RETRY_DELAY_SECS));
        let (s, action) = supervisor_step(s, SessionEvent::DelayElapsed);
        assert_eq!(action, SupervisorAction::OpenStream);
        state = s;
    }
    assert_eq!(state, SupervisorState::Connecting);
}

#[test]
fn out_of_protocol_event_keeps_the_state() {
    let (state, action) = supervisor_step(SupervisorState::Backoff, SessionEvent::StreamOpened);
    assert_eq!(state, SupervisorState::Backoff);
    assert_eq!(action, SupervisorAction::Wait(RETRY_DELAY_SECS));
}
