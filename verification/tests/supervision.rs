use codeexec::supervisor::outcome_of;
use codeexec::supervisor::resolve_wait;
use codeexec::supervisor::ExecOutcome;
use codeexec::supervisor::SupervisorAction;
use codeexec::supervisor::SupervisorState;
use codeexec::supervisor::WaitEvent;

#[test]
fn natural_exit_completes_and_drains() {
    let (state, action) = resolve_wait(WaitEvent::Exited { code: Some(0) });
    assert!(matches!(state, SupervisorState::Completed { code: Some(0) }));
    assert!(matches!(action, SupervisorAction::DrainStreams));
}

#[test]
fn expiry_kills_the_child() {
    let (state, action) = resolve_wait(WaitEvent::Expired);
    assert!(matches!(state, SupervisorState::KilledOnTimeout));
    assert!(matches!(action, SupervisorAction::KillChild));
}

#[test]
fn wait_failure_kills_the_child() {
    let (state, action) = resolve_wait(WaitEvent::WaitFailed { error: "wait failed".to_string() });
    assert!(matches!(state, SupervisorState::KilledOnError { .. }));
    assert!(matches!(action, SupervisorAction::KillChild));
}

#[test]
fn every_event_accounts_for_the_child() {
    let events = vec![
        WaitEvent::Exited { code: Some(1) },
        WaitEvent::Exited { code: None },
        WaitEvent::WaitFailed { error: "gone".to_string() },
        WaitEvent::Expired,
    ];
    for ev in events {
        let reaped_by_wait = matches!(ev, WaitEvent::Exited { .. });
        let (state, action) = resolve_wait(ev);
        assert!(!matches!(state, SupervisorState::Awaiting));
        assert!(reaped_by_wait || matches!(action, SupervisorAction::KillChild));
    }
}

#[test]
fn completed_state_yields_exited_outcome() {
    let o = outcome_of(
        SupervisorState::Completed { code: Some(2) },
        b"out".to_vec(),
        b"err".to_vec(),
    );
    match o {
        ExecOutcome::Exited { code, stdout, stderr } => {
            assert_eq!(code, Some(2));
            assert_eq!(stdout, b"out".to_vec());
            assert_eq!(stderr, b"err".to_vec());
        },
        _ => panic!("expected an exited outcome"),
    }
}

#[test]
fn killed_states_yield_timeout_and_failure_outcomes() {
    let t = outcome_of(SupervisorState::KilledOnTimeout, Vec::new(), Vec::new());
    assert!(matches!(t, ExecOutcome::TimedOut));
    let e = outcome_of(
        SupervisorState::KilledOnError { error: "wait failed".to_string() },
        Vec::new(),
        Vec::new(),
    );
    match e {
        ExecOutcome::IoFailure { message } => assert_eq!(message, "wait failed"),
        _ => panic!("expected an i/o failure outcome"),
    }
}
