use vstd::prelude::*;

verus! {

/// How the race between the child's natural exit and the caller's deadline
/// resolved, as seen by the supervisor of one child.
pub enum WaitEvent {
    /// The child exited on its own; `code` is its exit code, or `None` when
    /// there is none to read (the child was ended by a signal).
    Exited { code: Option<i32> },
    /// The wait operation itself failed in the host OS.
    WaitFailed { error: String },
    /// The caller's deadline expired before the child exited.
    Expired,
}

/// What the supervisor must do next after the wait resolved.
pub enum SupervisorAction {
    /// Collect the child's output and diagnostic streams to completion.
    DrainStreams,
    /// Forcibly terminate the child, best effort: it may already be gone.
    KillChild,
}

/// The lifecycle of one supervised child.
pub enum SupervisorState {
    /// The race between exit and deadline is still running.
    Awaiting,
    /// The child exited on its own and was reaped by the wait.
    Completed { code: Option<i32> },
    /// The deadline expired; the child is killed, its output discarded.
    KilledOnTimeout,
    /// The wait failed in the host OS; the child is killed.
    KilledOnError { error: String },
}

impl SupervisorState {
    pub open spec fn is_terminal(self) -> bool {
        !(self is Awaiting)
    }
}

/// The supervisor's whole decision: the terminal state and the action that
/// each wait event commands.
pub open spec fn spec_resolve_wait(ev: WaitEvent) -> (SupervisorState, SupervisorAction) {
    match ev {
        WaitEvent::Exited { code } => (
            SupervisorState::Completed { code },
            SupervisorAction::DrainStreams,
        ),
        WaitEvent::WaitFailed { error } => (
            SupervisorState::KilledOnError { error },
            SupervisorAction::KillChild,
        ),
        WaitEvent::Expired => (SupervisorState::KilledOnTimeout, SupervisorAction::KillChild),
    }
}

/// Resolves the race between the child's exit and the deadline: a natural
/// exit completes the supervision; a wait failure or an expired deadline
/// commands an unconditional kill before anything is reported.
pub fn resolve_wait(ev: WaitEvent) -> (r: (SupervisorState, SupervisorAction))
    ensures
        r == spec_resolve_wait(ev),
{
    match ev {
        WaitEvent::Exited { code } => (
            SupervisorState::Completed { code },
            SupervisorAction::DrainStreams,
        ),
        WaitEvent::WaitFailed { error } => (
            SupervisorState::KilledOnError { error },
            SupervisorAction::KillChild,
        ),
        WaitEvent::Expired => (SupervisorState::KilledOnTimeout, SupervisorAction::KillChild),
    }
}

/// The terminal classification of one execution attempt.
pub enum ExecOutcome {
    /// The child exited; its streams were drained whatever the code was, so
    /// diagnostics are available on a non-zero exit too.
    Exited { code: Option<i32>, stdout: Vec<u8>, stderr: Vec<u8> },
    /// The deadline expired; no partial output is reported.
    TimedOut,
    /// Spawning, waiting, or stream plumbing failed in the host OS.
    IoFailure { message: String },
    /// Captured bytes could not be decoded where strict decoding was asked.
    DecodeFailure { message: String },
}

/// The outcome of one supervised execution, from the supervisor's terminal
/// state and the streams drained after the wait resolved.
pub fn outcome_of(state: SupervisorState, stdout: Vec<u8>, stderr: Vec<u8>) -> (r: ExecOutcome)
    requires
        state.is_terminal(),
    ensures
        state matches SupervisorState::Completed { code } ==> (r matches ExecOutcome::Exited {
            code: c,
            stdout: so,
            stderr: se,
        } && c == code && so@ == stdout@ && se@ == stderr@),
        state is KilledOnTimeout ==> r is TimedOut,
        state matches SupervisorState::KilledOnError { error } ==> (r
            matches ExecOutcome::IoFailure { message } && message@ == error@),
{
    match state {
        SupervisorState::Awaiting => vstd::pervasive::unreached(),
        SupervisorState::Completed { code } => ExecOutcome::Exited { code, stdout, stderr },
        SupervisorState::KilledOnTimeout => ExecOutcome::TimedOut,
        SupervisorState::KilledOnError { error } => ExecOutcome::IoFailure { message: error },
    }
}

/// Law: however the wait resolves, the supervisor reaches a terminal state in
/// which the child is accounted for: either its exit was collected by the
/// wait itself, or the commanded action is a forced kill. No child is left
/// running, and none is left unreaped, when the supervision resolves.
pub proof fn lemma_child_never_leaked(ev: WaitEvent)
    ensures
        spec_resolve_wait(ev).0.is_terminal(),
        spec_resolve_wait(ev).0 is Completed <==> ev is Exited,
        !(ev is Exited) ==> spec_resolve_wait(ev).1 is KillChild,
{
}

} // verus!
