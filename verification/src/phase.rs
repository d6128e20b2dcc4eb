//! The phase of one pipeline run, observed by the interface layer and
//! written only by the pipeline itself.
//!
//! A run moves `Idle -> Sending -> Streaming -> Done`; any non-terminal
//! state may fall to `Error` with a human-readable message.  `Done` and
//! `Error` are terminal: only a fresh submission leaves them, back to
//! `Sending`.

use vstd::prelude::*;

verus! {

/// The status of one run.
pub enum Phase {
    /// No run has started.
    Idle,
    /// The prompt has been submitted; the stream is not open yet.
    Sending,
    /// The push stream is open and tokens are arriving.
    Streaming,
    /// The run finished: the sentinel was seen or the stream closed.
    Done,
    /// The run failed; the message says why.
    Error(String),
}

/// What happens to a run and may move its phase.
pub enum RunEvent {
    /// A new prompt was submitted.
    Submitted,
    /// The push stream was opened.
    StreamOpened,
    /// The sentinel arrived, or the stream closed.
    SentinelOrClose,
    /// An unrecoverable failure, with its message.
    Failed(String),
}

/// A phase from which the run cannot move on by itself.
pub open spec fn is_terminal(p: Phase) -> bool {
    p is Done || p is Error
}

/// How far along a run the phase stands; terminal phases are furthest.
pub open spec fn rank(p: Phase) -> int {
    match p {
        Phase::Idle => 0,
        Phase::Sending => 1,
        Phase::Streaming => 2,
        Phase::Done => 3,
        Phase::Error(_) => 3,
    }
}

/// The transition table of one run.
pub open spec fn step_spec(p: Phase, e: RunEvent) -> Phase {
    match e {
        RunEvent::Submitted => if p is Idle || is_terminal(p) {
            Phase::Sending
        } else {
            p
        },
        RunEvent::StreamOpened => if p is Sending {
            Phase::Streaming
        } else {
            p
        },
        RunEvent::SentinelOrClose => if p is Streaming {
            Phase::Done
        } else {
            p
        },
        RunEvent::Failed(m) => if is_terminal(p) {
            p
        } else {
            Phase::Error(m)
        },
    }
}

/// Applies one event to the phase of a run, following the transition table:
/// submission starts a run from `Idle` or restarts one from a terminal
/// phase; opening the stream moves `Sending` to `Streaming`; the sentinel
/// or a close moves `Streaming` to `Done`; a failure moves any non-terminal
/// phase to `Error` with its message.  Every other pairing leaves the phase
/// unchanged.
pub fn step(p: Phase, e: RunEvent) -> (q: Phase)
    ensures
        q == step_spec(p, e),
{
    match e {
        RunEvent::Submitted => match p {
            Phase::Idle => Phase::Sending,
            Phase::Done => Phase::Sending,
            Phase::Error(_) => Phase::Sending,
            _ => p,
        },
        RunEvent::StreamOpened => match p {
            Phase::Sending => Phase::Streaming,
            _ => p,
        },
        RunEvent::SentinelOrClose => match p {
            Phase::Streaming => Phase::Done,
            _ => p,
        },
        RunEvent::Failed(m) => match p {
            Phase::Done => Phase::Done,
            Phase::Error(prev) => Phase::Error(prev),
            _ => Phase::Error(m),
        },
    }
}

/// Within one run, phases only move forward: no event but a fresh
/// submission can lower the phase's progress, so a stream never regresses
/// to `Sending` and a terminal phase is left only by submitting again.
pub proof fn lemma_phase_monotonic(p: Phase, e: RunEvent)
    requires
        !(e is Submitted),
    ensures
        rank(step_spec(p, e)) >= rank(p),
        is_terminal(p) ==> step_spec(p, e) == p,
{
}

} // verus!
