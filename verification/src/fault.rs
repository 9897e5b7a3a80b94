//! The closed classification of everything that can go wrong, and what each
//! condition does to the pipeline.
//!
//! Fatal conditions unwind to the top and end the run; recoverable ones are
//! logged and the intake loop continues with the next event; advisory ones
//! are only ever logged; an invariant violation signals a broken lifecycle
//! assumption and aborts, since it is a programming-level fault rather than
//! an expected runtime condition.

use vstd::prelude::*;
use crate::action::ExitKind;

verus! {

/// How a condition propagates.
#[derive(Clone, Copy, Debug, PartialEq, Eq, Structural)]
pub enum FaultSeverity {
    /// Ends the run with a nonzero exit after best-effort cleanup.
    Fatal,
    /// Logged; the pipeline continues with the next event.
    Recoverable,
    /// Logged descriptively; never propagated as a pipeline failure.
    Advisory,
    /// A broken lifecycle assumption: aborts the process.
    InvariantViolation,
}

/// Every condition the pipeline distinguishes, with its structured context.
#[derive(Clone, Copy, Debug, PartialEq, Eq, Structural)]
pub enum Fault {
    /// The external decoder could not be started.
    DecoderUnavailable,
    /// The decoder's output stream could not be read.
    DecoderStreamUnreadable,
    /// A line of decoder output failed to decode as an event.
    EventDecodeFailure,
    /// The notification listener failed to bind.
    ListenerBindFailure,
    /// An action child process could not be spawned.
    ActionSpawnFailure,
    /// A spawned action's process identifier could not be obtained; the
    /// process keeps running unsupervised.
    ActionPidUnavailable,
    /// A supervised process ended; how is recorded alongside.
    ProcessEnded(ExitKind),
    /// A process identifier was already present in the action mapping at
    /// insertion time.
    PidCollision,
}

/// The severity of each condition.
pub open spec fn severity_spec(f: Fault) -> FaultSeverity {
    match f {
        Fault::DecoderUnavailable => FaultSeverity::Fatal,
        Fault::DecoderStreamUnreadable => FaultSeverity::Fatal,
        Fault::EventDecodeFailure => FaultSeverity::Fatal,
        Fault::ListenerBindFailure => FaultSeverity::Fatal,
        Fault::ActionSpawnFailure => FaultSeverity::Recoverable,
        Fault::ActionPidUnavailable => FaultSeverity::Recoverable,
        Fault::ProcessEnded(_) => FaultSeverity::Advisory,
        Fault::PidCollision => FaultSeverity::InvariantViolation,
    }
}

/// Whether a condition ends the whole process: fatal errors unwind to the
/// top, and an invariant violation aborts; recoverable and advisory
/// conditions never unwind past the component that detects them.
pub open spec fn ends_the_run(f: Fault) -> bool {
    severity_spec(f) is Fatal || severity_spec(f) is InvariantViolation
}

pub fn severity(f: &Fault) -> (s: FaultSeverity)
    ensures
        s == severity_spec(*f),
{
    match f {
        Fault::DecoderUnavailable => FaultSeverity::Fatal,
        Fault::DecoderStreamUnreadable => FaultSeverity::Fatal,
        Fault::EventDecodeFailure => FaultSeverity::Fatal,
        Fault::ListenerBindFailure => FaultSeverity::Fatal,
        Fault::ActionSpawnFailure => FaultSeverity::Recoverable,
        Fault::ActionPidUnavailable => FaultSeverity::Recoverable,
        Fault::ProcessEnded(_) => FaultSeverity::Advisory,
        Fault::PidCollision => FaultSeverity::InvariantViolation,
    }
}

/// Whether a detected condition must end the run.
pub fn must_abort(f: &Fault) -> (r: bool)
    ensures
        r == ends_the_run(*f),
{
    matches!(severity(f), FaultSeverity::Fatal | FaultSeverity::InvariantViolation)
}

} // verus!
