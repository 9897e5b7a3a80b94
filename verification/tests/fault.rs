use rtl_action::action::ExitKind;
use rtl_action::fault::{must_abort, severity, Fault, FaultSeverity};

#[test]
fn fault_severities() {
    assert_eq!(severity(&Fault::DecoderUnavailable), FaultSeverity::Fatal);
    assert_eq!(severity(&Fault::DecoderStreamUnreadable), FaultSeverity::Fatal);
    assert_eq!(severity(&Fault::EventDecodeFailure), FaultSeverity::Fatal);
    assert_eq!(severity(&Fault::ListenerBindFailure), FaultSeverity::Fatal);
    assert_eq!(severity(&Fault::ActionSpawnFailure), FaultSeverity::Recoverable);
    assert_eq!(severity(&Fault::ActionPidUnavailable), FaultSeverity::Recoverable);
    assert_eq!(
        severity(&Fault::ProcessEnded(ExitKind::ExitedWithCode(2))),
        FaultSeverity::Advisory
    );
    assert_eq!(severity(&Fault::PidCollision), FaultSeverity::InvariantViolation);
}

#[test]
fn fault_propagation() {
    assert!(must_abort(&Fault::EventDecodeFailure));
    assert!(must_abort(&Fault::PidCollision));
    assert!(!must_abort(&Fault::ActionSpawnFailure));
    assert!(!must_abort(&Fault::ProcessEnded(ExitKind::KilledBySignal(15))));
}
