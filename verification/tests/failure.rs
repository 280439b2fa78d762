use wg_commands::failure::{
    attempt_number, exit_fallback_class, fallback_reason, records_failure, FailureClass,
    FailureReason, TerminalStreamState,
};

#[test]
fn exit_codes_classify_the_failure() {
    assert_eq!(exit_fallback_class(124), FailureClass::AgentHardTimeout);
    assert_eq!(exit_fallback_class(1), FailureClass::AgentExitNonzero);
    assert_eq!(fallback_reason(FailureClass::ApiError429RateLimit), FailureReason::RateLimit);
    assert_eq!(fallback_reason(FailureClass::ApiError5xxTransient), FailureReason::Transient5xx);
    assert_eq!(fallback_reason(FailureClass::AgentHardTimeout), FailureReason::HardTimeout);
    assert_eq!(fallback_reason(FailureClass::ResourceExhaustedDisk), FailureReason::Disk);
    assert_eq!(fallback_reason(FailureClass::Other), FailureReason::Unknown);
}

#[test]
fn finished_streams_and_clean_exits_record_nothing() {
    assert!(!records_failure(Some(TerminalStreamState::Completed), 1, FailureReason::Hard));
    assert!(!records_failure(Some(TerminalStreamState::Ambiguous), 1, FailureReason::Hard));
    assert!(!records_failure(None, 0, FailureReason::Unknown));
    assert!(records_failure(None, 0, FailureReason::RateLimit));
    assert!(records_failure(Some(TerminalStreamState::Other), 2, FailureReason::Unknown));
}

#[test]
fn attempt_numbers() {
    assert_eq!(attempt_number(true, 0), 1);
    assert_eq!(attempt_number(true, 3), 3);
    assert_eq!(attempt_number(false, 3), 4);
    assert_eq!(attempt_number(false, u32::MAX), u32::MAX);
}
