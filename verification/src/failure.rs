//! Failure telemetry decisions: the fallback class and reason of a failed
//! agent run, whether a run records a failure signal, and its attempt
//! number.
use vstd::prelude::*;

verus! {

/// The failure classes this module decides between; `Other` stands for the
/// rest of the classifier's classes.
#[derive(Debug, Clone, Copy, PartialEq, Eq, Structural)]
pub enum FailureClass {
    ApiError429RateLimit,
    ApiError5xxTransient,
    ApiError400Document,
    ExecutorConfig,
    AgentHardTimeout,
    ResourceExhaustedDisk,
    AgentExitNonzero,
    Other,
}

#[derive(Debug, Clone, Copy, PartialEq, Eq, Structural)]
pub enum FailureReason {
    RateLimit,
    Transient5xx,
    Hard,
    HardTimeout,
    Disk,
    Unknown,
}

/// How the classifier's reading of a finished stream ends; `Other` stands
/// for the failing states.
#[derive(Debug, Clone, Copy, PartialEq, Eq, Structural)]
pub enum TerminalStreamState {
    Completed,
    FinalizationBlocked,
    Ambiguous,
    Other,
}

/// Without a stream to read: exit code 124 (the timeout wrapper's) is a
/// hard timeout, any other a non-zero exit.
pub fn exit_fallback_class(exit_code: i32) -> (c: FailureClass)
    ensures
        c == if exit_code == 124 {
            FailureClass::AgentHardTimeout
        } else {
            FailureClass::AgentExitNonzero
        },
{
    if exit_code == 124 {
        FailureClass::AgentHardTimeout
    } else {
        FailureClass::AgentExitNonzero
    }
}

pub open spec fn reason_spec(c: FailureClass) -> FailureReason {
    match c {
        FailureClass::ApiError429RateLimit => FailureReason::RateLimit,
        FailureClass::ApiError5xxTransient => FailureReason::Transient5xx,
        FailureClass::ApiError400Document => FailureReason::Hard,
        FailureClass::ExecutorConfig => FailureReason::Hard,
        FailureClass::AgentHardTimeout => FailureReason::HardTimeout,
        FailureClass::ResourceExhaustedDisk => FailureReason::Disk,
        _ => FailureReason::Unknown,
    }
}

/// The reason a fallback signal gives for a class.
pub fn fallback_reason(c: FailureClass) -> (r: FailureReason)
    ensures
        r == reason_spec(c),
{
    match c {
        FailureClass::ApiError429RateLimit => FailureReason::RateLimit,
        FailureClass::ApiError5xxTransient => FailureReason::Transient5xx,
        FailureClass::ApiError400Document => FailureReason::Hard,
        FailureClass::ExecutorConfig => FailureReason::Hard,
        FailureClass::AgentHardTimeout => FailureReason::HardTimeout,
        FailureClass::ResourceExhaustedDisk => FailureReason::Disk,
        _ => FailureReason::Unknown,
    }
}

/// Completed, finalization-blocked and ambiguous runs are not failed
/// attempts, nor is a clean exit with no known reason: none of them
/// records a failure signal.
pub fn records_failure(terminal: Option<TerminalStreamState>, exit_code: i32, reason: FailureReason) -> (b:
    bool)
    ensures
        b == !((terminal matches Some(s) && (s == TerminalStreamState::Completed || s
            == TerminalStreamState::FinalizationBlocked || s == TerminalStreamState::Ambiguous)) || (
        exit_code == 0 && reason == FailureReason::Unknown)),
{
    let settled = match terminal {
        Some(TerminalStreamState::Completed) => true,
        Some(TerminalStreamState::FinalizationBlocked) => true,
        Some(TerminalStreamState::Ambiguous) => true,
        _ => false,
    };
    !(settled || (exit_code == 0 && reason == FailureReason::Unknown))
}

/// The attempt a failure signal belongs to: a task already failed keeps
/// its retry count (at least 1), any other is on its next attempt.
pub fn attempt_number(task_failed: bool, retry_count: u32) -> (n: u32)
    ensures
        n == if task_failed {
            if retry_count >= 1 {
                retry_count
            } else {
                1
            }
        } else if retry_count < u32::MAX {
            (retry_count + 1) as u32
        } else {
            u32::MAX
        },
{
    if task_failed {
        if retry_count >= 1 {
            retry_count
        } else {
            1
        }
    } else {
        retry_count.saturating_add(1)
    }
}

/// Each reason stands for its own classes: a known cause always gives a
/// reason (rate limit, transient 5xx, hard for a rejected document or a
/// broken executor configuration, hard timeout, disk), and only a plain
/// non-zero exit or an unclassified failure is unknown. So a run that
/// exits cleanly still records a failure for every known cause.
pub proof fn law_each_class_has_its_reason(c: FailureClass)
    ensures
        (reason_spec(c) == FailureReason::RateLimit) == (c == FailureClass::ApiError429RateLimit),
        (reason_spec(c) == FailureReason::Transient5xx) == (c == FailureClass::ApiError5xxTransient),
        (reason_spec(c) == FailureReason::Hard) == (c == FailureClass::ApiError400Document || c
            == FailureClass::ExecutorConfig),
        (reason_spec(c) == FailureReason::HardTimeout) == (c == FailureClass::AgentHardTimeout),
        (reason_spec(c) == FailureReason::Disk) == (c == FailureClass::ResourceExhaustedDisk),
        (reason_spec(c) == FailureReason::Unknown) == (c == FailureClass::AgentExitNonzero || c
            == FailureClass::Other),
{
}

} // verus!
