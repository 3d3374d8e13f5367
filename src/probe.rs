use vstd::prelude::*;

verus! {

/// Hard bound on one probe, in milliseconds.
pub const PROBE_TIMEOUT_MS: u64 = 5000;

/// What the transport reported for one HTTP GET.
#[derive(Clone, Copy, Debug, PartialEq, Eq, Structural)]
pub enum ProbeOutcome {
    /// A response arrived with this numeric status code.
    Response { status: u16 },
    /// The request hit the hard timeout.
    TimedOut,
    /// The connection could not be made or broke off.
    ConnectFailed,
}

/// Why a probe counts as a failure.
#[derive(Clone, Copy, Debug, PartialEq, Eq, Structural)]
pub enum ProbeError {
    Connection,
    Timeout,
    StatusMismatch { expected: u16, actual: u16 },
}

/// The classified outcome of one probe.
#[derive(Clone, Copy, Debug, PartialEq, Eq, Structural)]
pub struct CheckResult {
    pub is_up: bool,
    pub latency_ms: u64,
    pub error: Option<ProbeError>,
}

/// The failure cause for a probe, or `None` when it succeeded.
pub open spec fn probe_error(expect_status: u16, outcome: ProbeOutcome, elapsed_ms: u64) -> Option<ProbeError> {
    if elapsed_ms > PROBE_TIMEOUT_MS {
        Some(ProbeError::Timeout)
    } else {
        match outcome {
            ProbeOutcome::Response { status } => if status == expect_status {
                None
            } else {
                Some(ProbeError::StatusMismatch { expected: expect_status, actual: status })
            },
            ProbeOutcome::TimedOut => Some(ProbeError::Timeout),
            ProbeOutcome::ConnectFailed => Some(ProbeError::Connection),
        }
    }
}

pub open spec fn spec_classify(expect_status: u16, outcome: ProbeOutcome, elapsed_ms: u64) -> CheckResult {
    let error = probe_error(expect_status, outcome, elapsed_ms);
    CheckResult {
        is_up: error is None,
        latency_ms: elapsed_ms,
        error,
    }
}

/// Classifies one probe: up exactly when a response with the expected
/// status arrived within the timeout. The latency is the measured elapsed
/// time, whatever the outcome.
pub fn classify(expect_status: u16, outcome: ProbeOutcome, elapsed_ms: u64) -> (r: CheckResult)
    ensures
        r == spec_classify(expect_status, outcome, elapsed_ms),
        r.is_up <==> (outcome == (ProbeOutcome::Response { status: expect_status })
            && elapsed_ms <= PROBE_TIMEOUT_MS),
        r.is_up <==> r.error is None,
        outcome is Response && outcome->status != expect_status ==> !r.is_up,
        outcome is TimedOut ==> !r.is_up && r.error == Some(ProbeError::Timeout),
        elapsed_ms > PROBE_TIMEOUT_MS ==> !r.is_up && r.error == Some(ProbeError::Timeout)
            && r.latency_ms >= PROBE_TIMEOUT_MS,
        r.latency_ms == elapsed_ms,
{
    let error: Option<ProbeError> = if elapsed_ms > PROBE_TIMEOUT_MS {
        Some(ProbeError::Timeout)
    } else {
        match outcome {
            ProbeOutcome::Response { status } => {
                if status == expect_status {
                    None
                } else {
                    Some(ProbeError::StatusMismatch { expected: expect_status, actual: status })
                }
            },
            ProbeOutcome::TimedOut => Some(ProbeError::Timeout),
            ProbeOutcome::ConnectFailed => Some(ProbeError::Connection),
        }
    };
    let is_up = match error {
        None => true,
        Some(_) => false,
    };
    CheckResult { is_up, latency_ms: elapsed_ms, error }
}

} // verus!
