//! The failures that stop a run, and how each is surfaced.
//!
//! Everything that prevents forward progress of the whole run becomes a
//! terminal `Error` phase carrying a human-readable message; a fresh
//! submission is the only retry.  A fragment that merely fails to decode is
//! absorbed where it arrives and never appears here.

use vstd::prelude::*;
use crate::phase::Phase;

verus! {

/// An unrecoverable failure of one run.
pub enum RunError {
    /// The model endpoint could not be reached or refused the call; fatal
    /// to the run.
    GatewayUnavailable(String),
    /// The push stream broke off before the sentinel: the run is
    /// incomplete, not a success.
    StreamTransportFailure,
    /// The artifact or the manifest could not be persisted.
    WriteFailure(String),
    /// The build tool could not be launched.
    SubprocessStartFailure(String),
}

/// The message a failed run surfaces through the phase.
pub open spec fn error_text(e: RunError) -> Seq<char> {
    match e {
        RunError::GatewayUnavailable(m) => "gateway unreachable: "@ + m@,
        RunError::StreamTransportFailure => "stream closed before the end of generation"@,
        RunError::WriteFailure(m) => "write failure: "@ + m@,
        RunError::SubprocessStartFailure(m) => "build tool could not start: "@ + m@,
    }
}

/// The human-readable text of a failure, exactly as the phase reports it.
pub fn describe_error(e: &RunError) -> (s: String)
    ensures
        s@ == error_text(*e),
{
    match e {
        RunError::GatewayUnavailable(m) => {
            let mut s = String::from_str("gateway unreachable: ");
            s.append(m.as_str());
            s
        },
        RunError::StreamTransportFailure => String::from_str(
            "stream closed before the end of generation",
        ),
        RunError::WriteFailure(m) => {
            let mut s = String::from_str("write failure: ");
            s.append(m.as_str());
            s
        },
        RunError::SubprocessStartFailure(m) => {
            let mut s = String::from_str("build tool could not start: ");
            s.append(m.as_str());
            s
        },
    }
}

/// The terminal phase a failure leaves the run in: always `Error`, always
/// carrying that failure's message.
pub fn phase_of_error(e: &RunError) -> (p: Phase)
    ensures
        p matches Phase::Error(m) && m@ == error_text(*e),
{
    Phase::Error(describe_error(e))
}

} // verus!
