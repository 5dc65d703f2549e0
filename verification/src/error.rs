//! The error taxonomy of the engine.
//!
//! Soft conditions (an identity that could not be matched to a handle, a
//! device skipped during enumeration) are never surfaced as errors: they are
//! retained as diagnostics by the roster-building functions. The variants
//! here are the per-call terminal failures.

use vstd::prelude::*;

use crate::ids::spec_dec_digits;

verus! {

/// A terminal, call-scoped failure of a feature operation or a lookup.
#[derive(Debug, Copy, Clone, PartialEq, Eq, Structural)]
pub enum EngineError {
    /// The feature name is not one of the accepted names; rejected before
    /// any hardware call.
    UnknownFeature,
    /// No roster entry carries the requested identity.
    NoSuchMonitor,
    /// The feature is not implemented on the monitor's backend.
    ProtocolUnsupported,
    /// A bus, driver-channel or management call failed; the platform error
    /// code is surfaced verbatim.
    HardwareFailure(u32),
    /// The shared management-data connection could not be established; the
    /// failure is cached and returned again on later attempts.
    ConnectionInitFailure,
    /// The management-data lookup resolved to no usable instance (zero or
    /// multiple matches).
    NoInstance,
}

/// A user-facing message for each failure.
pub fn error_to_message(e: &EngineError) -> (msg: String)
    ensures
        msg@ == match *e {
            EngineError::UnknownFeature => "invalid feature name"@,
            EngineError::NoSuchMonitor => "no such monitor"@,
            EngineError::ProtocolUnsupported => "feature not supported on this monitor"@,
            EngineError::HardwareFailure(code) => "hardware call failed (code "@
                + spec_dec_digits(code as nat) + ")"@,
            EngineError::ConnectionInitFailure => "management connection could not be established"@,
            EngineError::NoInstance => "no management instance for this monitor"@,
        },
{
    match e {
        EngineError::UnknownFeature => String::from_str("invalid feature name"),
        EngineError::NoSuchMonitor => String::from_str("no such monitor"),
        EngineError::ProtocolUnsupported => String::from_str(
            "feature not supported on this monitor",
        ),
        EngineError::HardwareFailure(code) => {
            let mut msg = String::from_str("hardware call failed (code ");
            crate::ids::append_decimal(&mut msg, *code);
            msg.append(")");
            msg
        },
        EngineError::ConnectionInitFailure => String::from_str(
            "management connection could not be established",
        ),
        EngineError::NoInstance => String::from_str("no management instance for this monitor"),
    }
}

} // verus!
