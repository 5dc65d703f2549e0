//! The per-call dispatch decisions, as small verified functions: which
//! hardware path a feature call takes on a given backend, and whether a
//! failed bus transaction falls back to the management-data service.
//! The engine and the platform layer both decide through these, so the
//! dispatch rules are written once.

use vstd::prelude::*;

use crate::feature::{spec_vcp_code, Feature};
use crate::roster::Backend;

verus! {

/// The hardware path a feature call takes first.
#[derive(Debug, Copy, Clone, PartialEq, Eq, Structural)]
pub enum CallPlan {
    /// A bus transaction under this handle, with the feature's code.
    BusTransaction(u64, u8),
    /// A driver control-code call on this device-file handle.
    BacklightChannel(u64),
    /// A management-data lookup by derived instance name.
    ManagementLookup,
    /// No hardware call: the backend does not carry this feature.
    Unsupported,
}

/// The path a backend serves a feature on: a bus-backed monitor always
/// tries the bus first; the two handle-less backends carry exactly
/// Luminance and reject everything else before any hardware call.
pub open spec fn spec_call_plan(b: Backend, f: Feature) -> CallPlan {
    match b {
        Backend::DirectBus(h) => CallPlan::BusTransaction(h, spec_vcp_code(f)),
        Backend::DriverChannel(h) => if f is Luminance {
            CallPlan::BacklightChannel(h)
        } else {
            CallPlan::Unsupported
        },
        Backend::ManagementOnly => if f is Luminance {
            CallPlan::ManagementLookup
        } else {
            CallPlan::Unsupported
        },
    }
}

/// Decides the first hardware action of a feature call.
pub fn plan_call(backend: &Backend, feature: Feature) -> (p: CallPlan)
    ensures
        p == spec_call_plan(*backend, feature),
{
    match backend {
        Backend::DirectBus(h) => CallPlan::BusTransaction(*h, feature.vcp_code()),
        Backend::DriverChannel(h) => if feature == Feature::Luminance {
            CallPlan::BacklightChannel(*h)
        } else {
            CallPlan::Unsupported
        },
        Backend::ManagementOnly => if feature == Feature::Luminance {
            CallPlan::ManagementLookup
        } else {
            CallPlan::Unsupported
        },
    }
}

/// Decides whether a failed bus transaction falls back to the
/// management-data service: only a Luminance request does.
pub fn bus_fallback_to_management(feature: Feature) -> (r: bool)
    ensures
        r == (feature is Luminance),
{
    feature == Feature::Luminance
}

} // verus!
