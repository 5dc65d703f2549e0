//! The roster's data model: one record per controllable monitor, holding
//! its persistent identity and the control backend it was matched to.
//!
//! Control handles are carried as plain handle values; acquiring and
//! releasing them is the platform layer's work. The roster-building
//! functions account for every handle they are given, so each one is
//! released exactly once.

use vstd::prelude::*;

verus! {

/// The backend that served a reply: callers distinguish slow bus
/// transactions from fast OS-mediated ones by this tag.
#[derive(Debug, Copy, Clone, PartialEq, Eq, Structural)]
pub enum Interface {
    /// The monitor-control protocol carried over the video link itself.
    DirectBus,
    /// The driver-level backlight control channel.
    DriverChannel,
    /// The platform's management-data service.
    ManagementOnly,
}

/// A monitor's control backend, with the handle it owns.
#[derive(Debug, Copy, Clone, PartialEq, Eq, Structural)]
pub enum Backend {
    /// A physical control handle for bus-level feature transactions.
    DirectBus(u64),
    /// A device-file handle for driver control-code calls.
    DriverChannel(u64),
    /// No live handle; reached through the management-data service alone.
    ManagementOnly,
}

impl Backend {
    /// The tag of this backend.
    pub fn interface(&self) -> (r: Interface)
        ensures
            r == spec_interface_of(*self),
    {
        match self {
            Backend::DirectBus(_) => Interface::DirectBus,
            Backend::DriverChannel(_) => Interface::DriverChannel,
            Backend::ManagementOnly => Interface::ManagementOnly,
        }
    }
}

/// The tag of a backend.
pub open spec fn spec_interface_of(b: Backend) -> Interface {
    match b {
        Backend::DirectBus(_) => Interface::DirectBus,
        Backend::DriverChannel(_) => Interface::DriverChannel,
        Backend::ManagementOnly => Interface::ManagementOnly,
    }
}

/// What a feature read returns: the current and maximum values exactly as
/// the device reported them, tagged with the backend that replied.
#[derive(Debug, Copy, Clone, PartialEq, Eq, Structural)]
pub struct Reply {
    pub current: u32,
    pub maximum: u32,
    pub source: Interface,
}

/// One controllable monitor: a persistent identity and the backend it was
/// correlated to. Created in bulk by a refresh, never partially updated.
#[derive(Debug)]
pub struct Monitor {
    /// Platform-assigned identity, stable across reconnection for the same
    /// physical unit; unique within one roster snapshot.
    pub id: String,
    /// The control backend selected for this monitor.
    pub backend: Backend,
}

/// The mathematical value of a monitor record.
pub ghost struct MonitorModel {
    pub id: Seq<char>,
    pub backend: Backend,
}

impl View for Monitor {
    type V = MonitorModel;

    open spec fn view(&self) -> MonitorModel {
        MonitorModel { id: self.id@, backend: self.backend }
    }
}

/// The handles a roster owns, in roster order: the inventory that must be
/// released when the roster is replaced.
pub open spec fn spec_roster_handles(roster: Seq<MonitorModel>) -> Seq<u64>
    decreases roster.len(),
{
    if roster.len() == 0 {
        Seq::empty()
    } else {
        let rest = spec_roster_handles(roster.drop_first());
        match roster[0].backend {
            Backend::DirectBus(h) => seq![h] + rest,
            Backend::DriverChannel(h) => seq![h] + rest,
            Backend::ManagementOnly => rest,
        }
    }
}

/// The identities of a roster, in roster order.
pub open spec fn spec_roster_ids(roster: Seq<MonitorModel>) -> Seq<Seq<char>> {
    roster.map_values(|m: MonitorModel| m.id)
}

} // verus!
