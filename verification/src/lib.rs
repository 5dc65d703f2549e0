//! Monitor identification and feature control engine.
//!
//! Correlates the platform's display-device enumeration mechanisms into a
//! stable roster of controllable monitors and dispatches feature reads and
//! writes across three backends: the direct bus protocol carried over the
//! video link, a driver-level backlight control channel, and the platform's
//! management-data service.

pub mod correlate;
pub mod dispatch;
pub mod enumerate;
pub mod error;
pub mod feature;
pub mod identity;
pub mod ids;
pub mod mgmt;
pub mod pacing;
pub mod quantize;
pub mod registry;
pub mod roster;
pub mod sim;
pub mod system;
pub mod text;

pub use correlate::{Correlation, OutputRecord};
pub use enumerate::AdapterMonitorEntry;
pub use error::EngineError;
pub use feature::Feature;
pub use registry::Registry;
pub use roster::{Backend, Interface, Monitor, Reply};
pub use sim::{OpenScript, SimDirect, SimFeature, SimWorld};
pub use system::System;
