//! Queries of live operating-system counters, returned as typed,
//! unit-annotated values.
//!
//! The crate exposes a uniform query surface over OS-specific data
//! sources: a unified error taxonomy, a parser for the kernel's disk
//! counter table, an enumeration pipeline with a physical-device
//! filter, and a once-computed clock-tick calibration constant.

pub mod calibration;
pub mod counters;
pub mod errors;
pub mod parse;
pub mod pipeline;
pub mod provider;
pub mod source;
pub mod units;

pub use calibration::{clock_ticks, ClockTicks};
pub use counters::IoCounters;
pub use errors::{Error, ErrorKind};
pub use pipeline::{io_counters, io_counters_physical};
pub use provider::{LinuxProvider, Provider};
pub use units::{Information, Time};
