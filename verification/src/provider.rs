//! Platform provider dispatch: one operation set, one concrete
//! provider per target OS.
//!
//! Every provider exposes the same operations under the same contract,
//! so calling code is platform-agnostic. Which provider a build links
//! is decided at build configuration time by the application; a target
//! with no provider must fail its build rather than fall back at run
//! time. This crate verifies the provider for Linux-family kernels,
//! whose counter tables the parser targets.

use vstd::prelude::*;

use crate::calibration::clock_ticks;
use crate::counters::IoCounters;
use crate::errors::Error;
use crate::errors::ErrorKind;
use crate::pipeline::{
    enumeration_failure, enumeration_outcome, io_counters, io_counters_physical, physical_outcome,
};

verus! {

/// The platform-agnostic query surface: every provider answers these
/// three queries under the same contract.
pub trait Provider {
    /// Enumerates all device counters of this machine.
    fn io_counters(&self) -> (r: Result<Vec<IoCounters>, Error>)
        ensures
            r matches Ok(v) ==> enumeration_outcome(v@),
            r matches Err(e) ==> enumeration_failure(e),
    ;

    /// Enumerates physical-device counters only, a subsequence — in
    /// order — of the full enumeration.
    fn io_counters_physical(&self) -> (r: Result<Vec<IoCounters>, Error>)
        ensures
            r matches Ok(v) ==> physical_outcome(v@),
            r matches Err(e) ==> enumeration_failure(e),
    ;

    /// The calibration constant: the OS's clock tick rate, positive on
    /// success, and a fatal failure for the caller otherwise.
    fn clock_ticks(&self) -> (r: Result<u64, Error>)
        ensures
            r matches Ok(v) ==> v > 0,
            r matches Err(e) ==> e.spec_kind() == ErrorKind::Io,
    ;
}

/// The provider for Linux-family kernels.
pub struct LinuxProvider;

impl Provider for LinuxProvider {
    fn io_counters(&self) -> (r: Result<Vec<IoCounters>, Error>) {
        io_counters()
    }

    fn io_counters_physical(&self) -> (r: Result<Vec<IoCounters>, Error>) {
        io_counters_physical()
    }

    fn clock_ticks(&self) -> (r: Result<u64, Error>) {
        clock_ticks()
    }
}

} // verus!
