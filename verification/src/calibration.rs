//! The lazily-computed, process-wide calibration constant: the clock
//! tick rate used to convert raw kernel time units into seconds.
//!
//! The privileged query stands behind a trusted wrapper; the decision
//! on its raw value, and the once-computed caching, are verified. An
//! application holds one [`ClockTicks`] cell behind its own
//! once-initialization primitive so that concurrent first accesses are
//! serialized.

use vstd::prelude::*;

use crate::errors::{Error, ErrorKind};

verus! {

/// Relies on `nix::unistd::sysconf` with the clock-tick variable:
/// returns the configured number of clock ticks per second, `None`
/// where the OS leaves the variable unset, or the failure's
/// description. The result depends on the machine, so nothing more is
/// promised of it.
#[verifier::external_body]
fn query_clock_ticks() -> Result<Option<i64>, String> {
    match nix::unistd::sysconf(nix::unistd::SysconfVar::CLK_TCK) {
        Ok(Some(v)) => Ok(Some(v as i64)),
        Ok(None) => Ok(None),
        Err(e) => Err(String::from(e.desc())),
    }
}

/// The decision on the raw value of the privileged query: a positive
/// value is the canonical tick rate, anything else is an I/O failure.
pub fn clock_ticks_from(raw: i64) -> (r: Result<u64, Error>)
    ensures
        raw > 0 ==> r == Ok::<u64, Error>(raw as u64),
        raw <= 0 ==> (r matches Err(e) && e.spec_kind() == ErrorKind::Io),
{
    if raw > 0 {
        Ok(raw as u64)
    } else {
        Err(Error::last_os_error())
    }
}

/// Queries the OS for its configured clock tick rate. Succeeds exactly
/// when the query reports a positive value; the value is then that
/// rate, in ticks per second.
pub fn clock_ticks() -> (r: Result<u64, Error>)
    ensures
        r matches Ok(v) ==> v > 0,
        r matches Err(e) ==> e.spec_kind() == ErrorKind::Io,
{
    match query_clock_ticks() {
        Ok(Some(raw)) => clock_ticks_from(raw),
        Ok(None) => Err(Error::last_os_error()),
        Err(m) => Err(Error::with_detail(ErrorKind::Io, m)),
    }
}

/// The process-wide calibration cell: uninitialized until the first
/// successful query, and holding that one value — read-only — for the
/// rest of the process's life.
pub struct ClockTicks {
    cached: Option<u64>,
}

impl ClockTicks {
    /// The cached tick rate, if a query has succeeded.
    pub closed spec fn spec_cached(&self) -> Option<u64> {
        self.cached
    }

    /// A valid cell caches only a positive tick rate.
    pub open spec fn wf(&self) -> bool {
        self.spec_cached() matches Some(v) ==> v > 0
    }

    /// A cell with no value computed yet.
    pub fn new() -> (r: ClockTicks)
        ensures
            r.spec_cached() is None,
            r.wf(),
    {
        ClockTicks { cached: None }
    }

    /// The cached tick rate, if a query has succeeded.
    pub fn cached_value(&self) -> (r: Option<u64>)
        ensures
            r == self.spec_cached(),
    {
        self.cached
    }

    /// Settles an uninitialized cell on the raw value of one privileged
    /// query: a positive value becomes the cached constant, anything
    /// else is an I/O failure that caches nothing, so a later access
    /// attempts the query anew.
    pub fn settle(&mut self, raw: i64) -> (r: Result<u64, Error>)
        requires
            old(self).spec_cached() is None,
        ensures
            final(self).wf(),
            raw > 0 ==> (r == Ok::<u64, Error>(raw as u64)
                && final(self).spec_cached() == Some(raw as u64)),
            raw <= 0 ==> (r matches Err(e) && e.spec_kind() == ErrorKind::Io
                && final(self).spec_cached() is None),
    {
        match clock_ticks_from(raw) {
            Ok(v) => {
                self.cached = Some(v);
                Ok(v)
            },
            Err(e) => Err(e),
        }
    }

    /// The calibration constant. The first access performs the
    /// privileged query; a success is cached and every later access
    /// returns exactly the cached value without querying again, so the
    /// constant never changes within one process run. A failure caches
    /// nothing — the caller must treat it as fatal — and a later
    /// access attempts the query anew.
    pub fn get(&mut self) -> (r: Result<u64, Error>)
        requires
            old(self).wf(),
        ensures
            final(self).wf(),
            old(self).spec_cached() matches Some(v) ==> (r == Ok::<u64, Error>(v)
                && final(self).spec_cached() == old(self).spec_cached()),
            r matches Ok(v) ==> (v > 0 && final(self).spec_cached() == Some(v)),
            r matches Err(e) ==> (e.spec_kind() == ErrorKind::Io && final(self).spec_cached()
                is None),
    {
        match self.cached {
            Some(v) => Ok(v),
            None => {
                match query_clock_ticks() {
                    Ok(Some(raw)) => self.settle(raw),
                    Ok(None) => Err(Error::last_os_error()),
                    Err(m) => Err(Error::with_detail(ErrorKind::Io, m)),
                }
            },
        }
    }
}

} // verus!
