//! Unit-tagged value holders populated by parsing.

use vstd::prelude::*;

verus! {

/// A quantity of bytes.
#[derive(Clone, Copy, Debug, PartialEq, Eq, Structural)]
pub struct Information {
    pub bytes: u64,
}

impl Information {
    /// Tags a raw byte count.
    pub fn new(bytes: u64) -> (r: Information)
        ensures
            r.bytes == bytes,
    {
        Information { bytes }
    }

    /// The raw byte count.
    pub fn get(&self) -> (r: u64)
        ensures
            r == self.bytes,
    {
        self.bytes
    }
}

/// An elapsed time, counted in whole seconds.
#[derive(Clone, Copy, Debug, PartialEq, Eq, Structural)]
pub struct Time {
    pub seconds: u64,
}

impl Time {
    /// Tags a raw count of seconds.
    pub fn new(seconds: u64) -> (r: Time)
        ensures
            r.seconds == seconds,
    {
        Time { seconds }
    }

    /// The raw count of seconds.
    pub fn get(&self) -> (r: u64)
        ensures
            r == self.seconds,
    {
        self.seconds
    }
}

} // verus!
