//! What a call is told about its surroundings: the time and the caller.

use vstd::prelude::*;

verus! {

/// The number of nanoseconds in a second.
pub const NANOS_PER_SECOND: u64 = 1_000_000_000;

/// A point in time, in nanoseconds since the epoch.
#[derive(Clone, Copy, Debug, PartialEq, Eq, Structural)]
pub struct Timestamp {
    /// Nanoseconds since the epoch.
    pub nanos: u64,
}

impl Timestamp {
    /// The point in time `nanos` nanoseconds after the epoch.
    pub fn from_nanos(nanos: u64) -> (t: Timestamp)
        ensures
            t.nanos == nanos,
    {
        Timestamp { nanos }
    }

    /// The point in time `addition` seconds after this one.
    pub fn plus_seconds(&self, addition: u64) -> (t: Timestamp)
        requires
            self.nanos + addition * NANOS_PER_SECOND <= u64::MAX,
        ensures
            t.nanos == self.nanos + addition * NANOS_PER_SECOND,
    {
        Timestamp { nanos: self.nanos + addition * NANOS_PER_SECOND }
    }
}

/// The block in which a call runs.
#[derive(Clone, Copy, Debug, PartialEq, Eq, Structural)]
pub struct BlockInfo {
    /// The time of the block: the clock of every call in it.
    pub time: Timestamp,
}

/// The surroundings of a call.
#[derive(Clone, Copy, Debug, PartialEq, Eq, Structural)]
pub struct Env {
    /// The block in which the call runs.
    pub block: BlockInfo,
}

/// Who makes a call.
#[derive(Clone, Debug, PartialEq, Eq)]
pub struct MessageInfo {
    /// The address of the caller.
    pub sender: String,
}

} // verus!
