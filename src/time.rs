use vstd::prelude::*;

verus! {

/// Nanoseconds in one second.
pub const NANOS_PER_SEC: i128 = 1_000_000_000;

/// A point in time, in seconds and nanoseconds since the Unix epoch (UTC).
#[derive(Debug, Clone, Copy, PartialEq, Eq, Structural)]
pub struct Timestamp {
    pub secs: i64,
    pub nanos: u32,
}

impl Timestamp {
    /// The instant, in nanoseconds since the epoch.
    pub open spec fn instant(self) -> int {
        self.secs * 1_000_000_000 + self.nanos
    }

    /// A timestamp at a whole second.
    pub fn from_secs(secs: i64) -> (r: Timestamp)
        ensures
            r.secs == secs,
            r.nanos == 0,
            r.instant() == secs * 1_000_000_000,
    {
        Timestamp { secs, nanos: 0 }
    }

    /// The signed difference `self - other`, in nanoseconds.
    pub fn nanos_since(&self, other: &Timestamp) -> (r: i128)
        ensures
            r == self.instant() - other.instant(),
    {
        (self.secs as i128 - other.secs as i128) * NANOS_PER_SEC + (self.nanos as i128
            - other.nanos as i128)
    }
}

} // verus!
