use vstd::prelude::*;

verus! {

/// An instant: seconds since the UNIX epoch and nanoseconds within the second.
#[derive(Clone, Copy, Debug, PartialEq, Eq, Structural)]
pub struct Instant {
    pub secs: i64,
    pub nanos: u32,
}

/// The greatest UNIX timestamp of a date that chrono's arithmetic accepts
/// (the last second of year 262142); adding beyond it panics.
pub const MAX_TIMESTAMP: i64 = 8_210_266_876_799;

impl Instant {
    /// Whether `self` comes strictly before `other`.
    pub open spec fn spec_before(self, other: Instant) -> bool {
        self.secs < other.secs || (self.secs == other.secs && self.nanos < other.nanos)
    }

    /// Whether `self` comes strictly before `other`.
    pub fn before(&self, other: &Instant) -> (r: bool)
        ensures
            r == self.spec_before(*other),
    {
        self.secs < other.secs || (self.secs == other.secs && self.nanos < other.nanos)
    }

    /// Whether chrono can add `secs` seconds to `self` (adding past its last
    /// date panics there).
    pub open spec fn can_add_secs(self, secs: u32) -> bool {
        self.secs + secs <= MAX_TIMESTAMP
    }

    /// `self` plus `secs` seconds.
    pub fn plus_secs(&self, secs: u32) -> (r: Instant)
        requires
            self.can_add_secs(secs),
        ensures
            r.secs == self.secs + secs,
            r.nanos == self.nanos,
    {
        Instant { secs: self.secs + secs as i64, nanos: self.nanos }
    }
}

} // verus!
