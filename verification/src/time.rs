//! Points in time.

use vstd::prelude::*;

verus! {

/// A point in time: whole seconds since the Unix epoch, and the nanoseconds
/// that have passed since.
#[derive(Debug, Clone, Copy, PartialEq, Eq, Structural)]
pub struct Timestamp {
    /// Whole seconds since the Unix epoch, rounded down.
    pub secs: i64,
    /// Nanoseconds into the second.
    pub nanos: u32,
}

impl Timestamp {
    /// `self` lies before `other`.
    pub open spec fn earlier(self, other: Timestamp) -> bool {
        self.secs < other.secs || (self.secs == other.secs && self.nanos < other.nanos)
    }

    /// Whether this point in time lies before `other`.
    pub fn is_before(&self, other: &Timestamp) -> (r: bool)
        ensures
            r == self.earlier(*other),
    {
        self.secs < other.secs || (self.secs == other.secs && self.nanos < other.nanos)
    }
}

/// Moments are ordered by their seconds, and within a second by their nanoseconds.
pub proof fn law_moments_are_ordered(a: &Timestamp, b: &Timestamp, r: bool, back: bool)
    requires
        call_ensures(Timestamp::is_before, (a, b), r),
        call_ensures(Timestamp::is_before, (b, a), back),
    ensures
        a.secs < b.secs ==> r,
        a.secs == b.secs ==> (r <==> a.nanos < b.nanos),
        !(r && back),
        !r && !back <==> *a == *b,
{
}

} // verus!
