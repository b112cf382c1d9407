//! Points in time, as the repository orders them.

use vstd::prelude::*;

verus! {

/// A point in time: whole seconds since the start of 1970, and the
/// nanoseconds into that second. It is ordered by the seconds first.
#[derive(Debug, Clone, Copy, PartialEq, Eq, PartialOrd, Ord, Hash)]
pub struct Timestamp {
    pub seconds: i64,
    pub nanos: u32,
}

impl Timestamp {
    /// Whether this point lies before the other.
    pub open spec fn before(self, other: Timestamp) -> bool {
        self.seconds < other.seconds || (self.seconds == other.seconds && self.nanos
            < other.nanos)
    }

    /// Whether this point lies before the other.
    pub fn is_before(&self, other: &Timestamp) -> (earlier: bool)
        ensures
            earlier == self.before(*other),
    {
        self.seconds < other.seconds || (self.seconds == other.seconds && self.nanos
            < other.nanos)
    }

    /// Whether the two are the same point.
    pub fn same(&self, other: &Timestamp) -> (equal: bool)
        ensures
            equal == (*self == *other),
    {
        self.seconds == other.seconds && self.nanos == other.nanos
    }
}

} // verus!
