use vstd::prelude::*;
use crate::error::RepoError;

verus! {

/// Nanoseconds in one second.
pub const NANOS_PER_SEC: u32 = 1_000_000_000;

/// A point in time as the store holds it: whole seconds relative to the Unix
/// epoch (negative before it) and the nanoseconds past that second.
#[derive(Debug, Clone, Copy, PartialEq, Eq, Structural)]
pub struct NativeTime {
    pub secs: i64,
    pub nanos: u32,
}

/// A point in time as it travels on the wire: the duration since the Unix epoch.
#[derive(Debug, Clone, Copy, PartialEq, Eq, Structural)]
pub struct WireTimestamp {
    pub seconds: u64,
    pub nanos: u32,
}

impl NativeTime {
    /// The sub-second part is below one second.
    pub open spec fn wf(self) -> bool {
        self.nanos < NANOS_PER_SEC
    }

    /// The instant as a count of nanoseconds since the epoch.
    pub open spec fn total(self) -> int {
        self.secs as int * NANOS_PER_SEC as int + self.nanos as int
    }

    /// Not before the epoch.
    pub open spec fn after_epoch(self) -> bool {
        self.secs >= 0
    }

    /// `self` is strictly earlier than `other`.
    pub open spec fn before(self, other: NativeTime) -> bool {
        self.total() < other.total()
    }

    /// Builds a time from its two parts.
    pub fn new(secs: i64, nanos: u32) -> (r: NativeTime)
        requires
            nanos < NANOS_PER_SEC,
        ensures
            r.secs == secs,
            r.nanos == nanos,
            r.wf(),
    {
        NativeTime { secs, nanos }
    }

    /// Whether `self` is strictly earlier than `other`.
    pub fn is_before(&self, other: &NativeTime) -> (r: bool)
        requires
            self.wf(),
            other.wf(),
        ensures
            r == self.before(*other),
    {
        self.secs < other.secs || (self.secs == other.secs && self.nanos < other.nanos)
    }

    /// The instant one nanosecond later, or `None` when it cannot be represented.
    pub fn tick(&self) -> (r: Option<NativeTime>)
        requires
            self.wf(),
        ensures
            r is None <==> (self.secs == i64::MAX && self.nanos + 1 == NANOS_PER_SEC),
            r matches Some(t) ==> t.wf() && t.total() == self.total() + 1,
    {
        if self.nanos + 1 < NANOS_PER_SEC {
            Some(NativeTime { secs: self.secs, nanos: self.nanos + 1 })
        } else if self.secs < i64::MAX {
            Some(NativeTime { secs: self.secs + 1, nanos: 0 })
        } else {
            None
        }
    }
}

/// Converts a stored time into the wire's duration since the epoch; a time
/// before the epoch is an internal error.
pub fn to_wire(t: &NativeTime) -> (r: Result<WireTimestamp, RepoError>)
    requires
        t.wf(),
    ensures
        r is Ok <==> t.after_epoch(),
        r matches Ok(w) ==> w.seconds == t.secs && w.nanos == t.nanos && wire_of(*t) == Some(w),
        r matches Err(e) ==> e == RepoError::Internal,
{
    if t.secs < 0 {
        Err(RepoError::Internal)
    } else {
        Ok(WireTimestamp { seconds: t.secs as u64, nanos: t.nanos })
    }
}

/// Converts a wire timestamp back into a stored time; `None` when the seconds
/// do not fit or the nanoseconds reach a whole second.
pub fn from_wire(w: &WireTimestamp) -> (r: Option<NativeTime>)
    ensures
        r is Some <==> (w.seconds <= i64::MAX && w.nanos < NANOS_PER_SEC),
        r matches Some(t) ==> t.wf() && t.secs == w.seconds && t.nanos == w.nanos,
        r == native_of(*w),
{
    if w.seconds <= i64::MAX as u64 && w.nanos < NANOS_PER_SEC {
        Some(NativeTime { secs: w.seconds as i64, nanos: w.nanos })
    } else {
        None
    }
}

/// The wire value of a stored time, when it has one.
pub open spec fn wire_of(t: NativeTime) -> Option<WireTimestamp> {
    if t.after_epoch() {
        Some(WireTimestamp { seconds: t.secs as u64, nanos: t.nanos })
    } else {
        None
    }
}

/// The stored time of a wire value, when it has one.
pub open spec fn native_of(w: WireTimestamp) -> Option<NativeTime> {
    if w.seconds <= i64::MAX && w.nanos < NANOS_PER_SEC {
        Some(NativeTime { secs: w.seconds as i64, nanos: w.nanos })
    } else {
        None
    }
}

/// Every well-formed time at or after the epoch survives the trip to the wire
/// and back unchanged: `from_wire(to_wire(t)) == t`.
pub proof fn lemma_wire_round_trip(t: NativeTime)
    requires
        t.wf(),
        t.after_epoch(),
    ensures
        wire_of(t) matches Some(w) && native_of(w) == Some(t),
{
}

} // verus!
