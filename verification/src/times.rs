//! Timestamp values and their marshalling into the kernel's timespec pairs.

use vstd::prelude::*;

verus! {

/// The nanoseconds sentinel that leaves a timestamp unchanged.
pub const UTIME_OMIT: i64 = 1073741822;

/// The nanoseconds sentinel that sets a timestamp to the current time.
pub const UTIME_NOW: i64 = 1073741823;

/// A point in time as seconds and nanoseconds since the epoch.
#[derive(Copy, Clone, Debug, Eq, PartialEq, Structural)]
pub struct SystemTime {
    /// Whole seconds since the epoch.
    pub sec: i64,
    /// Nanoseconds within the second.
    pub nsec: i64,
}

impl SystemTime {
    /// A point in time from its seconds and nanoseconds parts.
    pub fn new(sec: i64, nsec: i64) -> (t: SystemTime)
        ensures
            t == (SystemTime { sec, nsec }),
    {
        SystemTime { sec, nsec }
    }
}

/// A pair of timestamps to apply to a file: access time then
/// modification time.
#[derive(Copy, Clone, Debug)]
pub struct FileTimes {
    /// The access and modification times, in that order.
    pub times: [SystemTime; 2],
}

impl FileTimes {
    /// A timestamp pair with both entries at the epoch.
    pub fn new() -> (t: FileTimes)
        ensures
            t.times[0] == (SystemTime { sec: 0, nsec: 0 }),
            t.times[1] == (SystemTime { sec: 0, nsec: 0 }),
    {
        FileTimes { times: [SystemTime { sec: 0, nsec: 0 }, SystemTime { sec: 0, nsec: 0 }] }
    }

    /// Sets the access time of the pair.
    pub fn set_accessed(self, t: SystemTime) -> (r: FileTimes)
        ensures
            r.times[0] == t,
            r.times[1] == self.times[1],
    {
        FileTimes { times: [t, self.times[1]] }
    }

    /// Sets the modification time of the pair.
    pub fn set_modified(self, t: SystemTime) -> (r: FileTimes)
        ensures
            r.times[0] == self.times[0],
            r.times[1] == t,
    {
        FileTimes { times: [self.times[0], t] }
    }
}

/// What to do to one file timestamp: leave it, set it to now, or set it
/// to a given time.
#[derive(Copy, Clone, Debug)]
pub enum TimestampSpec {
    /// Leave the timestamp as it is.
    Omit,
    /// Set the timestamp to the current time.
    SetToNow,
    /// Set the timestamp to the given time.
    SetTo(SystemTime),
}

/// A kernel timespec value: seconds and a nanoseconds field that may hold
/// one of the two sentinels.
#[derive(Copy, Clone, Debug, Eq, PartialEq, Structural)]
pub struct Timespec {
    /// Whole seconds.
    pub sec: i64,
    /// Nanoseconds, or a sentinel.
    pub nsec: i64,
}

/// The timespec that a timestamp instruction marshals to: the sentinels
/// for leaving a field or touching it to now, the time itself otherwise.
pub open spec fn spec_timespec_of(t: TimestampSpec) -> Timespec {
    match t {
        TimestampSpec::Omit => Timespec { sec: 0, nsec: UTIME_OMIT as i64 },
        TimestampSpec::SetToNow => Timespec { sec: 0, nsec: UTIME_NOW as i64 },
        TimestampSpec::SetTo(time) => Timespec { sec: time.sec, nsec: time.nsec },
    }
}

impl TimestampSpec {
    /// Marshals the instruction into the kernel's timespec form.
    pub fn to_timespec(&self) -> (r: Timespec)
        ensures
            r == spec_timespec_of(*self),
    {
        match self {
            TimestampSpec::Omit => Timespec { sec: 0, nsec: UTIME_OMIT },
            TimestampSpec::SetToNow => Timespec { sec: 0, nsec: UTIME_NOW },
            TimestampSpec::SetTo(time) => Timespec { sec: time.sec, nsec: time.nsec },
        }
    }
}

} // verus!
