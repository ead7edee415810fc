//! Points in time, as seconds and nanoseconds since the Unix epoch (UTC).

use vstd::prelude::*;

verus! {

/// A point in time: whole seconds since 1970-01-01T00:00:00Z, and the
/// nanoseconds past that second.
#[derive(Clone, Copy, Debug, PartialEq, Eq, Structural, Hash)]
pub struct Timestamp {
    pub secs: i64,
    pub nanos: u32,
}

/// `SystemTime::now()`, as its distance from the Unix epoch: `(true, s, n)`
/// when it is at or after the epoch, `(false, s, n)` when it is before (from
/// the error's `duration()`), with `s` whole seconds and `n` the nanoseconds
/// past them (`subsec_nanos`, always under one billion).  The clock decides
/// the value: nothing else is promised of it.
#[verifier::external_body]
fn system_clock() -> (r: (bool, u64, u32))
    ensures
        r.2 < 1_000_000_000,
{
    match std::time::SystemTime::now().duration_since(std::time::UNIX_EPOCH) {
        Ok(d) => (true, d.as_secs(), d.subsec_nanos()),
        Err(e) => (false, e.duration().as_secs(), e.duration().subsec_nanos()),
    }
}

/// The whole seconds (rounded down) of a reading `secs` seconds and `nanos`
/// nanoseconds after (`after`) or before the epoch.
pub open spec fn reading_secs(after: bool, secs: u64, nanos: u32) -> int {
    if after {
        secs as int
    } else if nanos == 0 {
        -(secs as int)
    } else {
        -(secs as int) - 1
    }
}

/// The nanoseconds past `reading_secs` of such a reading.
pub open spec fn reading_nanos(after: bool, nanos: u32) -> int {
    if after || nanos == 0 {
        nanos as int
    } else {
        1_000_000_000 - nanos
    }
}

/// The timestamp of a clock reading: exact when its seconds fit in an `i64`;
/// a reading beyond that range (some 292 billion years from the epoch) is held
/// at the nearest end of it, at nanosecond 0.
pub open spec fn reading_timestamp(after: bool, secs: u64, nanos: u32) -> Timestamp {
    let s = reading_secs(after, secs, nanos);
    if s > i64::MAX {
        Timestamp { secs: i64::MAX, nanos: 0 }
    } else if s < i64::MIN {
        Timestamp { secs: i64::MIN, nanos: 0 }
    } else {
        Timestamp { secs: s as i64, nanos: reading_nanos(after, nanos) as u32 }
    }
}

/// The timestamp of a clock reading `secs` seconds and `nanos` nanoseconds
/// after (`after`) or before the epoch.
pub fn timestamp_of_reading(after: bool, secs: u64, nanos: u32) -> (t: Timestamp)
    requires
        nanos < 1_000_000_000,
    ensures
        t == reading_timestamp(after, secs, nanos),
        t.nanos < 1_000_000_000,
{
    if after {
        if secs > 9_223_372_036_854_775_807u64 {
            Timestamp { secs: i64::MAX, nanos: 0 }
        } else {
            Timestamp { secs: secs as i64, nanos }
        }
    } else if nanos == 0 {
        if secs >= 9_223_372_036_854_775_808u64 {
            Timestamp { secs: i64::MIN, nanos: 0 }
        } else {
            Timestamp { secs: -(secs as i64), nanos: 0 }
        }
    } else {
        if secs > 9_223_372_036_854_775_807u64 {
            Timestamp { secs: i64::MIN, nanos: 0 }
        } else {
            Timestamp { secs: -(secs as i64) - 1, nanos: 1_000_000_000 - nanos }
        }
    }
}

/// The current time, as the system clock reads it.  The clock decides the
/// value; its nanoseconds are under one billion.
pub(crate) fn utc_now() -> (t: Timestamp)
    ensures
        t.nanos < 1_000_000_000,
{
    let (after, secs, nanos) = system_clock();
    timestamp_of_reading(after, secs, nanos)
}

} // verus!
