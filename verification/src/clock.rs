//! The system clock, through chrono, and readings of the local clock.

use vstd::prelude::*;

verus! {

/// Bound on the magnitude of any UNIX timestamp that chrono can represent:
/// its dates lie within years -262143 ..= 262142, so fewer than
/// 262144 * 366 * 86400 < 10^13 seconds away from 1970.
pub open spec fn chrono_timestamp_bound() -> int {
    10_000_000_000_000
}

/// Reads the system clock (`std::time::SystemTime::now`), converts the
/// instant with chrono's `From<SystemTime> for DateTime<Utc>` (which also
/// takes instants before 1970) and takes its UNIX timestamp in seconds
/// (`DateTime::timestamp`). Claimed: the timestamp lies within the range of
/// dates that chrono can represent. Nothing is claimed of which instant it
/// is. Left unsaid: the conversion unwraps, and so panics, on a system time
/// outside chrono's range of dates (years -262143 ..= 262142), which no
/// `requires` can exclude.
#[verifier::external_body]
fn local_now_timestamp() -> (t: i64)
    ensures
        -chrono_timestamp_bound() <= t <= chrono_timestamp_bound(),
{
    chrono::DateTime::<chrono::Utc>::from(std::time::SystemTime::now()).timestamp()
}

/// The system clock, with the log of the readings taken from it through
/// this value, in order. Only `read_timestamp` adds to the log, so a
/// contract that names the last entry names the instant actually read.
/// Nothing orders the readings: the system clock is a wall clock, which
/// may be set back (`SystemTime` is documented as not monotonic).
pub struct SystemClock {
    readings: Ghost<Seq<i64>>,
}

impl SystemClock {
    /// The readings taken so far, oldest first.
    pub closed spec fn readings(&self) -> Seq<i64> {
        self.readings@
    }

    /// A clock from which nothing has been read yet.
    pub fn new() -> (clock: SystemClock)
        ensures
            clock.readings() == Seq::<i64>::empty(),
    {
        SystemClock { readings: Ghost(Seq::empty()) }
    }

    /// Reads the current time as a UNIX timestamp in seconds, and logs it.
    pub fn read_timestamp(&mut self) -> (t: i64)
        ensures
            final(self).readings() == old(self).readings().push(t),
            -chrono_timestamp_bound() <= t <= chrono_timestamp_bound(),
    {
        let t = local_now_timestamp();
        self.readings = Ghost(self.readings@.push(t));
        t
    }
}

/// One reading of the local clock: the instant as a UNIX timestamp, the
/// local offset from UTC at that instant, and the start of the local day,
/// when the time zone maps local midnight to exactly one instant. The
/// reading is taken by the caller: it rests on the local time zone, which
/// chrono reads from the environment and the zone files.
pub struct LocalClock {
    pub timestamp: i64,
    pub utc_offset: i32,
    pub midnight: Option<i64>,
}

impl LocalClock {
    /// What chrono guarantees of every reading: the timestamp lies in its
    /// range of dates, and a UTC offset is less than a day either way.
    pub open spec fn wf(&self) -> bool {
        &&& -chrono_timestamp_bound() <= self.timestamp <= chrono_timestamp_bound()
        &&& -86_400 < self.utc_offset < 86_400
    }
}

} // verus!
