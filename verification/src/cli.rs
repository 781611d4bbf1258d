//! The command line: which command runs, and the text of the daily report.

use vstd::prelude::*;

use crate::clock::LocalClock;
use crate::db::AppSummary;
use crate::decimal::{decimal_int, push_decimal_i64};

verus! {

/// What the program is asked to do.
#[derive(Debug, Clone, PartialEq, Eq, Structural)]
pub enum Commands {
    /// Run the window tracking daemon.
    Daemon,
    /// Show the screen time summary for today.
    Today,
}

/// The parsed command line.
#[derive(Debug)]
pub struct Cli {
    pub command: Option<Commands>,
}

impl Cli {
    /// The command to run: the one given, else `Today`.
    pub fn selected_command(&self) -> (command: Commands)
        ensures
            command == match self.command {
                Some(c) => c,
                None => Commands::Today,
            },
    {
        match &self.command {
            Some(Commands::Daemon) => Commands::Daemon,
            Some(Commands::Today) => Commands::Today,
            None => Commands::Today,
        }
    }
}

/// Quotient of `a` by a positive `b`, rounded toward zero (Rust's `/`).
pub open spec fn div_toward_zero(a: int, b: int) -> int
    recommends
        b > 0,
{
    if a >= 0 {
        a / b
    } else {
        -((-a) / b)
    }
}

/// Remainder of `a` by a positive `b` that goes with `div_toward_zero`
/// (Rust's `%`): it has the sign of `a`.
pub open spec fn rem_toward_zero(a: int, b: int) -> int
    recommends
        b > 0,
{
    a - b * div_toward_zero(a, b)
}

/// Whole hours in a span of `seconds`.
pub open spec fn duration_hours(seconds: int) -> int {
    div_toward_zero(seconds, 3600)
}

/// Whole minutes left over after the hours.
pub open spec fn duration_minutes(seconds: int) -> int {
    div_toward_zero(rem_toward_zero(seconds, 3600), 60)
}

/// Seconds left over after the whole minutes.
pub open spec fn duration_seconds(seconds: int) -> int {
    rem_toward_zero(seconds, 60)
}

/// The text `{hours}h {minutes}m {secs}s` of a span of `seconds`.
pub open spec fn duration_text(seconds: int) -> Seq<char> {
    decimal_int(duration_hours(seconds)) + seq!['h', ' '] + decimal_int(duration_minutes(seconds))
        + seq!['m', ' '] + decimal_int(duration_seconds(seconds)) + seq!['s']
}

/// Formats a span of seconds as hours, minutes and seconds, such as
/// `1h 1m 1s` for 3661.
pub fn format_duration(seconds: i64) -> (text: String)
    ensures
        text@ == duration_text(seconds as int),
{
    let hours = seconds / 3600;
    let minutes = (seconds % 3600) / 60;
    let secs = seconds % 60;
    assert(hours == duration_hours(seconds as int));
    assert(minutes == duration_minutes(seconds as int));
    assert(secs == duration_seconds(seconds as int));
    let mut text = String::new();
    push_decimal_i64(&mut text, hours);
    text.push('h');
    text.push(' ');
    push_decimal_i64(&mut text, minutes);
    text.push('m');
    text.push(' ');
    push_decimal_i64(&mut text, secs);
    text.push('s');
    assert(text@ =~= duration_text(seconds as int));
    text
}

/// The start of the local day when the time zone cannot place local
/// midnight: the local time `utc + offset` cut down to a whole day (toward
/// zero, as Rust's `%` does), taken back to UTC.
pub open spec fn fallback_day_start(utc: int, offset: int) -> int {
    let local = utc + offset;
    (local - rem_toward_zero(local, 86400)) - offset
}

/// The start of the local day of a clock reading: the local midnight when
/// the time zone gives one, else `fallback_day_start`.
pub open spec fn day_start(clock: LocalClock) -> int {
    match clock.midnight {
        Some(m) => m as int,
        None => fallback_day_start(clock.timestamp as int, clock.utc_offset as int),
    }
}

/// The start of the local day of `clock` (see `day_start`).
pub fn day_start_of_clock(clock: &LocalClock) -> (start: i64)
    requires
        clock.wf(),
    ensures
        start == day_start(*clock),
{
    match clock.midnight {
        Some(m) => m,
        None => {
            let offset = clock.utc_offset as i64;
            let local = clock.timestamp + offset;
            let local_day_start = local - (local % 86400);
            local_day_start - offset
        },
    }
}

/// The sum of the durations of `summaries`.
pub open spec fn total_seconds(summaries: Seq<AppSummary>) -> int
    decreases summaries.len(),
{
    if summaries.len() == 0 {
        0
    } else {
        total_seconds(summaries.drop_last()) + summaries.last().duration_sec
    }
}

/// Every running total, from the first summary to the last, fits in an
/// `i64`.
pub open spec fn running_totals_fit(summaries: Seq<AppSummary>) -> bool {
    forall|k: int|
        0 <= k <= summaries.len() ==> i64::MIN <= #[trigger] total_seconds(summaries.take(k))
            <= i64::MAX
}

/// The total screen time of the report: the sum of the durations, added
/// in order. `None` when a running total leaves the range of `i64`.
pub fn total_duration(summaries: &Vec<AppSummary>) -> (total: Option<i64>)
    ensures
        running_totals_fit(summaries@) <==> total is Some,
        total matches Some(t) ==> t == total_seconds(summaries@),
{
    let mut total: i64 = 0;
    let mut i: usize = 0;
    assert(summaries@.take(0) =~= Seq::<AppSummary>::empty());
    while i < summaries.len()
        invariant
            i <= summaries.len(),
            total == total_seconds(summaries@.take(i as int)),
            forall|k: int|
                0 <= k <= i ==> i64::MIN <= #[trigger] total_seconds(summaries@.take(k))
                    <= i64::MAX,
        decreases summaries.len() - i,
    {
        assert(summaries@.take(i + 1).drop_last() =~= summaries@.take(i as int));
        match total.checked_add(summaries[i].duration_sec) {
            Some(t) => {
                total = t;
            },
            None => {
                assert(!(i64::MIN <= total_seconds(summaries@.take(i + 1)) <= i64::MAX));
                return None;
            },
        }
        i = i + 1;
    }
    assert(summaries@.take(i as int) =~= summaries@);
    Some(total)
}

/// The hours, minutes and seconds that `format_duration` shows add back up
/// to the span, minutes and seconds stay under 60 in size, and no part has
/// a sign other than the span's.
pub proof fn lemma_duration_parts_add_up(seconds: int)
    ensures
        3600 * duration_hours(seconds) + 60 * duration_minutes(seconds) + duration_seconds(seconds)
            == seconds,
        -60 < duration_minutes(seconds) < 60,
        -60 < duration_seconds(seconds) < 60,
        seconds >= 0 ==> duration_hours(seconds) >= 0 && duration_minutes(seconds) >= 0
            && duration_seconds(seconds) >= 0,
        seconds <= 0 ==> duration_hours(seconds) <= 0 && duration_minutes(seconds) <= 0
            && duration_seconds(seconds) <= 0,
{
    let r = rem_toward_zero(seconds, 3600);
    if seconds >= 0 {
        assert(0 <= r < 3600);
        assert(seconds == 3600 * (seconds / 3600) + r);
        assert(r == 60 * (r / 60) + r % 60);
        assert(seconds % 60 == r % 60) by {
            vstd::arithmetic::div_mod::lemma_fundamental_div_mod(seconds, 60);
            assert(seconds == 60 * (60 * (seconds / 3600) + r / 60) + r % 60);
            vstd::arithmetic::div_mod::lemma_fundamental_div_mod_converse(
                seconds,
                60,
                60 * (seconds / 3600) + r / 60,
                r % 60,
            );
        }
    } else {
        let n = -seconds;
        let rn = n % 3600;
        assert(n == 3600 * (n / 3600) + rn);
        assert(r == -rn);
        assert(rn == 60 * (rn / 60) + rn % 60);
        assert(n % 60 == rn % 60) by {
            assert(n == 60 * (60 * (n / 3600) + rn / 60) + rn % 60);
            vstd::arithmetic::div_mod::lemma_fundamental_div_mod_converse(
                n,
                60,
                60 * (n / 3600) + rn / 60,
                rn % 60,
            );
        }
        assert(duration_minutes(seconds) == -(rn / 60));
    }
}

/// When the local time is not before 1970, the fallback start of the day
/// is a local midnight (a whole number of days in local time) and the
/// reading falls within the day that it starts.
pub proof fn lemma_fallback_is_start_of_local_day(utc: int, offset: int)
    requires
        utc + offset >= 0,
    ensures
        (fallback_day_start(utc, offset) + offset) % 86400 == 0,
        fallback_day_start(utc, offset) <= utc < fallback_day_start(utc, offset) + 86400,
{
    let local = utc + offset;
    vstd::arithmetic::div_mod::lemma_fundamental_div_mod(local, 86400);
    assert(local - local % 86400 == 86400 * (local / 86400));
    vstd::arithmetic::div_mod::lemma_mod_multiples_basic(local / 86400, 86400);
}

/// The total of two lists one after the other is the sum of their totals.
pub proof fn lemma_total_seconds_of_concatenation(a: Seq<AppSummary>, b: Seq<AppSummary>)
    ensures
        total_seconds(a + b) == total_seconds(a) + total_seconds(b),
    decreases b.len(),
{
    if b.len() == 0 {
        assert(a + b =~= a);
    } else {
        lemma_total_seconds_of_concatenation(a, b.drop_last());
        assert((a + b).drop_last() =~= a + b.drop_last());
        assert((a + b).last() == b.last());
    }
}

} // verus!
