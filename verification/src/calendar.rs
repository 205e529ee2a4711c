//! The instants that bound the monitor's reporting windows, computed from the
//! current time. Instants are nanoseconds since the Unix epoch (UTC).
use vstd::prelude::*;

verus! {

pub const NANOS_PER_SEC: i128 = 1_000_000_000;

pub const NANOS_PER_HOUR: i128 = 3_600_000_000_000;

pub const NANOS_PER_DAY: i128 = 86_400_000_000_000;

/// Instants that chrono can represent lie well within this range; the window
/// arithmetic below is exact inside it.
pub open spec fn in_time_range(t: int) -> bool {
    -9_223_372_036_854_775_808 * 1_000_000_000 <= t <= 9_223_372_036_854_775_807 * 1_000_000_000
}

/// The UTC calendar (year, month) of the instant `secs` seconds after the
/// Unix epoch, as chrono computes it; `None` where chrono has no such date.
pub uninterp spec fn utc_year_month(secs: i64) -> Option<(i32, u32)>;

/// The Unix time, in seconds, of midnight UTC on the first day of the given
/// month, as chrono computes it; `None` where chrono has no such date.
pub uninterp spec fn utc_month_start(year: i32, month: u32) -> Option<i64>;

/// chrono: `DateTime::<Utc>::from_timestamp(secs, 0)`, then `date_naive()` and
/// the `Datelike` accessors `year()` and `month()`. The contract claims that
/// the result is a function of `secs` alone (UTC involves no time zone
/// database) and, as `Datelike::month` documents, that the month lies in
/// 1..=12.
#[verifier::external_body]
fn civil_year_month(secs: i64) -> (r: Option<(i32, u32)>)
    ensures
        r == utc_year_month(secs),
        r matches Some((_, m)) ==> 1 <= m <= 12,
{
    match chrono::DateTime::from_timestamp(secs, 0) {
        Some(t) => {
            let d = t.date_naive();
            Some((chrono::Datelike::year(&d), chrono::Datelike::month(&d)))
        },
        None => None,
    }
}

/// chrono: `NaiveDate::from_ymd_opt(year, month, 1)`, then `and_hms_opt(0, 0, 0)`,
/// `and_utc()` and `timestamp()`. The contract claims only that the result is
/// a function of the arguments.
#[verifier::external_body]
fn month_start_secs(year: i32, month: u32) -> (r: Option<i64>)
    ensures
        r == utc_month_start(year, month),
{
    match chrono::NaiveDate::from_ymd_opt(year, month, 1) {
        Some(d) => match d.and_hms_opt(0, 0, 0) {
            Some(t) => Some(t.and_utc().timestamp()),
            None => None,
        },
        None => None,
    }
}

/// Midnight UTC at the start of the calendar month of `now`; `now` itself
/// when the calendar cannot place it.
pub open spec fn spec_first_of_month(now: int) -> int {
    let secs = now / 1_000_000_000;
    if i64::MIN <= secs <= i64::MAX {
        match utc_year_month(secs as i64) {
            Some((y, m)) => match utc_month_start(y, m) {
                Some(t) => t * 1_000_000_000,
                None => now,
            },
            None => now,
        }
    } else {
        now
    }
}

/// Midnight UTC at the start of the current calendar month.
pub fn first_of_month(now: i128) -> (r: i128)
    requires
        in_time_range(now as int),
    ensures
        r == spec_first_of_month(now as int),
{
    let rem = now % NANOS_PER_SEC;
    let secs: i128 = if rem < 0 {
        (now - rem) / NANOS_PER_SEC - 1
    } else {
        (now - rem) / NANOS_PER_SEC
    };
    assert(secs == now / 1_000_000_000);
    if secs < i64::MIN as i128 || secs > i64::MAX as i128 {
        return now;
    }
    match civil_year_month(secs as i64) {
        Some((y, m)) => match month_start_secs(y, m) {
            Some(t) => (t as i128) * NANOS_PER_SEC,
            None => now,
        },
        None => now,
    }
}

/// The lower bounds of the reporting windows at the instant `now`.
#[derive(Clone, Copy)]
pub struct Clock {
    pub now: i128,
    /// Midnight UTC of the current day.
    pub today_start: i128,
    pub hour_ago: i128,
    pub five_h_ago: i128,
    pub week_ago: i128,
    /// Midnight UTC on the first day of the current month.
    pub month_start: i128,
}

/// The window bounds at `now`: the current UTC day, the last hour, the last
/// five hours, the last seven days, and the current calendar month.
pub open spec fn spec_clock_at(now: int, c: Clock) -> bool {
    &&& c.now == now
    &&& c.today_start == now - now % (86_400_000_000_000 as int)
    &&& c.hour_ago == now - 3_600_000_000_000
    &&& c.five_h_ago == now - 5 * 3_600_000_000_000
    &&& c.week_ago == now - 7 * 86_400_000_000_000
    &&& c.month_start == spec_first_of_month(now)
}

/// The window bounds at the instant `now`.
pub fn clock_at(now: i128) -> (c: Clock)
    requires
        in_time_range(now as int),
    ensures
        spec_clock_at(now as int, c),
{
    let rem = now % NANOS_PER_DAY;
    let today_start = if rem < 0 {
        now - rem - NANOS_PER_DAY
    } else {
        now - rem
    };
    Clock {
        now,
        today_start,
        hour_ago: now - NANOS_PER_HOUR,
        five_h_ago: now - 5 * NANOS_PER_HOUR,
        week_ago: now - 7 * NANOS_PER_DAY,
        month_start: first_of_month(now),
    }
}


/// The length of the five-hour window, in nanoseconds.
pub const FIVE_HOURS_NANOS: i64 = 18_000_000_000_000;

/// The length of the seven-day window, in nanoseconds.
pub const WEEK_NANOS: i64 = 604_800_000_000_000;

/// Whole seconds in `d` nanoseconds, rounded toward zero.
pub open spec fn whole_secs(d: int) -> int {
    if d >= 0 {
        d / 1_000_000_000
    } else {
        -((-d) / 1_000_000_000)
    }
}

/// `x` held within the range of `i64`.
pub open spec fn clamp_i64(x: int) -> i64 {
    if x < i64::MIN {
        i64::MIN
    } else if x > i64::MAX {
        i64::MAX
    } else {
        x as i64
    }
}

/// Whole seconds (toward zero, held within `i64`) from the instant `from`
/// until `ahead` nanoseconds after the instant `to`.
pub fn secs_until(from: i128, to: i128, ahead: i64) -> (s: i64)
    ensures
        s == clamp_i64(whole_secs(to + ahead - from)),
{
    let d = match to.checked_sub(from) {
        Some(d) => d,
        None => {
            return if to > from {
                i64::MAX
            } else {
                i64::MIN
            };
        },
    };
    let x = match d.checked_add(ahead as i128) {
        Some(x) => x,
        None => {
            return if d > 0 {
                i64::MAX
            } else {
                i64::MIN
            };
        },
    };
    if x <= i128::MIN + 1 {
        return i64::MIN;
    }
    let q: i128 = if x >= 0 {
        x / NANOS_PER_SEC
    } else {
        0 - ((0 - x) / NANOS_PER_SEC)
    };
    if q > i64::MAX as i128 {
        i64::MAX
    } else if q < i64::MIN as i128 {
        i64::MIN
    } else {
        q as i64
    }
}

/// Seconds from `now` until a window that began at `start` and lasts `len`
/// nanoseconds resets; none when the window holds no activity.
pub fn reset_in(start: Option<i128>, len: i64, now: i128) -> (r: Option<i64>)
    ensures
        r == (match start {
            Some(s) => Some(clamp_i64(whole_secs(s + len - now))),
            None => None,
        }),
{
    match start {
        Some(s) => Some(secs_until(now, s, len)),
        None => None,
    }
}

} // verus!
