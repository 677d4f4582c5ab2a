//! Calendar arithmetic on day numbers and Unix timestamps.
//!
//! A date is its day number in the proleptic Gregorian calendar with
//! January 1 of year 1 as day 1 (chrono's `num_days_from_ce`); an instant is
//! a count of whole seconds since 1970-01-01T00:00:00Z.

use chrono::Datelike;
use vstd::prelude::*;

use crate::explorer::Cadence;

verus! {

/// Day number of the earliest date chrono represents (January 1, -262143).
pub const MIN_DAY: i32 = -95746129;

/// Day number of the latest date chrono represents (December 31, 262142).
pub const MAX_DAY: i32 = 95745399;

/// Day number of 1970-01-01.
pub const EPOCH_DAY: i32 = 719163;

pub const SECS_PER_DAY: i64 = 86400;

/// Latest whole second chrono's `DateTime<Utc>` represents.
pub const MAX_TIMESTAMP: i64 = 8210266876799;

/// Earliest whole second chrono's `DateTime<Utc>` represents.
pub const MIN_TIMESTAMP: i64 = -8334601228800;

/// Largest number of whole seconds a chrono `TimeDelta` holds.
pub const MAX_DELTA_SECS: i64 = 9223372036854775;

/// Days since the most recent Monday (Monday = 0 … Sunday = 6); day 1 was a
/// Monday.
pub open spec fn days_from_monday(day: int) -> int {
    (day - 1) % 7
}

/// Day number of the first day of the month that contains `day`.
pub uninterp spec fn month_start(day: int) -> int;

/// Calls chrono: `NaiveDate::from_ymd_opt(d.year(), d.month(), 1)` for the
/// date `d` with day number `day`. The result is `month_start(day)`; chrono
/// documents days of month as 1..=31 and only ever yields dates in its own
/// range, so the first of the month lies at most 30 days before `day`, and
/// the first of the month is its own month start.
#[verifier::external_body]
fn first_of_month(day: i32) -> (r: i32)
    requires
        MIN_DAY <= day <= MAX_DAY,
    ensures
        r == month_start(day as int),
        MIN_DAY <= r <= day,
        day - r <= 30,
        month_start(r as int) == r,
{
    let date = chrono::NaiveDate::from_num_days_from_ce_opt(day).expect("day in range");
    chrono::NaiveDate::from_ymd_opt(date.year(), date.month(), 1).expect("valid").num_days_from_ce()
}

fn weekday_offset(day: i32) -> (r: i32)
    ensures
        r == days_from_monday(day as int),
        0 <= r < 7,
{
    let shifted: i64 = (day as i64) - 1;
    let m = shifted % 7;
    if m < 0 {
        (m + 7) as i32
    } else {
        m as i32
    }
}

/// Whether the last complete period before `today` can be computed without
/// leaving chrono's date range.
pub open spec fn window_defined(cadence: Cadence, today: int) -> bool {
    &&& today <= MAX_DAY
    &&& match cadence {
        Cadence::Daily => MIN_DAY <= today - 1,
        Cadence::Weekly => MIN_DAY <= today - days_from_monday(today) - 7,
        Cadence::Monthly => MIN_DAY <= today && MIN_DAY <= month_start(today) - 1,
    }
}

/// `[from, to]` of the last complete UTC period before `today`: yesterday;
/// the previous Monday–Sunday week; or the previous calendar month.
pub open spec fn closed_window(cadence: Cadence, today: int) -> (int, int) {
    match cadence {
        Cadence::Daily => (today - 1, today - 1),
        Cadence::Weekly => {
            let last_monday = today - days_from_monday(today) - 7;
            (last_monday, last_monday + 6)
        },
        Cadence::Monthly => {
            let last_day_prev = month_start(today) - 1;
            (month_start(last_day_prev), last_day_prev)
        },
    }
}

/// What a closed window `[from, to]` seen on day `today` looks like: it
/// ends before today; a day is yesterday; a week runs Monday to Sunday and
/// ends the day before this week's Monday; a month runs from a first of
/// the month to the day before this month's first.
pub open spec fn window_shape(cadence: Cadence, today: int, from: int, to: int) -> bool {
    &&& MIN_DAY <= from <= to < today
    &&& cadence == Cadence::Daily ==> from == to && to == today - 1
    &&& cadence == Cadence::Weekly ==> days_from_monday(from) == 0 && to == from + 6 && to + 1
        == today - days_from_monday(today)
    &&& cadence == Cadence::Monthly ==> from == month_start(to) && to + 1 == month_start(today)
        && to - from <= 30 && month_start(from) == from
}

/// The last complete UTC period before `today`, as `[from, to]` day numbers.
pub fn closed_period_window(cadence: Cadence, today: i32) -> (r: (i32, i32))
    requires
        window_defined(cadence, today as int),
    ensures
        (r.0 as int, r.1 as int) == closed_window(cadence, today as int),
        window_shape(cadence, today as int, r.0 as int, r.1 as int),
{
    match cadence {
        Cadence::Daily => {
            let d = today - 1;
            (d, d)
        },
        Cadence::Weekly => {
            let this_monday = today - weekday_offset(today);
            let last_monday = this_monday - 7;
            (last_monday, last_monday + 6)
        },
        Cadence::Monthly => {
            let first_of_this = first_of_month(today);
            let last_day_prev = first_of_this - 1;
            let first_of_prev = first_of_month(last_day_prev);
            (first_of_prev, last_day_prev)
        },
    }
}

/// Like `closed_period_window`, but returns `None` instead of requiring the
/// window to be defined.
pub fn closed_period_window_checked(cadence: Cadence, today: i32) -> (r: Option<(i32, i32)>)
    ensures
        r is Some <==> window_defined(cadence, today as int),
        r matches Some(w) ==> (w.0 as int, w.1 as int) == closed_window(cadence, today as int)
            && window_shape(cadence, today as int, w.0 as int, w.1 as int),
{
    if today > MAX_DAY {
        return None;
    }
    let defined = match cadence {
        Cadence::Daily => today > MIN_DAY,
        Cadence::Weekly => (today as i64) - (weekday_offset(today) as i64) - 7 >= MIN_DAY as i64,
        Cadence::Monthly => today >= MIN_DAY && first_of_month(today) > MIN_DAY,
    };
    if defined {
        Some(closed_period_window(cadence, today))
    } else {
        None
    }
}


/// Seconds elapsed since the preceding UTC midnight.
pub open spec fn secs_since_midnight(now: int) -> int {
    now % (SECS_PER_DAY as int)
}

/// Seconds from `now` to the next multiple of `window` seconds past
/// midnight; a whole window when `now` sits on a boundary.
pub open spec fn boundary_delta(now: int, window: int) -> int {
    let rem = secs_since_midnight(now) % window;
    if rem == 0 {
        window
    } else {
        window - rem
    }
}

/// Whether chrono can compute the next boundary after `now` without leaving
/// its ranges (it panics otherwise).
pub open spec fn boundary_defined(now: int, window: int) -> bool {
    &&& MIN_TIMESTAMP <= now <= MAX_TIMESTAMP
    &&& window > 0 ==> {
        &&& secs_since_midnight(now) + boundary_delta(now, window) <= MAX_DELTA_SECS
        &&& now + boundary_delta(now, window) <= MAX_TIMESTAMP
    }
}

/// The next wall-clock boundary strictly after `now` when the day is cut
/// into windows of `window_secs` seconds starting at UTC midnight; `now`
/// itself for an empty window.
pub fn next_boundary(now: i64, window_secs: u64) -> (r: i64)
    requires
        boundary_defined(now as int, window_secs as int),
    ensures
        window_secs == 0 ==> r == now,
        window_secs > 0 ==> r == now + boundary_delta(now as int, window_secs as int),
        window_secs > 0 ==> now < r <= now + window_secs,
        window_secs > 0 ==> (secs_since_midnight(now as int) + (r - now)) % (window_secs as int)
            == 0,
{
    if window_secs == 0 {
        return now;
    }
    let m = now % SECS_PER_DAY;
    let since: u64 = if m < 0 {
        (m + SECS_PER_DAY) as u64
    } else {
        m as u64
    };
    let rem = since % window_secs;
    let delta: u64 = if rem == 0 {
        window_secs
    } else {
        window_secs - rem
    };
    proof {
        let w = window_secs as int;
        let sn = since as int;
        assert(sn == secs_since_midnight(now as int));
        assert((sn + delta) % w == 0) by (nonlinear_arith)
            requires
                w > 0,
                sn >= 0,
                rem == sn % w,
                delta == (if rem == 0 { w } else { w - rem }),
        {
            vstd::arithmetic::div_mod::lemma_fundamental_div_mod(sn, w);
            vstd::arithmetic::div_mod::lemma_mod_multiples_vanish((sn / w) + 1, 0, w);
        }
    }
    now + (delta as i64)
}

/// Unix timestamp of the midnight that opens day `day`.
pub open spec fn midnight_of(day: int) -> int {
    (day - EPOCH_DAY) * SECS_PER_DAY
}

/// Unix timestamp of the midnight that opens day `day`.
pub fn midnight_timestamp(day: i32) -> (r: i64)
    requires
        MIN_DAY <= day <= MAX_DAY,
    ensures
        r == midnight_of(day as int),
{
    ((day as i64) - (EPOCH_DAY as i64)) * SECS_PER_DAY
}

} // verus!
