//! Calendar formatting of Unix timestamps (UTC, proleptic Gregorian calendar).
use vstd::prelude::*;
use crate::text::{dec, push_char, u64_to_padded, zero_pad};

verus! {

/// Gregorian leap-year rule.
pub open spec fn is_leap(y: int) -> bool {
    (y % 4 == 0 && y % 100 != 0) || y % 400 == 0
}

/// Number of days in year `y`.
pub open spec fn year_days(y: int) -> int {
    if is_leap(y) {
        366
    } else {
        365
    }
}

/// Days from 1970-01-01 to the first day of year `y` (for `y >= 1970`).
pub open spec fn days_before_year(y: int) -> int
    decreases y - 1970,
{
    if y <= 1970 {
        0
    } else {
        days_before_year(y - 1) + year_days(y - 1)
    }
}

/// Length of month `m` (1..=12) of year `y`.
pub open spec fn month_len(y: int, m: int) -> int {
    if m == 2 {
        if is_leap(y) {
            29
        } else {
            28
        }
    } else if m == 4 || m == 6 || m == 9 || m == 11 {
        30
    } else {
        31
    }
}

/// Days from the first of January of year `y` to the first day of month `m`.
pub open spec fn days_before_month(y: int, m: int) -> int
    decreases m,
{
    if m <= 1 {
        0
    } else {
        days_before_month(y, m - 1) + month_len(y, m - 1)
    }
}

/// `(y, m, d)` is the calendar date that lies `days` days after 1970-01-01.
pub open spec fn is_civil(days: int, y: int, m: int, d: int) -> bool {
    &&& y >= 1970
    &&& 1 <= m <= 12
    &&& 1 <= d <= month_len(y, m)
    &&& days_before_year(y) + days_before_month(y, m) + d - 1 == days
}

/// The text `YYYY-MM-DD HH:MM:SS` for the given fields.
pub open spec fn datetime_text(y: nat, m: nat, d: nat, hh: nat, mm: nat, ss: nat) -> Seq<char> {
    zero_pad(dec(y), 4) + seq!['-'] + zero_pad(dec(m), 2) + seq!['-'] + zero_pad(dec(d), 2)
        + seq![' '] + zero_pad(dec(hh), 2) + seq![':'] + zero_pad(dec(mm), 2) + seq![':']
        + zero_pad(dec(ss), 2)
}

/// The text `HH:MM:SS` for the given fields.
pub open spec fn clock_text_spec(hh: nat, mm: nat, ss: nat) -> Seq<char> {
    zero_pad(dec(hh), 2) + seq![':'] + zero_pad(dec(mm), 2) + seq![':'] + zero_pad(dec(ss), 2)
}

/// Twelve months make up the year.
pub proof fn lemma_months_fill_year(y: int)
    ensures
        days_before_month(y, 13) == year_days(y),
{
    reveal_with_fuel(days_before_month, 13);
}

/// Months before `m` end where month `m` starts.
proof fn lemma_days_before_month_mono(y: int, m1: int, m2: int)
    requires
        1 <= m1 <= m2 <= 13,
    ensures
        days_before_month(y, m1) + (if m1 < m2 {
            month_len(y, m1)
        } else {
            0
        }) <= days_before_month(y, m2),
    decreases m2 - m1,
{
    if m1 < m2 {
        if m1 + 1 < m2 {
            lemma_days_before_month_mono(y, m1 + 1, m2);
            lemma_days_before_month_mono(y, m1, m1 + 1);
        }
    }
}

proof fn lemma_days_before_year_mono(y1: int, y2: int)
    requires
        1970 <= y1 <= y2,
    ensures
        days_before_year(y1) + (if y1 < y2 {
            year_days(y1)
        } else {
            0
        }) <= days_before_year(y2),
        days_before_year(y2) >= 365 * (y2 - 1970),
    decreases y2 - y1,
{
    if y1 < y2 {
        lemma_days_before_year_mono(y1, y2 - 1);
    } else {
        lemma_days_before_year_lower(y2);
    }
}

proof fn lemma_days_before_year_lower(y: int)
    requires
        y >= 1970,
    ensures
        days_before_year(y) >= 365 * (y - 1970),
    decreases y - 1970,
{
    if y > 1970 {
        lemma_days_before_year_lower(y - 1);
    }
}

/// A day count has at most one calendar date: the decomposition is unique.
pub proof fn lemma_civil_unique(days: int, y1: int, m1: int, d1: int, y2: int, m2: int, d2: int)
    requires
        is_civil(days, y1, m1, d1),
        is_civil(days, y2, m2, d2),
    ensures
        y1 == y2 && m1 == m2 && d1 == d2,
{
    lemma_months_fill_year(y1);
    lemma_months_fill_year(y2);
    lemma_days_before_month_mono(y1, m1, 13);
    lemma_days_before_month_mono(y2, m2, 13);
    lemma_days_before_month_mono(y1, 1, m1);
    lemma_days_before_month_mono(y2, 1, m2);
    assert(days < days_before_year(y1) + year_days(y1));
    assert(days < days_before_year(y2) + year_days(y2));
    if y1 < y2 {
        lemma_days_before_year_mono(y1, y2);
        assert(false);
    } else if y2 < y1 {
        lemma_days_before_year_mono(y2, y1);
        assert(false);
    } else {
        if m1 < m2 {
            lemma_days_before_month_mono(y1, m1, m2);
            assert(false);
        } else if m2 < m1 {
            lemma_days_before_month_mono(y1, m2, m1);
            assert(false);
        }
    }
}

/// The Gregorian leap-year rule.
pub fn is_leap_year(y: i64) -> (r: bool)
    ensures
        r == is_leap(y as int),
{
    (y % 4 == 0 && y % 100 != 0) || (y % 400 == 0)
}

/// Length of month `m` of year `y`, as the table lookup the formatter uses.
fn month_length(leap: bool, m: u64) -> (r: u64)
    requires
        1 <= m <= 12,
    ensures
        forall|y: int| is_leap(y) == leap ==> r == month_len(y, m as int),
{
    if m == 2 {
        if leap {
            29
        } else {
            28
        }
    } else if m == 4 || m == 6 || m == 9 || m == 11 {
        30
    } else {
        31
    }
}

/// Number of days in year `y`.
fn year_length(y: u64) -> (r: u64)
    ensures
        r == year_days(y as int),
{
    if (y % 4 == 0 && y % 100 != 0) || y % 400 == 0 {
        366
    } else {
        365
    }
}

/// Splits a day count since 1970-01-01 into year, month and day.
pub fn civil_from_days(days: u64) -> (r: (u64, u64, u64))
    ensures
        is_civil(days as int, r.0 as int, r.1 as int, r.2 as int),
{
    let mut y: u64 = 1970;
    let mut remaining: u64 = days;
    proof {
        lemma_days_before_year_lower(1971);
    }
    while remaining >= year_length(y)
        invariant
            y >= 1970,
            remaining <= days,
            days_before_year(y as int) + remaining == days,
        decreases remaining,
    {
        remaining = remaining - year_length(y);
        proof {
            lemma_days_before_year_lower(y as int + 1);
        }
        y = y + 1;
    }
    let leap = (y % 4 == 0 && y % 100 != 0) || y % 400 == 0;
    proof {
        lemma_months_fill_year(y as int);
    }
    let mut m: u64 = 1;
    let mut d: u64 = remaining;
    while d >= month_length(leap, m)
        invariant
            1 <= m <= 12,
            days_before_month(y as int, m as int) + d == remaining,
            remaining < year_days(y as int),
            leap == is_leap(y as int),
            days_before_month(y as int, 13) == year_days(y as int),
        decreases 13 - m,
    {
        d = d - month_length(leap, m);
        if m == 12 {
            assert(false);
        }
        m = m + 1;
    }
    (y, m, d + 1)
}

/// `YYYY-MM-DD HH:MM:SS` (UTC) for a Unix timestamp in seconds.
#[verifier::rlimit(40)]
pub fn chrono_format(unix_secs: u64) -> (r: String)
    ensures
        exists|y: nat, m: nat, d: nat|
            #[trigger] is_civil((unix_secs / 86400) as int, y as int, m as int, d as int) && r@
                == datetime_text(
                y,
                m,
                d,
                ((unix_secs % 86400) / 3600) as nat,
                ((unix_secs % 3600) / 60) as nat,
                (unix_secs % 60) as nat,
            ),
{
    let days = unix_secs / 86400;
    let time_secs = unix_secs % 86400;
    let hours = time_secs / 3600;
    let minutes = (time_secs % 3600) / 60;
    let secs = time_secs % 60;
    assert((unix_secs % 86400) % 3600 == unix_secs % 3600) by (nonlinear_arith);
    assert((unix_secs % 86400) % 60 == unix_secs % 60) by (nonlinear_arith);
    let (y, m, d) = civil_from_days(days);
    let mut out = u64_to_padded(y, 4);
    push_char(&mut out, '-');
    out.append(u64_to_padded(m, 2).as_str());
    push_char(&mut out, '-');
    out.append(u64_to_padded(d, 2).as_str());
    push_char(&mut out, ' ');
    let clock = clock_text(hours, minutes, secs);
    out.append(clock.as_str());
    assert(out@ =~= datetime_text(y as nat, m as nat, d as nat, hours as nat, minutes as nat, secs as nat));
    out
}

/// `HH:MM:SS` from hour, minute and second fields.
pub fn clock_text(hh: u64, mm: u64, ss: u64) -> (r: String)
    ensures
        r@ == clock_text_spec(hh as nat, mm as nat, ss as nat),
{
    let mut out = u64_to_padded(hh, 2);
    push_char(&mut out, ':');
    out.append(u64_to_padded(mm, 2).as_str());
    push_char(&mut out, ':');
    out.append(u64_to_padded(ss, 2).as_str());
    out
}

/// The wall-clock time of day in UTC+8 for a Unix timestamp.
pub fn clock_utc8(unix_secs: u64) -> (r: String)
    requires
        unix_secs + 8 * 3600 <= u64::MAX,
    ensures
        r@ == clock_text_spec(
            (((unix_secs + 28800) / 3600) % 24) as nat,
            (((unix_secs + 28800) / 60) % 60) as nat,
            ((unix_secs + 28800) % 60) as nat,
        ),
{
    let secs = unix_secs + 8 * 3600;
    clock_text((secs / 3600) % 24, (secs / 60) % 60, secs % 60)
}

/// Seconds since the Unix epoch, by the system clock (`SystemTime::now`);
/// zero when the clock reads before the epoch. Nothing is promised of the
/// value: it is whatever the clock says.
#[verifier::external_body]
pub(crate) fn now_secs() -> u64 {
    std::time::SystemTime::now().duration_since(std::time::UNIX_EPOCH).unwrap_or_default().as_secs()
}

/// Nanoseconds since the Unix epoch, by the system clock
/// (`SystemTime::now`); zero when the clock reads before the epoch. Nothing
/// is promised of the value.
#[verifier::external_body]
pub(crate) fn now_nanos() -> u128 {
    std::time::SystemTime::now().duration_since(std::time::UNIX_EPOCH).unwrap_or_default().as_nanos()
}

/// Milliseconds since the Unix epoch, by the system clock, cut to 64 bits
/// as `as u64` cuts them. Nothing is promised of the value.
#[verifier::external_body]
pub(crate) fn now_millis() -> u64 {
    std::time::SystemTime::now().duration_since(std::time::UNIX_EPOCH).unwrap_or_default().as_millis() as u64
}

} // verus!
