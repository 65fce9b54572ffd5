//! Gregorian calendar model: dates, timestamps, and the conversion from
//! seconds since the Unix epoch to a calendar timestamp.
use vstd::prelude::*;

verus! {

/// A calendar date in the proleptic Gregorian calendar.
#[derive(Clone, Copy, PartialEq, Eq, Structural, Debug)]
pub struct Date {
    pub year: u32,
    pub month: u32,
    pub day: u32,
}

/// A calendar date together with a time of day, understood as UTC.
#[derive(Clone, Copy, PartialEq, Eq, Structural, Debug)]
pub struct Timestamp {
    pub date: Date,
    pub hour: u32,
    pub minute: u32,
    pub second: u32,
}

/// Whether a year is a leap year in the Gregorian calendar.
pub open spec fn is_leap_year(y: int) -> bool {
    (y % 4 == 0 && y % 100 != 0) || y % 400 == 0
}

/// Number of days in month `m` (1-based) of year `y`.
pub open spec fn days_in_month(y: int, m: int) -> int {
    if m == 2 {
        if is_leap_year(y) {
            29
        } else {
            28
        }
    } else if m == 4 || m == 6 || m == 9 || m == 11 {
        30
    } else {
        31
    }
}

/// Number of days in year `y`.
pub open spec fn days_in_year(y: int) -> int {
    if is_leap_year(y) {
        366
    } else {
        365
    }
}

impl Date {
    /// A date is valid when the month exists and the day fits the month,
    /// within the four-digit-year range the destination layout can express.
    pub open spec fn valid(self) -> bool {
        &&& self.year <= 9999
        &&& 1 <= self.month <= 12
        &&& 1 <= self.day <= days_in_month(self.year as int, self.month as int)
    }
}

impl Timestamp {
    /// A timestamp is valid when its date is valid and the time of day is in
    /// range.
    pub open spec fn valid(self) -> bool {
        &&& self.date.valid()
        &&& self.hour <= 23
        &&& self.minute <= 59
        &&& self.second <= 59
    }
}

/// Days from 1970-01-01 to the first day of year `y`, for `y >= 1970`.
pub open spec fn days_to_year(y: int) -> int
    decreases y,
{
    if y <= 1970 {
        0
    } else {
        days_to_year(y - 1) + days_in_year(y - 1)
    }
}

/// Days from the first day of year `y` to the first day of its month `m`.
pub open spec fn days_to_month(y: int, m: int) -> int
    decreases m,
{
    if m <= 1 {
        0
    } else {
        days_to_month(y, m - 1) + days_in_month(y, m - 1)
    }
}

/// Days since 1970-01-01 of a date with `year >= 1970`.
pub open spec fn epoch_days_of(d: Date) -> int {
    days_to_year(d.year as int) + days_to_month(d.year as int, d.month as int) + d.day - 1
}

/// Seconds since the Unix epoch of a timestamp with `date.year >= 1970`.
pub open spec fn epoch_secs_of(ts: Timestamp) -> int {
    epoch_days_of(ts.date) * 86400 + ts.hour * 3600 + ts.minute * 60 + ts.second
}

/// First epoch second that no four-digit-year timestamp can express.
pub open spec fn epoch_secs_limit() -> int {
    days_to_year(10000) * 86400
}

/// Whether a year is a leap year, executably.
pub fn leap_year(y: u32) -> (r: bool)
    ensures
        r == is_leap_year(y as int),
{
    (y % 4 == 0 && y % 100 != 0) || y % 400 == 0
}

/// Number of days in month `m` of year `y`, executably.
pub fn month_days(y: u32, m: u32) -> (r: u32)
    requires
        1 <= m <= 12,
    ensures
        r == days_in_month(y as int, m as int),
{
    if m == 2 {
        if leap_year(y) {
            29
        } else {
            28
        }
    } else if m == 4 || m == 6 || m == 9 || m == 11 {
        30
    } else {
        31
    }
}

/// Number of days in year `y`, executably.
pub fn year_days(y: u32) -> (r: u32)
    ensures
        r == days_in_year(y as int),
{
    if leap_year(y) {
        366
    } else {
        365
    }
}

/// The sum of the twelve month lengths of a year is the year's length.
proof fn lemma_year_of_months(y: int)
    ensures
        days_to_month(y, 13) == days_in_year(y),
{
    reveal_with_fuel(days_to_month, 13);
}

/// Days from 1970-01-01 to the first day of year 10000, computed at run time
/// so that callers can compare a day count against the supported range.
pub fn epoch_days_limit() -> (r: u64)
    ensures
        r == days_to_year(10000),
        r <= 366 * 8030,
{
    let mut y: u32 = 1970;
    let mut acc: u64 = 0;
    while y < 10000
        invariant
            1970 <= y <= 10000,
            acc == days_to_year(y as int),
            acc <= 366 * (y - 1970),
        decreases 10000 - y,
    {
        acc = acc + year_days(y) as u64;
        y = y + 1;
    }
    acc
}

/// A later year starts no earlier, and strictly after the given year's days.
proof fn lemma_days_to_year_mono(y1: int, y2: int)
    requires
        1970 <= y1 <= y2,
    ensures
        days_to_year(y1) <= days_to_year(y2),
        y1 < y2 ==> days_to_year(y1) + days_in_year(y1) <= days_to_year(y2),
    decreases y2 - y1,
{
    if y1 < y2 {
        lemma_days_to_year_mono(y1, y2 - 1);
    }
}

/// A later month starts no earlier within its year.
proof fn lemma_days_to_month_mono(y: int, m1: int, m2: int)
    requires
        1 <= m1 <= m2,
    ensures
        days_to_month(y, m1) <= days_to_month(y, m2),
        m1 < m2 ==> days_to_month(y, m1) + days_in_month(y, m1) <= days_to_month(y, m2),
    decreases m2 - m1,
{
    if m1 < m2 {
        lemma_days_to_month_mono(y, m1, m2 - 1);
    }
}

/// A valid date's day number stays within its year.
proof fn lemma_epoch_days_in_year(d: Date)
    requires
        d.valid(),
        d.year >= 1970,
    ensures
        days_to_year(d.year as int) <= epoch_days_of(d),
        epoch_days_of(d) < days_to_year(d.year as int) + days_in_year(d.year as int),
{
    lemma_days_to_month_mono(d.year as int, 1, d.month as int);
    lemma_days_to_month_mono(d.year as int, d.month as int, 13);
    lemma_year_of_months(d.year as int);
}

/// Law: a valid date on or after 1970 is determined by its day number — two
/// such dates with the same days since the epoch are the same date.
pub proof fn lemma_epoch_days_injective(d1: Date, d2: Date)
    requires
        d1.valid(),
        d2.valid(),
        d1.year >= 1970,
        d2.year >= 1970,
        epoch_days_of(d1) == epoch_days_of(d2),
    ensures
        d1 == d2,
{
    lemma_epoch_days_in_year(d1);
    lemma_epoch_days_in_year(d2);
    if d1.year < d2.year {
        lemma_days_to_year_mono(d1.year as int, d2.year as int);
    }
    if d2.year < d1.year {
        lemma_days_to_year_mono(d2.year as int, d1.year as int);
    }
    let y = d1.year as int;
    if d1.month < d2.month {
        lemma_days_to_month_mono(y, d1.month as int, d2.month as int);
    }
    if d2.month < d1.month {
        lemma_days_to_month_mono(y, d2.month as int, d1.month as int);
    }
}

/// Law: a valid timestamp on or after 1970 is determined by its epoch
/// second — the calendar conversion has exactly one answer.
pub proof fn lemma_epoch_secs_injective(t1: Timestamp, t2: Timestamp)
    requires
        t1.valid(),
        t2.valid(),
        t1.date.year >= 1970,
        t2.date.year >= 1970,
        epoch_secs_of(t1) == epoch_secs_of(t2),
    ensures
        t1 == t2,
{
    let s1 = t1.hour * 3600 + t1.minute * 60 + t1.second;
    let s2 = t2.hour * 3600 + t2.minute * 60 + t2.second;
    assert(0 <= s1 < 86400 && 0 <= s2 < 86400);
    assert(epoch_days_of(t1.date) == epoch_days_of(t2.date) && s1 == s2) by (nonlinear_arith)
        requires
            epoch_days_of(t1.date) * 86400 + s1 == epoch_days_of(t2.date) * 86400 + s2,
            0 <= s1 < 86400,
            0 <= s2 < 86400,
    {
    }
    lemma_epoch_days_injective(t1.date, t2.date);
    assert(t1.hour == t2.hour && t1.minute == t2.minute) by (nonlinear_arith)
        requires
            t1.hour * 3600 + t1.minute * 60 + t1.second == t2.hour * 3600 + t2.minute * 60
                + t2.second,
            t1.hour <= 23 && t1.minute <= 59 && t1.second <= 59,
            t2.hour <= 23 && t2.minute <= 59 && t2.second <= 59,
    {
    }
}

/// Converts seconds since the Unix epoch to a calendar timestamp, UTC.
/// Returns `None` exactly when the instant lies before 1970 or at or beyond
/// year 10000, the range the dated destination layout can express.
pub fn timestamp_from_epoch(secs: i64) -> (r: Option<Timestamp>)
    ensures
        r is Some <==> 0 <= secs < epoch_secs_limit(),
        r is Some ==> {
            let ts = r->0;
            &&& ts.valid()
            &&& ts.date.year >= 1970
            &&& epoch_secs_of(ts) == secs
        },
{
    if secs < 0 {
        return None;
    }
    let total_days: i64 = secs / 86400;
    let rem_secs: i64 = secs % 86400;
    let limit: u64 = epoch_days_limit();
    proof {
        assert(total_days * 86400 + rem_secs == secs);
        assert(0 <= rem_secs < 86400);
        assert(total_days < limit ==> secs < limit * 86400) by (nonlinear_arith)
            requires
                total_days * 86400 + rem_secs == secs,
                0 <= rem_secs < 86400,
        {
        }
        assert(secs < limit * 86400 ==> total_days < limit) by (nonlinear_arith)
            requires
                total_days * 86400 + rem_secs == secs,
                0 <= rem_secs < 86400,
        {
        }
    }
    if total_days >= limit as i64 {
        return None;
    }
    let mut y: u32 = 1970;
    let mut days: i64 = total_days;
    while days >= year_days(y) as i64
        invariant
            1970 <= y <= 9999,
            days == total_days - days_to_year(y as int),
            0 <= days,
            0 <= total_days < days_to_year(10000),
            days_to_year(10000) <= 366 * 8030,
        decreases days,
    {
        days = days - year_days(y) as i64;
        y = y + 1;
    }
    let year_rem: i64 = days;
    let mut m: u32 = 1;
    let mut d: i64 = days;
    while d >= month_days(y, m) as i64
        invariant
            1 <= m <= 12,
            1970 <= y <= 9999,
            d == year_rem - days_to_month(y as int, m as int),
            0 <= d,
            0 <= year_rem < days_in_year(y as int),
        decreases d,
    {
        proof {
            lemma_year_of_months(y as int);
        }
        d = d - month_days(y, m) as i64;
        m = m + 1;
    }
    let day: u32 = (d + 1) as u32;
    let hour: i64 = rem_secs / 3600;
    let rem_min: i64 = rem_secs % 3600;
    let minute: i64 = rem_min / 60;
    let second: i64 = rem_min % 60;
    let ts = Timestamp {
        date: Date { year: y, month: m, day },
        hour: hour as u32,
        minute: minute as u32,
        second: second as u32,
    };
    proof {
        assert(epoch_days_of(ts.date) == total_days);
        assert(hour * 3600 + rem_min == rem_secs);
        assert(minute * 60 + second == rem_min);
        assert(epoch_secs_of(ts) == secs) by (nonlinear_arith)
            requires
                epoch_days_of(ts.date) == total_days,
                total_days * 86400 + rem_secs == secs,
                hour * 3600 + rem_min == rem_secs,
                minute * 60 + second == rem_min,
                ts.hour == hour,
                ts.minute == minute,
                ts.second == second,
                0 <= hour,
                0 <= minute,
                0 <= second,
        {
        }
        assert(total_days < limit ==> secs < limit * 86400) by (nonlinear_arith)
            requires
                total_days * 86400 + rem_secs == secs,
                0 <= rem_secs < 86400,
                0 <= total_days,
        {
        }
    }
    Some(ts)
}

} // verus!
