//! The proleptic Gregorian calendar, used to turn a modification instant
//! (seconds relative to the Unix epoch, already shifted into the local time
//! zone) into a civil date and time of day. Covers the years 0 through 9999,
//! the range the report's four-digit year field can carry.

use vstd::prelude::*;

verus! {

pub open spec fn is_leap_year(y: int) -> bool {
    (y % 4 == 0 && y % 100 != 0) || y % 400 == 0
}

pub open spec fn days_in_year(y: int) -> int {
    if is_leap_year(y) {
        366
    } else {
        365
    }
}

pub open spec fn days_in_month(y: int, m: int) -> int {
    if m == 2 {
        if is_leap_year(y) {
            29
        } else {
            28
        }
    } else if m == 4 || m == 6 || m == 9 || m == 11 {
        30
    } else {
        31
    }
}

/// Days from 1970-01-01 to the first day of year `y` (negative before 1970).
pub open spec fn days_before_year(y: int) -> int
    decreases (if y >= 1970 {
        y - 1970
    } else {
        1970 - y
    }),
{
    if y == 1970 {
        0
    } else if y > 1970 {
        days_before_year(y - 1) + days_in_year(y - 1)
    } else {
        days_before_year(y + 1) - days_in_year(y)
    }
}

/// Days from the first day of year `y` to the first day of its month `m`.
pub open spec fn days_before_month(y: int, m: int) -> int
    decreases m,
{
    if m <= 1 {
        0
    } else {
        days_before_month(y, m - 1) + days_in_month(y, m - 1)
    }
}

/// Days from 1970-01-01 to the civil date `y`-`m`-`d`.
pub open spec fn days_from_civil(y: int, m: int, d: int) -> int {
    days_before_year(y) + days_before_month(y, m) + d - 1
}

/// A civil date and time of day, the mathematical model of one formatted
/// timestamp.
pub struct Civil {
    pub year: int,
    pub month: int,
    pub day: int,
    pub hour: int,
    pub minute: int,
    pub second: int,
}

impl Civil {
    /// A well-formed civil time: a real date of the years 0 through 9999 and
    /// a real time of day.
    pub open spec fn wf(self) -> bool {
        &&& 0 <= self.year <= 9999
        &&& 1 <= self.month <= 12
        &&& 1 <= self.day <= days_in_month(self.year, self.month)
        &&& 0 <= self.hour < 24
        &&& 0 <= self.minute < 60
        &&& 0 <= self.second < 60
    }

    /// The instant this civil time denotes, in seconds relative to the epoch
    /// of its own (local) clock.
    pub open spec fn local_secs(self) -> int {
        days_from_civil(self.year, self.month, self.day) * 86400 + self.hour * 3600 + self.minute
            * 60 + self.second
    }
}

/// Whether some well-formed civil time (year 0 through 9999) denotes this
/// instant.
pub open spec fn representable(local: int) -> bool {
    exists|c: Civil| c.wf() && c.local_secs() == local
}

/// One year advances the day count by that year's length.
proof fn lemma_dby_succ(y: int)
    ensures
        days_before_year(y + 1) == days_before_year(y) + days_in_year(y),
{
}

/// The day count grows with the year, by 365 to 366 days per year.
proof fn lemma_dby_mono(a: int, b: int)
    requires
        a <= b,
    ensures
        365 * (b - a) <= days_before_year(b) - days_before_year(a) <= 366 * (b - a),
    decreases b - a,
{
    if a < b {
        lemma_dby_succ(b - 1);
        lemma_dby_mono(a, b - 1);
    }
}

/// One month advances the day count by that month's length.
proof fn lemma_dbm_succ(y: int, m: int)
    requires
        m >= 1,
    ensures
        days_before_month(y, m + 1) == days_before_month(y, m) + days_in_month(y, m),
{
}

/// The twelve months exactly cover the year.
proof fn lemma_months_cover(y: int)
    ensures
        days_before_month(y, 13) == days_in_year(y),
{
    reveal_with_fuel(days_before_month, 14);
}

/// Within the year, a month's days lie between its start offset and the
/// year's length.
proof fn lemma_dbm_bounds(y: int, m: int)
    requires
        1 <= m <= 12,
    ensures
        0 <= days_before_month(y, m),
        days_before_month(y, m) + days_in_month(y, m) <= days_in_year(y),
    decreases 13 - m,
{
    lemma_dbm_succ(y, m);
    if m == 12 {
        lemma_months_cover(y);
    } else {
        lemma_dbm_bounds(y, m + 1);
    }
    if m > 1 {
        lemma_dbm_bounds_low(y, m);
    }
}

/// The day count into the year is never negative.
proof fn lemma_dbm_bounds_low(y: int, m: int)
    requires
        1 <= m,
    ensures
        0 <= days_before_month(y, m),
    decreases m,
{
    if m > 1 {
        lemma_dbm_bounds_low(y, m - 1);
    }
}

/// A well-formed civil time lies within its own year.
pub proof fn lemma_civil_secs_bounds(c: Civil)
    requires
        c.wf(),
    ensures
        days_before_year(c.year) * 86400 <= c.local_secs(),
        c.local_secs() < days_before_year(c.year + 1) * 86400,
{
    lemma_dbm_bounds(c.year, c.month);
    lemma_dby_succ(c.year);
}

/// Every well-formed civil time (year 0 through 9999) denotes an instant in
/// one fixed window around the epoch.
pub proof fn lemma_representable_window(c: Civil)
    requires
        c.wf(),
    ensures
        days_before_year(0) * 86400 <= c.local_secs(),
        c.local_secs() < days_before_year(10000) * 86400,
        -63000000000 < c.local_secs() < 260000000000,
{
    lemma_civil_secs_bounds(c);
    lemma_dby_mono(0, c.year);
    lemma_dby_mono(c.year + 1, 10000);
    lemma_dby_mono(0, 1970);
    lemma_dby_mono(1970, 10000);
}

/// Later months start later in the year.
proof fn lemma_dbm_mono(y: int, a: int, b: int)
    requires
        1 <= a <= b,
    ensures
        days_before_month(y, a) <= days_before_month(y, b),
    decreases b - a,
{
    if a < b {
        lemma_dbm_succ(y, b - 1);
        lemma_dbm_mono(y, a, b - 1);
    }
}

/// An instant has at most one well-formed civil reading: the calendar
/// decomposition of a second count is unique.
pub proof fn lemma_civil_unique(c1: Civil, c2: Civil)
    requires
        c1.wf(),
        c2.wf(),
        c1.local_secs() == c2.local_secs(),
    ensures
        c1 == c2,
{
    let d1 = days_from_civil(c1.year, c1.month, c1.day);
    let d2 = days_from_civil(c2.year, c2.month, c2.day);
    let sod1 = c1.hour * 3600 + c1.minute * 60 + c1.second;
    let sod2 = c2.hour * 3600 + c2.minute * 60 + c2.second;
    assert(0 <= sod1 < 86400 && 0 <= sod2 < 86400);
    assert(d1 == d2 && sod1 == sod2) by {
        assert((d1 - d2) * 86400 == sod2 - sod1);
    }
    assert(c1.hour == c2.hour && c1.minute == c2.minute && c1.second == c2.second);
    if c1.year != c2.year {
        let (lo, hi) = if c1.year < c2.year {
            (c1, c2)
        } else {
            (c2, c1)
        };
        lemma_civil_secs_bounds(lo);
        lemma_civil_secs_bounds(hi);
        lemma_dby_mono(lo.year + 1, hi.year);
        assert(false);
    }
    if c1.month != c2.month {
        let (lo, hi) = if c1.month < c2.month {
            (c1, c2)
        } else {
            (c2, c1)
        };
        lemma_dbm_bounds(lo.year, lo.month);
        lemma_dbm_succ(lo.year, lo.month);
        lemma_dbm_mono(lo.year, lo.month + 1, hi.month);
        lemma_dbm_bounds(hi.year, hi.month);
        assert(false);
    }
}

/// The execution-time civil time: year 0 through 9999, with the month, day
/// and time-of-day fields in their calendar ranges.
#[derive(Clone, Copy, PartialEq, Eq, Structural, Debug)]
pub struct CivilTime {
    pub year: u16,
    pub month: u8,
    pub day: u8,
    pub hour: u8,
    pub minute: u8,
    pub second: u8,
}

impl View for CivilTime {
    type V = Civil;

    open spec fn view(&self) -> Civil {
        Civil {
            year: self.year as int,
            month: self.month as int,
            day: self.day as int,
            hour: self.hour as int,
            minute: self.minute as int,
            second: self.second as int,
        }
    }
}

fn is_leap_year_x(y: i64) -> (r: bool)
    requires
        0 <= y,
    ensures
        r == is_leap_year(y as int),
{
    (y % 4 == 0 && y % 100 != 0) || y % 400 == 0
}

fn days_in_year_x(y: i64) -> (r: i64)
    requires
        0 <= y,
    ensures
        r == days_in_year(y as int),
{
    if is_leap_year_x(y) {
        366
    } else {
        365
    }
}

fn days_in_month_x(y: i64, m: u8) -> (r: i64)
    requires
        0 <= y,
        1 <= m <= 12,
    ensures
        r == days_in_month(y as int, m as int),
{
    if m == 2 {
        if is_leap_year_x(y) {
            29
        } else {
            28
        }
    } else if m == 4 || m == 6 || m == 9 || m == 11 {
        30
    } else {
        31
    }
}

/// Split an instant of the local clock into its civil date and time of day.
/// `None` exactly when no year-0-to-9999 civil time denotes it.
pub fn civil_from_local(local: i64) -> (r: Option<CivilTime>)
    ensures
        r matches Some(ct) ==> ct@.wf() && ct@.local_secs() == local,
        r is Some <==> representable(local as int),
{
    let mut y: i64 = 1970;
    let mut start: i64 = 0;
    if local >= 0 {
        while local - start >= days_in_year_x(y) * 86400
            invariant
                1970 <= y <= 9999,
                start == days_before_year(y as int) * 86400,
                0 <= start <= local,
            decreases 9999 - y,
        {
            proof {
                lemma_dby_succ(y as int);
            }
            start = start + days_in_year_x(y) * 86400;
            y = y + 1;
            if y == 10000 {
                proof {
                    assert forall|c: Civil| c.wf() implies c.local_secs() != local by {
                        lemma_representable_window(c);
                    }
                }
                return None;
            }
        }
    } else {
        while local < start
            invariant
                0 <= y <= 1970,
                start == days_before_year(y as int) * 86400,
                local < start + days_in_year(y as int) * 86400,
                -63000000000 <= start <= 0,
            decreases y,
        {
            if y == 0 {
                proof {
                    assert forall|c: Civil| c.wf() implies c.local_secs() != local by {
                        lemma_representable_window(c);
                    }
                }
                return None;
            }
            proof {
                lemma_dby_succ(y as int - 1);
                lemma_dby_mono(0, y as int - 1);
                lemma_dby_mono(0, 1970);
            }
            y = y - 1;
            start = start - days_in_year_x(y) * 86400;
        }
    }
    let rem: i64 = local - start;
    proof {
        assert(0 <= rem < days_in_year(y as int) * 86400);
    }
    let mut m: u8 = 1;
    let mut mstart: i64 = 0;
    while rem - mstart >= days_in_month_x(y, m) * 86400
        invariant
            1 <= m <= 12,
            0 <= y <= 9999,
            mstart == days_before_month(y as int, m as int) * 86400,
            0 <= mstart <= rem,
            rem < days_in_year(y as int) * 86400,
        decreases 12 - m,
    {
        proof {
            lemma_dbm_succ(y as int, m as int);
        }
        mstart = mstart + days_in_month_x(y, m) * 86400;
        m = m + 1;
        proof {
            if m == 13 {
                lemma_months_cover(y as int);
                assert(false);
            }
        }
    }
    let drem: i64 = rem - mstart;
    proof {
        assert(0 <= drem < days_in_month(y as int, m as int) * 86400);
    }
    let dr: u32 = drem as u32;
    let dayidx: u32 = dr / 86400;
    let sod: u32 = dr % 86400;
    proof {
        assert(dayidx * 86400 + sod == dr);
        assert(dayidx < days_in_month(y as int, m as int)) by (nonlinear_arith)
            requires
                dr < days_in_month(y as int, m as int) * 86400,
                dayidx == dr / 86400,
                0 <= dr,
        ;
        assert(sod < 86400);
    }
    let hour: u32 = sod / 3600;
    let rest: u32 = sod % 3600;
    let minute: u32 = rest / 60;
    let second: u32 = rest % 60;
    proof {
        assert(hour * 3600 + rest == sod);
        assert(minute * 60 + second == rest);
        assert(hour < 24);
        assert(minute < 60);
        assert(second < 60);
    }
    let ct = CivilTime {
        year: y as u16,
        month: m,
        day: (dayidx + 1) as u8,
        hour: hour as u8,
        minute: minute as u8,
        second: second as u8,
    };
    proof {
        assert(ct@.wf());
        assert(ct@.local_secs() == local);
    }
    Some(ct)
}

} // verus!
