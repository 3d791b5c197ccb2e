//! Calendar dates of the proleptic Gregorian calendar, counted in days
//! from 1970-01-01 (UTC).

use vstd::prelude::*;

verus! {

/// Whether `y` is a leap year.
pub open spec fn is_leap_year(y: int) -> bool {
    y % 4 == 0 && (y % 100 != 0 || y % 400 == 0)
}

/// The number of days of year `y`.
pub open spec fn year_length(y: int) -> int {
    if is_leap_year(y) { 366 } else { 365 }
}

/// The number of days of month `m` (1 to 12) of year `y`.
pub open spec fn month_length(y: int, m: int) -> int {
    if m == 2 {
        if is_leap_year(y) { 29 } else { 28 }
    } else if m == 4 || m == 6 || m == 9 || m == 11 {
        30
    } else {
        31
    }
}

/// The number of days of year `y` before the first of month `m`.
pub open spec fn days_before_month(y: int, m: int) -> int {
    let before: int = if m == 1 {
        0
    } else if m == 2 {
        31
    } else if m == 3 {
        59
    } else if m == 4 {
        90
    } else if m == 5 {
        120
    } else if m == 6 {
        151
    } else if m == 7 {
        181
    } else if m == 8 {
        212
    } else if m == 9 {
        243
    } else if m == 10 {
        273
    } else if m == 11 {
        304
    } else {
        334
    };
    before + if m > 2 && is_leap_year(y) { 1int } else { 0 }
}

/// The number of leap years from year 1 to year `y`.
pub open spec fn leap_years_through(y: int) -> int {
    y / 4 - y / 100 + y / 400
}

/// The number of days from 1970-01-01 to the first of January of `y`.
pub open spec fn days_before_year(y: int) -> int {
    365 * (y - 1970) + leap_years_through(y - 1) - leap_years_through(1969)
}

/// Day `days` after 1970-01-01 is the `d`th of month `m` of year `y`.
pub open spec fn is_civil_date(days: int, y: int, m: int, d: int) -> bool {
    &&& y >= 1970
    &&& 1 <= m <= 12
    &&& 1 <= d <= month_length(y, m)
    &&& days_before_year(y) + days_before_month(y, m) + d - 1 == days
}

/// The year, month and day of day `days` after 1970-01-01.
pub open spec fn civil_date(days: int) -> (int, int, int) {
    choose|t: (int, int, int)| is_civil_date(days, t.0, t.1, t.2)
}

/// One year after another: the days before a year grow by its length.
pub proof fn lemma_year_step(y: int)
    requires
        y >= 1970,
    ensures
        days_before_year(y + 1) == days_before_year(y) + year_length(y),
{
    assert(y / 4 - (y - 1) / 4 == if y % 4 == 0 { 1int } else { 0 });
    assert(y / 100 - (y - 1) / 100 == if y % 100 == 0 { 1int } else { 0 });
    assert(y / 400 - (y - 1) / 400 == if y % 400 == 0 { 1int } else { 0 });
}

/// Four hundred years hold 146097 days.
pub proof fn lemma_cycle(y: int)
    requires
        y >= 1970,
    ensures
        days_before_year(y + 400) == days_before_year(y) + 146097,
{
    assert((y + 399) / 4 == (y - 1) / 4 + 100);
    assert((y + 399) / 100 == (y - 1) / 100 + 4);
    assert((y + 399) / 400 == (y - 1) / 400 + 1);
}

/// The first of January `400 * c` years after 1970 is `146097 * c` days on.
pub proof fn lemma_cycles(c: nat)
    ensures
        days_before_year(1970 + 400 * c as int) == 146097 * c,
    decreases c,
{
    if c > 0 {
        lemma_cycles((c - 1) as nat);
        lemma_cycle(1970 + 400 * (c - 1) as int);
        assert(1970 + 400 * (c - 1) as int + 400 == 1970 + 400 * c as int);
    }
}

/// Later years start later: at least a year's length after an earlier one.
pub proof fn lemma_years_ordered(y1: int, y2: int)
    requires
        1970 <= y1 < y2,
    ensures
        days_before_year(y2) >= days_before_year(y1) + year_length(y1),
    decreases y2 - y1,
{
    lemma_year_step(y1);
    if y2 > y1 + 1 {
        lemma_years_ordered(y1 + 1, y2);
    }
}

/// The months of a year follow one another and fill it.
pub proof fn lemma_months(y: int, m: int)
    requires
        1 <= m <= 12,
    ensures
        m < 12 ==> days_before_month(y, m + 1) == days_before_month(y, m) + month_length(y, m),
        days_before_month(y, m) + month_length(y, m) <= year_length(y),
        m == 12 ==> days_before_month(y, m) + month_length(y, m) == year_length(y),
        0 <= days_before_month(y, m),
{
}

proof fn lemma_months_ordered(y: int, m1: int, m2: int)
    requires
        1 <= m1 < m2 <= 12,
    ensures
        days_before_month(y, m2) >= days_before_month(y, m1) + month_length(y, m1),
    decreases m2 - m1,
{
    lemma_months(y, m1);
    if m2 > m1 + 1 {
        lemma_months_ordered(y, m1 + 1, m2);
    }
}

/// A day has one calendar date.
pub proof fn lemma_civil_date_unique(days: int, y1: int, m1: int, d1: int, y2: int, m2: int, d2: int)
    requires
        is_civil_date(days, y1, m1, d1),
        is_civil_date(days, y2, m2, d2),
    ensures
        y1 == y2 && m1 == m2 && d1 == d2,
{
    lemma_months(y1, m1);
    lemma_months(y2, m2);
    if y1 < y2 {
        lemma_years_ordered(y1, y2);
    } else if y2 < y1 {
        lemma_years_ordered(y2, y1);
    }
    assert(y1 == y2);
    if m1 < m2 {
        lemma_months_ordered(y1, m1, m2);
    } else if m2 < m1 {
        lemma_months_ordered(y1, m2, m1);
    }
}

/// Every day from 1970-01-01 on has a calendar date (so `civil_date` is
/// it): a year from 1970, a month from 1 to 12, a day within that month.
pub proof fn lemma_civil_date_exists(days: nat)
    ensures
        is_civil_date(days as int, civil_date(days as int).0, civil_date(days as int).1, civil_date(days as int).2),
    decreases days,
{
    let w: (int, int, int) = if days == 0 {
        (1970, 1, 1)
    } else {
        lemma_civil_date_exists((days - 1) as nat);
        let p = civil_date(days - 1);
        lemma_months(p.0, p.1);
        if p.2 < month_length(p.0, p.1) {
            (p.0, p.1, p.2 + 1)
        } else if p.1 < 12 {
            (p.0, p.1 + 1, 1)
        } else {
            lemma_year_step(p.0);
            (p.0 + 1, 1, 1)
        }
    };
    assert(is_civil_date(days as int, w.0, w.1, w.2));
}

fn is_leap_year_exec(y: u64) -> (r: bool)
    ensures
        r == is_leap_year(y as int),
{
    y % 4 == 0 && (y % 100 != 0 || y % 400 == 0)
}

fn year_length_exec(y: u64) -> (r: u64)
    ensures
        r == year_length(y as int),
{
    if is_leap_year_exec(y) {
        366
    } else {
        365
    }
}

fn month_length_exec(y: u64, m: u64) -> (r: u64)
    requires
        1 <= m <= 12,
    ensures
        r == month_length(y as int, m as int),
{
    if m == 2 {
        if is_leap_year_exec(y) { 29 } else { 28 }
    } else if m == 4 || m == 6 || m == 9 || m == 11 {
        30
    } else {
        31
    }
}

/// The year, month and day of day `days` after 1970-01-01.
pub fn civil_from_days(days: u64) -> (r: (u64, u64, u64))
    ensures
        is_civil_date(days as int, r.0 as int, r.1 as int, r.2 as int),
        (r.0 as int, r.1 as int, r.2 as int) == civil_date(days as int),
{
    let cycles = days / 146097;
    let mut rem = days % 146097;
    let start: u64 = 1970 + 400 * cycles;
    let mut y = start;
    proof {
        lemma_cycles(cycles as nat);
    }
    while rem >= year_length_exec(y)
        invariant
            start == 1970 + 400 * cycles,
            cycles <= 0xFFFF_FFFF_FFFF,
            start <= y,
            y - start <= days % 146097 - rem,
            rem <= days % 146097,
            days_before_year(y as int) + rem == days,
        decreases rem,
    {
        proof {
            lemma_year_step(y as int);
        }
        let len = year_length_exec(y);
        rem = rem - len;
        y = y + 1;
    }
    let mut m: u64 = 1;
    while rem >= month_length_exec(y, m)
        invariant
            1 <= m <= 12,
            y >= 1970,
            days_before_year(y as int) + days_before_month(y as int, m as int) + rem == days,
            days_before_month(y as int, m as int) + rem < year_length(y as int),
        decreases rem,
    {
        proof {
            lemma_months(y as int, m as int);
        }
        let len = month_length_exec(y, m);
        rem = rem - len;
        m = m + 1;
    }
    let d = rem + 1;
    proof {
        let w = (y as int, m as int, d as int);
        assert(is_civil_date(days as int, w.0, w.1, w.2));
        let t = civil_date(days as int);
        assert(is_civil_date(days as int, t.0, t.1, t.2));
        lemma_civil_date_unique(days as int, y as int, m as int, d as int, t.0, t.1, t.2);
    }
    (y, m, d)
}

} // verus!
