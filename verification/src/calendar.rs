//! The Gregorian calendar, restricted to the years 1970 through 9999
//! (the span a four-digit year field can carry). A calendar date is
//! converted to and from its day number: whole days since 1970-01-01.
use vstd::prelude::*;

verus! {

pub open spec fn is_leap_year(y: int) -> bool {
    (y % 4 == 0 && y % 100 != 0) || y % 400 == 0
}

pub open spec fn days_in_year(y: int) -> int {
    if is_leap_year(y) {
        366
    } else {
        365
    }
}

/// Days from 1970-01-01 up to the first day of year `y`.
pub open spec fn days_before_year(y: int) -> int
    decreases y,
{
    if y <= 1970 {
        0
    } else {
        days_before_year(y - 1) + days_in_year(y - 1)
    }
}

pub open spec fn days_in_month(y: int, m: int) -> int {
    if m == 2 {
        if is_leap_year(y) {
            29
        } else {
            28
        }
    } else if m == 4 || m == 6 || m == 9 || m == 11 {
        30
    } else {
        31
    }
}

/// Days from the first of January of year `y` up to the first day of
/// month `m` of the same year.
pub open spec fn days_before_month(y: int, m: int) -> int
    decreases m,
{
    if m <= 1 {
        0
    } else {
        days_before_month(y, m - 1) + days_in_month(y, m - 1)
    }
}

pub open spec fn valid_civil(y: int, m: int, d: int) -> bool {
    &&& 1970 <= y <= 9999
    &&& 1 <= m <= 12
    &&& 1 <= d <= days_in_month(y, m)
}

/// Day number of the calendar date `y`-`m`-`d`.
pub open spec fn days_from_civil(y: int, m: int, d: int) -> int {
    days_before_year(y) + days_before_month(y, m) + (d - 1)
}

/// Walk forward one year at a time until the remaining day count
/// falls inside a year.
pub open spec fn year_scan(y: int, rem: int) -> (int, int)
    decreases rem,
{
    if rem >= days_in_year(y) {
        year_scan(y + 1, rem - days_in_year(y))
    } else {
        (y, rem)
    }
}

/// Walk forward one month at a time until the remaining day count
/// falls inside a month.
pub open spec fn month_scan(y: int, m: int, rem: int) -> (int, int)
    decreases rem,
{
    if m < 12 && rem >= days_in_month(y, m) {
        month_scan(y, m + 1, rem - days_in_month(y, m))
    } else {
        (m, rem)
    }
}

/// Calendar date of day number `n`: scan years from 1970, then months
/// from January; what remains is the zero-based day of the month.
pub open spec fn civil_of_day(n: int) -> (int, int, int) {
    let (y, rem) = year_scan(1970, n);
    let (m, rem2) = month_scan(y, 1, rem);
    (y, m, rem2 + 1)
}

/// A year's months add up to the year's day count.
proof fn lemma_months_fill_year(y: int)
    ensures
        days_before_month(y, 13) == days_in_year(y),
{
    reveal_with_fuel(days_before_month, 13);
}

/// `days_before_month` grows with the month.
proof fn lemma_days_before_month_grows(y: int, a: int, b: int)
    requires
        1 <= a <= b <= 13,
    ensures
        days_before_month(y, a) <= days_before_month(y, b),
    decreases b - a,
{
    if a < b {
        lemma_days_before_month_grows(y, a, b - 1);
    }
}

/// `days_before_year` grows with the year: by at least 365 and at
/// most 366 days per year.
pub proof fn lemma_days_before_year_grows(a: int, b: int)
    requires
        1970 <= a <= b,
    ensures
        days_before_year(a) + 365 * (b - a) <= days_before_year(b) <= days_before_year(a) + 366 * (
        b - a),
    decreases b - a,
{
    if a < b {
        lemma_days_before_year_grows(a, b - 1);
    }
}

/// What the year scan returns: a year at or past the starting one,
/// a remainder inside that year, and day-count bookkeeping that adds
/// up.
proof fn lemma_year_scan(y0: int, rem: int)
    requires
        1970 <= y0,
        0 <= rem,
    ensures
        ({
            let (y, r) = year_scan(y0, rem);
            &&& y0 <= y
            &&& 0 <= r < days_in_year(y)
            &&& days_before_year(y) + r == days_before_year(y0) + rem
        }),
    decreases rem,
{
    if rem >= days_in_year(y0) {
        lemma_year_scan(y0 + 1, rem - days_in_year(y0));
    }
}

/// What the month scan returns, provided the remainder fits inside
/// the year when counted from the starting month.
proof fn lemma_month_scan(y: int, m0: int, rem: int)
    requires
        1 <= m0 <= 12,
        0 <= rem,
        days_before_month(y, m0) + rem < days_in_year(y),
    ensures
        ({
            let (m, r) = month_scan(y, m0, rem);
            &&& m0 <= m <= 12
            &&& 0 <= r < days_in_month(y, m)
            &&& days_before_month(y, m) + r == days_before_month(y, m0) + rem
        }),
    decreases 12 - m0,
{
    if m0 < 12 && rem >= days_in_month(y, m0) {
        lemma_month_scan(y, m0 + 1, rem - days_in_month(y, m0));
    } else if m0 == 12 {
        lemma_months_fill_year(y);
    }
}

/// Every day number below the supported bound names a valid calendar
/// date, and converting that date back gives the same day number.
pub proof fn lemma_civil_of_day(n: int)
    requires
        0 <= n < days_before_year(10000),
    ensures
        ({
            let (y, m, d) = civil_of_day(n);
            &&& valid_civil(y, m, d)
            &&& days_from_civil(y, m, d) == n
        }),
{
    lemma_year_scan(1970, n);
    let (y, r) = year_scan(1970, n);
    if y >= 10000 {
        lemma_days_before_year_grows(10000, y);
    }
    lemma_month_scan(y, 1, r);
}

/// The day number of a valid date lies below the supported bound.
pub proof fn lemma_days_from_civil_in_range(y: int, m: int, d: int)
    requires
        valid_civil(y, m, d),
    ensures
        0 <= days_from_civil(y, m, d) < days_before_year(10000),
        days_from_civil(y, m, d) < 366 * 8030,
{
    lemma_days_before_month_grows(y, 1, m);
    lemma_days_before_month_grows(y, m + 1, 13);
    lemma_months_fill_year(y);
    lemma_days_before_year_grows(1970, y);
    lemma_days_before_year_grows(y + 1, 10000);
    assert(days_before_month(y, m) + days_in_month(y, m) == days_before_month(y, m + 1));
    assert(days_before_year(y) + days_in_year(y) == days_before_year(y + 1));
}

pub(crate) fn leap_year(y: u64) -> (r: bool)
    ensures
        r == is_leap_year(y as int),
{
    (y % 4 == 0 && y % 100 != 0) || y % 400 == 0
}

pub(crate) fn days_in_year_x(y: u64) -> (d: u64)
    ensures
        d == days_in_year(y as int),
{
    if leap_year(y) {
        366
    } else {
        365
    }
}

pub(crate) fn days_in_month_x(y: u64, m: u64) -> (d: u64)
    ensures
        d == days_in_month(y as int, m as int),
{
    if m == 2 {
        if leap_year(y) {
            29
        } else {
            28
        }
    } else if m == 4 || m == 6 || m == 9 || m == 11 {
        30
    } else {
        31
    }
}

/// Calendar date of day number `n`, or `None` when `n` lies past the
/// last supported year, 9999.
pub fn civil_from_day(n: u64) -> (r: Option<(u64, u64, u64)>)
    ensures
        r is Some <==> n < days_before_year(10000),
        r matches Some(t) ==> {
            &&& (t.0 as int, t.1 as int, t.2 as int) == civil_of_day(n as int)
            &&& valid_civil(t.0 as int, t.1 as int, t.2 as int)
            &&& days_from_civil(t.0 as int, t.1 as int, t.2 as int) == n
        },
{
    let mut y: u64 = 1970;
    let mut rem: u64 = n;
    loop
        invariant
            1970 <= y <= 10000,
            rem <= n,
            days_before_year(y as int) + rem == n,
            year_scan(1970, n as int) == year_scan(y as int, rem as int),
        ensures
            1970 <= y <= 10000,
            days_before_year(y as int) + rem == n,
            year_scan(1970, n as int) == year_scan(y as int, rem as int),
            y < 10000 ==> rem < days_in_year(y as int),
            y == 10000 ==> n >= days_before_year(10000),
        decreases 10000 - y,
    {
        if y == 10000 {
            break ;
        }
        let diy = days_in_year_x(y);
        if rem < diy {
            break ;
        }
        rem = rem - diy;
        y = y + 1;
    }
    if y == 10000 {
        return None;
    }
    assert(year_scan(1970, n as int) == (y as int, rem as int));
    proof {
        if n >= days_before_year(10000) {
            lemma_days_before_year_grows(y as int + 1, 10000);
        }
    }
    let ghost r0 = rem as int;
    let mut m: u64 = 1;
    loop
        invariant
            1 <= m <= 12,
            days_before_month(y as int, m as int) + rem == r0,
            r0 < days_in_year(y as int),
            month_scan(y as int, 1, r0) == month_scan(y as int, m as int, rem as int),
        ensures
            1 <= m <= 12,
            days_before_month(y as int, m as int) + rem == r0,
            month_scan(y as int, 1, r0) == month_scan(y as int, m as int, rem as int),
            rem < days_in_month(y as int, m as int),
        decreases 12 - m,
    {
        let dim = days_in_month_x(y, m);
        if rem < dim {
            break ;
        }
        proof {
            lemma_months_fill_year(y as int);
            lemma_days_before_month_grows(y as int, m as int + 1, 13);
        }
        rem = rem - dim;
        m = m + 1;
    }
    assert(month_scan(y as int, 1, r0) == (m as int, rem as int));
    Some((y, m, rem + 1))
}

/// Day number of the valid calendar date `y`-`m`-`d`.
pub fn day_from_civil(y: u64, m: u64, d: u64) -> (day: u64)
    requires
        valid_civil(y as int, m as int, d as int),
    ensures
        day == days_from_civil(y as int, m as int, d as int),
        day < days_before_year(10000),
{
    let mut acc: u64 = 0;
    let mut yy: u64 = 1970;
    while yy < y
        invariant
            1970 <= yy <= y <= 9999,
            acc == days_before_year(yy as int),
            acc <= 366 * (yy - 1970),
        decreases y - yy,
    {
        let diy = days_in_year_x(yy);
        acc = acc + diy;
        yy = yy + 1;
    }
    let mut mm: u64 = 1;
    while mm < m
        invariant
            1 <= mm <= m <= 12,
            1970 <= y <= 9999,
            acc == days_before_year(y as int) + days_before_month(y as int, mm as int),
            acc <= 366 * (y - 1970) + 31 * (mm - 1),
        decreases m - mm,
    {
        let dim = days_in_month_x(y, mm);
        acc = acc + dim;
        mm = mm + 1;
    }
    proof {
        lemma_days_from_civil_in_range(y as int, m as int, d as int);
    }
    acc + (d - 1)
}

} // verus!
