use vstd::prelude::*;

use vstd::arithmetic::div_mod::{lemma_fundamental_div_mod, lemma_fundamental_div_mod_converse};

verus! {

pub const NANOS_PER_DAY: i64 = 86_400_000_000_000;

/// Largest supported timestamp (exclusive): the last whole UTC day whose
/// following midnight still fits in 64-bit signed nanoseconds.
pub const TS_LIMIT: i64 = 9_223_286_400_000_000_000;

pub open spec fn ts_in_range(ts: int) -> bool {
    0 <= ts < TS_LIMIT as int
}

/// Whole UTC days since the epoch.
pub open spec fn day_of(ts: int) -> int {
    ts / (NANOS_PER_DAY as int)
}

pub fn day_of_ts(ts: i64) -> (d: i64)
    requires
        ts_in_range(ts as int),
    ensures
        d as int == day_of(ts as int),
        0 <= d <= 106750,
{
    let d = ((ts as u64) / (NANOS_PER_DAY as u64)) as i64;
    proof {
        lemma_fundamental_div_mod(ts as int, NANOS_PER_DAY as int);
        if d > 106750 {
            assert((ts as int) >= 106751 * (NANOS_PER_DAY as int));
        }
    }
    d
}

/// The next UTC midnight strictly after `ts`.
pub fn next_midnight_after(ts: i64) -> (b: i64)
    requires
        ts_in_range(ts as int),
    ensures
        b as int == (day_of(ts as int) + 1) * (NANOS_PER_DAY as int),
        ts < b,
        b <= TS_LIMIT,
        (b as int) % (NANOS_PER_DAY as int) == 0,
{
    let d = day_of_ts(ts);
    let b = (d + 1) * NANOS_PER_DAY;
    proof {
        lemma_fundamental_div_mod(ts as int, NANOS_PER_DAY as int);
        lemma_fundamental_div_mod_converse(b as int, NANOS_PER_DAY as int, d as int + 1, 0);
    }
    b
}

pub open spec fn is_leap_year(y: int) -> bool {
    y % 4 == 0 && (y % 100 != 0 || y % 400 == 0)
}

pub open spec fn days_in_year(y: int) -> int {
    if is_leap_year(y) {
        366
    } else {
        365
    }
}

pub open spec fn days_in_month(y: int, m: int) -> int {
    if m == 2 {
        if is_leap_year(y) {
            29
        } else {
            28
        }
    } else if m == 4 || m == 6 || m == 9 || m == 11 {
        30
    } else {
        31
    }
}

/// Days between the epoch and the start of year `y`.
pub open spec fn days_before_year(y: int) -> int
    decreases y - 1970,
{
    if y <= 1970 {
        0
    } else {
        days_before_year(y - 1) + days_in_year(y - 1)
    }
}

/// Days between the start of year `y` and the start of its month `m`.
pub open spec fn days_before_month(y: int, m: int) -> int
    decreases m,
{
    if m <= 1 {
        0
    } else {
        days_before_month(y, m - 1) + days_in_month(y, m - 1)
    }
}

/// Whole days since the epoch of the civil date y-m-d.
pub open spec fn day_number(y: int, m: int, d: int) -> int {
    days_before_year(y) + days_before_month(y, m) + (d - 1)
}

pub open spec fn valid_date(y: int, m: int, d: int) -> bool {
    &&& 1970 <= y
    &&& 1 <= m <= 12
    &&& 1 <= d <= days_in_month(y, m)
}

/// A calendar date in the UTC civil calendar.
#[derive(Clone, Copy, Debug, PartialEq, Eq, Structural)]
pub struct CivilDate {
    pub year: u64,
    pub month: u64,
    pub day: u64,
}

fn is_leap_year_x(y: u64) -> (r: bool)
    ensures
        r == is_leap_year(y as int),
{
    y % 4 == 0 && (y % 100 != 0 || y % 400 == 0)
}

fn days_in_year_x(y: u64) -> (r: u64)
    ensures
        r as int == days_in_year(y as int),
{
    if is_leap_year_x(y) {
        366
    } else {
        365
    }
}

fn days_in_month_x(y: u64, m: u64) -> (r: u64)
    ensures
        r as int == days_in_month(y as int, m as int),
{
    if m == 2 {
        if is_leap_year_x(y) {
            29
        } else {
            28
        }
    } else if m == 4 || m == 6 || m == 9 || m == 11 {
        30
    } else {
        31
    }
}

proof fn lemma_days_before_year_lb(y: int)
    requires
        y >= 1970,
    ensures
        days_before_year(y) >= 365 * (y - 1970),
    decreases y - 1970,
{
    if y > 1970 {
        lemma_days_before_year_lb(y - 1);
    }
}

/// The months of a year sum to its length.
proof fn lemma_year_months(y: int)
    ensures
        days_before_month(y, 13) == days_in_year(y),
{
    reveal_with_fuel(days_before_month, 14);
}

/// The civil date of a day number, computed by walking years and then
/// months from the epoch.  The result is pinned exactly: it is the unique
/// valid date whose day number is `day0`.
pub fn civil_from_day(day0: i64) -> (r: CivilDate)
    requires
        0 <= day0 <= 106750,
    ensures
        valid_date(r.year as int, r.month as int, r.day as int),
        day_number(r.year as int, r.month as int, r.day as int) == day0 as int,
        r.year <= 2262,
{
    let mut y: u64 = 1970;
    let mut rem: u64 = day0 as u64;
    loop
        invariant
            1970 <= y,
            days_before_year(y as int) + rem == day0 as int,
            rem <= day0 as u64,
            0 <= day0 <= 106750,
        ensures
            1970 <= y <= 2262,
            days_before_year(y as int) + rem == day0 as int,
            rem < days_in_year(y as int),
        decreases rem,
    {
        proof {
            lemma_days_before_year_lb(y as int);
        }
        let diy = days_in_year_x(y);
        if rem < diy {
            break;
        }
        rem = rem - diy;
        y = y + 1;
    }
    let ghost rem0 = rem as int;
    let mut m: u64 = 1;
    loop
        invariant
            1 <= m <= 12,
            1970 <= y <= 2262,
            days_before_month(y as int, m as int) + rem == rem0,
            rem0 < days_in_year(y as int),
            rem <= rem0,
        ensures
            1 <= m <= 12,
            days_before_month(y as int, m as int) + rem == rem0,
            rem < days_in_month(y as int, m as int),
        decreases 12 - m,
    {
        let dim = days_in_month_x(y, m);
        if rem < dim {
            break;
        }
        proof {
            lemma_year_months(y as int);
            if m == 12 {
                assert(days_before_month(y as int, 13) == days_before_month(y as int, 12)
                    + days_in_month(y as int, 12));
                assert(false);
            }
        }
        rem = rem - dim;
        m = m + 1;
    }
    CivilDate { year: y, month: m, day: rem + 1 }
}

pub open spec fn digit_char(n: int) -> char {
    if n == 1 {
        '1'
    } else if n == 2 {
        '2'
    } else if n == 3 {
        '3'
    } else if n == 4 {
        '4'
    } else if n == 5 {
        '5'
    } else if n == 6 {
        '6'
    } else if n == 7 {
        '7'
    } else if n == 8 {
        '8'
    } else if n == 9 {
        '9'
    } else {
        '0'
    }
}

fn digit_char_x(n: u64) -> (r: char)
    requires
        n < 10,
    ensures
        r == digit_char(n as int),
{
    match n {
        0 => '0',
        1 => '1',
        2 => '2',
        3 => '3',
        4 => '4',
        5 => '5',
        6 => '6',
        7 => '7',
        8 => '8',
        9 => '9',
        _ => '0',
    }
}

/// The eight characters YYYYMMDD of a date.
pub open spec fn date_chars(y: int, m: int, d: int) -> Seq<char> {
    seq![
        digit_char(y / 1000 % 10),
        digit_char(y / 100 % 10),
        digit_char(y / 10 % 10),
        digit_char(y % 10),
        digit_char(m / 10 % 10),
        digit_char(m % 10),
        digit_char(d / 10 % 10),
        digit_char(d % 10),
    ]
}

/// Format a date as YYYYMMDD for a file name.
pub fn date_string(c: &CivilDate) -> (r: String)
    requires
        c.year < 10000,
        c.month <= 99,
        c.day <= 99,
    ensures
        r@ == date_chars(c.year as int, c.month as int, c.day as int),
{
    let mut r = String::new();
    crate::text::push_char(&mut r, digit_char_x(c.year / 1000 % 10));
    crate::text::push_char(&mut r, digit_char_x(c.year / 100 % 10));
    crate::text::push_char(&mut r, digit_char_x(c.year / 10 % 10));
    crate::text::push_char(&mut r, digit_char_x(c.year % 10));
    crate::text::push_char(&mut r, digit_char_x(c.month / 10 % 10));
    crate::text::push_char(&mut r, digit_char_x(c.month % 10));
    crate::text::push_char(&mut r, digit_char_x(c.day / 10 % 10));
    crate::text::push_char(&mut r, digit_char_x(c.day % 10));
    proof {
        assert(r@ =~= date_chars(c.year as int, c.month as int, c.day as int));
    }
    r
}

} // verus!
