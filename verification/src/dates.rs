//! Civil dates for the column date filter: day numbers in the proleptic Gregorian calendar,
//! parsing `YYYY-MM-DD` typed by the user and formatting a timestamp back to that form.
use vstd::prelude::*;
use crate::text::{
    all_digits, chars_of, char_views, decimal, fmt_zero_padded, is_digit, lemma_digits_plain,
    lemma_parse_padded, lemma_split_on_append, lemma_split_on_single, lemma_trim_noop, pad_zero,
    parse_i64, parse_i64_chars, push_zero_padded, split_chars, split_on, string_of, trim,
    trim_chars,
};

verus! {

/// Seconds in a day.
pub const SECS_PER_DAY: i64 = 86_400;

/// Division truncating toward zero, as Rust's `/` on signed integers (`b > 0`).
pub open spec fn tdiv(a: int, b: int) -> int {
    if a >= 0 {
        a / b
    } else {
        -((-a) / b)
    }
}

/// Gregorian leap year, extended to every integer year.
pub open spec fn is_leap(y: int) -> bool {
    (y % 4 == 0 && y % 100 != 0) || y % 400 == 0
}

pub open spec fn days_in_month(y: int, m: int) -> int {
    if m == 2 {
        if is_leap(y) {
            29
        } else {
            28
        }
    } else if m == 4 || m == 6 || m == 9 || m == 11 {
        30
    } else {
        31
    }
}

/// A real calendar date: month 1..=12 and a day that exists in that month.
pub open spec fn valid_date(y: int, m: int, d: int) -> bool {
    1 <= m <= 12 && 1 <= d <= days_in_month(y, m)
}

/// Number of leap years among 1..=y (for y >= 0; the same expression for every integer).
pub open spec fn leap_count(y: int) -> int {
    y / 4 - y / 100 + y / 400
}

/// Days in the months of year `y` that come before month `m`.
pub open spec fn days_before_month(y: int, m: int) -> int {
    let base: int = if m == 1 {
        0
    } else if m == 2 {
        31
    } else if m == 3 {
        59
    } else if m == 4 {
        90
    } else if m == 5 {
        120
    } else if m == 6 {
        151
    } else if m == 7 {
        181
    } else if m == 8 {
        212
    } else if m == 9 {
        243
    } else if m == 10 {
        273
    } else if m == 11 {
        304
    } else {
        334
    };
    base + if m > 2 && is_leap(y) {
        1int
    } else {
        0int
    }
}

/// Days from 1970-01-01 to the civil date `y-m-d` (negative before it).
pub open spec fn day_number(y: int, m: int, d: int) -> int {
    365 * (y - 1970) + (leap_count(y - 1) - leap_count(1969)) + days_before_month(y, m) + d - 1
}

/// Howard Hinnant's `days_from_civil`, written with Rust's truncating division.
pub open spec fn days_from_civil_formula(y: int, m: int, d: int) -> int {
    let y2 = if m <= 2 {
        y - 1
    } else {
        y
    };
    let era = tdiv(if y2 >= 0 { y2 } else { y2 - 399 }, 400);
    let yoe = y2 - era * 400;
    let doy = tdiv(153 * (if m > 2 { m - 3 } else { m + 9 }) + 2, 5) + d - 1;
    let doe = yoe * 365 + tdiv(yoe, 4) - tdiv(yoe, 100) + doy;
    era * 146097 + doe - 719468
}

/// Howard Hinnant's `civil_from_days`, written with Rust's truncating division.
pub open spec fn civil_from_days_formula(z: int) -> (int, int, int) {
    let z2 = z + 719468;
    let era = tdiv(if z2 >= 0 { z2 } else { z2 - 146096 }, 146097);
    let doe = z2 - era * 146097;
    let yoe = tdiv(doe - tdiv(doe, 1460) + tdiv(doe, 36524) - tdiv(doe, 146096), 365);
    let y = yoe + era * 400;
    let doy = doe - (365 * yoe + tdiv(yoe, 4) - tdiv(yoe, 100));
    let mp = tdiv(5 * doy + 2, 153);
    let d = doy - tdiv(153 * mp + 2, 5) + 1;
    let m = if mp < 10 {
        mp + 3
    } else {
        mp - 9
    };
    (if m <= 2 { y + 1 } else { y }, m, d)
}

// ----- Lemmas -----

/// Start (day of the March-based year) of month `mp` (0 = March, ..., 11 = February).
pub open spec fn month_start(mp: int) -> int {
    (153 * mp + 2) / 5
}

/// For a year of the 400-year cycle (`yoe`), written as `100c + 4b + a`, and a day of its
/// March-based year, the cycle day `doe` maps back to `yoe`.
proof fn lemma_yoe_of_doe(c: int, b: int, a: int, doy: int)
    requires
        0 <= c <= 3,
        0 <= b <= 24,
        0 <= a <= 3,
        0 <= doy <= 365,
        doy == 365 ==> a == 3 && (b < 24 || c == 3),
    ensures
        ({
            let doe = 36524 * c + 1461 * b + 365 * a + doy;
            &&& 0 <= doe <= 146096
            &&& (doe - doe / 1460 + doe / 36524 - doe / 146096) / 365 == 100 * c + 4 * b + a
        }),
{
    let doe = 36524 * c + 1461 * b + 365 * a + doy;
    let last = c == 3 && b == 24 && a == 3 && doy == 365;
    let e: int = if last { 1 } else { 0 };
    assert(doe / 146096 == e);
    assert(doe / 36524 == c + e);
    let k: int = if a == 3 && 24 * c + b + doy >= 365 { 1 } else { 0 };
    assert(doe == 1460 * (25 * c + b) + (24 * c + b + 365 * a + doy));
    assert(doe / 1460 == 25 * c + b + k);
    let num = doe - doe / 1460 + doe / 36524 - doe / 146096;
    assert(num == 365 * (100 * c + 4 * b + a) + doy - k);
    assert(0 <= doy - k <= 364);
}


#[verifier::spinoff_prover]
proof fn lemma_leap_count_step(y: int)
    ensures
        leap_count(y) - leap_count(y - 1) == if is_leap(y) { 1int } else { 0int },
{
    assert(y / 4 - (y - 1) / 4 == if y % 4 == 0 { 1int } else { 0int });
    assert(y / 100 - (y - 1) / 100 == if y % 100 == 0 { 1int } else { 0int });
    assert(y / 400 - (y - 1) / 400 == if y % 400 == 0 { 1int } else { 0int });
    assert(y % 400 == 0 ==> y % 100 == 0 && y % 4 == 0);
    assert(y % 100 == 0 ==> y % 4 == 0);
}

/// Hinnant's era decomposition: `y2 = 400 * era + yoe` with `0 <= yoe < 400`.
proof fn lemma_era(y2: int)
    ensures
        ({
            let era = tdiv(if y2 >= 0 { y2 } else { y2 - 399 }, 400);
            let yoe = y2 - era * 400;
            &&& era == y2 / 400
            &&& 0 <= yoe < 400
            &&& tdiv(yoe, 4) == yoe / 4
            &&& tdiv(yoe, 100) == yoe / 100
            &&& era * 146097 + yoe * 365 + yoe / 4 - yoe / 100 == 365 * y2 + leap_count(y2)
        }),
{
    let era = tdiv(if y2 >= 0 { y2 } else { y2 - 399 }, 400);
    assert(era == y2 / 400);
    let yoe = y2 - era * 400;
    assert(y2 / 4 == 100 * era + yoe / 4);
    assert(y2 / 100 == 4 * era + yoe / 100);
}

/// The March-based month table: `mp` (0 = March .. 11 = February) starts at `month_start(mp)`.
proof fn lemma_month_start_table(m: int)
    requires
        1 <= m <= 12,
    ensures
        ({
            let mp = if m > 2 { m - 3 } else { m + 9 };
            &&& tdiv(153 * mp + 2, 5) == month_start(mp)
            &&& m > 2 ==> month_start(mp) == days_before_month(1, m) - 59
            &&& m <= 2 ==> month_start(mp) == days_before_month(1, m) + 306
        }),
{
    assert(!is_leap(1));
    if m == 1 {
    } else if m == 2 {
    } else if m == 3 {
    } else if m == 4 {
    } else if m == 5 {
    } else if m == 6 {
    } else if m == 7 {
    } else if m == 8 {
    } else if m == 9 {
    } else if m == 10 {
    } else if m == 11 {
    } else {
    }
}

/// Hinnant's `days_from_civil` agrees with the day number of a date whose month is 1..=12.
pub proof fn lemma_days_from_civil_formula(y: int, m: int, d: int)
    requires
        1 <= m <= 12,
    ensures
        days_from_civil_formula(y, m, d) == day_number(y, m, d),
{
    let y2 = if m <= 2 { y - 1 } else { y };
    lemma_era(y2);
    lemma_month_start_table(m);
    lemma_leap_count_step(y);
    assert(leap_count(1969) == 477);
    assert(days_before_month(y, m) == days_before_month(1, m) + if m > 2 && is_leap(y) { 1int } else { 0int });
}


/// Month `mp` of the March-based year holds `month_start(mp + 1) - month_start(mp)` days, which is
/// the Gregorian length of the corresponding month (February counted with 29 days).
proof fn lemma_month_lengths(mp: int)
    requires
        0 <= mp <= 11,
    ensures
        ({
            let m = if mp < 10 { mp + 3 } else { mp - 9 };
            &&& mp < 11 ==> month_start(mp + 1) - month_start(mp) == days_in_month(1, m)
            &&& mp == 11 ==> month_start(mp) == 337 && m == 2
            &&& mp > 9 ==> m <= 2
            &&& mp <= 9 ==> m > 2
        }),
{
    assert(!is_leap(1));
    if mp == 0 {
    } else if mp == 1 {
    } else if mp == 2 {
    } else if mp == 3 {
    } else if mp == 4 {
    } else if mp == 5 {
    } else if mp == 6 {
    } else if mp == 7 {
    } else if mp == 8 {
    } else if mp == 9 {
    } else if mp == 10 {
    } else {
    }
}

/// The month of a day of the March-based year, and the day within it.
proof fn lemma_month_of_doy(doy: int)
    requires
        0 <= doy <= 365,
    ensures
        ({
            let mp = (5 * doy + 2) / 153;
            &&& 0 <= mp <= 11
            &&& month_start(mp) <= doy
            &&& mp < 11 ==> doy < month_start(mp + 1)
        }),
{
}

/// A day of month `mp` maps back to that month.
proof fn lemma_doy_of_month(mp: int, d: int)
    requires
        0 <= mp <= 11,
        1 <= d,
        mp < 11 ==> month_start(mp) + d <= month_start(mp + 1),
        mp == 11 ==> d <= 29,
    ensures
        (5 * (month_start(mp) + d - 1) + 2) / 153 == mp,
{
}

/// Splits a day of the 400-year cycle into centuries, four-year groups, years and day of year.
proof fn lemma_doe_split(doe: int) -> (r: (int, int, int, int))
    requires
        0 <= doe <= 146096,
    ensures
        ({
            let (c, b, a, doy) = r;
            &&& 0 <= c <= 3
            &&& 0 <= b <= 24
            &&& 0 <= a <= 3
            &&& 0 <= doy <= 365
            &&& doy == 365 ==> a == 3 && (b < 24 || c == 3)
            &&& doe == 36524 * c + 1461 * b + 365 * a + doy
        }),
{
    let q = doe / 36524;
    let c = if q >= 4 { 3 } else { q };
    let rem1 = doe - 36524 * c;
    let b = rem1 / 1461;
    let rem2 = rem1 - 1461 * b;
    let q1 = rem2 / 365;
    let a = if q1 >= 4 { 3 } else { q1 };
    let doy = rem2 - 365 * a;
    (c, b, a, doy)
}

/// The civil date of day `doy` (March-based) of cycle year `yoe` in era `era`.
pub open spec fn civil_parts(era: int, yoe: int, doy: int) -> (int, int, int) {
    let mp = (5 * doy + 2) / 153;
    let d = doy - month_start(mp) + 1;
    let m = if mp < 10 {
        mp + 3
    } else {
        mp - 9
    };
    let y = yoe + era * 400;
    (if m <= 2 { y + 1 } else { y }, m, d)
}

/// Hinnant's `civil_from_days` on a day given by its era and cycle decomposition.
proof fn lemma_civil_formula_parts(era: int, c: int, b: int, a: int, doy: int)
    requires
        0 <= c <= 3,
        0 <= b <= 24,
        0 <= a <= 3,
        0 <= doy <= 365,
        doy == 365 ==> a == 3 && (b < 24 || c == 3),
    ensures
        civil_from_days_formula(era * 146097 + 36524 * c + 1461 * b + 365 * a + doy - 719468)
            == civil_parts(era, 100 * c + 4 * b + a, doy),
{
    let doe = 36524 * c + 1461 * b + 365 * a + doy;
    lemma_yoe_of_doe(c, b, a, doy);
    let z2 = era * 146097 + doe;
    assert(tdiv(if z2 >= 0 { z2 } else { z2 - 146096 }, 146097) == era);
    let yoe = 100 * c + 4 * b + a;
    assert(tdiv(doe - tdiv(doe, 1460) + tdiv(doe, 36524) - tdiv(doe, 146096), 365) == yoe);
    assert(tdiv(yoe, 4) == 25 * c + b);
    assert(tdiv(yoe, 100) == c);
    assert(doe - (365 * yoe + tdiv(yoe, 4) - tdiv(yoe, 100)) == doy);
    lemma_month_of_doy(doy);
    let mp = (5 * doy + 2) / 153;
    assert(tdiv(5 * doy + 2, 153) == mp);
    assert(tdiv(153 * mp + 2, 5) == month_start(mp));
}

proof fn lemma_civil_parts_valid(era: int, c: int, b: int, a: int, doy: int)
    requires
        0 <= c <= 3,
        0 <= b <= 24,
        0 <= a <= 3,
        0 <= doy <= 365,
        doy == 365 ==> a == 3 && (b < 24 || c == 3),
    ensures
        ({
            let (y, m, d) = civil_parts(era, 100 * c + 4 * b + a, doy);
            valid_date(y, m, d)
        }),
{
    let yoe = 100 * c + 4 * b + a;
    let (y, m, d) = civil_parts(era, yoe, doy);
    let mp = (5 * doy + 2) / 153;
    lemma_month_of_doy(doy);
    lemma_month_lengths(mp);
    if mp == 11 {
        if d == 29 {
            assert(doy == 365);
            assert((yoe + 1) % 4 == 0);
            assert(y == yoe + era * 400 + 1);
            assert(is_leap(y));
        }
    } else {
        assert(days_in_month(y, m) == days_in_month(1, m));
    }
}

proof fn lemma_civil_parts_day_number(era: int, c: int, b: int, a: int, doy: int)
    requires
        0 <= c <= 3,
        0 <= b <= 24,
        0 <= a <= 3,
        0 <= doy <= 365,
        doy == 365 ==> a == 3 && (b < 24 || c == 3),
    ensures
        ({
            let (y, m, d) = civil_parts(era, 100 * c + 4 * b + a, doy);
            day_number(y, m, d) == era * 146097 + 36524 * c + 1461 * b + 365 * a + doy - 719468
        }),
{
    let yoe = 100 * c + 4 * b + a;
    let (y, m, d) = civil_parts(era, yoe, doy);
    let mp = (5 * doy + 2) / 153;
    lemma_month_of_doy(doy);
    lemma_month_lengths(mp);
    lemma_days_from_civil_formula(y, m, d);
    let y2 = if m <= 2 { y - 1 } else { y };
    assert(y2 == era * 400 + yoe);
    lemma_era(y2);
    assert(y2 / 400 == era);
    lemma_month_start_table(m);
    assert(yoe / 4 == 25 * c + b);
    assert(yoe / 100 == c);
}

/// Hinnant's `civil_from_days` yields a real date whose day number is the input.
pub proof fn lemma_civil_from_days_formula(z: int)
    ensures
        ({
            let (y, m, d) = civil_from_days_formula(z);
            &&& valid_date(y, m, d)
            &&& day_number(y, m, d) == z
        }),
{
    let z2 = z + 719468;
    let era = z2 / 146097;
    let doe = z2 - era * 146097;
    assert(0 <= doe <= 146096);
    let (c, b, a, doy) = lemma_doe_split(doe);
    assert(z == era * 146097 + 36524 * c + 1461 * b + 365 * a + doy - 719468);
    lemma_civil_formula_parts(era, c, b, a, doy);
    lemma_civil_parts_valid(era, c, b, a, doy);
    lemma_civil_parts_day_number(era, c, b, a, doy);
}

proof fn lemma_date_split(y: int, m: int, d: int) -> (r: (int, int, int, int, int))
    requires
        valid_date(y, m, d),
    ensures
        ({
            let (era, c, b, a, doy) = r;
            &&& 0 <= c <= 3
            &&& 0 <= b <= 24
            &&& 0 <= a <= 3
            &&& 0 <= doy <= 365
            &&& doy == 365 ==> a == 3 && (b < 24 || c == 3)
            &&& day_number(y, m, d) == era * 146097 + 36524 * c + 1461 * b + 365 * a + doy
                - 719468
            &&& civil_parts(era, 100 * c + 4 * b + a, doy) == (y, m, d)
        }),
{
    let y2 = if m <= 2 { y - 1 } else { y };
    let era = y2 / 400;
    let yoe = y2 - era * 400;
    let mp = if m > 2 { m - 3 } else { m + 9 };
    let doy = month_start(mp) + d - 1;
    let c = yoe / 100;
    let b = (yoe % 100) / 4;
    let a = yoe % 4;
    assert(yoe == 100 * c + 4 * b + a);
    assert(day_number(y, m, d) == era * 146097 + 36524 * c + 1461 * b + 365 * a + doy - 719468)
        by {
        lemma_days_from_civil_formula(y, m, d);
        lemma_era(y2);
        lemma_month_start_table(m);
    }
    assert(0 <= doy <= 365 && (doy == 365 ==> a == 3 && (b < 24 || c == 3))) by {
        lemma_month_lengths(mp);
        lemma_month_start_table(m);
        if doy == 365 {
            assert(mp == 11 && d == 29);
            assert(is_leap(y));
            assert(y == y2 + 1);
        }
    }
    assert(civil_parts(era, 100 * c + 4 * b + a, doy) == (y, m, d)) by {
        lemma_month_lengths(mp);
        lemma_month_start_table(m);
        if mp < 11 {
            assert(month_start(mp) + d <= month_start(mp + 1));
        }
        lemma_doy_of_month(mp, d);
    }
    (era, c, b, a, doy)
}

/// The day number of a real date maps back to that date.
pub proof fn lemma_civil_of_day_number(y: int, m: int, d: int)
    requires
        valid_date(y, m, d),
    ensures
        civil_from_days_formula(day_number(y, m, d)) == (y, m, d),
{
    let (era, c, b, a, doy) = lemma_date_split(y, m, d);
    lemma_civil_formula_parts(era, c, b, a, doy);
}


// ----- Executable functions -----

/// `v` fits in an `i64`.
pub open spec fn in_i64(v: int) -> bool {
    i64::MIN <= v <= i64::MAX
}

/// No intermediate value of `days_from_civil(y, m, d)` leaves the range of `i64`.
pub open spec fn days_from_civil_fits(y: int, m: int, d: int) -> bool {
    let y2 = if m <= 2 {
        y - 1
    } else {
        y
    };
    let mpv = if m > 2 {
        m - 3
    } else {
        m + 9
    };
    let q = tdiv(153 * mpv + 2, 5);
    let era = tdiv(if y2 >= 0 { y2 } else { y2 - 399 }, 400);
    let yoe = y2 - era * 400;
    let doe = yoe * 365 + tdiv(yoe, 4) - tdiv(yoe, 100) + (q + d - 1);
    &&& in_i64(y2)
    &&& (y2 < 0 ==> in_i64(y2 - 399))
    &&& in_i64(153 * mpv + 2)
    &&& in_i64(153 * mpv)
    &&& in_i64(q + d)
    &&& in_i64(q + d - 1)
    &&& in_i64(doe)
    &&& in_i64(era * 146097)
    &&& in_i64(era * 146097 + doe)
    &&& in_i64(era * 146097 + doe - 719468)
}

/// Days since 1970-01-01 of the civil date `y-m-d` (Howard Hinnant's algorithm). For a month in
/// 1..=12 this is the Gregorian day number; any day count is accepted (it is added linearly).
pub fn days_from_civil(y: i64, m: i64, d: i64) -> (r: i64)
    requires
        days_from_civil_fits(y as int, m as int, d as int),
    ensures
        r == days_from_civil_formula(y as int, m as int, d as int),
        1 <= m <= 12 ==> r == day_number(y as int, m as int, d as int),
{
    proof {
        if 1 <= m <= 12 {
            lemma_days_from_civil_formula(y as int, m as int, d as int);
        }
        lemma_era(if m <= 2 { y - 1 } else { y as int });
    }
    let y = if m <= 2 { y - 1 } else { y };
    let era = (if y >= 0 { y } else { y - 399 }) / 400;
    let yoe = y - era * 400;
    let doy = (153 * (if m > 2 { m - 3 } else { m + 9 }) + 2) / 5 + d - 1;
    let doe = yoe * 365 + yoe / 4 - yoe / 100 + doy;
    era * 146097 + doe - 719468
}

/// No intermediate value of `civil_from_days(z)` leaves the range of `i64`.
pub open spec fn civil_from_days_fits(z: int) -> bool {
    &&& in_i64(z + 719468)
    &&& (z + 719468 < 0 ==> in_i64(z + 719468 - 146096))
}

/// The civil date `(year, month, day)` of the day `z` days after 1970-01-01.
pub fn civil_from_days(z: i64) -> (r: (i64, i64, i64))
    requires
        civil_from_days_fits(z as int),
    ensures
        (r.0 as int, r.1 as int, r.2 as int) == civil_from_days_formula(z as int),
        valid_date(r.0 as int, r.1 as int, r.2 as int),
        day_number(r.0 as int, r.1 as int, r.2 as int) == z,
{
    proof {
        lemma_civil_from_days_formula(z as int);
    }
    let z = z + 719468;
    let era = (if z >= 0 { z } else { z - 146096 }) / 146097;
    assert(era == (z as int) / 146097);
    let doe = z - era * 146097;
    let yoe = (doe - doe / 1460 + doe / 36524 - doe / 146096) / 365;
    let y = yoe + era * 400;
    let doy = doe - (365 * yoe + yoe / 4 - yoe / 100);
    let mp = (5 * doy + 2) / 153;
    let d = doy - (153 * mp + 2) / 5 + 1;
    let m = if mp < 10 { mp + 3 } else { mp - 9 };
    (if m <= 2 { y + 1 } else { y }, m, d)
}

/// The largest year (in magnitude) the date parser reads. Its seconds are far beyond an `i64`
/// already, so the bound changes no result: it only keeps the day count itself in range.
pub const MAX_PARSED_YEAR: i64 = 1_000_000_000_000_000;

/// The value `parse_date_ymd` computes for `text`: `YYYY-MM-DD` (fields as `str::parse::<i64>`
/// reads them, a real calendar date) at the start of that local day, or at its last second
/// when `end_of_day`; shifted to UTC by the offset; clamped at the epoch. Anything else is
/// `None`: text that is not a date, a day the month does not have, and a date whose seconds
/// do not fit in an `i64`.
pub open spec fn parse_date_spec(text: Seq<char>, tz_offset_secs: int, end_of_day: bool) -> Option<
    nat,
> {
    let parts = split_on(trim(text), '-');
    if parts.len() != 3 {
        None
    } else {
        match (parse_i64(parts[0]), parse_i64(parts[1]), parse_i64(parts[2])) {
            (Some(y), Some(m), Some(d)) => if valid_date(y, m, d) && -MAX_PARSED_YEAR <= y
                <= MAX_PARSED_YEAR {
                let secs_day = day_number(y, m, d) * 86400;
                let secs_local = secs_day + if end_of_day {
                    86399int
                } else {
                    0int
                };
                let secs_utc = secs_local - tz_offset_secs;
                if in_i64(secs_day) && in_i64(secs_local) && in_i64(secs_utc) {
                    Some(if secs_utc < 0 { 0nat } else { secs_utc as nat })
                } else {
                    None
                }
            } else {
                None
            },
            _ => None,
        }
    }
}

/// The day count of a date within the parsed years stays within `i64` all along.
proof fn lemma_parsed_year_fits(y: int, m: int, d: int)
    requires
        -MAX_PARSED_YEAR <= y <= MAX_PARSED_YEAR,
        1 <= m <= 12,
        1 <= d <= 31,
    ensures
        days_from_civil_fits(y, m, d),
{
    let y2 = if m <= 2 { y - 1 } else { y };
    lemma_era(y2);
    let era = tdiv(if y2 >= 0 { y2 } else { y2 - 399 }, 400);
    let yoe = y2 - era * 400;
    assert(-2_500_000_000_001 <= era <= 2_500_000_000_000);
    assert(-400_000_000_000_000_000 <= era * 146097 <= 400_000_000_000_000_000) by (nonlinear_arith)
        requires
            -2_500_000_000_001 <= era <= 2_500_000_000_000,
    ;
    assert(0 <= yoe * 365 <= 399 * 365) by (nonlinear_arith)
        requires
            0 <= yoe < 400,
    ;
}

/// The day count of a real date within the parsed years: `day_number`.
fn day_count(y: i64, m: i64, d: i64) -> (r: i64)
    requires
        valid_date(y as int, m as int, d as int),
        -MAX_PARSED_YEAR <= y <= MAX_PARSED_YEAR,
    ensures
        r == day_number(y as int, m as int, d as int),
{
    proof {
        lemma_parsed_year_fits(y as int, m as int, d as int);
    }
    days_from_civil(y, m, d)
}

/// Whether `d` is a day of month `m` of year `y` (`valid_date`).
pub fn is_valid_date(y: i64, m: i64, d: i64) -> (r: bool)
    ensures
        r == valid_date(y as int, m as int, d as int),
{
    if m < 1 || m > 12 || d < 1 {
        return false;
    }
    let leap = (y % 4 == 0 && y % 100 != 0) || y % 400 == 0;
    let last: i64 = if m == 2 {
        if leap { 29 } else { 28 }
    } else if m == 4 || m == 6 || m == 9 || m == 11 {
        30
    } else {
        31
    };
    d <= last
}

/// Parses a date typed as `YYYY-MM-DD` in local time (`tz_offset_secs` east of UTC) to seconds
/// since the UNIX epoch. With `end_of_day` the instant is 23:59:59 of that day, so an upper bound
/// is inclusive. Empty or invalid text, a day the month does not have, and a date too far away
/// for an `i64` of seconds give `None`; an instant before the epoch gives the epoch.
pub fn parse_date_ymd(text: &str, tz_offset_secs: i64, end_of_day: bool) -> (r: Option<u64>)
    ensures
        r matches Some(v) ==> parse_date_spec(text@, tz_offset_secs as int, end_of_day) == Some(
            v as nat,
        ),
        r is None ==> parse_date_spec(text@, tz_offset_secs as int, end_of_day) is None,
{
    let cs = chars_of(text);
    let t = trim_chars(&cs);
    if t.len() == 0 {
        assert(split_on(t@, '-') == seq![Seq::<char>::empty()]);
        assert(parse_i64(Seq::<char>::empty()) is None);
        return None;
    }
    let parts = split_chars(&t, '-');
    assert(parts@.len() == char_views(parts@).len());
    if parts.len() < 3 {
        return None;
    }
    assert(char_views(parts@)[0] == parts@[0]@);
    assert(char_views(parts@)[1] == parts@[1]@);
    assert(char_views(parts@)[2] == parts@[2]@);
    let y = match parse_i64_chars(&parts[0]) {
        Some(v) => v,
        None => return None,
    };
    let m = match parse_i64_chars(&parts[1]) {
        Some(v) => v,
        None => return None,
    };
    let d = match parse_i64_chars(&parts[2]) {
        Some(v) => v,
        None => return None,
    };
    if parts.len() > 3 || !is_valid_date(y, m, d) || y < -MAX_PARSED_YEAR || y > MAX_PARSED_YEAR {
        return None;
    }
    let days = day_count(y, m, d);
    let secs_day = match days.checked_mul(SECS_PER_DAY) {
        Some(v) => v,
        None => return None,
    };
    let secs_local = if end_of_day {
        match secs_day.checked_add(SECS_PER_DAY - 1) {
            Some(v) => v,
            None => return None,
        }
    } else {
        secs_day
    };
    let secs_utc = match secs_local.checked_sub(tz_offset_secs) {
        Some(v) => v,
        None => return None,
    };
    if secs_utc < 0 {
        return Some(0);
    }
    Some(secs_utc as u64)
}

/// The text `fmt_date_ymd` writes: the local date of the instant as `YYYY-MM-DD` (year padded to
/// four digits, month and day to two). An instant before the epoch is read as the epoch itself.
pub open spec fn fmt_date_spec(t_secs: Option<u64>, tz_offset_secs: int) -> Seq<char> {
    let secs: int = match t_secs {
        Some(s) => (s as i64) as int + tz_offset_secs,
        None => 0,
    };
    let (y, m, d) = civil_from_days_formula(secs / 86400);
    fmt_zero_padded(y, 4) + seq!['-'] + fmt_zero_padded(m, 2) + seq!['-'] + fmt_zero_padded(d, 2)
}

/// No intermediate value of `fmt_date_ymd` leaves the range of `i64`.
pub open spec fn fmt_date_fits(t_secs: Option<u64>, tz_offset_secs: int) -> bool {
    t_secs matches Some(s) ==> in_i64((s as i64) as int + tz_offset_secs)
}

/// Formats an instant (seconds since the UNIX epoch, `None` before it) as `YYYY-MM-DD` in local
/// time (`tz_offset_secs` east of UTC), to seed the date filter editor.
pub fn fmt_date_ymd(t_secs: Option<u64>, tz_offset_secs: i64) -> (r: String)
    requires
        fmt_date_fits(t_secs, tz_offset_secs as int),
    ensures
        r@ == fmt_date_spec(t_secs, tz_offset_secs as int),
{
    let secs: i64 = match t_secs {
        Some(s) => s as i64 + tz_offset_secs,
        None => 0,
    };
    let days: i64 = if secs >= 0 {
        secs / SECS_PER_DAY
    } else {
        -((-(secs + 1)) / SECS_PER_DAY) - 1
    };
    assert(days == (secs as int) / 86400);
    let (y, m, d) = civil_from_days(days);
    let mut out: Vec<char> = Vec::new();
    push_zero_padded(&mut out, y, 4);
    out.push('-');
    push_zero_padded(&mut out, m, 2);
    out.push('-');
    push_zero_padded(&mut out, d, 2);
    assert(out@ =~= fmt_zero_padded(y as int, 4) + seq!['-'] + fmt_zero_padded(m as int, 2)
        + seq!['-'] + fmt_zero_padded(d as int, 2));
    string_of(&out)
}


/// The canonical text of a date: the year on four digits, month and day on two.
pub open spec fn ymd_text(y: int, m: int, d: int) -> Seq<char> {
    fmt_zero_padded(y, 4) + seq!['-'] + fmt_zero_padded(m, 2) + seq!['-'] + fmt_zero_padded(d, 2)
}

/// What the date editor shows for a date reads back as that date: parsing the canonical text
/// of a real date (years 0..=9999) gives the start (or the last second) of that local day, and
/// formatting that instant gives the same text again.
pub proof fn lemma_date_text_roundtrip(y: int, m: int, d: int, tz_offset_secs: int, end_of_day: bool)
    requires
        valid_date(y, m, d),
        0 <= y <= 9999,
        0 <= day_number(y, m, d) * 86400 + (if end_of_day { 86399int } else { 0int }) - tz_offset_secs
            <= i64::MAX,
        in_i64(day_number(y, m, d) * 86400 + if end_of_day { 86399int } else { 0int }),
    ensures
        ({
            let secs = day_number(y, m, d) * 86400 + (if end_of_day { 86399int } else { 0int })
                - tz_offset_secs;
            &&& parse_date_spec(ymd_text(y, m, d), tz_offset_secs, end_of_day) == Some(secs as nat)
            &&& fmt_date_spec(Some(secs as u64), tz_offset_secs) == ymd_text(y, m, d)
            &&& fmt_date_fits(Some(secs as u64), tz_offset_secs)
        }),
{
    let ys = pad_zero(decimal(y as nat), 4);
    let ms = pad_zero(decimal(m as nat), 2);
    let ds = pad_zero(decimal(d as nat), 2);
    lemma_parse_padded(y as nat, 4);
    lemma_parse_padded(m as nat, 2);
    lemma_parse_padded(d as nat, 2);
    assert(!is_digit('-'));
    lemma_digits_plain(ys, '-');
    lemma_digits_plain(ms, '-');
    lemma_digits_plain(ds, '-');
    let text = ymd_text(y, m, d);
    assert(text == ys + seq!['-'] + ms + seq!['-'] + ds);
    assert(text[0] == ys[0]);
    assert(text.last() == ds[ds.len() - 1]);
    lemma_trim_noop(text);
    lemma_split_on_single(ys, '-');
    lemma_split_on_append(ys, ms, '-');
    lemma_split_on_append(ys + seq!['-'] + ms, ds, '-');
    assert(split_on(text, '-') =~= seq![ys, ms, ds]);
    let r: int = if end_of_day { 86399int } else { 0int };
    let secs_local = day_number(y, m, d) * 86400 + r;
    let secs = secs_local - tz_offset_secs;
    assert(parse_date_spec(text, tz_offset_secs, end_of_day) == Some(secs as nat));
    assert(((secs as u64) as i64) as int == secs);
    assert(secs_local / 86400 == day_number(y, m, d));
    lemma_civil_of_day_number(y, m, d);
}

} // verus!
