//! Timestamp formatting: a clock reading in whole seconds is shifted by a
//! fixed offset of +8 hours (no daylight saving, no timezone database) and
//! rendered as `YYYY-MM-DD HH:MM:SS` with zero-padded fields.

use vstd::prelude::*;

verus! {

/// A proleptic-Gregorian leap year.
pub open spec fn is_leap_year(y: int) -> bool {
    (y % 4 == 0 && y % 100 != 0) || y % 400 == 0
}

pub open spec fn days_in_year(y: int) -> int {
    if is_leap_year(y) {
        366
    } else {
        365
    }
}

/// Days in month `m` (1-based) of year `y`.
pub open spec fn days_in_month(y: int, m: int) -> int {
    if m == 2 {
        if is_leap_year(y) {
            29
        } else {
            28
        }
    } else if m == 4 || m == 6 || m == 9 || m == 11 {
        30
    } else {
        31
    }
}

/// The calendar year reached after walking `days` whole days forward from
/// the start of year `y`.
pub open spec fn year_from(days: int, y: int) -> int
    decreases days,
{
    if days < days_in_year(y) {
        y
    } else {
        year_from(days - days_in_year(y), y + 1)
    }
}

/// The zero-based day within the year reached by `year_from`.
pub open spec fn day_of_year(days: int, y: int) -> int
    decreases days,
{
    if days < days_in_year(y) {
        days
    } else {
        day_of_year(days - days_in_year(y), y + 1)
    }
}

/// The month (1-based) reached after walking `doy` days forward from the
/// start of month `m` of year `y`; month 12 absorbs any excess.
pub open spec fn month_from(doy: int, y: int, m: int) -> int
    decreases 12 - m,
{
    if m >= 12 || doy < days_in_month(y, m) {
        m
    } else {
        month_from(doy - days_in_month(y, m), y, m + 1)
    }
}

/// The zero-based day within the month reached by `month_from`.
pub open spec fn day_in_month(doy: int, y: int, m: int) -> int
    decreases 12 - m,
{
    if m >= 12 || doy < days_in_month(y, m) {
        doy
    } else {
        day_in_month(doy - days_in_month(y, m), y, m + 1)
    }
}

/// Days in months `m` through 12 of year `y`.
pub open spec fn days_from_month(y: int, m: int) -> int
    decreases 13 - m,
{
    if m > 12 {
        0
    } else {
        days_in_month(y, m) + days_from_month(y, m + 1)
    }
}

pub open spec fn digit(n: int) -> char {
    if n == 0 {
        '0'
    } else if n == 1 {
        '1'
    } else if n == 2 {
        '2'
    } else if n == 3 {
        '3'
    } else if n == 4 {
        '4'
    } else if n == 5 {
        '5'
    } else if n == 6 {
        '6'
    } else if n == 7 {
        '7'
    } else if n == 8 {
        '8'
    } else {
        '9'
    }
}

pub open spec fn two_digits(n: int) -> Seq<char> {
    seq![digit(n / 10), digit(n % 10)]
}

pub open spec fn four_digits(n: int) -> Seq<char> {
    seq![digit(n / 1000 % 10), digit(n / 100 % 10), digit(n / 10 % 10), digit(n % 10)]
}

/// The `YYYY-MM-DD` part for day number `days` (day 0 is 1970-01-01).
pub open spec fn date_seq(days: int) -> Seq<char> {
    let y = year_from(days, 1970);
    let doy = day_of_year(days, 1970);
    let m = month_from(doy, y, 1);
    let d = day_in_month(doy, y, 1) + 1;
    four_digits(y) + seq!['-'] + two_digits(m) + seq!['-'] + two_digits(d)
}

/// The `HH:MM:SS` part for second `sod` of a day.
pub open spec fn time_seq(sod: int) -> Seq<char> {
    two_digits(sod / 3600) + seq![':'] + two_digits(sod % 3600 / 60) + seq![':'] + two_digits(
        sod % 60,
    )
}

/// The full `YYYY-MM-DD HH:MM:SS` rendering of local second `local`
/// (second 0 is 1970-01-01 00:00:00 local time).
pub open spec fn timestamp_seq(local: int) -> Seq<char> {
    date_seq(local / 86400) + seq![' '] + time_seq(local % 86400)
}

/// Local seconds the formatter accepts: day numbers stay below 2930000,
/// which keeps the year at four digits.
pub open spec fn valid_local_secs(l: int) -> bool {
    0 <= l < 253152000000
}

/// Whether `s` is a rendering the formatter can produce.
pub open spec fn is_timestamp(s: Seq<char>) -> bool {
    exists|l: int| valid_local_secs(l) && s == timestamp_seq(l)
}

/// The clock reading `t` shifted into local seconds, clamped to the range
/// the formatter accepts.
pub open spec fn local_secs_of(t: int) -> int {
    if t + 28800 < 0 {
        0
    } else if t + 28800 >= 253152000000 {
        253151999999
    } else {
        t + 28800
    }
}

/// Days in years `y1` through `y2 - 1`.
pub open spec fn days_between_years(y1: int, y2: int) -> int
    decreases y2 - y1,
{
    if y2 <= y1 {
        0
    } else {
        days_in_year(y1) + days_between_years(y1 + 1, y2)
    }
}

/// Days in months `m1` through `m2 - 1` of year `y`.
pub open spec fn days_between_months(y: int, m1: int, m2: int) -> int
    decreases m2 - m1,
{
    if m2 <= m1 {
        0
    } else {
        days_in_month(y, m1) + days_between_months(y, m1 + 1, m2)
    }
}

/// Walking years is reversible: the day number splits into the days of the
/// whole years passed and the day within the year reached.
proof fn lemma_year_day_reconstruct(days: int, y: int)
    requires
        0 <= days,
    ensures
        y <= year_from(days, y),
        days == days_between_years(y, year_from(days, y)) + day_of_year(days, y),
        0 <= day_of_year(days, y) < days_in_year(year_from(days, y)),
    decreases days,
{
    if days >= days_in_year(y) {
        lemma_year_day_reconstruct(days - days_in_year(y), y + 1);
    }
}

/// A span of whole years holds at least 365 days per year.
proof fn lemma_days_between_years_lower(y1: int, y2: int)
    requires
        y1 <= y2,
    ensures
        days_between_years(y1, y2) >= (y2 - y1) * 365,
    decreases y2 - y1,
{
    if y1 < y2 {
        lemma_days_between_years_lower(y1 + 1, y2);
    }
}

/// The months of a year account for all its days.
proof fn lemma_days_from_month_total(y: int)
    ensures
        days_from_month(y, 1) == days_in_year(y),
{
    reveal_with_fuel(days_from_month, 14);
}

/// Walking months is reversible: the day of the year splits into the days of
/// the whole months passed and the day within the month reached.
proof fn lemma_month_reconstruct(doy: int, y: int, m: int)
    requires
        0 <= doy,
        1 <= m <= 12,
        doy < days_from_month(y, m),
    ensures
        m <= month_from(doy, y, m) <= 12,
        doy == days_between_months(y, m, month_from(doy, y, m)) + day_in_month(doy, y, m),
        0 <= day_in_month(doy, y, m) < days_in_month(y, month_from(doy, y, m)),
    decreases 12 - m,
{
    if m >= 12 || doy < days_in_month(y, m) {
        if m >= 12 {
            assert(days_from_month(y, 12) == days_in_month(y, 12) + days_from_month(y, 13));
        }
    } else {
        lemma_month_reconstruct(doy - days_in_month(y, m), y, m + 1);
    }
}

proof fn lemma_digit_inj(a: int, b: int)
    requires
        0 <= a < 10,
        0 <= b < 10,
        digit(a) == digit(b),
    ensures
        a == b,
{
}

/// A number below 10000 is determined by its four decimal digits.
proof fn lemma_four_digit_values_inj(a: int, b: int)
    requires
        0 <= a < 10000,
        0 <= b < 10000,
        a / 1000 % 10 == b / 1000 % 10,
        a / 100 % 10 == b / 100 % 10,
        a / 10 % 10 == b / 10 % 10,
        a % 10 == b % 10,
    ensures
        a == b,
{
    vstd::arithmetic::div_mod::lemma_div_denominator(a, 100, 10);
    vstd::arithmetic::div_mod::lemma_div_denominator(a, 10, 10);
    vstd::arithmetic::div_mod::lemma_div_denominator(b, 100, 10);
    vstd::arithmetic::div_mod::lemma_div_denominator(b, 10, 10);
    assert(a / 1000 < 10 && b / 1000 < 10);
    assert(a / 1000 % 10 == a / 1000 && b / 1000 % 10 == b / 1000);
    vstd::arithmetic::div_mod::lemma_fundamental_div_mod(a / 100, 10);
    vstd::arithmetic::div_mod::lemma_fundamental_div_mod(b / 100, 10);
    vstd::arithmetic::div_mod::lemma_fundamental_div_mod(a / 10, 10);
    vstd::arithmetic::div_mod::lemma_fundamental_div_mod(b / 10, 10);
    vstd::arithmetic::div_mod::lemma_fundamental_div_mod(a, 10);
    vstd::arithmetic::div_mod::lemma_fundamental_div_mod(b, 10);
}

/// A number below 100 is determined by its two decimal digits.
proof fn lemma_two_digit_values_inj(a: int, b: int)
    requires
        0 <= a < 100,
        0 <= b < 100,
        a / 10 == b / 10,
        a % 10 == b % 10,
    ensures
        a == b,
{
    vstd::arithmetic::div_mod::lemma_fundamental_div_mod(a, 10);
    vstd::arithmetic::div_mod::lemma_fundamental_div_mod(b, 10);
}

/// Where each field of the rendering of `l` sits, what digits it holds, and
/// how the fields rebuild `l`.
proof fn lemma_timestamp_parts(l: int)
    requires
        valid_local_secs(l),
    ensures
        ({
            let days = l / 86400;
            let sod = l % 86400;
            let y = year_from(days, 1970);
            let doy = day_of_year(days, 1970);
            let m = month_from(doy, y, 1);
            let dr = day_in_month(doy, y, 1);
            let t = timestamp_seq(l);
            &&& 0 <= days < 2930000
            &&& 0 <= sod < 86400
            &&& l == 86400 * days + sod
            &&& 1970 <= y <= 9999
            &&& 0 <= doy < days_in_year(y)
            &&& days == days_between_years(1970, y) + doy
            &&& 1 <= m <= 12
            &&& 0 <= dr < days_in_month(y, m)
            &&& doy == days_between_months(y, 1, m) + dr
            &&& t.len() == 19
            &&& t[0] == digit(y / 1000 % 10)
            &&& t[1] == digit(y / 100 % 10)
            &&& t[2] == digit(y / 10 % 10)
            &&& t[3] == digit(y % 10)
            &&& t[5] == digit(m / 10)
            &&& t[6] == digit(m % 10)
            &&& t[8] == digit((dr + 1) / 10)
            &&& t[9] == digit((dr + 1) % 10)
            &&& t[11] == digit(sod / 3600 / 10)
            &&& t[12] == digit(sod / 3600 % 10)
            &&& t[14] == digit(sod % 3600 / 60 / 10)
            &&& t[15] == digit(sod % 3600 / 60 % 10)
            &&& t[17] == digit(sod % 60 / 10)
            &&& t[18] == digit(sod % 60 % 10)
        }),
{
    vstd::arithmetic::div_mod::lemma_fundamental_div_mod(l, 86400);
    vstd::arithmetic::div_mod::lemma_mod_division_less_than_divisor(l, 86400);
    let days = l / 86400;
    let sod = l % 86400;
    assert(days >= 0 && days < 2930000);
    lemma_year_day_reconstruct(days, 1970);
    let y = year_from(days, 1970);
    let doy = day_of_year(days, 1970);
    lemma_days_between_years_lower(1970, y);
    assert((y - 1970) * 365 <= days);
    lemma_days_from_month_total(y);
    lemma_month_reconstruct(doy, y, 1);
}

/// Law: the rendering is injective on the accepted range: distinct local
/// seconds never share their `YYYY-MM-DD HH:MM:SS` string; so comments
/// stamped at distinct whole seconds carry distinct date strings.
pub proof fn lemma_timestamp_injective(l1: int, l2: int)
    requires
        valid_local_secs(l1),
        valid_local_secs(l2),
        timestamp_seq(l1) == timestamp_seq(l2),
    ensures
        l1 == l2,
{
    lemma_timestamp_parts(l1);
    lemma_timestamp_parts(l2);
    let days1 = l1 / 86400;
    let sod1 = l1 % 86400;
    let y1 = year_from(days1, 1970);
    let doy1 = day_of_year(days1, 1970);
    let m1 = month_from(doy1, y1, 1);
    let dr1 = day_in_month(doy1, y1, 1);
    let days2 = l2 / 86400;
    let sod2 = l2 % 86400;
    let y2 = year_from(days2, 1970);
    let doy2 = day_of_year(days2, 1970);
    let m2 = month_from(doy2, y2, 1);
    let dr2 = day_in_month(doy2, y2, 1);
    lemma_digit_inj(y1 / 1000 % 10, y2 / 1000 % 10);
    lemma_digit_inj(y1 / 100 % 10, y2 / 100 % 10);
    lemma_digit_inj(y1 / 10 % 10, y2 / 10 % 10);
    lemma_digit_inj(y1 % 10, y2 % 10);
    lemma_four_digit_values_inj(y1, y2);
    lemma_digit_inj(m1 / 10, m2 / 10);
    lemma_digit_inj(m1 % 10, m2 % 10);
    lemma_two_digit_values_inj(m1, m2);
    lemma_digit_inj((dr1 + 1) / 10, (dr2 + 1) / 10);
    lemma_digit_inj((dr1 + 1) % 10, (dr2 + 1) % 10);
    lemma_two_digit_values_inj(dr1 + 1, dr2 + 1);
    assert(doy1 == doy2);
    assert(days1 == days2);
    let h1 = sod1 / 3600;
    let h2 = sod2 / 3600;
    let r1 = sod1 % 3600;
    let r2 = sod2 % 3600;
    vstd::arithmetic::div_mod::lemma_fundamental_div_mod(sod1, 3600);
    vstd::arithmetic::div_mod::lemma_fundamental_div_mod(sod2, 3600);
    vstd::arithmetic::div_mod::lemma_mod_division_less_than_divisor(sod1, 3600);
    vstd::arithmetic::div_mod::lemma_mod_division_less_than_divisor(sod2, 3600);
    assert(h1 < 24 && h2 < 24);
    lemma_digit_inj(h1 / 10, h2 / 10);
    lemma_digit_inj(h1 % 10, h2 % 10);
    lemma_two_digit_values_inj(h1, h2);
    vstd::arithmetic::div_mod::lemma_mod_division_less_than_divisor(sod1, 60);
    vstd::arithmetic::div_mod::lemma_mod_division_less_than_divisor(sod2, 60);
    assert(r1 / 60 < 60 && r2 / 60 < 60);
    lemma_digit_inj(r1 / 60 / 10, r2 / 60 / 10);
    lemma_digit_inj(r1 / 60 % 10, r2 / 60 % 10);
    lemma_two_digit_values_inj(r1 / 60, r2 / 60);
    lemma_digit_inj(sod1 % 60 / 10, sod2 % 60 / 10);
    lemma_digit_inj(sod1 % 60 % 10, sod2 % 60 % 10);
    lemma_two_digit_values_inj(sod1 % 60, sod2 % 60);
    vstd::arithmetic::div_mod::lemma_mod_multiples_vanish(60 * h1, r1, 60);
    vstd::arithmetic::div_mod::lemma_mod_multiples_vanish(60 * h2, r2, 60);
    assert(sod1 % 60 == r1 % 60 && sod2 % 60 == r2 % 60);
    vstd::arithmetic::div_mod::lemma_fundamental_div_mod(r1, 60);
    vstd::arithmetic::div_mod::lemma_fundamental_div_mod(r2, 60);
    assert(r1 == r2);
    assert(sod1 == sod2);
}

fn is_leap_year_x(y: u64) -> (r: bool)
    ensures
        r == is_leap_year(y as int),
{
    (y % 4 == 0 && y % 100 != 0) || y % 400 == 0
}

fn days_in_year_x(y: u64) -> (r: u64)
    ensures
        r == days_in_year(y as int),
{
    if is_leap_year_x(y) {
        366
    } else {
        365
    }
}

fn days_in_month_x(y: u64, m: u64) -> (r: u64)
    ensures
        r == days_in_month(y as int, m as int),
{
    if m == 2 {
        if is_leap_year_x(y) {
            29
        } else {
            28
        }
    } else if m == 4 || m == 6 || m == 9 || m == 11 {
        30
    } else {
        31
    }
}

/// The calendar date of day number `days`: year, month and day, each in the
/// range the format calls for.
fn civil_from_days(days: u64) -> (r: (u64, u64, u64))
    requires
        days < 2930000,
    ensures
        ({
            let y = year_from(days as int, 1970);
            let doy = day_of_year(days as int, 1970);
            &&& r.0 == y
            &&& r.1 == month_from(doy, y, 1)
            &&& r.2 == day_in_month(doy, y, 1) + 1
            &&& 1970 <= y <= 9999
            &&& 1 <= r.1 <= 12
            &&& 1 <= r.2 <= 31
        }),
{
    let mut y: u64 = 1970;
    let mut rem: u64 = days;
    let mut diy: u64 = days_in_year_x(y);
    while rem >= diy
        invariant
            1970 <= y,
            rem <= days < 2930000,
            diy == days_in_year(y as int),
            year_from(days as int, 1970) == year_from(rem as int, y as int),
            day_of_year(days as int, 1970) == day_of_year(rem as int, y as int),
            days as int - rem as int >= (y as int - 1970) * 365,
        decreases rem,
    {
        rem = rem - diy;
        y = y + 1;
        diy = days_in_year_x(y);
    }
    assert(year_from(rem as int, y as int) == y);
    assert(day_of_year(rem as int, y as int) == rem);
    assert(y <= 9999) by {
        assert((y as int - 1970) * 365 < 2930000);
    };
    let ghost doy0 = rem as int;
    assert((rem as int) < days_in_year(y as int));
    assert(days_from_month(y as int, 1) == days_in_year(y as int)) by {
        reveal_with_fuel(days_from_month, 14);
    };
    let mut m: u64 = 1;
    let mut dim: u64 = days_in_month_x(y, m);
    while m < 12 && rem >= dim
        invariant
            1 <= m <= 12,
            1970 <= y <= 9999,
            dim == days_in_month(y as int, m as int),
            month_from(doy0, y as int, 1) == month_from(rem as int, y as int, m as int),
            day_in_month(doy0, y as int, 1) == day_in_month(rem as int, y as int, m as int),
            (rem as int) < days_from_month(y as int, m as int),
        decreases 12 - m,
    {
        rem = rem - dim;
        m = m + 1;
        dim = days_in_month_x(y, m);
    }
    assert(month_from(rem as int, y as int, m as int) == m);
    assert(day_in_month(rem as int, y as int, m as int) == rem);
    assert(rem < 31) by {
        if m == 12 {
            assert(days_from_month(y as int, 12) == days_in_month(y as int, 12)
                + days_from_month(y as int, 13));
        }
    };
    (y, m, rem + 1)
}

pub(crate) fn digit_str(n: u64) -> (r: &'static str)
    requires
        n < 10,
    ensures
        r@ == seq![digit(n as int)],
{
    let r: &'static str = if n == 0 {
        "0"
    } else if n == 1 {
        "1"
    } else if n == 2 {
        "2"
    } else if n == 3 {
        "3"
    } else if n == 4 {
        "4"
    } else if n == 5 {
        "5"
    } else if n == 6 {
        "6"
    } else if n == 7 {
        "7"
    } else if n == 8 {
        "8"
    } else {
        "9"
    };
    proof {
        reveal_strlit("0");
        reveal_strlit("1");
        reveal_strlit("2");
        reveal_strlit("3");
        reveal_strlit("4");
        reveal_strlit("5");
        reveal_strlit("6");
        reveal_strlit("7");
        reveal_strlit("8");
        reveal_strlit("9");
        assert(r@ =~= seq![digit(n as int)]);
    }
    r
}

fn append_two_digits(out: &mut String, n: u64)
    requires
        n < 100,
    ensures
        final(out)@ == old(out)@ + two_digits(n as int),
{
    let ghost o0 = out@;
    out.append(digit_str(n / 10));
    out.append(digit_str(n % 10));
    proof {
        assert(out@ =~= o0 + two_digits(n as int));
    }
}

fn append_four_digits(out: &mut String, n: u64)
    requires
        n < 10000,
    ensures
        final(out)@ == old(out)@ + four_digits(n as int),
{
    let ghost o0 = out@;
    out.append(digit_str(n / 1000));
    out.append(digit_str(n / 100 % 10));
    out.append(digit_str(n / 10 % 10));
    out.append(digit_str(n % 10));
    proof {
        assert(n as int / 1000 % 10 == n as int / 1000);
        assert(out@ =~= o0 + four_digits(n as int));
    }
}

/// Renders local second `local` as `YYYY-MM-DD HH:MM:SS`.
pub fn format_timestamp(local: i64) -> (r: String)
    requires
        valid_local_secs(local as int),
    ensures
        r@ == timestamp_seq(local as int),
{
    let days = (local / 86400) as u64;
    let sod = (local % 86400) as u64;
    let (y, m, d) = civil_from_days(days);
    let mut out = String::new();
    append_four_digits(&mut out, y);
    out.append("-");
    append_two_digits(&mut out, m);
    out.append("-");
    append_two_digits(&mut out, d);
    out.append(" ");
    append_two_digits(&mut out, sod / 3600);
    out.append(":");
    append_two_digits(&mut out, sod % 3600 / 60);
    out.append(":");
    append_two_digits(&mut out, sod % 60);
    proof {
        reveal_strlit("-");
        reveal_strlit(" ");
        reveal_strlit(":");
        assert(out@ =~= timestamp_seq(local as int));
    }
    out
}

/// Relies on chrono's `Utc::now` for the current instant, reduced to whole
/// seconds since the Unix epoch by `DateTime::timestamp`. Nothing is promised
/// of the clock's reading.
#[verifier::external_body]
pub(crate) fn now_unix_seconds() -> i64 {
    chrono::Utc::now().timestamp()
}

/// Clamps the clock reading `t` into the local-second range the formatter
/// accepts, applying the fixed +8h offset.
pub fn clamp_local(t: i64) -> (l: i64)
    ensures
        l as int == local_secs_of(t as int),
        valid_local_secs(l as int),
{
    if t < -28800 {
        0
    } else if t >= 253151971200 {
        253151999999
    } else {
        t + 28800
    }
}

/// The current local time under the fixed +8h offset, as
/// `YYYY-MM-DD HH:MM:SS`. Whatever the clock reads, the result is a
/// well-formed rendering of some local second in the accepted range.
pub fn now_string() -> (r: String)
    ensures
        is_timestamp(r@),
{
    let t = now_unix_seconds();
    let local = clamp_local(t);
    let r = format_timestamp(local);
    proof {
        assert(valid_local_secs(local as int) && r@ == timestamp_seq(local as int));
    }
    r
}

} // verus!
