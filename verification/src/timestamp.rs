//! Calendar arithmetic for filename-embedded `YYYYMMDDhhmmss` timestamps:
//! validity of a civil date and time, conversion to seconds relative to the
//! Unix epoch in the proleptic Gregorian calendar, and strict monotonicity
//! of that conversion in the fourteen-digit prefix value.

use vstd::prelude::*;

verus! {

use crate::text::is_digit_char;

/// True for Gregorian leap years.
pub open spec fn is_leap_year(y: int) -> bool {
    (y % 4 == 0 && y % 100 != 0) || y % 400 == 0
}

/// Days in year `y`.
pub open spec fn days_in_year(y: int) -> int {
    if is_leap_year(y) {
        366
    } else {
        365
    }
}

/// Days from the first day of year 0 to the first day of year `y`
/// (proleptic Gregorian, `y >= 0`).
pub open spec fn days_before_year(y: int) -> int
    decreases y,
{
    if y <= 0 {
        0
    } else {
        days_before_year(y - 1) + days_in_year(y - 1)
    }
}

/// Days in month `m` (1-based) of year `y`, for `1 <= m <= 12`.
pub open spec fn days_in_month(y: int, m: int) -> int {
    if m == 2 {
        if is_leap_year(y) {
            29
        } else {
            28
        }
    } else if m == 4 || m == 6 || m == 9 || m == 11 {
        30
    } else {
        31
    }
}

/// Days from the first day of year `y` to the first day of its month `m`.
pub open spec fn days_before_month(y: int, m: int) -> int
    decreases m,
{
    if m <= 1 {
        0
    } else {
        days_before_month(y, m - 1) + days_in_month(y, m - 1)
    }
}

/// True when the six fields name a real calendar date and time of day,
/// within the range a four-digit year can write.
pub open spec fn valid_stamp(y: int, mo: int, d: int, h: int, mi: int, s: int) -> bool {
    &&& 0 <= y <= 9999
    &&& 1 <= mo <= 12
    &&& 1 <= d <= days_in_month(y, mo)
    &&& 0 <= h < 24
    &&& 0 <= mi < 60
    &&& 0 <= s < 60
}

/// Seconds from the Unix epoch to the given civil instant, read as UTC.
/// Negative for instants before 1970.
pub open spec fn stamp_seconds(y: int, mo: int, d: int, h: int, mi: int, s: int) -> int {
    (days_before_year(y) + days_before_month(y, mo) + (d - 1) - days_before_year(1970)) * 86400
        + h * 3600 + mi * 60 + s
}

pub proof fn lemma_days_before_year_bounds(y: int)
    requires
        0 <= y,
    ensures
        365 * y <= days_before_year(y) <= 366 * y,
    decreases y,
{
    if y > 0 {
        lemma_days_before_year_bounds(y - 1);
    }
}

/// Later years begin strictly later: each intervening year adds at least
/// 365 days.
pub proof fn lemma_days_before_year_monotone(y1: int, y2: int)
    requires
        0 <= y1 <= y2,
    ensures
        days_before_year(y1) + 365 * (y2 - y1) <= days_before_year(y2),
    decreases y2 - y1,
{
    if y1 < y2 {
        lemma_days_before_year_monotone(y1, y2 - 1);
    }
}

pub proof fn lemma_days_before_month_bounds(y: int, m: int)
    requires
        1 <= m <= 13,
    ensures
        0 <= days_before_month(y, m) <= 31 * (m - 1),
    decreases m,
{
    if m > 1 {
        lemma_days_before_month_bounds(y, m - 1);
    }
}

/// An earlier month of the same year ends no later than a later month
/// begins.
pub proof fn lemma_days_before_month_monotone(y: int, m1: int, m2: int)
    requires
        1 <= m1 < m2 <= 12,
    ensures
        days_before_month(y, m1) + days_in_month(y, m1) <= days_before_month(y, m2),
    decreases m2 - m1,
{
    if m1 + 1 < m2 {
        lemma_days_before_month_monotone(y, m1, m2 - 1);
    }
}

/// Every day of a valid date falls inside its year.
pub proof fn lemma_day_of_year_bound(y: int, mo: int, d: int)
    requires
        1 <= mo <= 12,
        1 <= d <= days_in_month(y, mo),
    ensures
        0 <= days_before_month(y, mo) + (d - 1) < days_in_year(y),
{
    lemma_days_before_month_bounds(y, mo);
    assert(days_before_month(y, 12) + days_in_month(y, 12) == days_in_year(y)) by {
        reveal_with_fuel(days_before_month, 13);
    };
    if mo < 12 {
        lemma_days_before_month_monotone(y, mo, 12);
    }
}

/// Lexicographic order on the six civil fields.
pub open spec fn fields_lt(
    y1: int,
    mo1: int,
    d1: int,
    h1: int,
    mi1: int,
    s1: int,
    y2: int,
    mo2: int,
    d2: int,
    h2: int,
    mi2: int,
    s2: int,
) -> bool {
    ||| y1 < y2
    ||| (y1 == y2 && mo1 < mo2)
    ||| (y1 == y2 && mo1 == mo2 && d1 < d2)
    ||| (y1 == y2 && mo1 == mo2 && d1 == d2 && h1 < h2)
    ||| (y1 == y2 && mo1 == mo2 && d1 == d2 && h1 == h2 && mi1 < mi2)
    ||| (y1 == y2 && mo1 == mo2 && d1 == d2 && h1 == h2 && mi1 == mi2 && s1 < s2)
}

/// The conversion to seconds is strictly monotone in the civil fields:
/// of two valid instants, the lexicographically earlier one maps to
/// strictly fewer seconds.
pub proof fn lemma_stamp_seconds_monotone(
    y1: int,
    mo1: int,
    d1: int,
    h1: int,
    mi1: int,
    s1: int,
    y2: int,
    mo2: int,
    d2: int,
    h2: int,
    mi2: int,
    s2: int,
)
    requires
        valid_stamp(y1, mo1, d1, h1, mi1, s1),
        valid_stamp(y2, mo2, d2, h2, mi2, s2),
        fields_lt(y1, mo1, d1, h1, mi1, s1, y2, mo2, d2, h2, mi2, s2),
    ensures
        stamp_seconds(y1, mo1, d1, h1, mi1, s1) < stamp_seconds(y2, mo2, d2, h2, mi2, s2),
{
    let days1 = days_before_year(y1) + days_before_month(y1, mo1) + (d1 - 1);
    let days2 = days_before_year(y2) + days_before_month(y2, mo2) + (d2 - 1);
    let tod1 = h1 * 3600 + mi1 * 60 + s1;
    let tod2 = h2 * 3600 + mi2 * 60 + s2;
    assert(0 <= tod1 < 86400);
    assert(0 <= tod2 < 86400);
    if y1 == y2 && mo1 == mo2 && d1 == d2 {
        assert(days1 == days2);
        assert(tod1 < tod2);
    } else {
        lemma_day_of_year_bound(y1, mo1, d1);
        lemma_day_of_year_bound(y2, mo2, d2);
        if y1 < y2 {
            lemma_days_before_year_monotone(y1, y2);
            assert(days1 < days_before_year(y1) + days_in_year(y1));
            assert(days_before_year(y1) + days_in_year(y1) <= days_before_year(y2));
            assert(days1 < days2 + 1);
        } else if mo1 < mo2 {
            lemma_days_before_month_monotone(y1, mo1, mo2);
            assert(days1 < days2 + 1);
        } else {
            assert(days1 < days2 + 1);
        }
        assert(days1 < days2 + 1 ==> days1 <= days2);
        assert(days1 <= days2);
        if days1 == days2 {
            assert(y1 == y2 || y1 < y2);
            if y1 < y2 {
                lemma_days_before_year_monotone(y1, y2);
            }
            if y1 == y2 && mo1 < mo2 {
                lemma_days_before_month_monotone(y1, mo1, mo2);
            }
            assert(tod1 < tod2);
        }
    }
}

/// Numeric value of a decimal digit character.
pub open spec fn digit_val(c: char) -> int {
    c as int - '0' as int
}

/// The two-digit number written at positions `i`, `i + 1` of `s`.
pub open spec fn field2(s: Seq<char>, i: int) -> int {
    digit_val(s[i]) * 10 + digit_val(s[i + 1])
}

/// The four-digit number written at positions `i` .. `i + 3` of `s`.
pub open spec fn field4(s: Seq<char>, i: int) -> int {
    digit_val(s[i]) * 1000 + digit_val(s[i + 1]) * 100 + digit_val(s[i + 2]) * 10 + digit_val(
        s[i + 3],
    )
}

/// True when the first fourteen characters of `s` are decimal digits.
pub open spec fn prefix_all_digits(s: Seq<char>) -> bool {
    s.len() >= 14 && forall|i: int| 0 <= i < 14 ==> is_digit_char(#[trigger] s[i])
}

pub open spec fn prefix_year(s: Seq<char>) -> int {
    field4(s, 0)
}

pub open spec fn prefix_month(s: Seq<char>) -> int {
    field2(s, 4)
}

pub open spec fn prefix_day(s: Seq<char>) -> int {
    field2(s, 6)
}

pub open spec fn prefix_hour(s: Seq<char>) -> int {
    field2(s, 8)
}

pub open spec fn prefix_minute(s: Seq<char>) -> int {
    field2(s, 10)
}

pub open spec fn prefix_second(s: Seq<char>) -> int {
    field2(s, 12)
}

/// True when `s` begins with fourteen digits that name a real calendar
/// date and time.
pub open spec fn prefix_valid(s: Seq<char>) -> bool {
    prefix_all_digits(s) && valid_stamp(
        prefix_year(s),
        prefix_month(s),
        prefix_day(s),
        prefix_hour(s),
        prefix_minute(s),
        prefix_second(s),
    )
}

/// The instant named by a valid fourteen-digit prefix, in seconds from
/// the Unix epoch.
pub open spec fn prefix_seconds(s: Seq<char>) -> int {
    stamp_seconds(
        prefix_year(s),
        prefix_month(s),
        prefix_day(s),
        prefix_hour(s),
        prefix_minute(s),
        prefix_second(s),
    )
}

/// The fourteen-digit prefix read as one number.
pub open spec fn prefix_value(s: Seq<char>) -> int {
    prefix_year(s) * 10000000000 + prefix_month(s) * 100000000 + prefix_day(s) * 1000000
        + prefix_hour(s) * 10000 + prefix_minute(s) * 100 + prefix_second(s)
}

proof fn lemma_field_bounds(s: Seq<char>)
    requires
        prefix_all_digits(s),
    ensures
        0 <= prefix_year(s) <= 9999,
        0 <= prefix_month(s) <= 99,
        0 <= prefix_day(s) <= 99,
        0 <= prefix_hour(s) <= 99,
        0 <= prefix_minute(s) <= 99,
        0 <= prefix_second(s) <= 99,
{
    assert forall|i: int| 0 <= i < 14 implies 0 <= digit_val(#[trigger] s[i]) <= 9 by {
        assert(is_digit_char(s[i]));
    }
}

/// A larger fourteen-digit prefix names a lexicographically later civil
/// instant.
pub proof fn lemma_prefix_value_orders_fields(a: Seq<char>, b: Seq<char>)
    requires
        prefix_all_digits(a),
        prefix_all_digits(b),
        prefix_value(a) < prefix_value(b),
    ensures
        fields_lt(
            prefix_year(a),
            prefix_month(a),
            prefix_day(a),
            prefix_hour(a),
            prefix_minute(a),
            prefix_second(a),
            prefix_year(b),
            prefix_month(b),
            prefix_day(b),
            prefix_hour(b),
            prefix_minute(b),
            prefix_second(b),
        ),
{
    lemma_field_bounds(a);
    lemma_field_bounds(b);
}

/// A larger valid prefix always converts to strictly more seconds.
pub proof fn lemma_prefix_value_orders_seconds(a: Seq<char>, b: Seq<char>)
    requires
        prefix_valid(a),
        prefix_valid(b),
        prefix_value(a) < prefix_value(b),
    ensures
        prefix_seconds(a) < prefix_seconds(b),
{
    lemma_prefix_value_orders_fields(a, b);
    lemma_stamp_seconds_monotone(
        prefix_year(a),
        prefix_month(a),
        prefix_day(a),
        prefix_hour(a),
        prefix_minute(a),
        prefix_second(a),
        prefix_year(b),
        prefix_month(b),
        prefix_day(b),
        prefix_hour(b),
        prefix_minute(b),
        prefix_second(b),
    );
}

fn days_in_month_exec(y: u32, mo: u32) -> (r: u32)
    requires
        1 <= mo <= 12,
    ensures
        r == days_in_month(y as int, mo as int),
{
    if mo == 2 {
        if (y % 4 == 0 && y % 100 != 0) || y % 400 == 0 {
            29
        } else {
            28
        }
    } else if mo == 4 || mo == 6 || mo == 9 || mo == 11 {
        30
    } else {
        31
    }
}

fn days_before_year_exec(y: u32) -> (r: i64)
    requires
        y <= 9999,
    ensures
        r == days_before_year(y as int),
{
    let mut acc: i64 = 0;
    let mut i: u32 = 0;
    while i < y
        invariant
            0 <= i <= y <= 9999,
            acc == days_before_year(i as int),
        decreases y - i,
    {
        proof {
            lemma_days_before_year_bounds(i as int);
        }
        if (i % 4 == 0 && i % 100 != 0) || i % 400 == 0 {
            acc = acc + 366;
        } else {
            acc = acc + 365;
        }
        i = i + 1;
    }
    acc
}

fn days_before_month_exec(y: u32, mo: u32) -> (r: u32)
    requires
        1 <= mo <= 12,
    ensures
        r == days_before_month(y as int, mo as int),
{
    let mut acc: u32 = 0;
    let mut m: u32 = 1;
    while m < mo
        invariant
            1 <= m <= mo <= 12,
            acc == days_before_month(y as int, m as int),
        decreases mo - m,
    {
        proof {
            lemma_days_before_month_bounds(y as int, m as int);
        }
        acc = acc + days_in_month_exec(y, m);
        m = m + 1;
    }
    acc
}

/// Reads a `YYYYMMDDhhmmss` prefix from the head of `name` and converts
/// it to seconds from the Unix epoch; `None` when the first fourteen
/// characters are not digits naming a real calendar date and time.
pub fn parse_timestamp_prefix(name: &Vec<char>) -> (r: Option<i64>)
    ensures
        r is Some <==> prefix_valid(name@),
        r is Some ==> r->0 == prefix_seconds(name@),
{
    if name.len() < 14 {
        return None;
    }
    let mut i: usize = 0;
    while i < 14
        invariant
            0 <= i <= 14,
            name@.len() >= 14,
            forall|m: int| 0 <= m < i ==> is_digit_char(#[trigger] name@[m]),
        decreases 14 - i,
    {
        let c = name[i];
        if !('0' <= c && c <= '9') {
            return None;
        }
        i = i + 1;
    }
    let d0 = digit_at(name, 0);
    let d1 = digit_at(name, 1);
    let d2 = digit_at(name, 2);
    let d3 = digit_at(name, 3);
    let y: u32 = d0 * 1000 + d1 * 100 + d2 * 10 + d3;
    let mo: u32 = digit_at(name, 4) * 10 + digit_at(name, 5);
    let d: u32 = digit_at(name, 6) * 10 + digit_at(name, 7);
    let h: u32 = digit_at(name, 8) * 10 + digit_at(name, 9);
    let mi: u32 = digit_at(name, 10) * 10 + digit_at(name, 11);
    let s: u32 = digit_at(name, 12) * 10 + digit_at(name, 13);
    if !(1 <= mo && mo <= 12) {
        return None;
    }
    if !(1 <= d && d <= days_in_month_exec(y, mo)) {
        return None;
    }
    if !(h < 24 && mi < 60 && s < 60) {
        return None;
    }
    proof {
        lemma_days_before_year_bounds(y as int);
        lemma_days_before_year_bounds(1970);
        lemma_days_before_month_bounds(y as int, mo as int);
    }
    let days: i64 = days_before_year_exec(y) + days_before_month_exec(y, mo) as i64 + (d as i64 - 1)
        - days_before_year_exec(1970);
    let secs: i64 = days * 86400 + (h as i64) * 3600 + (mi as i64) * 60 + s as i64;
    Some(secs)
}

fn digit_at(name: &Vec<char>, i: usize) -> (r: u32)
    requires
        i < name@.len(),
        is_digit_char(name@[i as int]),
    ensures
        r == digit_val(name@[i as int]),
        r <= 9,
{
    name[i] as u32 - '0' as u32
}

/// The decimal digit character for `v`.
pub open spec fn digit_char(v: int) -> char {
    (('0' as u8) + v as u8) as char
}

/// `n` written as two decimal digits, zero padded.
pub open spec fn dec2(n: int) -> Seq<char> {
    seq![digit_char(n / 10), digit_char(n % 10)]
}

/// `n` written as four decimal digits, zero padded.
pub open spec fn dec4(n: int) -> Seq<char> {
    seq![
        digit_char(n / 1000),
        digit_char((n / 100) % 10),
        digit_char((n / 10) % 10),
        digit_char(n % 10),
    ]
}

/// A civil date and time, held as plain fields.
#[derive(Clone, Copy, Debug)]
pub struct CivilTime {
    pub year: u32,
    pub month: u32,
    pub day: u32,
    pub hour: u32,
    pub minute: u32,
    pub second: u32,
}

impl CivilTime {
    /// True when every field fits the width its rendering gives it.
    pub open spec fn wf(&self) -> bool {
        self.year <= 9999 && self.month <= 99 && self.day <= 99 && self.hour <= 99 && self.minute
            <= 99 && self.second <= 99
    }

    /// The rendering `YYYYMMDD_HHMMSS` of this instant.
    pub open spec fn compact_spec(&self) -> Seq<char> {
        dec4(self.year as int) + dec2(self.month as int) + dec2(self.day as int) + seq!['_'] + dec2(
            self.hour as int,
        ) + dec2(self.minute as int) + dec2(self.second as int)
    }

    /// Writes this instant as `YYYYMMDD_HHMMSS`, each field zero padded.
    pub fn format_compact(&self) -> (r: Vec<char>)
        requires
            self.wf(),
        ensures
            r@ == self.compact_spec(),
    {
        let mut out: Vec<char> = Vec::new();
        push_dec4(&mut out, self.year);
        push_dec2(&mut out, self.month);
        push_dec2(&mut out, self.day);
        out.push('_');
        push_dec2(&mut out, self.hour);
        push_dec2(&mut out, self.minute);
        push_dec2(&mut out, self.second);
        proof {
            assert(out@ =~= self.compact_spec());
        }
        out
    }
}

fn push_dec2(out: &mut Vec<char>, n: u32)
    requires
        n <= 99,
    ensures
        final(out)@ == old(out)@ + dec2(n as int),
{
    out.push((('0' as u8) + (n / 10) as u8) as char);
    out.push((('0' as u8) + (n % 10) as u8) as char);
    assert(out@ =~= old(out)@ + dec2(n as int));
}

fn push_dec4(out: &mut Vec<char>, n: u32)
    requires
        n <= 9999,
    ensures
        final(out)@ == old(out)@ + dec4(n as int),
{
    out.push((('0' as u8) + (n / 1000) as u8) as char);
    out.push((('0' as u8) + ((n / 100) % 10) as u8) as char);
    out.push((('0' as u8) + ((n / 10) % 10) as u8) as char);
    out.push((('0' as u8) + (n % 10) as u8) as char);
    assert(out@ =~= old(out)@ + dec4(n as int));
}

} // verus!
