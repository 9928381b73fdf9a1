//! Text forms of calendar dates, as the remote feed uses them: the
//! `YYYY-MM-DD` day string (in query strings toward the feed) and the
//! `YYYY-MM-DD HH:MM:SS` timestamp (in feed records, to be read as
//! UTC). Formatting and parsing are exact inverses over the supported
//! range of days, which is the round-trip guarantee the query-string
//! encoding relies on.
use vstd::arithmetic::div_mod::lemma_fundamental_div_mod;
use vstd::prelude::*;
use vstd::string::StrSliceExecFns;
use vstd::string::StringExecFns;

use crate::calendar::civil_from_day;
use crate::calendar::civil_of_day;
use crate::calendar::day_from_civil;
use crate::calendar::days_before_year;
use crate::calendar::days_from_civil;
use crate::calendar::days_in_month_x;
use crate::calendar::lemma_civil_of_day;
use crate::calendar::lemma_days_from_civil_in_range;
use crate::calendar::valid_civil;
use crate::time::SECS_PER_DAY;
use crate::time::SECS_PER_HOUR;
use crate::time::SECS_PER_MINUTE;
use crate::time::UtcInstant;
use crate::time::epoch_day_of;

verus! {

/// Value of a decimal digit character, or -1 for any other character.
pub open spec fn digit_val(c: char) -> int {
    if c == '0' {
        0
    } else if c == '1' {
        1
    } else if c == '2' {
        2
    } else if c == '3' {
        3
    } else if c == '4' {
        4
    } else if c == '5' {
        5
    } else if c == '6' {
        6
    } else if c == '7' {
        7
    } else if c == '8' {
        8
    } else if c == '9' {
        9
    } else {
        -1
    }
}

pub open spec fn is_digit(c: char) -> bool {
    digit_val(c) >= 0
}

/// The decimal digit character for a value 0 through 9.
pub open spec fn digit_char(v: int) -> char {
    if v == 0 {
        '0'
    } else if v == 1 {
        '1'
    } else if v == 2 {
        '2'
    } else if v == 3 {
        '3'
    } else if v == 4 {
        '4'
    } else if v == 5 {
        '5'
    } else if v == 6 {
        '6'
    } else if v == 7 {
        '7'
    } else if v == 8 {
        '8'
    } else {
        '9'
    }
}

/// `k` decimal digits starting at position `i`.
pub open spec fn digits_at(s: Seq<char>, i: int, k: int) -> bool {
    forall|j: int| i <= j < i + k ==> is_digit(#[trigger] s[j])
}

pub open spec fn two_digit_val(s: Seq<char>, i: int) -> int {
    10 * digit_val(s[i]) + digit_val(s[i + 1])
}

pub open spec fn four_digit_val(s: Seq<char>, i: int) -> int {
    1000 * digit_val(s[i]) + 100 * digit_val(s[i + 1]) + 10 * digit_val(s[i + 2]) + digit_val(
        s[i + 3],
    )
}

/// A value 0 through 99 as two decimal digits, zero-padded.
pub open spec fn two_digit_chars(v: int) -> Seq<char> {
    seq![digit_char(v / 10), digit_char(v % 10)]
}

/// A value 0 through 9999 as four decimal digits, zero-padded.
pub open spec fn four_digit_chars(v: int) -> Seq<char> {
    seq![
        digit_char(v / 1000),
        digit_char(v / 100 % 10),
        digit_char(v / 10 % 10),
        digit_char(v % 10),
    ]
}

/// The `YYYY-MM-DD` day string of a calendar date.
pub open spec fn day_string_chars(y: int, m: int, d: int) -> Seq<char> {
    four_digit_chars(y) + seq!['-'] + two_digit_chars(m) + seq!['-'] + two_digit_chars(d)
}

/// The `YYYY-MM-DD` day string of a day number.
pub open spec fn day_chars_of(n: int) -> Seq<char> {
    let (y, m, d) = civil_of_day(n);
    day_string_chars(y, m, d)
}

/// What parsing a `YYYY-MM-DD` day string yields: the calendar date,
/// provided the shape, the digits and the calendar all check out; in
/// every other case, nothing.
pub open spec fn parse_day_chars(s: Seq<char>) -> Option<(int, int, int)> {
    if s.len() == 10 && digits_at(s, 0, 4) && s[4] == '-' && digits_at(s, 5, 2) && s[7] == '-'
        && digits_at(s, 8, 2) {
        let y = four_digit_val(s, 0);
        let m = two_digit_val(s, 5);
        let d = two_digit_val(s, 8);
        if valid_civil(y, m, d) {
            Some((y, m, d))
        } else {
            None
        }
    } else {
        None
    }
}

/// What parsing a `YYYY-MM-DD HH:MM:SS` feed timestamp yields, read
/// as UTC: seconds since the epoch, or nothing if malformed.
pub open spec fn parse_timestamp_chars(s: Seq<char>) -> Option<int> {
    if s.len() == 19 && s[10] == ' ' && digits_at(s, 11, 2) && s[13] == ':' && digits_at(s, 14, 2)
        && s[16] == ':' && digits_at(s, 17, 2) {
        match parse_day_chars(s.subrange(0, 10)) {
            Some(ymd) => {
                let hh = two_digit_val(s, 11);
                let mi = two_digit_val(s, 14);
                let ss = two_digit_val(s, 17);
                if hh < 24 && mi < 60 && ss < 60 {
                    Some(
                        days_from_civil(ymd.0, ymd.1, ymd.2) * (SECS_PER_DAY as int) + hh * (
                        SECS_PER_HOUR as int) + mi * (SECS_PER_MINUTE as int) + ss,
                    )
                } else {
                    None
                }
            },
            None => None,
        }
    } else {
        None
    }
}

/// The decimal digits of a value below 10000 assemble back to it.
proof fn lemma_decimal_digits(v: int)
    requires
        0 <= v < 10000,
    ensures
        1000 * (v / 1000) + 100 * (v / 100 % 10) + 10 * (v / 10 % 10) + v % 10 == v,
        0 <= v / 1000 <= 9,
        0 <= v / 100 % 10 <= 9,
        0 <= v / 10 % 10 <= 9,
        0 <= v % 10 <= 9,
{
    lemma_fundamental_div_mod(v, 10);
    lemma_fundamental_div_mod(v / 10, 10);
    lemma_fundamental_div_mod(v / 100, 10);
    lemma_fundamental_div_mod(v, 100);
    lemma_fundamental_div_mod(v, 1000);
    assert(v / 10 / 10 == v / 100) by {
        vstd::arithmetic::div_mod::lemma_div_denominator(v, 10, 10);
    }
    assert(v / 100 / 10 == v / 1000) by {
        vstd::arithmetic::div_mod::lemma_div_denominator(v, 100, 10);
    }
}

/// Parsing undoes formatting: the day string of any valid calendar
/// date parses back to exactly that date.
pub proof fn lemma_day_string_parses(y: int, m: int, d: int)
    requires
        valid_civil(y, m, d),
    ensures
        parse_day_chars(day_string_chars(y, m, d)) == Some((y, m, d)),
{
    let s = day_string_chars(y, m, d);
    lemma_decimal_digits(y);
    lemma_decimal_digits(m);
    lemma_decimal_digits(d);
    assert(m / 1000 == 0 && m / 100 % 10 == 0) by {
        lemma_fundamental_div_mod(m, 10);
    }
    assert(s[0] == digit_char(y / 1000));
    assert(s[1] == digit_char(y / 100 % 10));
    assert(s[2] == digit_char(y / 10 % 10));
    assert(s[3] == digit_char(y % 10));
    assert(s[4] == '-');
    assert(s[5] == digit_char(m / 10));
    assert(s[6] == digit_char(m % 10));
    assert(s[7] == '-');
    assert(s[8] == digit_char(d / 10));
    assert(s[9] == digit_char(d % 10));
    assert(m / 10 <= 9 && d / 10 <= 9);
    assert(four_digit_val(s, 0) == y);
    assert(two_digit_val(s, 5) == m);
    assert(two_digit_val(s, 8) == d);
}

/// Round trip for day numbers: format a day number as `YYYY-MM-DD`,
/// parse the string back, and the very same calendar day comes out —
/// no off-by-one anywhere in the supported range.
pub proof fn lemma_day_string_round_trip(n: int)
    requires
        0 <= n < days_before_year(10000),
    ensures
        parse_day_chars(day_chars_of(n)) == Some(civil_of_day(n)),
        ({
            let (y, m, d) = civil_of_day(n);
            days_from_civil(y, m, d) == n
        }),
{
    lemma_civil_of_day(n);
    let (y, m, d) = civil_of_day(n);
    lemma_day_string_parses(y, m, d);
}

/// The decimal digit character of a value 0 through 9, as a one
/// character string slice.
fn digit_str(v: u64) -> (r: &'static str)
    requires
        v <= 9,
    ensures
        r@ =~= seq![digit_char(v as int)],
{
    proof {
        reveal_strlit("0");
        reveal_strlit("1");
        reveal_strlit("2");
        reveal_strlit("3");
        reveal_strlit("4");
        reveal_strlit("5");
        reveal_strlit("6");
        reveal_strlit("7");
        reveal_strlit("8");
        reveal_strlit("9");
    }
    if v == 0 {
        "0"
    } else if v == 1 {
        "1"
    } else if v == 2 {
        "2"
    } else if v == 3 {
        "3"
    } else if v == 4 {
        "4"
    } else if v == 5 {
        "5"
    } else if v == 6 {
        "6"
    } else if v == 7 {
        "7"
    } else if v == 8 {
        "8"
    } else {
        "9"
    }
}

/// Append a value 0 through 99 as two zero-padded decimal digits.
fn append_two_digits(s: &mut String, v: u64)
    requires
        v <= 99,
    ensures
        final(s)@ == old(s)@ + two_digit_chars(v as int),
{
    s.append(digit_str(v / 10));
    s.append(digit_str(v % 10));
    assert(s@ =~= old(s)@ + two_digit_chars(v as int));
}

/// Append a value 0 through 9999 as four zero-padded decimal digits.
fn append_four_digits(s: &mut String, v: u64)
    requires
        v <= 9999,
    ensures
        final(s)@ == old(s)@ + four_digit_chars(v as int),
{
    s.append(digit_str(v / 1000));
    s.append(digit_str(v / 100 % 10));
    s.append(digit_str(v / 10 % 10));
    s.append(digit_str(v % 10));
    assert(s@ =~= old(s)@ + four_digit_chars(v as int));
}

/// Append the `YYYY-MM-DD` day string of a valid calendar date.
fn append_day_string(s: &mut String, y: u64, m: u64, d: u64)
    requires
        valid_civil(y as int, m as int, d as int),
    ensures
        final(s)@ == old(s)@ + day_string_chars(y as int, m as int, d as int),
{
    proof {
        reveal_strlit("-");
    }
    append_four_digits(s, y);
    s.append("-");
    append_two_digits(s, m);
    s.append("-");
    append_two_digits(s, d);
    assert(s@ =~= old(s)@ + day_string_chars(y as int, m as int, d as int));
}

/// The value of a decimal digit character, if it is one.
fn char_digit(c: char) -> (r: Option<u64>)
    ensures
        r is Some <==> is_digit(c),
        r matches Some(v) ==> v == digit_val(c) && v <= 9,
{
    if c == '0' {
        Some(0)
    } else if c == '1' {
        Some(1)
    } else if c == '2' {
        Some(2)
    } else if c == '3' {
        Some(3)
    } else if c == '4' {
        Some(4)
    } else if c == '5' {
        Some(5)
    } else if c == '6' {
        Some(6)
    } else if c == '7' {
        Some(7)
    } else if c == '8' {
        Some(8)
    } else if c == '9' {
        Some(9)
    } else {
        None
    }
}

/// Parse a `YYYY-MM-DD` day string into a calendar date. Returns
/// `None` exactly when the string is not ten characters of that
/// shape, or the date it names does not exist in the supported
/// calendar (years 1970 through 9999).
pub fn parse_day(s: &str) -> (r: Option<(u64, u64, u64)>)
    ensures
        r is Some <==> parse_day_chars(s@) is Some,
        r matches Some(t) ==> parse_day_chars(s@) == Some((t.0 as int, t.1 as int, t.2 as int)),
{
    if s.unicode_len() != 10 {
        return None;
    }
    if s.get_char(4) != '-' || s.get_char(7) != '-' {
        return None;
    }
    let y0 = match char_digit(s.get_char(0)) {
        Some(v) => v,
        None => { return None },
    };
    let y1 = match char_digit(s.get_char(1)) {
        Some(v) => v,
        None => { return None },
    };
    let y2 = match char_digit(s.get_char(2)) {
        Some(v) => v,
        None => { return None },
    };
    let y3 = match char_digit(s.get_char(3)) {
        Some(v) => v,
        None => { return None },
    };
    let m0 = match char_digit(s.get_char(5)) {
        Some(v) => v,
        None => { return None },
    };
    let m1 = match char_digit(s.get_char(6)) {
        Some(v) => v,
        None => { return None },
    };
    let d0 = match char_digit(s.get_char(8)) {
        Some(v) => v,
        None => { return None },
    };
    let d1 = match char_digit(s.get_char(9)) {
        Some(v) => v,
        None => { return None },
    };
    let y: u64 = 1000 * y0 + 100 * y1 + 10 * y2 + y3;
    let m: u64 = 10 * m0 + m1;
    let d: u64 = 10 * d0 + d1;
    if y < 1970 || m < 1 || m > 12 || d < 1 {
        return None;
    }
    if d > days_in_month_x(y, m) {
        return None;
    }
    Some((y, m, d))
}

/// Parse a `YYYY-MM-DD HH:MM:SS` feed timestamp, read as UTC.
/// Returns `None` exactly when the string is not nineteen characters
/// of that shape with a day the calendar has and a time of day below
/// 24:00:00.
pub fn parse_timestamp(s: &str) -> (r: Option<UtcInstant>)
    ensures
        r is Some <==> parse_timestamp_chars(s@) is Some,
        r matches Some(t) ==> parse_timestamp_chars(s@) == Some(t.secs as int),
{
    if s.unicode_len() != 19 {
        return None;
    }
    if s.get_char(10) != ' ' || s.get_char(13) != ':' || s.get_char(16) != ':' {
        return None;
    }
    let day_part = s.substring_char(0, 10);
    let ymd = match parse_day(day_part) {
        Some(t) => t,
        None => { return None },
    };
    let h0 = match char_digit(s.get_char(11)) {
        Some(v) => v,
        None => { return None },
    };
    let h1 = match char_digit(s.get_char(12)) {
        Some(v) => v,
        None => { return None },
    };
    let mi0 = match char_digit(s.get_char(14)) {
        Some(v) => v,
        None => { return None },
    };
    let mi1 = match char_digit(s.get_char(15)) {
        Some(v) => v,
        None => { return None },
    };
    let s0 = match char_digit(s.get_char(17)) {
        Some(v) => v,
        None => { return None },
    };
    let s1 = match char_digit(s.get_char(18)) {
        Some(v) => v,
        None => { return None },
    };
    let hh: u64 = 10 * h0 + h1;
    let mi: u64 = 10 * mi0 + mi1;
    let ss: u64 = 10 * s0 + s1;
    if hh >= 24 || mi >= 60 || ss >= 60 {
        return None;
    }
    let day = day_from_civil(ymd.0, ymd.1, ymd.2);
    proof {
        lemma_days_from_civil_in_range(ymd.0 as int, ymd.1 as int, ymd.2 as int);
    }
    let secs: u64 = day * SECS_PER_DAY + hh * SECS_PER_HOUR + mi * SECS_PER_MINUTE + ss;
    Some(UtcInstant { secs })
}

/// The query string the feed expects for a window: day-granular
/// bounds, the lower taken from the window start, the upper one day
/// past the window end. The feed treats its upper bound as exclusive
/// at the start of that day, so adding a day captures everything up
/// to the window's true end.
pub open spec fn query_string_chars(start_secs: int, end_secs: int) -> Seq<char> {
    "?from="@ + day_chars_of(epoch_day_of(start_secs)) + "&to="@ + day_chars_of(
        epoch_day_of(end_secs) + 1,
    )
}

/// Build the feed query string for a window: `?from=YYYY-MM-DD&to=
/// YYYY-MM-DD`, with one day added to the upper bound because the
/// feed reads it as exclusive.
pub fn get_query_string_for_api_call(start: UtcInstant, end: UtcInstant) -> (r: String)
    requires
        epoch_day_of(start.secs as int) < days_before_year(10000),
        epoch_day_of(end.secs as int) + 1 < days_before_year(10000),
    ensures
        r@ == query_string_chars(start.secs as int, end.secs as int),
{
    let mut out = String::from_str("?from=");
    let start_day: u64 = start.secs / SECS_PER_DAY;
    let (sy, sm, sd) = match civil_from_day(start_day) {
        Some(t) => t,
        None => { vstd::pervasive::unreached() },
    };
    append_day_string(&mut out, sy, sm, sd);
    out.append("&to=");
    let end_day: u64 = end.secs / SECS_PER_DAY + 1;
    let (ey, em, ed) = match civil_from_day(end_day) {
        Some(t) => t,
        None => { vstd::pervasive::unreached() },
    };
    append_day_string(&mut out, ey, em, ed);
    assert(out@ =~= query_string_chars(start.secs as int, end.secs as int));
    out
}

} // verus!
