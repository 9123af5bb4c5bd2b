//! Calendar dates in the fixed `YYYY-MM-DD` form and their conversion to
//! Unix timestamps (seconds since 1970-01-01T00:00:00 UTC) at midnight.

use vstd::prelude::*;

verus! {

/// Error returned when a string is not a `YYYY-MM-DD` calendar date.
#[derive(Debug, Clone, Copy, PartialEq, Eq, Structural)]
pub struct DateFormatError;

impl DateFormatError {
    /// A human-readable description of the failure.
    pub fn message(&self) -> (m: String)
        ensures
            m@ == "not a calendar date in year-month-day form"@,
    {
        "not a calendar date in year-month-day form".to_owned()
    }
}

/// A decimal digit `'0'` to `'9'`.
pub open spec fn is_digit(c: char) -> bool {
    48 <= c as int <= 57
}

/// The numeric value of a decimal digit character.
pub open spec fn digit_value(c: char) -> int {
    c as int - 48
}

/// Every character of `s` in `[start, start + len)` is a decimal digit.
pub open spec fn all_digits(s: Seq<char>, start: int, len: int) -> bool {
    forall|i: int| start <= i < start + len ==> is_digit(#[trigger] s[i])
}

/// The number denoted by the `len` digits of `s` starting at `start`,
/// most significant first.
pub open spec fn number_at(s: Seq<char>, start: int, len: int) -> int
    decreases len,
{
    if len <= 0 {
        0
    } else {
        10 * number_at(s, start, len - 1) + digit_value(s[start + len - 1])
    }
}

/// Ten to the power `n`.
pub open spec fn pow10(n: int) -> int
    decreases n,
{
    if n <= 0 {
        1
    } else {
        10 * pow10(n - 1)
    }
}

/// `len` digits denote a number below `pow10(len)`.
proof fn lemma_number_at_bound(s: Seq<char>, start: int, len: int)
    requires
        0 <= len,
        all_digits(s, start, len),
    ensures
        0 <= number_at(s, start, len) < pow10(len),
    decreases len,
{
    if len > 0 {
        lemma_number_at_bound(s, start, len - 1);
        assert(is_digit(s[start + len - 1]));
    }
}

/// `y` is a leap year of the proleptic Gregorian calendar.
pub open spec fn is_leap_year(y: int) -> bool {
    y % 4 == 0 && (y % 100 != 0 || y % 400 == 0)
}

/// The number of days in month `m` of year `y`.
pub open spec fn days_in_month(y: int, m: int) -> int {
    if m == 2 {
        if is_leap_year(y) {
            29
        } else {
            28
        }
    } else if m == 4 || m == 6 || m == 9 || m == 11 {
        30
    } else {
        31
    }
}

/// `y-m-d` is a day of the proleptic Gregorian calendar.
pub open spec fn valid_date(y: int, m: int, d: int) -> bool {
    1 <= m <= 12 && 1 <= d <= days_in_month(y, m)
}

/// The number of days from 1970-01-01 to `y-m-d` in the proleptic
/// Gregorian calendar (negative for earlier days), computed over
/// 400-year eras of 146097 days each, counting years from March so
/// that a leap day is the last day of its shifted year.
pub open spec fn days_from_civil(y: int, m: int, d: int) -> int {
    let shifted_year = if m <= 2 {
        y - 1
    } else {
        y
    };
    let era = shifted_year / 400;
    let year_of_era = shifted_year - era * 400;
    let shifted_month = (m + 9) % 12;
    let day_of_year = (153 * shifted_month + 2) / 5 + d - 1;
    let day_of_era = year_of_era * 365 + year_of_era / 4 - year_of_era / 100 + day_of_year;
    era * 146097 + day_of_era - 719468
}

/// The Unix timestamp of midnight UTC on `y-m-d`.
pub open spec fn midnight_timestamp(y: int, m: int, d: int) -> int {
    86400 * days_from_civil(y, m, d)
}

/// `s` is exactly `YYYY-MM-DD`: ten characters, all digits but for
/// hyphens at positions four and seven.
pub open spec fn well_formed_date(s: Seq<char>) -> bool {
    &&& s.len() == 10
    &&& s[4] == '-'
    &&& s[7] == '-'
    &&& all_digits(s, 0, 4)
    &&& all_digits(s, 5, 2)
    &&& all_digits(s, 8, 2)
}

/// The year denoted by a well-formed date string.
pub open spec fn year_of(s: Seq<char>) -> int {
    number_at(s, 0, 4)
}

/// The month denoted by a well-formed date string.
pub open spec fn month_of(s: Seq<char>) -> int {
    number_at(s, 5, 2)
}

/// The day of month denoted by a well-formed date string.
pub open spec fn day_of(s: Seq<char>) -> int {
    number_at(s, 8, 2)
}

/// `s` is a well-formed `YYYY-MM-DD` string denoting an existing
/// calendar day.
pub open spec fn date_ok(s: Seq<char>) -> bool {
    well_formed_date(s) && valid_date(year_of(s), month_of(s), day_of(s))
}

/// The Unix timestamp of midnight UTC on the day denoted by `s`.
pub open spec fn date_timestamp(s: Seq<char>) -> int {
    midnight_timestamp(year_of(s), month_of(s), day_of(s))
}

/// Reads the `len` characters of `s` starting at `start` as a decimal
/// number, most significant digit first; `None` if any of them is not
/// a digit.
fn read_number(s: &str, start: usize, len: usize) -> (r: Option<u32>)
    requires
        start + len <= s@.len(),
        s@.len() <= usize::MAX,
        len <= 4,
    ensures
        r is Some <==> all_digits(s@, start as int, len as int),
        r is Some ==> r->Some_0 == number_at(s@, start as int, len as int),
{
    let mut acc: u32 = 0;
    let mut i: usize = 0;
    while i < len
        invariant
            i <= len,
            len <= 4,
            start + len <= s@.len(),
            s@.len() <= usize::MAX,
            all_digits(s@, start as int, i as int),
            acc == number_at(s@, start as int, i as int),
        decreases len - i,
    {
        proof {
            lemma_number_at_bound(s@, start as int, i as int);
            reveal_with_fuel(pow10, 5);
            assert(pow10(0) == 1 && pow10(1) == 10 && pow10(2) == 100 && pow10(3) == 1000);
        }
        let c = s.get_char(start + i);
        let v = c as u32;
        if v < 48 || v > 57 {
            return None;
        }
        acc = acc * 10 + (v - 48);
        i = i + 1;
    }
    Some(acc)
}

/// The number of days in month `m` of year `y`, executable.
fn month_length(y: u32, m: u32) -> (r: u32)
    requires
        1 <= m <= 12,
    ensures
        r == days_in_month(y as int, m as int),
{
    if m == 2 {
        if y % 4 == 0 && (y % 100 != 0 || y % 400 == 0) {
            29
        } else {
            28
        }
    } else if m == 4 || m == 6 || m == 9 || m == 11 {
        30
    } else {
        31
    }
}

/// Decides whether `y-m-d` is a day of the calendar.
fn check_date(y: u32, m: u32, d: u32) -> (r: bool)
    ensures
        r == valid_date(y as int, m as int, d as int),
{
    if m < 1 || m > 12 {
        return false;
    }
    1 <= d && d <= month_length(y, m)
}

/// Shifting a date one whole 400-year era up shifts its day number by
/// the era length.
proof fn lemma_era_shift(y: int, m: int, d: int)
    ensures
        days_from_civil(y + 400, m, d) == days_from_civil(y, m, d) + 146097,
{
    let shifted_year = if m <= 2 {
        y - 1
    } else {
        y
    };
    vstd::arithmetic::div_mod::lemma_div_plus_one(shifted_year, 400);
}

/// The number of days from 1970-01-01 to `y-m-d`, executable. The year
/// is first moved one era up so that every intermediate value is
/// nonnegative, and the era is subtracted again at the end.
fn days_from_unix_epoch(y: u32, m: u32, d: u32) -> (r: i64)
    requires
        y <= 9999,
        valid_date(y as int, m as int, d as int),
    ensures
        r == days_from_civil(y as int, m as int, d as int),
        -1000000 <= r <= 3000000,
{
    proof {
        lemma_era_shift(y as int, m as int, d as int);
    }
    let shifted_year: u32 = if m <= 2 {
        y + 399
    } else {
        y + 400
    };
    let era: u32 = shifted_year / 400;
    let year_of_era: u32 = shifted_year % 400;
    proof {
        vstd::arithmetic::div_mod::lemma_fundamental_div_mod(shifted_year as int, 400);
    }
    let shifted_month: u32 = (m + 9) % 12;
    let day_of_year: u32 = (153 * shifted_month + 2) / 5 + d - 1;
    let day_of_era: u32 = year_of_era * 365 + year_of_era / 4 - year_of_era / 100 + day_of_year;
    let total: u32 = era * 146097 + day_of_era;
    (total as i64) - 719468 - 146097
}

/// Parses `s` as a `YYYY-MM-DD` calendar date and returns the Unix
/// timestamp of midnight UTC on that day; any string that is not such
/// a date is rejected.
pub fn parse_date(s: &str) -> (r: Result<i64, DateFormatError>)
    ensures
        r is Ok <==> date_ok(s@),
        r is Ok ==> r->Ok_0 == date_timestamp(s@),
        r is Err ==> r->Err_0 == DateFormatError,
{
    let n = s.unicode_len();
    if n != 10 {
        return Err(DateFormatError);
    }
    if s.get_char(4) != '-' || s.get_char(7) != '-' {
        return Err(DateFormatError);
    }
    let year = read_number(s, 0, 4);
    let month = read_number(s, 5, 2);
    let day = read_number(s, 8, 2);
    match (year, month, day) {
        (Some(y), Some(m), Some(d)) => {
            if check_date(y, m, d) {
                proof {
                    lemma_number_at_bound(s@, 0, 4);
                    reveal_with_fuel(pow10, 5);
                }
                let days = days_from_unix_epoch(y, m, d);
                Ok(86400 * days)
            } else {
                Err(DateFormatError)
            }
        },
        _ => Err(DateFormatError),
    }
}

} // verus!
