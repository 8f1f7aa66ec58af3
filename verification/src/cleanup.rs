//! The daily log-rotation sweep's decisions: picking the date suffix
//! out of a rotated log file's name, parsing it, and judging whether
//! the file has outlived the retention window.
//!
//! Walking the directory and deleting files happens outside the
//! library.

use vstd::prelude::*;

verus! {

/// How many whole days a rotated alert log is kept.
pub const LOG_RETENTION_DAYS: u64 = 3;

/// An ASCII decimal digit.
pub open spec fn is_digit(c: char) -> bool {
    '0' <= c <= '9'
}

/// The value of a decimal digit character.
pub open spec fn digit_val(c: char) -> int {
    c as int - 48
}

/// The ten-character shape `YYYY-MM-DD`.
pub open spec fn date_shape(s: Seq<char>) -> bool {
    s.len() == 10 && s[4] == '-' && s[7] == '-' && is_digit(s[0]) && is_digit(s[1]) && is_digit(
        s[2],
    ) && is_digit(s[3]) && is_digit(s[5]) && is_digit(s[6]) && is_digit(s[8]) && is_digit(s[9])
}

/// The year spelled by a date-shaped sequence.
pub open spec fn year_of(s: Seq<char>) -> int {
    1000 * digit_val(s[0]) + 100 * digit_val(s[1]) + 10 * digit_val(s[2]) + digit_val(s[3])
}

/// The month spelled by a date-shaped sequence.
pub open spec fn month_of(s: Seq<char>) -> int {
    10 * digit_val(s[5]) + digit_val(s[6])
}

/// The day spelled by a date-shaped sequence.
pub open spec fn day_of(s: Seq<char>) -> int {
    10 * digit_val(s[8]) + digit_val(s[9])
}

/// The Gregorian leap-year rule.
pub open spec fn is_leap_year(y: int) -> bool {
    y % 4 == 0 && (y % 100 != 0 || y % 400 == 0)
}

/// The length of a month in the Gregorian calendar.
pub open spec fn days_in_month(y: int, m: int) -> int {
    if m == 2 {
        if is_leap_year(y) {
            29
        } else {
            28
        }
    } else if m == 4 || m == 6 || m == 9 || m == 11 {
        30
    } else {
        31
    }
}

/// A real calendar date.
pub open spec fn valid_civil_date(y: int, m: int, d: int) -> bool {
    1 <= m <= 12 && 1 <= d <= days_in_month(y, m)
}

/// Parses a rotated log's `YYYY-MM-DD` suffix: the shape must match and
/// the date must exist in the calendar.
pub fn parse_log_date(s: &str) -> (r: Option<(u16, u8, u8)>)
    ensures
        r matches Some(t) ==> date_shape(s@) && t.0 == year_of(s@) && t.1 == month_of(s@) && t.2
            == day_of(s@) && valid_civil_date(year_of(s@), month_of(s@), day_of(s@)),
        r is None ==> !(date_shape(s@) && valid_civil_date(year_of(s@), month_of(s@), day_of(s@))),
{
    if s.unicode_len() != 10 {
        return None;
    }
    if s.get_char(4) != '-' || s.get_char(7) != '-' {
        return None;
    }
    let d0 = match digit_at(s, 0) {
        Some(v) => v,
        None => {
            return None;
        },
    };
    let d1 = match digit_at(s, 1) {
        Some(v) => v,
        None => {
            return None;
        },
    };
    let d2 = match digit_at(s, 2) {
        Some(v) => v,
        None => {
            return None;
        },
    };
    let d3 = match digit_at(s, 3) {
        Some(v) => v,
        None => {
            return None;
        },
    };
    let d4 = match digit_at(s, 5) {
        Some(v) => v,
        None => {
            return None;
        },
    };
    let d5 = match digit_at(s, 6) {
        Some(v) => v,
        None => {
            return None;
        },
    };
    let d6 = match digit_at(s, 8) {
        Some(v) => v,
        None => {
            return None;
        },
    };
    let d7 = match digit_at(s, 9) {
        Some(v) => v,
        None => {
            return None;
        },
    };
    let year: u16 = 1000 * (d0 as u16) + 100 * (d1 as u16) + 10 * (d2 as u16) + (d3 as u16);
    let month: u8 = 10 * d4 + d5;
    let day: u8 = 10 * d6 + d7;
    if month < 1 || month > 12 {
        return None;
    }
    let leap = (year % 4 == 0) && (year % 100 != 0 || year % 400 == 0);
    let month_len: u8 = if month == 2 {
        if leap {
            29
        } else {
            28
        }
    } else if month == 4 || month == 6 || month == 9 || month == 11 {
        30
    } else {
        31
    };
    if day < 1 || day > month_len {
        return None;
    }
    Some((year, month, day))
}

/// The value of one decimal digit of a date string.
fn digit_at(s: &str, i: usize) -> (r: Option<u8>)
    requires
        i < s@.len(),
    ensures
        is_digit(s@[i as int]) ==> r == Some(digit_val(s@[i as int]) as u8),
        !is_digit(s@[i as int]) ==> r is None,
{
    let c = s.get_char(i);
    if c < '0' || c > '9' {
        None
    } else {
        Some((c as u8) - 48)
    }
}

/// Whether a rotated log written `file_day` (as a day number) has
/// outlived the retention window by `today`.
pub fn log_retention_expired(file_day: i64, today: i64) -> (r: bool)
    requires
        i64::MIN + LOG_RETENTION_DAYS < today,
    ensures
        r == (today - file_day > LOG_RETENTION_DAYS),
{
    today - (LOG_RETENTION_DAYS as i64) > file_day
}

/// Whether `s` begins with `prefix`.
pub fn starts_with_prefix(s: &str, prefix: &str) -> (r: bool)
    ensures
        r == (s@.len() >= prefix@.len() && s@.subrange(0, prefix@.len() as int) == prefix@),
{
    let plen = prefix.unicode_len();
    let slen = s.unicode_len();
    if slen < plen {
        return false;
    }
    let head = s.substring_char(0, plen);
    crate::util::str_eq(head, prefix)
}

/// The text behind the last dot of a file name, or the whole name when
/// it has none.  A rotated log's date suffix stands there.
pub fn after_last_dot(s: &str) -> (r: &str)
    ensures
        (forall|j: int| 0 <= j < s@.len() ==> s@[j] != '.') ==> r@ == s@,
        (exists|j: int| 0 <= j < s@.len() && s@[j] == '.') ==> exists|k: int|
            0 <= k < s@.len() && #[trigger] s@[k] == '.' && (forall|j: int|
                k < j < s@.len() ==> s@[j] != '.') && r@ == s@.skip(k + 1),
{
    let len = s.unicode_len();
    let mut e = len;
    while e > 0
        invariant_except_break
            e <= len,
            len == s@.len(),
            forall|j: int| e <= j < s@.len() ==> s@[j] != '.',
        ensures
            e <= len,
            len == s@.len(),
            forall|j: int| e <= j < s@.len() ==> s@[j] != '.',
            e > 0 ==> s@[e - 1] == '.',
        decreases e,
    {
        if s.get_char(e - 1) == '.' {
            break;
        }
        e = e - 1;
    }
    if e == 0 {
        proof {
            assert(s@.subrange(0, s@.len() as int) =~= s@);
        }
        s.substring_char(0, len)
    } else {
        let r = s.substring_char(e, len);
        proof {
            assert(r@ =~= s@.skip(e as int));
        }
        r
    }
}

} // verus!
