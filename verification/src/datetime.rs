//! Parsing and valuation of `YYYY-MM-DD HH:MM:SS` timestamps.
//!
//! A target timestamp is a naive wall-clock datetime in the proleptic
//! Gregorian calendar, years 0000 through 9999. Its value is the signed
//! number of seconds since 1970-01-01 00:00:00 of the same clock. A string
//! in any other shape, or with an out-of-range field (month 13, February
//! 30th), does not parse; the scheduler then drops that record for the
//! tick.

use vstd::prelude::*;
use vstd::string::StrSliceExecFns;

verus! {

/// Days from 0000-01-01 to 1970-01-01 in the proleptic Gregorian calendar.
pub const EPOCH_DAYS: u64 = 719528;

/// The value of 0000-01-01 00:00:00, the earliest parsable datetime.
pub const MIN_DATETIME_SECS: i64 = -62167219200;

/// The value of 9999-12-31 23:59:59, the latest parsable datetime.
pub const MAX_DATETIME_SECS: i64 = 253402300799;

/// Is `c` a decimal digit?
pub open spec fn is_digit(c: char) -> bool {
    '0' <= c && c <= '9'
}

/// The numeric value of a decimal digit character.
pub open spec fn digit_val(c: char) -> int {
    c as u32 - '0' as u32
}

/// Gregorian leap year rule.
pub open spec fn is_leap_year(y: int) -> bool {
    (y % 4 == 0 && y % 100 != 0) || y % 400 == 0
}

/// How many days month `m` of year `y` has.
pub open spec fn days_in_month(y: int, m: int) -> int {
    if m == 2 {
        if is_leap_year(y) {
            29
        } else {
            28
        }
    } else if m == 4 || m == 6 || m == 9 || m == 11 {
        30
    } else {
        31
    }
}

/// Days in the months of year `y` that come before month `m`.
pub open spec fn days_before_month(y: int, m: int) -> int {
    let base: int = if m == 1 {
        0
    } else if m == 2 {
        31
    } else if m == 3 {
        59
    } else if m == 4 {
        90
    } else if m == 5 {
        120
    } else if m == 6 {
        151
    } else if m == 7 {
        181
    } else if m == 8 {
        212
    } else if m == 9 {
        243
    } else if m == 10 {
        273
    } else if m == 11 {
        304
    } else {
        334
    };
    if m >= 3 && is_leap_year(y) {
        base + 1
    } else {
        base
    }
}

/// How many leap years lie in `[0, y)`: the multiples of 4 minus the
/// multiples of 100 plus the multiples of 400 in that range.
pub open spec fn leap_years_before(y: int) -> int {
    (y + 3) / 4 - (y + 99) / 100 + (y + 399) / 400
}

/// Days from 0000-01-01 to the given calendar date.
pub open spec fn days_from_year0(y: int, m: int, d: int) -> int {
    365 * y + leap_years_before(y) + days_before_month(y, m) + (d - 1)
}

/// Seconds since 1970-01-01 00:00:00 of the given date and time of day.
pub open spec fn datetime_to_secs(y: int, m: int, d: int, h: int, mi: int, s: int) -> int {
    (days_from_year0(y, m, d) - EPOCH_DAYS) * 86400 + h * 3600 + mi * 60 + s
}

/// The year field of a well-shaped datetime string.
pub open spec fn year_of(s: Seq<char>) -> int {
    1000 * digit_val(s[0]) + 100 * digit_val(s[1]) + 10 * digit_val(s[2]) + digit_val(s[3])
}

/// The month field.
pub open spec fn month_of(s: Seq<char>) -> int {
    10 * digit_val(s[5]) + digit_val(s[6])
}

/// The day-of-month field.
pub open spec fn day_of(s: Seq<char>) -> int {
    10 * digit_val(s[8]) + digit_val(s[9])
}

/// The hour field.
pub open spec fn hour_of(s: Seq<char>) -> int {
    10 * digit_val(s[11]) + digit_val(s[12])
}

/// The minute field.
pub open spec fn minute_of(s: Seq<char>) -> int {
    10 * digit_val(s[14]) + digit_val(s[15])
}

/// The second field.
pub open spec fn second_of(s: Seq<char>) -> int {
    10 * digit_val(s[17]) + digit_val(s[18])
}

/// Does `s` spell a valid `YYYY-MM-DD HH:MM:SS` datetime: the exact shape,
/// and every field within its calendar range?
pub open spec fn valid_datetime(s: Seq<char>) -> bool {
    &&& s.len() == 19
    &&& is_digit(s[0]) && is_digit(s[1]) && is_digit(s[2]) && is_digit(s[3])
    &&& s[4] == '-'
    &&& is_digit(s[5]) && is_digit(s[6])
    &&& s[7] == '-'
    &&& is_digit(s[8]) && is_digit(s[9])
    &&& s[10] == ' '
    &&& is_digit(s[11]) && is_digit(s[12])
    &&& s[13] == ':'
    &&& is_digit(s[14]) && is_digit(s[15])
    &&& s[16] == ':'
    &&& is_digit(s[17]) && is_digit(s[18])
    &&& 1 <= month_of(s) <= 12
    &&& 1 <= day_of(s) <= days_in_month(year_of(s), month_of(s))
    &&& hour_of(s) <= 23
    &&& minute_of(s) <= 59
    &&& second_of(s) <= 59
}

/// The value of a valid datetime string, seconds since the epoch.
pub open spec fn datetime_secs(s: Seq<char>) -> int {
    datetime_to_secs(year_of(s), month_of(s), day_of(s), hour_of(s), minute_of(s), second_of(s))
}

/// Every valid datetime's value lies between the values of
/// 0000-01-01 00:00:00 and 9999-12-31 23:59:59.
pub proof fn lemma_datetime_secs_bounds(s: Seq<char>)
    requires
        valid_datetime(s),
    ensures
        MIN_DATETIME_SECS <= datetime_secs(s) <= MAX_DATETIME_SECS,
{
    let y = year_of(s);
    let m = month_of(s);
    let d = day_of(s);
    assert(0 <= digit_val(s[0]) <= 9);
    assert(0 <= digit_val(s[1]) <= 9);
    assert(0 <= digit_val(s[2]) <= 9);
    assert(0 <= digit_val(s[3]) <= 9);
    assert(0 <= y <= 9999);
    assert(0 <= (y + 3) / 4 <= 2500);
    assert(0 <= (y + 99) / 100 <= 100);
    assert(0 <= (y + 399) / 400 <= 25);
    assert(1 <= d <= days_in_month(y, m));
    assert(0 <= days_before_month(y, m) + (d - 1) <= 365);
    assert(0 <= days_from_year0(y, m, d) <= 3652424);
    assert(0 <= hour_of(s) * 3600 + minute_of(s) * 60 + second_of(s) <= 86399);
}

/// The numeric value of a digit character, or `None` for any other
/// character.
fn digit_of(c: char) -> (r: Option<u64>)
    ensures
        r is Some <==> is_digit(c),
        r is Some ==> r->0 == digit_val(c),
{
    if c >= '0' && c <= '9' {
        Some((c as u32 - '0' as u32) as u64)
    } else {
        None
    }
}

/// Executable twin of `days_in_month`.
fn days_in_month_exec(y: u64, m: u64) -> (r: u64)
    requires
        1 <= m <= 12,
    ensures
        r == days_in_month(y as int, m as int),
{
    if m == 2 {
        if (y % 4 == 0 && y % 100 != 0) || y % 400 == 0 {
            29
        } else {
            28
        }
    } else if m == 4 || m == 6 || m == 9 || m == 11 {
        30
    } else {
        31
    }
}

/// Executable twin of `days_before_month`.
fn days_before_month_exec(y: u64, m: u64) -> (r: u64)
    requires
        1 <= m <= 12,
    ensures
        r == days_before_month(y as int, m as int),
{
    let base: u64 = if m == 1 {
        0
    } else if m == 2 {
        31
    } else if m == 3 {
        59
    } else if m == 4 {
        90
    } else if m == 5 {
        120
    } else if m == 6 {
        151
    } else if m == 7 {
        181
    } else if m == 8 {
        212
    } else if m == 9 {
        243
    } else if m == 10 {
        273
    } else if m == 11 {
        304
    } else {
        334
    };
    if m >= 3 && ((y % 4 == 0 && y % 100 != 0) || y % 400 == 0) {
        base + 1
    } else {
        base
    }
}

/// Parse a `YYYY-MM-DD HH:MM:SS` string into seconds since the epoch.
/// Returns `Some` exactly on valid datetimes, and then the value is the
/// one `datetime_secs` assigns, always within the representable range.
pub fn parse_datetime(s: &str) -> (r: Option<i64>)
    ensures
        r is Some <==> valid_datetime(s@),
        r is Some ==> r->0 == datetime_secs(s@),
        r is Some ==> MIN_DATETIME_SECS <= r->0 <= MAX_DATETIME_SECS,
{
    let n = s.unicode_len();
    if n != 19 {
        return None;
    }
    let d0 = match digit_of(s.get_char(0)) {
        Some(v) => v,
        None => { return None; },
    };
    let d1 = match digit_of(s.get_char(1)) {
        Some(v) => v,
        None => { return None; },
    };
    let d2 = match digit_of(s.get_char(2)) {
        Some(v) => v,
        None => { return None; },
    };
    let d3 = match digit_of(s.get_char(3)) {
        Some(v) => v,
        None => { return None; },
    };
    if s.get_char(4) != '-' {
        return None;
    }
    let m0 = match digit_of(s.get_char(5)) {
        Some(v) => v,
        None => { return None; },
    };
    let m1 = match digit_of(s.get_char(6)) {
        Some(v) => v,
        None => { return None; },
    };
    if s.get_char(7) != '-' {
        return None;
    }
    let a0 = match digit_of(s.get_char(8)) {
        Some(v) => v,
        None => { return None; },
    };
    let a1 = match digit_of(s.get_char(9)) {
        Some(v) => v,
        None => { return None; },
    };
    if s.get_char(10) != ' ' {
        return None;
    }
    let h0 = match digit_of(s.get_char(11)) {
        Some(v) => v,
        None => { return None; },
    };
    let h1 = match digit_of(s.get_char(12)) {
        Some(v) => v,
        None => { return None; },
    };
    if s.get_char(13) != ':' {
        return None;
    }
    let i0 = match digit_of(s.get_char(14)) {
        Some(v) => v,
        None => { return None; },
    };
    let i1 = match digit_of(s.get_char(15)) {
        Some(v) => v,
        None => { return None; },
    };
    if s.get_char(16) != ':' {
        return None;
    }
    let s0 = match digit_of(s.get_char(17)) {
        Some(v) => v,
        None => { return None; },
    };
    let s1 = match digit_of(s.get_char(18)) {
        Some(v) => v,
        None => { return None; },
    };

    let year: u64 = 1000 * d0 + 100 * d1 + 10 * d2 + d3;
    let month: u64 = 10 * m0 + m1;
    let day: u64 = 10 * a0 + a1;
    let hour: u64 = 10 * h0 + h1;
    let minute: u64 = 10 * i0 + i1;
    let second: u64 = 10 * s0 + s1;

    if month < 1 || month > 12 {
        return None;
    }
    if day < 1 || day > days_in_month_exec(year, month) {
        return None;
    }
    if hour > 23 {
        return None;
    }
    if minute > 59 {
        return None;
    }
    if second > 59 {
        return None;
    }

    // 365 per year, plus one per leap year before this one; the century
    // correction is carried separately so that every intermediate value
    // stays nonnegative.
    let leaps_add: u64 = (year + 3) / 4 + (year + 399) / 400;
    let centuries: u64 = (year + 99) / 100;
    let before_month = days_before_month_exec(year, month);
    assert(leaps_add <= 3000 && centuries <= 100) by {
        assert((year + 3) / 4 <= 2500);
        assert((year + 399) / 400 <= 25);
    };
    let days_pos: u64 = 365 * year + leaps_add + before_month + (day - 1);
    let days: i64 = days_pos as i64 - centuries as i64 - EPOCH_DAYS as i64;
    let seconds_of_day: u64 = hour * 3600 + minute * 60 + second;
    let total: i64 = days * 86400 + seconds_of_day as i64;
    proof {
        assert(total == datetime_secs(s@));
        assert(MIN_DATETIME_SECS <= total <= MAX_DATETIME_SECS);
    }
    Some(total)
}

} // verus!
