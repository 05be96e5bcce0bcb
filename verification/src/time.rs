//! The local civil timeline.
//!
//! An instant is a count of seconds from 1970-01-01T00:00:00 on the local
//! civil clock.  The model covers the ISO-8601 four-digit-year range that the
//! service's timestamps use, so every instant is non-negative.  Days are
//! counted the same way, and a weekday is an index with Monday = 0 through
//! Sunday = 6 (1970-01-01 was a Thursday, index 3).

use vstd::prelude::*;

verus! {

/// Seconds in one civil day.
pub const SECONDS_PER_DAY: i64 = 86400;

/// Last covered instant: 9999-12-31T23:59:59 local.
pub const MAX_INSTANT: i64 = 253402300799;

/// An instant the model covers.
pub open spec fn valid_instant(t: int) -> bool {
    0 <= t <= MAX_INSTANT
}

/// Weekday index of a civil day number: 0 = Monday .. 6 = Sunday.
pub open spec fn weekday_index_of_day(day: int) -> int {
    (day + 3) % 7
}

/// The civil day an instant falls on.
pub open spec fn day_of(t: int) -> int {
    t / (SECONDS_PER_DAY as int)
}

/// The second within its civil day at which an instant lies.
pub open spec fn second_of_day(t: int) -> int {
    t % (SECONDS_PER_DAY as int)
}

/// Computes the civil day of an instant.
pub fn day_of_instant(t: i64) -> (day: i64)
    requires
        0 <= t,
    ensures
        day == day_of(t as int),
        0 <= day,
        day * SECONDS_PER_DAY <= t < (day + 1) * SECONDS_PER_DAY,
{
    let day = t / SECONDS_PER_DAY;
    assert(day == t as int / (SECONDS_PER_DAY as int));
    assert(day * SECONDS_PER_DAY <= t < (day + 1) * SECONDS_PER_DAY) by {
        vstd::arithmetic::div_mod::lemma_fundamental_div_mod(t as int, SECONDS_PER_DAY as int);
        vstd::arithmetic::div_mod::lemma_mod_bound(t as int, SECONDS_PER_DAY as int);
    };
    day
}

/// Computes the weekday index of a civil day.
pub fn weekday_of_day(day: i64) -> (w: u8)
    requires
        0 <= day,
        day + 3 <= i64::MAX,
    ensures
        w == weekday_index_of_day(day as int),
        w < 7,
{
    let w = (day + 3) % 7;
    assert(0 <= w < 7) by {
        vstd::arithmetic::div_mod::lemma_mod_bound(day as int + 3, 7);
    };
    w as u8
}

/// True for the ten digit characters.
pub open spec fn is_digit_char(c: char) -> bool {
    '0' <= c && c <= '9'
}

/// Numeric value of a digit character.
pub open spec fn digit_val(c: char) -> int {
    c as int - '0' as int
}

/// What a well-formed `HH:MM` clock-time string denotes: the hour and minute,
/// or nothing when the string is not exactly two digits, a colon and two
/// digits within the 24-hour clock's range.
pub open spec fn parse_time_spec(s: Seq<char>) -> Option<(int, int)> {
    if s.len() == 5 && is_digit_char(s[0]) && is_digit_char(s[1]) && s[2] == ':'
        && is_digit_char(s[3]) && is_digit_char(s[4]) {
        let h = digit_val(s[0]) * 10 + digit_val(s[1]);
        let m = digit_val(s[3]) * 10 + digit_val(s[4]);
        if h <= 23 && m <= 59 {
            Some((h, m))
        } else {
            None
        }
    } else {
        None
    }
}

/// Parses a 24-hour `HH:MM` clock time.
pub fn parse_time(s: &str) -> (r: Option<(u8, u8)>)
    ensures
        match r {
            Some(hm) => {
                &&& parse_time_spec(s@) == Some((hm.0 as int, hm.1 as int))
                &&& hm.0 <= 23
                &&& hm.1 <= 59
            },
            None => parse_time_spec(s@) is None,
        },
{
    let n = s.unicode_len();
    if n != 5 {
        return None;
    }
    if !s.is_ascii() {
        proof {
            // A non-ASCII character cannot be a digit or a colon, so the
            // pattern fails at its position.
            let i = choose|i: int| 0 <= i < s@.len() && !('\0' <= #[trigger] s@[i] <= '\u{7f}');
            assert(!is_digit_char(s@[i]) && s@[i] != ':');
        }
        return None;
    }
    let b0 = s.get_ascii(0);
    let b1 = s.get_ascii(1);
    let b2 = s.get_ascii(2);
    let b3 = s.get_ascii(3);
    let b4 = s.get_ascii(4);
    if b0 < 48 || b0 > 57 || b1 < 48 || b1 > 57 || b2 != 58
        || b3 < 48 || b3 > 57 || b4 < 48 || b4 > 57 {
        return None;
    }
    let h = (b0 - 48) * 10 + (b1 - 48);
    let m = (b3 - 48) * 10 + (b4 - 48);
    if h > 23 || m > 59 {
        return None;
    }
    Some((h, m))
}

/// Seconds past midnight of a parsed clock time.
pub fn clock_seconds(hour: u8, minute: u8) -> (s: i64)
    requires
        hour <= 23,
        minute <= 59,
    ensures
        s == hour * 3600 + minute * 60,
        0 <= s < SECONDS_PER_DAY,
{
    (hour as i64) * 3600 + (minute as i64) * 60
}

} // verus!
