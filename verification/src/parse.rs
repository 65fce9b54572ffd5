//! Parser for the embedded capture-time tag value, a local date-time written
//! as `YYYY:MM:DD HH:MM:SS` with no time zone, interpreted as UTC.
use crate::calendar::{month_days, Date, Timestamp};
use vstd::prelude::*;

verus! {

/// Whether `c` is a decimal digit character.
pub open spec fn is_digit(c: char) -> bool {
    c == '0' || c == '1' || c == '2' || c == '3' || c == '4' || c == '5' || c == '6' || c == '7'
        || c == '8' || c == '9'
}

/// The value of a decimal digit character (meaningful when `is_digit(c)`).
pub open spec fn digit_val(c: char) -> int {
    if c == '1' {
        1
    } else if c == '2' {
        2
    } else if c == '3' {
        3
    } else if c == '4' {
        4
    } else if c == '5' {
        5
    } else if c == '6' {
        6
    } else if c == '7' {
        7
    } else if c == '8' {
        8
    } else if c == '9' {
        9
    } else {
        0
    }
}

/// The value of the two decimal digits of `s` starting at `i`.
pub open spec fn two_digit_val(s: Seq<char>, i: int) -> int {
    digit_val(s[i]) * 10 + digit_val(s[i + 1])
}

/// Whether `s` has the shape `YYYY:MM:DD HH:MM:SS`: exactly nineteen
/// characters, digits in the numeric positions, and the fixed separators.
pub open spec fn datetime_wellformed(s: Seq<char>) -> bool {
    &&& s.len() == 19
    &&& is_digit(s[0]) && is_digit(s[1]) && is_digit(s[2]) && is_digit(s[3])
    &&& s[4] == ':'
    &&& is_digit(s[5]) && is_digit(s[6])
    &&& s[7] == ':'
    &&& is_digit(s[8]) && is_digit(s[9])
    &&& s[10] == ' '
    &&& is_digit(s[11]) && is_digit(s[12])
    &&& s[13] == ':'
    &&& is_digit(s[14]) && is_digit(s[15])
    &&& s[16] == ':'
    &&& is_digit(s[17]) && is_digit(s[18])
}

/// The timestamp spelled by a well-formed `YYYY:MM:DD HH:MM:SS` string.
pub open spec fn datetime_value(s: Seq<char>) -> Timestamp {
    Timestamp {
        date: Date {
            year: (digit_val(s[0]) * 1000 + digit_val(s[1]) * 100 + digit_val(s[2]) * 10
                + digit_val(s[3])) as u32,
            month: two_digit_val(s, 5) as u32,
            day: two_digit_val(s, 8) as u32,
        },
        hour: two_digit_val(s, 11) as u32,
        minute: two_digit_val(s, 14) as u32,
        second: two_digit_val(s, 17) as u32,
    }
}

/// Whether `s` spells a valid capture timestamp: well-formed and naming a
/// real calendar date and time of day.
pub open spec fn datetime_parses(s: Seq<char>) -> bool {
    datetime_wellformed(s) && datetime_value(s).valid()
}

/// The value of a decimal digit character, executably.
fn char_digit(c: char) -> (r: Option<u32>)
    ensures
        r is Some <==> is_digit(c),
        r is Some ==> r->0 == digit_val(c),
{
    match c {
        '0' => Some(0),
        '1' => Some(1),
        '2' => Some(2),
        '3' => Some(3),
        '4' => Some(4),
        '5' => Some(5),
        '6' => Some(6),
        '7' => Some(7),
        '8' => Some(8),
        '9' => Some(9),
        _ => None,
    }
}

/// The value of the two digit characters of `s` at `i` and `i + 1`.
fn two_digits_at(s: &str, i: usize) -> (r: Option<u32>)
    requires
        i <= 17,
        i + 1 < s@.len(),
    ensures
        r is Some <==> is_digit(s@[i as int]) && is_digit(s@[i + 1]),
        r is Some ==> r->0 == two_digit_val(s@, i as int),
{
    let hi = char_digit(s.get_char(i))?;
    let lo = char_digit(s.get_char(i + 1))?;
    Some(hi * 10 + lo)
}

/// Parses an embedded capture-time tag value of the shape
/// `YYYY:MM:DD HH:MM:SS`. Returns the spelled timestamp exactly when the
/// string is well-formed and names a real calendar date and time.
pub fn parse_datetime(s: &str) -> (r: Option<Timestamp>)
    ensures
        r is Some <==> datetime_parses(s@),
        r is Some ==> r->0 == datetime_value(s@) && r->0.valid(),
{
    if s.unicode_len() != 19 {
        return None;
    }
    if s.get_char(4) != ':' || s.get_char(7) != ':' || s.get_char(10) != ' ' || s.get_char(13)
        != ':' || s.get_char(16) != ':' {
        return None;
    }
    let y3 = char_digit(s.get_char(0))?;
    let y2 = char_digit(s.get_char(1))?;
    let y1 = char_digit(s.get_char(2))?;
    let y0 = char_digit(s.get_char(3))?;
    let year: u32 = y3 * 1000 + y2 * 100 + y1 * 10 + y0;
    let month = two_digits_at(s, 5)?;
    let day = two_digits_at(s, 8)?;
    let hour = two_digits_at(s, 11)?;
    let minute = two_digits_at(s, 14)?;
    let second = two_digits_at(s, 17)?;
    let ts = Timestamp { date: Date { year, month, day }, hour, minute, second };
    assert(datetime_wellformed(s@) && ts == datetime_value(s@));
    if month < 1 || month > 12 {
        return None;
    }
    if day < 1 || day > month_days(year, month) {
        return None;
    }
    if hour > 23 || minute > 59 || second > 59 {
        return None;
    }
    Some(ts)
}

} // verus!
