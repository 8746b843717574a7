use vstd::prelude::*;

use crate::date::{spec_valid_date, Date};
use crate::Error;

verus! {

pub open spec fn spec_is_digit(c: char) -> bool {
    '0' <= c && c <= '9'
}

/// Numeric value of a decimal digit character.
pub open spec fn spec_digit(c: char) -> int {
    c as int - '0' as int
}

/// The string has the exact shape `YYYY-MM-DD`: four digits, a dash,
/// two digits, a dash, two digits, and nothing else.
pub open spec fn date_shape(s: Seq<char>) -> bool {
    &&& s.len() == 10
    &&& spec_is_digit(s[0])
    &&& spec_is_digit(s[1])
    &&& spec_is_digit(s[2])
    &&& spec_is_digit(s[3])
    &&& s[4] == '-'
    &&& spec_is_digit(s[5])
    &&& spec_is_digit(s[6])
    &&& s[7] == '-'
    &&& spec_is_digit(s[8])
    &&& spec_is_digit(s[9])
}

pub open spec fn spec_year_of(s: Seq<char>) -> int {
    1000 * spec_digit(s[0]) + 100 * spec_digit(s[1]) + 10 * spec_digit(s[2]) + spec_digit(s[3])
}

pub open spec fn spec_month_of(s: Seq<char>) -> int {
    10 * spec_digit(s[5]) + spec_digit(s[6])
}

pub open spec fn spec_day_of(s: Seq<char>) -> int {
    10 * spec_digit(s[8]) + spec_digit(s[9])
}

/// What parsing a date string yields: the calendar day it spells, or nothing
/// when the shape is wrong or the triple is not a real calendar day.
pub open spec fn spec_parse_date(s: Seq<char>) -> Option<Date> {
    if date_shape(s) && spec_valid_date(spec_year_of(s), spec_month_of(s), spec_day_of(s)) {
        Some(
            Date {
                year: spec_year_of(s) as i32,
                month: spec_month_of(s) as u32,
                day: spec_day_of(s) as u32,
            },
        )
    } else {
        None
    }
}

fn is_digit(c: char) -> (r: bool)
    ensures
        r == spec_is_digit(c),
{
    '0' <= c && c <= '9'
}

fn digit(c: char) -> (r: u32)
    requires
        spec_is_digit(c),
    ensures
        r == spec_digit(c),
        r <= 9,
{
    c as u32 - '0' as u32
}

/// Parse a `YYYY-MM-DD` string into a calendar date; any string that is not
/// exactly a valid date in that shape is rejected with `InvalidDateFormat`.
pub fn parse_date(s: &str) -> (r: Result<Date, Error>)
    ensures
        r == match spec_parse_date(s@) {
            Some(d) => Ok::<Date, Error>(d),
            None => Err::<Date, Error>(Error::InvalidDateFormat),
        },
        r matches Ok(d) ==> d.wf() && 0 <= d.year <= 9999,
{
    let n = s.unicode_len();
    if n != 10 {
        return Err(Error::InvalidDateFormat);
    }
    let c0 = s.get_char(0);
    let c1 = s.get_char(1);
    let c2 = s.get_char(2);
    let c3 = s.get_char(3);
    let c4 = s.get_char(4);
    let c5 = s.get_char(5);
    let c6 = s.get_char(6);
    let c7 = s.get_char(7);
    let c8 = s.get_char(8);
    let c9 = s.get_char(9);
    if !(is_digit(c0) && is_digit(c1) && is_digit(c2) && is_digit(c3) && c4 == '-' && is_digit(c5)
        && is_digit(c6) && c7 == '-' && is_digit(c8) && is_digit(c9)) {
        return Err(Error::InvalidDateFormat);
    }
    let year: u32 = 1000 * digit(c0) + 100 * digit(c1) + 10 * digit(c2) + digit(c3);
    let month: u32 = 10 * digit(c5) + digit(c6);
    let day: u32 = 10 * digit(c8) + digit(c9);
    match Date::new(year as i32, month, day) {
        Some(d) => Ok(d),
        None => Err(Error::InvalidDateFormat),
    }
}

} // verus!
