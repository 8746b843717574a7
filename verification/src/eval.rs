use vstd::prelude::*;

use crate::date::{spec_days_in_month, spec_valid_date, Date};
use crate::parse::{parse_date, spec_parse_date};
use crate::Error;

verus! {

/// The threshold date of a birth date: the same month and day, `threshold`
/// years later. It does not exist when the birth date is Feb 29 and the
/// threshold year is not a leap year.
pub open spec fn spec_threshold_date(dob: Date, threshold: int) -> Option<Date> {
    if spec_valid_date(dob.year + threshold, dob.month as int, dob.day as int) {
        Some(Date { year: (dob.year + threshold) as i32, month: dob.month, day: dob.day })
    } else {
        None
    }
}

/// What evaluating a birth date against a threshold yields on a given day:
/// `true` exactly when that day is on or after the threshold date, and
/// `InvalidDateCalculation` when the threshold date does not exist.
pub open spec fn spec_evaluate(dob: Date, today: Date, threshold: int) -> Result<bool, Error> {
    match spec_threshold_date(dob, threshold) {
        Some(t) => Ok(t.spec_le(today)),
        None => Err(Error::InvalidDateCalculation),
    }
}

/// Whether `today` is on or after the date `threshold` years past `dob`,
/// month and day kept fixed; `InvalidDateCalculation` when that date does
/// not exist in the calendar.
pub fn evaluate(dob: &Date, today: &Date, threshold: i32) -> (r: Result<bool, Error>)
    requires
        0 <= dob.year,
        0 <= threshold,
        dob.year + threshold <= i32::MAX,
    ensures
        r == spec_evaluate(*dob, *today, threshold as int),
{
    match dob.with_year(dob.year + threshold) {
        Some(t) => Ok(t.le(today)),
        None => Err(Error::InvalidDateCalculation),
    }
}

/// What the whole check yields on a date-of-birth string: parse failures come
/// out as `InvalidDateFormat`, and a parsed date is evaluated with a
/// threshold of 21 years.
pub open spec fn spec_is_over_21(s: Seq<char>, today: Date) -> Result<bool, Error> {
    match spec_parse_date(s) {
        Some(d) => spec_evaluate(d, today, 21),
        None => Err(Error::InvalidDateFormat),
    }
}

/// Parse a `YYYY-MM-DD` date-of-birth string and decide whether a person born
/// then is at least 21 years old on `today`.
pub fn is_over_21(dob_string: &str, today: &Date) -> (r: Result<bool, Error>)
    ensures
        r == spec_is_over_21(dob_string@, *today),
{
    let dob = match parse_date(dob_string) {
        Ok(d) => d,
        Err(e) => { return Err(e); },
    };
    evaluate(&dob, today, 21)
}

/// For every birth date whose threshold date exists, the evaluation returns
/// `Ok`, and it holds `true` exactly when the given day is on or after the
/// threshold date under calendar order; when the threshold date does not
/// exist, the evaluation fails with `InvalidDateCalculation`.
pub proof fn lemma_evaluate_iff_threshold_reached(dob: Date, today: Date, threshold: int)
    ensures
        spec_valid_date(dob.year + threshold, dob.month as int, dob.day as int) ==> spec_evaluate(
            dob,
            today,
            threshold,
        ) == Ok::<bool, Error>(
            (Date {
                year: (dob.year + threshold) as i32,
                month: dob.month,
                day: dob.day,
            }).spec_le(today),
        ),
        !spec_valid_date(dob.year + threshold, dob.month as int, dob.day as int)
            ==> spec_evaluate(dob, today, threshold) == Err::<bool, Error>(
            Error::InvalidDateCalculation,
        ),
{
}

/// The date exactly `threshold` years before `today`: the same month and
/// day in an earlier year.
pub open spec fn spec_years_before(today: Date, threshold: int) -> Date {
    Date { year: (today.year - threshold) as i32, month: today.month, day: today.day }
}

/// A person born exactly `threshold` years before `today` — same month, same
/// day — counts as having reached the threshold: turning 21 today counts.
pub proof fn lemma_birthday_today_reaches_threshold(today: Date, threshold: int)
    requires
        today.wf(),
        0 <= threshold <= today.year,
        spec_valid_date(today.year - threshold, today.month as int, today.day as int),
    ensures
        spec_evaluate(spec_years_before(today, threshold), today, threshold) == Ok::<bool, Error>(
            true,
        ),
{
}

/// The day of the Gregorian calendar that follows `d`.
pub open spec fn spec_next_day(d: Date) -> Date {
    if d.day < spec_days_in_month(d.year as int, d.month as int) {
        Date { year: d.year, month: d.month, day: (d.day + 1) as u32 }
    } else if d.month < 12 {
        Date { year: d.year, month: (d.month + 1) as u32, day: 1 }
    } else {
        Date { year: (d.year + 1) as i32, month: 1, day: 1 }
    }
}

/// A person born one day after the date exactly `threshold` years before
/// `today` has not reached the threshold on `today`: their threshold date is
/// still one day away. The one family of inputs left out is a birth date of
/// Feb 29 whose threshold year is not a leap year, where the threshold date
/// does not exist and evaluation fails instead.
pub proof fn lemma_day_after_misses_threshold(today: Date, threshold: int)
    requires
        today.wf(),
        0 <= threshold <= today.year,
        spec_valid_date(today.year - threshold, today.month as int, today.day as int),
        spec_valid_date(
            spec_next_day(spec_years_before(today, threshold)).year + threshold,
            spec_next_day(spec_years_before(today, threshold)).month as int,
            spec_next_day(spec_years_before(today, threshold)).day as int,
        ),
        today.year + 1 <= i32::MAX,
    ensures
        spec_evaluate(spec_next_day(spec_years_before(today, threshold)), today, threshold)
            == Ok::<bool, Error>(false),
{
}

} // verus!
