use over21::date::Date;
use over21::eval::{evaluate, is_over_21};
use over21::parse::parse_date;
use over21::Error;

#[test]
fn parses_a_valid_date() {
    let d = parse_date("2000-04-30").unwrap();
    assert_eq!(d, Date { year: 2000, month: 4, day: 30 });
}

#[test]
fn parses_a_leap_day_in_a_leap_year() {
    let d = parse_date("2024-02-29").unwrap();
    assert_eq!(d, Date { year: 2024, month: 2, day: 29 });
}

#[test]
fn rejects_a_leap_day_in_a_common_year() {
    assert_eq!(parse_date("2023-02-29"), Err(Error::InvalidDateFormat));
}

#[test]
fn rejects_out_of_range_month_and_day() {
    assert_eq!(parse_date("2000-13-40"), Err(Error::InvalidDateFormat));
    assert_eq!(parse_date("2000-00-10"), Err(Error::InvalidDateFormat));
    assert_eq!(parse_date("2000-04-31"), Err(Error::InvalidDateFormat));
    assert_eq!(parse_date("2000-04-00"), Err(Error::InvalidDateFormat));
}

#[test]
fn rejects_wrong_shapes() {
    assert_eq!(parse_date(""), Err(Error::InvalidDateFormat));
    assert_eq!(parse_date("2000-4-30"), Err(Error::InvalidDateFormat));
    assert_eq!(parse_date("20000430"), Err(Error::InvalidDateFormat));
    assert_eq!(parse_date("2000/04/30"), Err(Error::InvalidDateFormat));
    assert_eq!(parse_date("abcd-ef-gh"), Err(Error::InvalidDateFormat));
    assert_eq!(parse_date("2000-04-30 "), Err(Error::InvalidDateFormat));
}

#[test]
fn over_21_when_threshold_date_has_passed() {
    let today = Date { year: 2024, month: 5, day: 1 };
    assert_eq!(is_over_21("2000-04-30", &today), Ok(true));
}

#[test]
fn not_over_21_when_threshold_date_is_ahead() {
    let today = Date { year: 2024, month: 5, day: 1 };
    assert_eq!(is_over_21("2010-01-01", &today), Ok(false));
}

#[test]
fn turning_21_today_counts() {
    let today = Date { year: 2024, month: 5, day: 1 };
    assert_eq!(is_over_21("2003-05-01", &today), Ok(true));
}

#[test]
fn one_day_short_does_not_count() {
    let today = Date { year: 2024, month: 5, day: 1 };
    assert_eq!(is_over_21("2003-05-02", &today), Ok(false));
}

#[test]
fn invalid_dob_fails_with_invalid_date_format() {
    let today = Date { year: 2024, month: 5, day: 1 };
    assert_eq!(is_over_21("2000-13-40", &today), Err(Error::InvalidDateFormat));
}

#[test]
fn leap_day_dob_without_leap_threshold_year_fails() {
    let today = Date { year: 2025, month: 3, day: 1 };
    assert_eq!(is_over_21("2004-02-29", &today), Err(Error::InvalidDateCalculation));
}

#[test]
fn leap_day_dob_with_leap_threshold_year_works() {
    let today = Date { year: 2024, month: 3, day: 1 };
    assert_eq!(is_over_21("2003-03-01", &today), Ok(true));
}

#[test]
fn evaluate_uses_the_given_threshold() {
    let dob = Date { year: 2000, month: 4, day: 30 };
    let today = Date { year: 2024, month: 5, day: 1 };
    assert_eq!(evaluate(&dob, &today, 18), Ok(true));
    assert_eq!(evaluate(&dob, &today, 25), Ok(false));
    assert_eq!(evaluate(&dob, &today, 24), Ok(true));
}

#[test]
fn today_utc_is_a_calendar_date() {
    let t = over21::clock::today_utc();
    assert!(1 <= t.month && t.month <= 12);
    assert!(1 <= t.day && t.day <= 31);
    assert!(t.year >= 2024);
}
