//! Decides from a `YYYY-MM-DD` date-of-birth string whether a person has
//! reached an age threshold of 21 years on a given day, and embeds the
//! boolean answer as `user.is_over_21` in a small JSON document.
//!
//! The calendar arithmetic, the date-string grammar, the document edits and
//! the pretty-printed output are all specified and verified; only the read
//! of the system clock is taken on trust.

use vstd::prelude::*;

pub mod clock;
pub mod date;
pub mod doc;
pub mod json;
pub mod eval;
pub mod parse;

verus! {

/// The ways this library can fail: a date string that is not a valid
/// `YYYY-MM-DD` calendar date, a threshold date that does not exist in the
/// calendar (a Feb 29 birth date whose threshold year is not a leap year),
/// or a document that lacks the expected `user`/`dob` structure.
#[derive(Clone, Copy, Debug, PartialEq, Eq, Structural)]
pub enum Error {
    InvalidDateFormat,
    InvalidDateCalculation,
    MissingField,
}

} // verus!
