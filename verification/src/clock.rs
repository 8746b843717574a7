use vstd::prelude::*;

use crate::date::{spec_valid_date, Date};

verus! {

/// Relies on chrono: `Utc::now().date_naive()` is the current calendar date
/// in UTC, and `Datelike::year`, `month` and `day` return its triple — the
/// month in 1..=12 and the day a real day of that month, since a `NaiveDate`
/// always holds a valid proleptic Gregorian calendar date. `Utc::now` itself
/// aborts the process when the system clock is set before the Unix epoch.
#[verifier::external_body]
fn today_utc_raw() -> (r: (i32, u32, u32))
    ensures
        spec_valid_date(r.0 as int, r.1 as int, r.2 as int),
{
    let d = chrono::Utc::now().date_naive();
    (chrono::Datelike::year(&d), chrono::Datelike::month(&d), chrono::Datelike::day(&d))
}

/// The current calendar date in UTC, read from the system clock.
pub fn today_utc() -> (r: Date)
    ensures
        r.wf(),
{
    let (y, m, d) = today_utc_raw();
    Date { year: y, month: m, day: d }
}

} // verus!
