use chrono::Datelike;
use vstd::prelude::*;

verus! {

/// Relies on chrono's `Local::now` and `Datelike::year`: the calendar year
/// of the current local time. It depends on the clock, so nothing is stated
/// of which year comes back.
#[verifier::external_body]
fn local_year() -> (r: i32) {
    chrono::Local::now().year()
}

/// The age of someone born in `birth_year`, as of `current_year`.
/// No plausibility check: a birth year after the current one gives a
/// negative age, the same one gives zero.
pub fn age_between(current_year: i32, birth_year: i32) -> (r: i64)
    ensures
        r == current_year - birth_year,
{
    current_year as i64 - birth_year as i64
}

/// Reads the current local year from the clock and returns it with the age
/// of someone born in `birth_year`.
pub fn age_now(birth_year: i32) -> (r: (i32, i64))
    ensures
        r.1 == r.0 - birth_year,
{
    let current_year = local_year();
    (current_year, age_between(current_year, birth_year))
}

} // verus!
