use vstd::prelude::*;

verus! {

/// The day number (days since the start of the common era, the first day
/// being 1) of a canonical `YYYY-MM-DD` date string, or none when the text
/// is not such a date.
pub uninterp spec fn day_number_of(s: Seq<char>) -> Option<int>;

/// Relies on chrono's `NaiveDate::parse_from_str` with the format
/// `%Y-%m-%d` and `Datelike::num_days_from_ce`: the result depends on the
/// text alone, and is none exactly when the text does not parse.
#[verifier::external_body]
pub(crate) fn parse_day_number(s: &str) -> (r: Option<i32>)
    ensures
        match r {
            Some(d) => day_number_of(s@) == Some(d as int),
            None => day_number_of(s@) is None,
        },
{
    chrono::NaiveDate::parse_from_str(s, "%Y-%m-%d").ok().map(
        |d| chrono::Datelike::num_days_from_ce(&d),
    )
}

} // verus!
