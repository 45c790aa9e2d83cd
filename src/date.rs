//! Calendar dates as day numbers.
use chrono::Datelike;
use vstd::prelude::*;

verus! {

/// The day number that chrono gives to a `YYYY-MM-DD` text, if the text is
/// such a date (day 1 is 0001-01-01; consecutive dates differ by one).
pub uninterp spec fn day_of_text(s: Seq<char>) -> Option<i32>;

/// The `YYYY-MM-DD` text of a day number, if chrono can represent it.
pub uninterp spec fn text_of_day(day: i32) -> Option<Seq<char>>;

/// A calendar date, held as its day number counted from 0001-01-01 (day 1).
#[derive(Clone, Copy, Debug, PartialEq, Eq, Structural, Hash)]
pub struct Date {
    pub day: i32,
}

/// Relies on chrono's `NaiveDate::parse_from_str` with the format `%Y-%m-%d`,
/// and `Datelike::num_days_from_ce` to number the date it gives.
#[verifier::external_body]
fn parse_day(s: &str) -> (r: Option<i32>)
    ensures
        r == day_of_text(s@),
{
    chrono::NaiveDate::parse_from_str(s, "%Y-%m-%d").ok().map(|d| d.num_days_from_ce())
}

/// Relies on chrono's `NaiveDate::from_num_days_from_ce_opt` to find the date,
/// and its `format("%Y-%m-%d")` to write it.
#[verifier::external_body]
fn format_day(day: i32) -> (r: Option<String>)
    ensures
        r.is_some() == text_of_day(day).is_some(),
        r.is_some() ==> r.unwrap()@ == text_of_day(day).unwrap(),
{
    chrono::NaiveDate::from_num_days_from_ce_opt(day).map(|d| d.format("%Y-%m-%d").to_string())
}

impl Date {
    /// The date of a `YYYY-MM-DD` text; `None` when the text is no such date.
    pub fn parse(s: &str) -> (r: Option<Date>)
        ensures
            r.is_some() == day_of_text(s@).is_some(),
            r.is_some() ==> r.unwrap().day == day_of_text(s@).unwrap(),
    {
        match parse_day(s) {
            Some(day) => Some(Date { day }),
            None => None,
        }
    }

    /// The `YYYY-MM-DD` text of this date; `None` when it lies outside the
    /// calendar that chrono can represent.
    pub fn to_iso(&self) -> (r: Option<String>)
        ensures
            r.is_some() == text_of_day(self.day).is_some(),
            r.is_some() ==> r.unwrap()@ == text_of_day(self.day).unwrap(),
    {
        format_day(self.day)
    }
}

} // verus!
