//! The records of the catalog, the upstream query, and the errors of a
//! resolution.
use vstd::prelude::*;

use crate::date::{text_of_day, Date};

verus! {

/// One picture of the catalog: its `YYYY-MM-DD` date and where it is found.
#[derive(Clone, Debug, PartialEq, Eq, PartialOrd, Ord)]
pub struct Url {
    pub date: String,
    pub url: String,
}

/// The query parameters of one upstream request for a range of dates.
#[derive(Clone, Debug, PartialEq, Eq)]
pub struct ApodQuery {
    pub api_key: String,
    pub start_date: String,
    pub end_date: String,
}

/// Why an upstream call failed.
#[derive(Clone, Copy, Debug, PartialEq, Eq, Structural)]
pub enum FetchFailure {
    Timeout,
    Transport,
    MalformedResponse,
}

/// Why a resolution failed.
#[derive(Clone, Debug, PartialEq, Eq)]
pub enum ApodError {
    /// A date text, in the store or in a request, is no calendar date.
    Parse,
    /// A date lies outside the calendar that can be written out.
    DateOutOfRange,
    /// The local budget is spent; the next call may go in `retry_after` seconds.
    RateLimitExceeded { retry_after: i128 },
    /// The upstream call failed.
    Fetch(FetchFailure),
    /// The store refused a write, with its message.
    Store(String),
}

} // verus!

verus! {

impl ApodQuery {
    /// The query for the dates `[start, end]` under `api_key`;
    /// `ApodError::DateOutOfRange` when a date cannot be written out.
    pub fn for_range(api_key: &String, start: Date, end: Date) -> (r: Result<ApodQuery, ApodError>)
        ensures
            r.is_ok() == (text_of_day(start.day).is_some() && text_of_day(end.day).is_some()),
            r.is_ok() ==> r.unwrap().api_key@ == api_key@ && r.unwrap().start_date@ == text_of_day(
                start.day,
            ).unwrap() && r.unwrap().end_date@ == text_of_day(end.day).unwrap(),
            r.is_err() ==> r == Err::<ApodQuery, ApodError>(ApodError::DateOutOfRange),
    {
        let start_date = match start.to_iso() {
            Some(s) => s,
            None => return Err(ApodError::DateOutOfRange),
        };
        let end_date = match end.to_iso() {
            Some(s) => s,
            None => return Err(ApodError::DateOutOfRange),
        };
        Ok(ApodQuery { api_key: api_key.clone(), start_date, end_date })
    }
}

/// The locators of `records`, in their order.
pub fn urls_of(records: Vec<Url>) -> (r: Vec<String>)
    ensures
        r@.len() == records@.len(),
        forall|i: int| 0 <= i < r@.len() ==> #[trigger] r@[i]@ == records@[i].url@,
{
    let mut out: Vec<String> = Vec::new();
    let mut i: usize = 0;
    while i < records.len()
        invariant
            0 <= i <= records@.len(),
            out@.len() == i,
            forall|k: int| 0 <= k < i ==> #[trigger] out@[k]@ == records@[k].url@,
        decreases records.len() - i,
    {
        out.push(records[i].url.clone());
        i = i + 1;
    }
    out
}

} // verus!
