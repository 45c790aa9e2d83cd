//! The parameters of a request for a window of pictures.
use vstd::prelude::*;

use crate::date::{day_of_text, Date};

verus! {

/// The query parameters of a request for pictures: two `YYYY-MM-DD` texts.
#[derive(Clone, Debug, PartialEq, Eq)]
pub struct PicturesParams {
    pub start_date: String,
    pub end_date: String,
}

/// Why request parameters were rejected.
#[derive(Clone, Copy, Debug, PartialEq, Eq, Structural)]
pub enum ParamsError {
    /// The start is no calendar date.
    BadStart,
    /// The end is no calendar date.
    BadEnd,
    /// The start comes after the end.
    StartAfterEnd,
}

impl PicturesParams {
    /// Parameters holding the two texts.
    pub fn new(s: &str, e: &str) -> (r: PicturesParams)
        ensures
            r.start_date@ == s@,
            r.end_date@ == e@,
    {
        PicturesParams { start_date: s.to_owned(), end_date: e.to_owned() }
    }

    /// The window `[start, end]` that the parameters name: the start is read
    /// first, then the end, and the start may not come after the end.
    pub fn parse_and_validate(&self) -> (r: Result<(Date, Date), ParamsError>)
        ensures
            ({
                let s = day_of_text(self.start_date@);
                let e = day_of_text(self.end_date@);
                r == if s.is_none() {
                    Err::<(Date, Date), ParamsError>(ParamsError::BadStart)
                } else if e.is_none() {
                    Err(ParamsError::BadEnd)
                } else if s.unwrap() > e.unwrap() {
                    Err(ParamsError::StartAfterEnd)
                } else {
                    Ok((Date { day: s.unwrap() }, Date { day: e.unwrap() }))
                }
            }),
    {
        let start = match Date::parse(self.start_date.as_str()) {
            Some(d) => d,
            None => return Err(ParamsError::BadStart),
        };
        let end = match Date::parse(self.end_date.as_str()) {
            Some(d) => d,
            None => return Err(ParamsError::BadEnd),
        };
        if start.day > end.day {
            return Err(ParamsError::StartAfterEnd);
        }
        Ok((start, end))
    }
}

} // verus!
