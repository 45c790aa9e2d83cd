//! One resolution of a date window: the gaps to fetch, handed out no more
//! than `capacity` at a time, the outcomes taken back, and the merged result.
//! The caller performs each fetch and its write to the store; this session
//! decides what to start next and what the resolution returns.
use vstd::prelude::*;

use crate::apod::{ApodError, Url};
use crate::date::Date;
use crate::gaps::{
    all_dates_parse,
    compute_missing_ranges,
    lemma_full_cover_no_gaps,
    missing_ranges,
    range_numbers,
    record_days,
};
use crate::merge::{merge_sorted, sorted_urls};

verus! {

/// The state of one resolution.
pub struct Resolution {
    /// What the store held for the window, ascending by date.
    pub cached: Vec<Url>,
    /// The ranges that the store lacks, ascending.
    pub gaps: Vec<(Date, Date)>,
    /// How many fetches may be in flight at once.
    pub capacity: usize,
    /// How many gaps have been handed out, in order.
    pub launched: usize,
    /// How many handed-out gaps have not yet reported back.
    pub in_flight: usize,
    /// The records fetched so far.
    pub fetched: Vec<Url>,
    /// The first failure reported, if any.
    pub failure: Option<ApodError>,
}

impl Resolution {
    /// Gaps are handed out in order, and never more than `capacity` of them
    /// are in flight.
    pub open spec fn wf(&self) -> bool {
        &&& self.launched <= self.gaps@.len()
        &&& self.in_flight <= self.launched
        &&& self.in_flight <= self.capacity
    }

    /// Nothing is in flight and nothing more will be started.
    pub open spec fn is_finished(&self) -> bool {
        self.in_flight == 0 && (self.launched == self.gaps@.len() || self.failure.is_some())
    }

    /// Whether another gap may be handed out now.
    pub open spec fn can_launch(&self) -> bool {
        self.failure.is_none() && self.launched < self.gaps@.len() && self.in_flight < self.capacity
    }

    /// A resolution of `[start_date, end_date]` over the records that the
    /// store holds for it, ascending by date; `ApodError::Parse` when a
    /// record's date is no calendar date.
    pub fn new(cached: Vec<Url>, start_date: Date, end_date: Date, capacity: usize) -> (r: Result<
        Resolution,
        ApodError,
    >)
        ensures
            r.is_ok() == all_dates_parse(cached@),
            r.is_err() ==> r == Err::<Resolution, ApodError>(ApodError::Parse),
            r.is_ok() ==> {
                let s = r.unwrap();
                &&& s.wf()
                &&& s.cached@ == cached@
                &&& range_numbers(s.gaps@) == missing_ranges(
                    record_days(cached@),
                    start_date.day as int,
                    end_date.day as int,
                )
                &&& s.capacity == capacity
                &&& s.launched == 0
                &&& s.in_flight == 0
                &&& s.fetched@.len() == 0
                &&& s.failure.is_none()
            },
    {
        let gaps = match compute_missing_ranges(cached.as_slice(), start_date, end_date) {
            Ok(g) => g,
            Err(e) => return Err(e),
        };
        Ok(
            Resolution {
                cached,
                gaps,
                capacity,
                launched: 0,
                in_flight: 0,
                fetched: Vec::new(),
                failure: None,
            },
        )
    }

    /// Hands out the next gap when one is left, no failure has been
    /// reported and a slot is free; otherwise changes nothing.
    pub fn next_gap(&mut self) -> (r: Option<(Date, Date)>)
        requires
            old(self).wf(),
        ensures
            final(self).wf(),
            r.is_some() == old(self).can_launch(),
            r.is_some() ==> {
                &&& r.unwrap() == old(self).gaps@[old(self).launched as int]
                &&& final(self).launched == old(self).launched + 1
                &&& final(self).in_flight == old(self).in_flight + 1
            },
            r.is_none() ==> *final(self) == *old(self),
            final(self).cached == old(self).cached,
            final(self).gaps == old(self).gaps,
            final(self).capacity == old(self).capacity,
            final(self).fetched == old(self).fetched,
            final(self).failure == old(self).failure,
    {
        if self.failure.is_none() && self.launched < self.gaps.len() && self.in_flight
            < self.capacity {
            let g = self.gaps[self.launched];
            self.launched = self.launched + 1;
            self.in_flight = self.in_flight + 1;
            Some(g)
        } else {
            None
        }
    }

    /// Takes back the outcome of one fetch in flight: its records join the
    /// fetched ones, or its error is kept if it is the first.
    pub fn complete(&mut self, outcome: Result<Vec<Url>, ApodError>)
        requires
            old(self).wf(),
            old(self).in_flight > 0,
        ensures
            final(self).wf(),
            final(self).in_flight == old(self).in_flight - 1,
            final(self).launched == old(self).launched,
            final(self).cached == old(self).cached,
            final(self).gaps == old(self).gaps,
            final(self).capacity == old(self).capacity,
            final(self).fetched@ == match outcome {
                Ok(v) => old(self).fetched@ + v@,
                Err(_) => old(self).fetched@,
            },
            final(self).failure == match outcome {
                Ok(_) => old(self).failure,
                Err(e) => if old(self).failure.is_some() {
                    old(self).failure
                } else {
                    Some(e)
                },
            },
    {
        self.in_flight = self.in_flight - 1;
        match outcome {
            Ok(mut v) => {
                self.fetched.append(&mut v);
            },
            Err(e) => {
                if self.failure.is_none() {
                    self.failure = Some(e);
                }
            },
        }
    }

    /// Whether the resolution has nothing in flight and nothing to start.
    pub fn finished(&self) -> (r: bool)
        ensures
            r == self.is_finished(),
    {
        self.in_flight == 0 && (self.launched == self.gaps.len() || self.failure.is_some())
    }

    /// The outcome: the first failure, or every cached and fetched record,
    /// ascending by date and then by locator.
    pub fn finish(self) -> (r: Result<Vec<Url>, ApodError>)
        requires
            self.wf(),
            self.is_finished(),
        ensures
            self.failure.is_some() ==> r == Err::<Vec<Url>, ApodError>(self.failure.unwrap()),
            self.failure.is_none() ==> r.is_ok() && r.unwrap()@.to_multiset() == (self.cached@
                + self.fetched@).to_multiset() && sorted_urls(r.unwrap()@),
    {
        match self.failure {
            Some(e) => Err(e),
            None => Ok(merge_sorted(self.cached, self.fetched)),
        }
    }
}

/// A window that the cache already covers, every date once and in order,
/// starts a resolution with no gap: it is finished before any fetch, and its
/// result is the cached records alone, so a second resolution of a window
/// that the first one filled asks the upstream for nothing.
pub proof fn lemma_covered_window_fetches_nothing(r: Resolution, start: int, end: int)
    requires
        r.wf(),
        r.launched == 0,
        r.fetched@.len() == 0,
        range_numbers(r.gaps@) == missing_ranges(record_days(r.cached@), start, end),
        start <= end,
        record_days(r.cached@).len() == end - start + 1,
        forall|i: int|
            0 <= i < record_days(r.cached@).len() ==> #[trigger] record_days(r.cached@)[i] == start
                + i,
    ensures
        r.gaps@.len() == 0,
        r.is_finished(),
        !r.can_launch(),
        r.cached@ + r.fetched@ == r.cached@,
{
    lemma_full_cover_no_gaps(record_days(r.cached@), start, end);
    assert(range_numbers(r.gaps@).len() == r.gaps@.len());
    assert(r.cached@ + r.fetched@ =~= r.cached@);
}

} // verus!
