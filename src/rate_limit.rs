//! The upstream quota as last reported, and the check made before each call.
use vstd::prelude::*;

use crate::apod::{ApodError, FetchFailure};

verus! {

/// The quota assumed before the upstream has reported one.
pub const DEFAULT_REQUESTS_LEFT: u16 = 1000;

/// The length of the upstream's quota window, in seconds.
pub const DEFAULT_RESET_PERIOD_SECS: i64 = 3600;

/// What `str::parse::<u16>` gives for a text.
pub uninterp spec fn u16_of_text(s: Seq<char>) -> Option<u16>;

/// Relies on std's `str::parse::<u16>` to read a decimal count.
#[verifier::external_body]
fn parse_u16(s: &str) -> (r: Option<u16>)
    ensures
        r == u16_of_text(s@),
{
    s.parse::<u16>().ok()
}

/// The upstream quota: how many requests are left, when the last one was
/// made, and how long the window is (times in seconds).
#[derive(Clone, Copy, Debug, PartialEq, Eq, Structural)]
pub struct RateLimitState {
    pub requests_left: u16,
    pub last_request_at: i64,
    pub reset_period: i64,
}

/// The budget is spent: nothing is left and the window has not yet passed.
pub open spec fn budget_spent(s: RateLimitState, now: int) -> bool {
    s.requests_left == 0 && now - s.last_request_at < s.reset_period
}

/// How long to wait before the next call may go.
pub open spec fn retry_after(s: RateLimitState, now: int) -> int {
    s.reset_period - (now - s.last_request_at)
}

impl RateLimitState {
    /// The optimistic state of a process that starts at `now`.
    pub fn new(now: i64) -> (r: RateLimitState)
        ensures
            r.requests_left == DEFAULT_REQUESTS_LEFT,
            r.last_request_at == now,
            r.reset_period == DEFAULT_RESET_PERIOD_SECS,
    {
        RateLimitState {
            requests_left: DEFAULT_REQUESTS_LEFT,
            last_request_at: now,
            reset_period: DEFAULT_RESET_PERIOD_SECS,
        }
    }

    /// Whether an upstream call may be made at `now`; when the budget is
    /// spent, the error carries how long to wait.
    pub fn check_budget(&self, now: i64) -> (r: Result<(), ApodError>)
        ensures
            r.is_ok() == !budget_spent(*self, now as int),
            r.is_err() ==> r == Err::<(), ApodError>(
                ApodError::RateLimitExceeded { retry_after: retry_after(*self, now as int) as i128 },
            ),
    {
        let elapsed: i128 = now as i128 - self.last_request_at as i128;
        if self.requests_left == 0 && elapsed < self.reset_period as i128 {
            Err(ApodError::RateLimitExceeded { retry_after: self.reset_period as i128 - elapsed })
        } else {
            Ok(())
        }
    }

    /// Takes in what a response at `now` reported: the remaining quota
    /// replaces the old one when given, and the call time is always kept.
    pub fn update_from_response(&mut self, remaining: Option<u16>, now: i64)
        ensures
            final(self).last_request_at == now,
            final(self).reset_period == old(self).reset_period,
            final(self).requests_left == match remaining {
                Some(n) => n,
                None => old(self).requests_left,
            },
    {
        if let Some(n) = remaining {
            self.requests_left = n;
        }
        self.last_request_at = now;
    }
}

/// The remaining quota that a response reports in its header, if it has
/// one; a header that is no count makes the response malformed.
pub fn remaining_from_header(header: Option<&str>) -> (r: Result<Option<u16>, ApodError>)
    ensures
        header.is_none() ==> r == Ok::<Option<u16>, ApodError>(None),
        header.is_some() ==> r == match u16_of_text(header.unwrap()@) {
            Some(n) => Ok::<Option<u16>, ApodError>(Some(n)),
            None => Err(ApodError::Fetch(FetchFailure::MalformedResponse)),
        },
{
    match header {
        None => Ok(None),
        Some(text) => match parse_u16(text) {
            Some(n) => Ok(Some(n)),
            None => Err(ApodError::Fetch(FetchFailure::MalformedResponse)),
        },
    }
}

} // verus!
