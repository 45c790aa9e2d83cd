use apod_cache::apod::{urls_of, ApodError, ApodQuery, FetchFailure, Url};
use apod_cache::date::Date;
use apod_cache::merge::{compare_text, merge_sorted};
use apod_cache::rate_limit::{remaining_from_header, RateLimitState};
use apod_cache::resolve::Resolution;

fn d(s: &str) -> Date {
    Date::parse(s).unwrap()
}

fn rec(date: &str, url: &str) -> Url {
    Url { date: date.to_owned(), url: url.to_owned() }
}

#[test]
fn gate_never_exceeds_capacity() {
    // Four one-day gaps, at most two in flight.
    let cached = vec![rec("2020-01-02", "b"), rec("2020-01-04", "d"), rec("2020-01-06", "f")];
    let mut r = Resolution::new(cached, d("2020-01-01"), d("2020-01-07"), 2).unwrap();
    assert_eq!(r.gaps.len(), 4);
    let first = r.next_gap().unwrap();
    let second = r.next_gap().unwrap();
    assert_eq!(first, (d("2020-01-01"), d("2020-01-01")));
    assert_eq!(second, (d("2020-01-03"), d("2020-01-03")));
    assert!(r.next_gap().is_none());
    assert_eq!(r.in_flight, 2);
    r.complete(Ok(vec![rec("2020-01-01", "a")]));
    let third = r.next_gap().unwrap();
    assert_eq!(third, (d("2020-01-05"), d("2020-01-05")));
    assert!(r.next_gap().is_none());
    r.complete(Ok(vec![rec("2020-01-03", "c")]));
    r.complete(Ok(vec![rec("2020-01-05", "e")]));
    let fourth = r.next_gap().unwrap();
    assert_eq!(fourth, (d("2020-01-07"), d("2020-01-07")));
    assert!(!r.finished());
    r.complete(Ok(vec![rec("2020-01-07", "g")]));
    assert!(r.finished());
    let out = r.finish().unwrap();
    let urls = urls_of(out);
    assert_eq!(urls, vec!["a", "b", "c", "d", "e", "f", "g"]);
}

#[test]
fn second_resolution_of_filled_window_fetches_nothing() {
    let cached = vec![rec("2020-01-01", "a"), rec("2020-01-02", "b"), rec("2020-01-03", "c")];
    let mut r = Resolution::new(cached.clone(), d("2020-01-01"), d("2020-01-03"), 3).unwrap();
    assert!(r.gaps.is_empty());
    assert!(r.next_gap().is_none());
    assert!(r.finished());
    assert_eq!(r.finish().unwrap(), cached);
}

#[test]
fn failed_gap_is_the_only_one_left_on_retry() {
    let start = d("2020-01-01");
    let end = d("2020-01-05");
    let mut r = Resolution::new(vec![rec("2020-01-02", "b"), rec("2020-01-04", "d")], start, end, 3).unwrap();
    assert_eq!(r.gaps.len(), 3);
    r.next_gap().unwrap();
    r.next_gap().unwrap();
    r.next_gap().unwrap();
    r.complete(Ok(vec![rec("2020-01-01", "a")]));
    r.complete(Ok(vec![rec("2020-01-05", "e")]));
    r.complete(Err(ApodError::Fetch(FetchFailure::Timeout)));
    assert!(r.finished());
    assert_eq!(r.finish(), Err(ApodError::Fetch(FetchFailure::Timeout)));
    // The two successful gaps were stored; the retry asks for the failed one alone.
    let stored = vec![rec("2020-01-01", "a"), rec("2020-01-02", "b"), rec("2020-01-04", "d"), rec("2020-01-05", "e")];
    let retry = Resolution::new(stored, start, end, 3).unwrap();
    assert_eq!(retry.gaps, vec![(d("2020-01-03"), d("2020-01-03"))]);
}

#[test]
fn first_failure_is_kept_and_nothing_new_starts() {
    let mut r = Resolution::new(vec![rec("2020-01-02", "b"), rec("2020-01-04", "d")], d("2020-01-01"), d("2020-01-05"), 1).unwrap();
    r.next_gap().unwrap();
    r.complete(Err(ApodError::RateLimitExceeded { retry_after: 5 }));
    assert!(r.next_gap().is_none());
    assert!(r.finished());
    assert_eq!(r.finish(), Err(ApodError::RateLimitExceeded { retry_after: 5 }));
}

#[test]
fn corrupt_store_fails_the_resolution() {
    let r = Resolution::new(vec![rec("not a date", "x")], d("2020-01-01"), d("2020-01-02"), 1);
    assert!(matches!(r, Err(ApodError::Parse)));
}

#[test]
fn merge_orders_by_date_then_locator_and_keeps_duplicates() {
    let out = merge_sorted(
        vec![rec("2020-01-03", "z"), rec("2020-01-01", "b")],
        vec![rec("2020-01-01", "a"), rec("2020-01-03", "z"), rec("2020-01-02", "m")],
    );
    assert_eq!(
        out,
        vec![
            rec("2020-01-01", "a"),
            rec("2020-01-01", "b"),
            rec("2020-01-02", "m"),
            rec("2020-01-03", "z"),
            rec("2020-01-03", "z"),
        ]
    );
}

#[test]
fn text_comparison_is_bytewise() {
    assert_eq!(compare_text("abc", "abd"), -1);
    assert_eq!(compare_text("abc", "ab"), 1);
    assert_eq!(compare_text("", ""), 0);
    assert_eq!(compare_text("Z", "a"), -1);
}

#[test]
fn budget_blocks_only_when_spent_within_window() {
    let mut s = RateLimitState::new(1_000);
    assert_eq!(s.requests_left, 1000);
    assert_eq!(s.reset_period, 3600);
    assert_eq!(s.check_budget(1_010), Ok(()));
    s.update_from_response(Some(0), 2_000);
    assert_eq!(s.last_request_at, 2_000);
    assert_eq!(s.check_budget(2_600), Err(ApodError::RateLimitExceeded { retry_after: 3000 }));
    assert_eq!(s.check_budget(5_600), Ok(()));
    s.update_from_response(None, 5_700);
    assert_eq!(s.requests_left, 0);
    assert_eq!(s.last_request_at, 5_700);
    s.update_from_response(Some(42), 5_800);
    assert_eq!(s.requests_left, 42);
    assert_eq!(s.check_budget(5_801), Ok(()));
}

#[test]
fn remaining_header_is_read() {
    assert_eq!(remaining_from_header(None), Ok(None));
    assert_eq!(remaining_from_header(Some("37")), Ok(Some(37)));
    assert_eq!(
        remaining_from_header(Some("lots")),
        Err(ApodError::Fetch(FetchFailure::MalformedResponse))
    );
}

#[test]
fn query_for_range_writes_iso_dates() {
    let key = "DEMO_KEY".to_owned();
    let q = ApodQuery::for_range(&key, d("2020-01-01"), d("2020-01-31")).unwrap();
    assert_eq!(q.api_key, "DEMO_KEY");
    assert_eq!(q.start_date, "2020-01-01");
    assert_eq!(q.end_date, "2020-01-31");
    assert_eq!(ApodQuery::for_range(&key, Date { day: i32::MAX }, d("2020-01-01")), Err(ApodError::DateOutOfRange));
}
