use apod_cache::apod::{ApodError, Url};
use apod_cache::date::Date;
use apod_cache::gaps::{compute_missing_ranges, missing_day_ranges};
use chrono::{Datelike, NaiveDate};

fn ymd(y: i32, m: u32, d: u32) -> Date {
    Date { day: NaiveDate::from_ymd_opt(y, m, d).unwrap().num_days_from_ce() }
}

fn record(date: &str) -> Url {
    Url { date: date.to_owned(), url: "".to_owned() }
}

#[test]
fn test_compute_missing_ranges_missing_edges() {
    let records = vec![record("2020-01-02")];
    let start = ymd(2020, 1, 1);
    let end = ymd(2020, 1, 3);

    let expected = vec![(start, start), (end, end)];

    assert_eq!(compute_missing_ranges(records.as_slice(), start, end).unwrap(), expected);
}

#[test]
fn test_compute_missing_ranges_missing_middle() {
    let records = vec![record("2020-01-01"), record("2020-01-03")];
    let start = ymd(2020, 1, 1);
    let end = ymd(2020, 1, 3);

    let expected = vec![(ymd(2020, 1, 2), ymd(2020, 1, 2))];

    assert_eq!(compute_missing_ranges(records.as_slice(), start, end).unwrap(), expected);
}

#[test]
fn test_compute_missing_ranges_empty_records() {
    let records: Vec<Url> = vec![];
    let start = ymd(2020, 1, 1);
    let end = ymd(2020, 1, 3);

    let expected = vec![(start, end)];

    assert_eq!(compute_missing_ranges(records.as_slice(), start, end).unwrap(), expected);
}

#[test]
fn fully_covered_window_has_no_gaps() {
    let records = vec![record("2020-01-30"), record("2020-01-31"), record("2020-02-01")];
    let gaps = compute_missing_ranges(records.as_slice(), ymd(2020, 1, 30), ymd(2020, 2, 1)).unwrap();
    assert!(gaps.is_empty());
}

#[test]
fn empty_cache_single_day_window() {
    let day = ymd(2021, 6, 15);
    assert_eq!(missing_day_ranges(&[], day, day), vec![(day, day)]);
}

#[test]
fn gaps_across_month_and_year_ends() {
    let records = vec![record("2019-12-30"), record("2020-01-02"), record("2020-03-01")];
    let gaps = compute_missing_ranges(records.as_slice(), ymd(2019, 12, 28), ymd(2020, 3, 3)).unwrap();
    assert_eq!(
        gaps,
        vec![
            (ymd(2019, 12, 28), ymd(2019, 12, 29)),
            (ymd(2019, 12, 31), ymd(2020, 1, 1)),
            (ymd(2020, 1, 3), ymd(2020, 2, 29)),
            (ymd(2020, 3, 2), ymd(2020, 3, 3)),
        ]
    );
}

#[test]
fn one_missing_run_is_the_only_gap() {
    let records = vec![
        record("2020-01-01"),
        record("2020-01-02"),
        record("2020-01-06"),
        record("2020-01-07"),
    ];
    let gaps = compute_missing_ranges(records.as_slice(), ymd(2020, 1, 1), ymd(2020, 1, 7)).unwrap();
    assert_eq!(gaps, vec![(ymd(2020, 1, 3), ymd(2020, 1, 5))]);
}

#[test]
fn corrupt_cached_date_is_a_parse_error() {
    let records = vec![record("2020-01-01"), record("2020-13-01")];
    let r = compute_missing_ranges(records.as_slice(), ymd(2020, 1, 1), ymd(2020, 1, 3));
    assert_eq!(r, Err(ApodError::Parse));
}

#[test]
fn date_parse_and_format() {
    let d = Date::parse("2020-02-29").unwrap();
    assert_eq!(d, ymd(2020, 2, 29));
    assert_eq!(d.to_iso().unwrap(), "2020-02-29");
    assert_eq!(Date { day: d.day + 1 }.to_iso().unwrap(), "2020-03-01");
    assert!(Date::parse("2021-02-29").is_none());
    assert!(Date::parse("yesterday").is_none());
    assert!(Date { day: i32::MAX }.to_iso().is_none());
}
