use apod_cache::config::Config;
use apod_cache::date::Date;
use apod_cache::handlers::{ParamsError, PicturesParams};
use chrono::{Datelike, NaiveDate};

fn ymd(y: i32, m: u32, d: u32) -> Date {
    Date { day: NaiveDate::from_ymd_opt(y, m, d).unwrap().num_days_from_ce() }
}

#[test]
fn test_parse_and_validate_correct() {
    let ok = PicturesParams::new("2021-01-01", "2021-01-02");

    let (ok_start, ok_end) = ok.parse_and_validate().unwrap();

    assert_eq!(ok_start, ymd(2021, 1, 1));
    assert_eq!(ok_end, ymd(2021, 1, 2));
}

#[test]
fn test_parse_and_validate_same_day() {
    let ok = PicturesParams::new("2021-01-01", "2021-01-01");

    let (ok_start, ok_end) = ok.parse_and_validate().unwrap();

    assert_eq!(ok_start, ymd(2021, 1, 1));
    assert_eq!(ok_end, ymd(2021, 1, 1));
}

#[test]
fn test_parse_and_validate_wrong_start() {
    let ok = PicturesParams::new("Gibberish", "2021-01-02");

    assert!(ok.parse_and_validate().is_err());
}

#[test]
fn test_parse_and_validate_wrong_end() {
    let ok = PicturesParams::new("2021-01-01", "My birthday");

    assert!(ok.parse_and_validate().is_err());
}

#[test]
fn test_parse_and_validate_start_after_end() {
    let ok = PicturesParams::new("2021-01-03", "2021-01-02");

    assert!(ok.parse_and_validate().is_err());
}

#[test]
fn params_errors_name_the_field() {
    assert_eq!(PicturesParams::new("x", "y").parse_and_validate(), Err(ParamsError::BadStart));
    assert_eq!(PicturesParams::new("2021-01-01", "y").parse_and_validate(), Err(ParamsError::BadEnd));
    assert_eq!(
        PicturesParams::new("2021-01-03", "2021-01-02").parse_and_validate(),
        Err(ParamsError::StartAfterEnd)
    );
}

#[test]
fn config_defaults() {
    let c = Config::default();
    assert_eq!(c.api_key, "DEMO_KEY");
    assert_eq!(c.concurrent_requests, 5);
    assert_eq!(c.database_url, "SETME");
    assert_eq!(c.host, "0.0.0.0");
    assert_eq!(c.port, 8080);
}
