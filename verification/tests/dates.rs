use chrono::TimeZone;
use dooit_tasks::parse_date;

#[test]
fn calendar_date_parses_to_local_midnight() {
    let got = parse_date("2024-01-15");
    let expect = chrono::NaiveDate::from_ymd_opt(2024, 1, 15)
        .unwrap()
        .and_hms_opt(0, 0, 0)
        .unwrap()
        .and_local_timezone(chrono::Local)
        .earliest()
        .unwrap()
        .with_timezone(&chrono::Utc)
        .timestamp();
    assert_eq!(got, Some(expect));
}

#[test]
fn date_and_time_parses_as_written() {
    let got = parse_date("2024-01-15T10:30:00");
    let expect = chrono::NaiveDate::from_ymd_opt(2024, 1, 15)
        .unwrap()
        .and_hms_opt(10, 30, 0)
        .unwrap()
        .and_local_timezone(chrono::Local)
        .earliest()
        .unwrap()
        .with_timezone(&chrono::Utc)
        .timestamp();
    assert_eq!(got, Some(expect));
}

#[test]
fn time_of_day_means_today_at_that_time() {
    let got = parse_date("10:30:00").expect("a bare time of day parses");
    let expect = chrono::Local::now()
        .date_naive()
        .and_hms_opt(10, 30, 0)
        .unwrap()
        .and_local_timezone(chrono::Local)
        .earliest()
        .unwrap()
        .with_timezone(&chrono::Utc)
        .timestamp();
    assert_eq!(got, expect);
}

#[test]
fn unreadable_text_gives_none() {
    assert_eq!(parse_date("not a date"), None);
    assert_eq!(parse_date(""), None);
}

#[test]
fn parsed_instant_agrees_with_chrono() {
    let got = parse_date("2024-06-01").unwrap();
    let local = chrono::Local.timestamp_opt(got, 0).unwrap();
    assert_eq!(local.date_naive(), chrono::NaiveDate::from_ymd_opt(2024, 6, 1).unwrap());
}
