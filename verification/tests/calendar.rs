//! Day parsing, heading dates, timestamps, ordering and addresses.

use pg_threads::dates::{
    message_url, parse_datetime, parse_day, parse_heading_date, since_url, ts_le, Date, Timestamp,
};

fn ts(year: u32, month: u32, day: u32, hour: u32, minute: u32, second: u32) -> Timestamp {
    Timestamp { date: Date { year, month, day }, hour, minute, second }
}

#[test]
fn parse_day_accepts_valid_days() {
    assert_eq!(parse_day("20250118"), Some(Date { year: 2025, month: 1, day: 18 }));
    assert_eq!(parse_day("20240229"), Some(Date { year: 2024, month: 2, day: 29 }));
    assert_eq!(parse_day("20001231"), Some(Date { year: 2000, month: 12, day: 31 }));
}

#[test]
fn parse_day_rejects_malformed_days() {
    assert_eq!(parse_day("20250230"), None);
    assert_eq!(parse_day("20230229"), None);
    assert_eq!(parse_day("20251301"), None);
    assert_eq!(parse_day("20250100"), None);
    assert_eq!(parse_day("2025011"), None);
    assert_eq!(parse_day("202501181"), None);
    assert_eq!(parse_day("2025x118"), None);
    assert_eq!(parse_day(""), None);
}

#[test]
fn heading_dates_use_the_month_table() {
    assert_eq!(parse_heading_date("Jan. 18, 2025"), Some(Date { year: 2025, month: 1, day: 18 }));
    assert_eq!(parse_heading_date("Sept. 5, 2021"), Some(Date { year: 2021, month: 9, day: 5 }));
    assert_eq!(parse_heading_date("March 31, 2024"), Some(Date { year: 2024, month: 3, day: 31 }));
    assert_eq!(parse_heading_date(" December 1, 1999 "), Some(Date {
        year: 1999,
        month: 12,
        day: 1,
    }));
}

#[test]
fn headings_without_a_date_are_skipped() {
    assert_eq!(parse_heading_date("Latest threads"), None);
    assert_eq!(parse_heading_date("Jan 18, 2025"), None);
    assert_eq!(parse_heading_date("Jan. 32, 2025"), None);
    assert_eq!(parse_heading_date("Feb. 30, 2025"), None);
    assert_eq!(parse_heading_date("Jan. 18, 25"), None);
    assert_eq!(parse_heading_date(""), None);
}

#[test]
fn detail_timestamps_parse_exactly() {
    let chars: Vec<char> = "2025-01-18 13:58:07".chars().collect();
    assert_eq!(parse_datetime(&chars), Some(ts(2025, 1, 18, 13, 58, 7)));
    let bad: Vec<char> = "2025-01-18T13:58:07".chars().collect();
    assert_eq!(parse_datetime(&bad), None);
    let short: Vec<char> = "2025-01-18 13:58".chars().collect();
    assert_eq!(parse_datetime(&short), None);
    let invalid: Vec<char> = "2025-01-18 25:58:07".chars().collect();
    assert_eq!(parse_datetime(&invalid), None);
}

#[test]
fn timestamps_order_chronologically() {
    let a = ts(2024, 12, 31, 23, 59, 59);
    let b = ts(2025, 1, 1, 0, 0, 0);
    assert!(ts_le(&a, &b));
    assert!(!ts_le(&b, &a));
    assert!(ts_le(&a, &a));
    let c = ts(2025, 1, 1, 0, 0, 1);
    assert!(ts_le(&b, &c));
}

#[test]
fn window_addresses_are_bit_exact() {
    let t = ts(2025, 1, 18, 0, 0, 0);
    assert_eq!(
        since_url(&t),
        "https://www.postgresql.org/list/pgsql-hackers/since/202501180000"
    );
    let u = ts(2024, 2, 12, 13, 58, 59);
    assert_eq!(
        since_url(&u),
        "https://www.postgresql.org/list/pgsql-hackers/since/202402121358"
    );
    assert_eq!(
        message_url("abc%40example.com"),
        "https://www.postgresql.org/message-id/abc%40example.com"
    );
}
