//! Driving the pagination engine against a simulated archive: termination,
//! overlap deduplication, and windowing idempotence over consecutive days.

use pg_threads::crawl::{Crawler, Phase, RangeError, SeenIds};
use pg_threads::dates::{Date, Timestamp};
use pg_threads::model::EmailThread;

fn summary(id: &str, day: u32, hour: u32, minute: u32) -> EmailThread {
    EmailThread {
        id: id.to_string(),
        subject: format!("Topic {}", id),
        datetime: Timestamp {
            date: Date { year: 2024, month: 1, day },
            hour,
            minute,
            second: 0,
        },
        author: "Someone".to_string(),
    }
}

fn stamp_of(t: &Timestamp) -> u64 {
    (((t.date.year as u64 * 100 + t.date.month as u64) * 100 + t.date.day as u64) * 100
        + t.hour as u64) * 100 + t.minute as u64
}

fn copy_of(s: &EmailThread) -> EmailThread {
    EmailThread {
        id: s.id.clone(),
        subject: s.subject.clone(),
        datetime: s.datetime,
        author: s.author.clone(),
    }
}

/// The archive used below: three days of threads, two posted in the same
/// minute so that adjacent windows repeat them at the boundary.
fn archive() -> Vec<EmailThread> {
    vec![
        summary("a1", 4, 9, 0),
        summary("a2", 4, 13, 58),
        summary("a3", 4, 13, 58),
        summary("b1", 5, 8, 30),
        summary("b2", 5, 17, 45),
        summary("c1", 6, 7, 5),
    ]
}

/// One window fetch: everything at or after the window's minute stamp, as
/// the archive serves it.
fn page_for(url: &str) -> Vec<EmailThread> {
    let digits = url.rsplit('/').next().unwrap();
    let since: u64 = digits.parse().unwrap();
    archive()
        .iter()
        .filter(|s| stamp_of(&s.datetime) >= since)
        .map(copy_of)
        .collect()
}

/// Runs one crawl keeping every in-range summary.
fn crawl_all(start_day: &str, end_day: &str) -> Vec<EmailThread> {
    let mut c: Crawler<EmailThread> = Crawler::new(start_day, end_day).unwrap();
    let mut fetches = 0;
    loop {
        match c.phase {
            Phase::FetchPage => {
                fetches += 1;
                assert!(fetches < 100, "crawl did not terminate");
                let url = c.fetch_url();
                let page = page_for(&url);
                c.give_page(page);
            }
            Phase::Decide => {
                let kept = copy_of(c.pending_summary());
                c.give_verdict(Some(kept));
            }
            Phase::Done => {
                return c.into_results();
            }
        }
    }
}

#[test]
fn empty_window_terminates_after_one_fetch() {
    let mut c: Crawler<EmailThread> = Crawler::new("20240110", "20240110").unwrap();
    assert_eq!(c.phase, Phase::FetchPage);
    assert_eq!(
        c.fetch_url(),
        "https://www.postgresql.org/list/pgsql-hackers/since/202401100000"
    );
    c.give_page(Vec::new());
    assert_eq!(c.phase, Phase::Done);
    assert_eq!(c.into_results().len(), 0);
}

#[test]
fn out_of_range_rows_terminate_after_one_fetch() {
    let mut c: Crawler<EmailThread> = Crawler::new("20240101", "20240101").unwrap();
    assert_eq!(c.phase, Phase::FetchPage);
    c.give_page(vec![summary("later", 4, 9, 0)]);
    assert_eq!(c.phase, Phase::Done);
    assert_eq!(c.into_results().len(), 0);
}

#[test]
fn malformed_range_days_are_rejected() {
    assert_eq!(
        Crawler::<EmailThread>::new("2024010", "20240104").err().unwrap(),
        RangeError::BadStartDay
    );
    assert_eq!(
        Crawler::<EmailThread>::new("20240104", "20240230").err().unwrap(),
        RangeError::BadEndDay
    );
}

#[test]
fn inverted_range_is_immediately_done() {
    let c: Crawler<EmailThread> = Crawler::new("20240106", "20240104").unwrap();
    assert_eq!(c.phase, Phase::Done);
}

#[test]
fn single_day_crawl_keeps_only_that_day() {
    let got = crawl_all("20240104", "20240104");
    let ids: Vec<&str> = got.iter().map(|t| t.id.as_str()).collect();
    assert_eq!(ids, vec!["a1", "a2", "a3"]);
}

#[test]
fn same_minute_boundary_is_deduplicated() {
    // The follow-up window is fetched at the cursor's minute, so it serves
    // the last collected thread again; overlap suppression must drop the
    // repeat instead of collecting it twice.
    let got = crawl_all("20240104", "20240106");
    let ids: Vec<&str> = got.iter().map(|t| t.id.as_str()).collect();
    assert_eq!(ids, vec!["a1", "a2", "a3", "b1", "b2", "c1"]);
}

#[test]
fn day_windows_union_matches_whole_range() {
    // Crawling three consecutive days one at a time discovers exactly the
    // threads of the whole range, with matching cardinality.
    let d4 = crawl_all("20240104", "20240104");
    let d5 = crawl_all("20240105", "20240105");
    let d6 = crawl_all("20240106", "20240106");
    let whole = crawl_all("20240104", "20240106");
    assert_eq!(d4.len() + d5.len() + d6.len(), whole.len());
    for t in &whole {
        assert!(
            d4.iter().any(|u| u.id == t.id)
                || d5.iter().any(|u| u.id == t.id)
                || d6.iter().any(|u| u.id == t.id)
        );
    }
}

#[test]
fn epoch_fallback_does_not_drag_cursor_back() {
    // A row whose time failed to parse carries the epoch fallback; the
    // cursor must not decrease to it, or the next window would refetch
    // from 1970.
    let mut c: Crawler<EmailThread> = Crawler::new("20240104", "20240106").unwrap();
    let epoch_row = EmailThread {
        id: "e1".to_string(),
        subject: "unparsed time".to_string(),
        datetime: Timestamp {
            date: Date { year: 1970, month: 1, day: 1 },
            hour: 0,
            minute: 0,
            second: 0,
        },
        author: "Someone".to_string(),
    };
    c.give_page(vec![summary("a1", 4, 9, 0), epoch_row]);
    assert_eq!(c.pending_summary().id, "a1");
    let kept = copy_of(c.pending_summary());
    c.give_verdict(Some(kept));
    assert_eq!(c.pending_summary().id, "e1");
    let kept = copy_of(c.pending_summary());
    c.give_verdict(Some(kept));
    assert_eq!(c.phase, Phase::FetchPage);
    assert_eq!(
        c.fetch_url(),
        "https://www.postgresql.org/list/pgsql-hackers/since/202401040900"
    );
}

#[test]
fn seen_ids_record_each_thread_once() {
    let mut seen = SeenIds::new();
    assert!(!seen.contains("s1"));
    seen.insert("s1".to_string());
    assert!(seen.contains("s1"));
    assert!(!seen.contains("s2"));
    seen.insert("s2".to_string());
    assert!(seen.contains("s1"));
    assert!(seen.contains("s2"));
}
