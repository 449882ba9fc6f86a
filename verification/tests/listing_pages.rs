//! Listing-page extraction against canned archive markup.

use pg_threads::dates::{Date, Timestamp};
use pg_threads::listing::parse_listing;

#[test]
fn listing_rows_become_summaries() {
    let markup = "<html><body>\
        <h2>Jan. 18, 2025</h2>\
        <table>\
        <tr><th>Thread</th></tr>\
        <tr><th><a href=\"/message-id/msg-1\">  Hello   world </a></th>\
            <td> Alice </td><td>13:58</td></tr>\
        <tr><th><a href=\"/message-id/msg-2\">Second\nthread</a></th>\
            <td>Bob</td><td>14:02</td></tr>\
        </table>\
        </body></html>";
    let rows = parse_listing(markup);
    assert_eq!(rows.len(), 2);
    assert_eq!(rows[0].id, "msg-1");
    assert_eq!(rows[0].subject, "Hello world");
    assert_eq!(rows[0].author, "Alice");
    assert_eq!(
        rows[0].datetime,
        Timestamp { date: Date { year: 2025, month: 1, day: 18 }, hour: 13, minute: 58, second: 0 }
    );
    assert_eq!(rows[1].id, "msg-2");
    assert_eq!(rows[1].subject, "Second thread");
    assert_eq!(
        rows[1].datetime,
        Timestamp { date: Date { year: 2025, month: 1, day: 18 }, hour: 14, minute: 2, second: 0 }
    );
}

#[test]
fn heading_without_date_yields_nothing() {
    let markup = "<html><body>\
        <h2>Latest threads</h2>\
        <table>\
        <tr><th><a href=\"/message-id/msg-9\">Orphan</a></th><td>Eve</td><td>09:00</td></tr>\
        </table>\
        </body></html>";
    let rows = parse_listing(markup);
    assert_eq!(rows.len(), 0);
}

#[test]
fn unparseable_time_degrades_to_epoch() {
    let markup = "<html><body>\
        <h2>Jan. 18, 2025</h2>\
        <table>\
        <tr><th><a href=\"/message-id/msg-3\">Topic</a></th><td>Carol</td><td>later</td></tr>\
        </table>\
        </body></html>";
    let rows = parse_listing(markup);
    assert_eq!(rows.len(), 1);
    assert_eq!(
        rows[0].datetime,
        Timestamp { date: Date { year: 1970, month: 1, day: 1 }, hour: 0, minute: 0, second: 0 }
    );
}

#[test]
fn rows_without_link_or_cells_are_skipped() {
    let markup = "<html><body>\
        <h2>Jan. 18, 2025</h2>\
        <table>\
        <tr><th>no link here</th><td>Dan</td><td>10:00</td></tr>\
        <tr><th><a href=\"/message-id/msg-4\">only one cell</a></th><td>Dan</td></tr>\
        <tr><th><a href=\"/message-id/msg-5\">kept</a></th><td>Dan</td><td>10:30</td></tr>\
        </table>\
        </body></html>";
    let rows = parse_listing(markup);
    assert_eq!(rows.len(), 1);
    assert_eq!(rows[0].id, "msg-5");
}

#[test]
fn two_sections_in_page_order() {
    let markup = "<html><body>\
        <h2>Jan. 18, 2025</h2>\
        <table>\
        <tr><th><a href=\"/message-id/a\">A</a></th><td>X</td><td>08:00</td></tr>\
        </table>\
        <h2>Jan. 19, 2025</h2>\
        <table>\
        <tr><th><a href=\"/message-id/b\">B</a></th><td>Y</td><td>09:15</td></tr>\
        </table>\
        </body></html>";
    let rows = parse_listing(markup);
    assert_eq!(rows.len(), 2);
    assert_eq!(rows[0].id, "a");
    assert_eq!(rows[0].datetime.date, Date { year: 2025, month: 1, day: 18 });
    assert_eq!(rows[1].id, "b");
    assert_eq!(rows[1].datetime.date, Date { year: 2025, month: 1, day: 19 });
}
