//! Thread-detail resolution against canned message pages: both header
//! layouts, the error taxonomy, and author deobfuscation.

use pg_threads::dates::{Date, Timestamp};
use pg_threads::detail::{
    header_layout, parse_author, resolve_thread, thread_starter_id, DetailError, HeaderLayout,
};

fn header_rows(extra: bool) -> String {
    let mut rows = String::new();
    rows.push_str("<tr><th>From</th><td>Jane Doe &lt;jane(at)example(dot)com&gt;</td></tr>");
    if extra {
        rows.push_str("<tr><th>In reply to</th><td>someone</td></tr>");
    }
    rows.push_str("<tr><th>To</th><td>pgsql-hackers</td></tr>");
    rows.push_str("<tr><th>Subject</th><td> Improve planner costs </td></tr>");
    rows.push_str("<tr><th>Date</th><td>2025-01-18 13:58:07</td></tr>");
    let filler = if extra { 5 } else { 4 };
    for _ in filler..8 {
        rows.push_str("<tr><th>Other</th><td>x</td></tr>");
    }
    if extra {
        rows.push_str("<tr><th>Last</th><td>y</td></tr>");
    }
    rows
}

fn message_page(extra_row: bool, with_select: bool, with_content: bool) -> String {
    let mut page = String::from("<html><body><div id=\"pgContentWrap\">");
    page.push_str("<table>");
    page.push_str(&header_rows(extra_row));
    page.push_str("</table>");
    if with_select {
        page.push_str(
            "<select id=\"thread_select\">\
             <option value=\"starter-id\">first</option>\
             <option value=\"reply-id\">second</option>\
             </select>",
        );
    }
    if with_content {
        page.push_str("<div class=\"message-content\">  The message body.  </div>");
    }
    page.push_str(
        "<table class=\"message-attachments\">\
         <tr><th><a href=\"/att/patch.tgz\"> patch.tgz </a></th></tr>\
         </table>",
    );
    page.push_str("</div></body></html>");
    page
}

#[test]
fn eight_row_layout_resolves() {
    let page = message_page(false, true, true);
    let d = resolve_thread("starter-id", &page).unwrap();
    assert_eq!(d.id, "starter-id");
    assert_eq!(d.author_name, "Jane Doe");
    assert_eq!(d.author_email, "jane@example.com");
    assert_eq!(d.subject, "Improve planner costs");
    assert_eq!(
        d.datetime,
        Timestamp { date: Date { year: 2025, month: 1, day: 18 }, hour: 13, minute: 58, second: 7 }
    );
    assert_eq!(d.content, "The message body.");
    assert_eq!(d.replies, vec!["starter-id".to_string(), "reply-id".to_string()]);
    assert_eq!(d.attachments, vec![("/att/patch.tgz".to_string(), "patch.tgz".to_string())]);
}

#[test]
fn nine_row_layout_resolves_identically() {
    let eight = resolve_thread("starter-id", &message_page(false, true, true)).unwrap();
    let nine = resolve_thread("starter-id", &message_page(true, true, true)).unwrap();
    assert_eq!(nine.author_name, eight.author_name);
    assert_eq!(nine.author_email, eight.author_email);
    assert_eq!(nine.subject, eight.subject);
    assert_eq!(nine.datetime, eight.datetime);
    assert_eq!(nine.content, eight.content);
    assert_eq!(nine.replies, eight.replies);
}

#[test]
fn other_row_counts_are_structural_errors() {
    let page = "<html><body><div id=\"pgContentWrap\">\
        <table><tr><th>From</th><td>a</td></tr><tr><th>To</th><td>b</td></tr></table>\
        <select id=\"thread_select\"><option value=\"x\">x</option></select>\
        <div class=\"message-content\">body</div>\
        </div></body></html>";
    assert_eq!(resolve_thread("x", page).unwrap_err(), DetailError::UnrecognizedLayout);
}

#[test]
fn missing_elements_are_named() {
    let no_table = "<html><body><div id=\"pgContentWrap\">\
        <select id=\"thread_select\"><option value=\"x\">x</option></select>\
        </div></body></html>";
    assert_eq!(resolve_thread("x", no_table).unwrap_err(), DetailError::MissingHeaderTable);
    assert_eq!(
        resolve_thread("x", &message_page(false, false, true)).unwrap_err(),
        DetailError::MissingThreadSelect
    );
    assert_eq!(
        resolve_thread("x", &message_page(false, true, false)).unwrap_err(),
        DetailError::MissingContent
    );
}

#[test]
fn header_row_without_value_cell_is_missing_field() {
    let mut rows = String::new();
    for _ in 0..8 {
        rows.push_str("<tr><th>Label only</th></tr>");
    }
    let page = format!(
        "<html><body><div id=\"pgContentWrap\">\
         <table>{rows}</table>\
         <select id=\"thread_select\"><option value=\"x\">x</option></select>\
         <div class=\"message-content\">body</div>\
         </div></body></html>"
    );
    assert_eq!(resolve_thread("x", &page).unwrap_err(), DetailError::MissingField);
}

#[test]
fn navigation_entry_without_value_is_missing_value() {
    let page = "<html><body>\
        <select id=\"thread_select\"><option>unvalued</option></select>\
        </body></html>";
    assert_eq!(thread_starter_id(page), Err(DetailError::MissingValue));
}

#[test]
fn bad_header_timestamp_is_fatal() {
    let page = message_page(false, true, true).replace("2025-01-18 13:58:07", "Jan 18 2025");
    assert_eq!(resolve_thread("x", &page).unwrap_err(), DetailError::BadTimestamp);
}

#[test]
fn layout_decision_is_exact() {
    assert_eq!(header_layout(8), Ok(HeaderLayout::EightRow));
    assert_eq!(header_layout(9), Ok(HeaderLayout::NineRow));
    assert_eq!(header_layout(7), Err(DetailError::UnrecognizedLayout));
    assert_eq!(header_layout(10), Err(DetailError::UnrecognizedLayout));
    assert_eq!(header_layout(0), Err(DetailError::UnrecognizedLayout));
}

#[test]
fn author_fields_deobfuscate() {
    let (name, email) = parse_author("Jane Doe <jane(at)example(dot)com>");
    assert_eq!(name, "Jane Doe");
    assert_eq!(email, "jane@example.com");
    let (name2, email2) = parse_author("  Solo Author  ");
    assert_eq!(name2, "Solo Author");
    assert_eq!(email2, "");
    let (name3, email3) = parse_author("A B <a(dot)b(at)c(dot)org>>");
    assert_eq!(name3, "A B");
    assert_eq!(email3, "a.b@c.org");
}

#[test]
fn starter_id_reads_first_navigation_entry() {
    assert_eq!(
        thread_starter_id(&message_page(false, true, true)),
        Ok("starter-id".to_string())
    );
    let empty_select = "<html><body>\
        <select id=\"thread_select\"></select>\
        </body></html>";
    assert_eq!(thread_starter_id(empty_select), Err(DetailError::MissingOption));
    assert_eq!(thread_starter_id("<html></html>"), Err(DetailError::MissingThreadSelect));
}
