//! Trusted boundary to the HTML engine of the `scraper` crate.
//!
//! Each wrapper dumps one plain-value aspect of a page's markup: heading
//! texts, table rows as cell texts and links, navigation-entry values, the
//! body text. `scraper`'s parsing and selection are deterministic, so each
//! dump is a function of the markup alone and carries a name that the
//! extraction contracts upstairs are stated over; everything built on the
//! dumps is verified. The fixed selector patterns are valid CSS, so
//! compiling them cannot fail.

use scraper::{Html, Selector};
use vstd::prelude::*;

verus! {

/// The text of each `h2` element of a listing page, in document order.
pub uninterp spec fn headings_of(markup: Seq<char>) -> Seq<Seq<char>>;

/// Relies on scraper's `Html::parse_document`, `Selector::parse`,
/// `Html::select` and `ElementRef::text`: the `h2` texts in document order.
#[verifier::external_body]
pub(crate) fn listing_headings(markup: &str) -> (r: Vec<String>)
    ensures
        r.deep_view() == headings_of(markup@),
{
    let doc = Html::parse_document(markup);
    let h2 = Selector::parse("h2").unwrap();
    doc.select(&h2).map(|h| h.text().collect::<String>()).collect()
}

/// Per `h2 + table` element of a listing page, in document order, its rows:
/// for each `tr`, the first `a` link of its first `th` as (text, target),
/// and the text of each `td` cell, in order.
pub uninterp spec fn tables_of(markup: Seq<char>) -> Seq<
    Seq<(Option<(Seq<char>, Seq<char>)>, Seq<Seq<char>>)>,
>;

/// Relies on scraper's `Html::parse_document`, `Selector::parse`,
/// `Html::select`, `ElementRef::select`, `ElementRef::text` and
/// `ElementRef::attr`: the rows of each heading-adjacent table.
#[verifier::external_body]
pub(crate) fn listing_tables(markup: &str) -> (r: Vec<
    Vec<(Option<(String, String)>, Vec<String>)>,
>)
    ensures
        r.deep_view() == tables_of(markup@),
{
    let doc = Html::parse_document(markup);
    doc.select(&Selector::parse("h2 + table").unwrap()).map(
        |t| t.select(&Selector::parse("tr").unwrap()).map(|row| (
            row.select(&Selector::parse("th").unwrap()).next().and_then(
                |h| h.select(&Selector::parse("a").unwrap()).next(),
            ).map(|l| (l.text().collect(), l.attr("href").unwrap_or("").to_string())),
            row.select(&Selector::parse("td").unwrap()).map(|c| c.text().collect()).collect(),
        )).collect(),
    ).collect()
}

/// The entries of a message page's thread-navigation control (its first
/// `select#thread_select`): each `option`'s `value` attribute in presented
/// order, `None` for an entry without one; `None` overall when the page has
/// no such control.
pub uninterp spec fn nav_values_of(markup: Seq<char>) -> Option<Seq<Option<Seq<char>>>>;

/// Relies on scraper's `Html::parse_document`, `Selector::parse`,
/// `Html::select`, `ElementRef::select` and `ElementRef::attr`: the
/// navigation entries' values.
#[verifier::external_body]
pub(crate) fn nav_values(markup: &str) -> (r: Option<Vec<Option<String>>>)
    ensures
        r.deep_view() == nav_values_of(markup@),
{
    let doc = Html::parse_document(markup);
    let sel = Selector::parse("select#thread_select").unwrap();
    let opt = Selector::parse("option").unwrap();
    doc.select(&sel).next().map(
        |s| s.select(&opt).map(|o| o.attr("value").map(|v| v.to_string())).collect(),
    )
}

/// Per `tr` of a message page's first `#pgContentWrap table`, the text of
/// its first `td`, `None` for a row without one; `None` overall when the
/// page has no such table.
pub uninterp spec fn header_cells_of(markup: Seq<char>) -> Option<Seq<Option<Seq<char>>>>;

/// Relies on scraper's `Html::parse_document`, `Selector::parse`,
/// `Html::select`, `ElementRef::select` and `ElementRef::text`: the header
/// rows' value cells.
#[verifier::external_body]
pub(crate) fn header_cells(markup: &str) -> (r: Option<Vec<Option<String>>>)
    ensures
        r.deep_view() == header_cells_of(markup@),
{
    let doc = Html::parse_document(markup);
    let tb = Selector::parse("#pgContentWrap table").unwrap();
    let tr = Selector::parse("tr").unwrap();
    let td = Selector::parse("td").unwrap();
    doc.select(&tb).next().map(
        |t| t.select(&tr).map(|r| r.select(&td).next().map(|c| c.text().collect::<String>())).collect(),
    )
}

/// The text of a message page's first `#pgContentWrap div.message-content`;
/// `None` when absent.
pub uninterp spec fn content_of(markup: Seq<char>) -> Option<Seq<char>>;

/// Relies on scraper's `Html::parse_document`, `Selector::parse`,
/// `Html::select` and `ElementRef::text`: the message body's text.
#[verifier::external_body]
pub(crate) fn content_text(markup: &str) -> (r: Option<String>)
    ensures
        r.deep_view() == content_of(markup@),
{
    let doc = Html::parse_document(markup);
    let sel = Selector::parse("#pgContentWrap div.message-content").unwrap();
    doc.select(&sel).next().map(|e| e.text().collect::<String>())
}

/// Per `th` of a message page's first `#pgContentWrap
/// table.message-attachments`, its first `a` link as (target, text); `None`
/// for a `th` without a link; empty when the table is absent.
pub uninterp spec fn attachments_of(markup: Seq<char>) -> Seq<Option<(Seq<char>, Seq<char>)>>;

/// Relies on scraper's `Html::parse_document`, `Selector::parse`,
/// `Html::select`, `ElementRef::select`, `ElementRef::text` and
/// `ElementRef::attr`: the attachment links.
#[verifier::external_body]
pub(crate) fn attachment_links(markup: &str) -> (r: Vec<Option<(String, String)>>)
    ensures
        r.deep_view() == attachments_of(markup@),
{
    let doc = Html::parse_document(markup);
    let tb = Selector::parse("#pgContentWrap table.message-attachments").unwrap();
    let th = Selector::parse("th").unwrap();
    let a = Selector::parse("a").unwrap();
    doc.select(&tb).next().map(|t| t.select(&th).map(|h| h.select(&a).next().map(
        |l| (l.attr("href").unwrap_or("").to_string(), l.text().collect::<String>()),
    )).collect()).unwrap_or_default()
}

} // verus!
