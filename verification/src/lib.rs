//! Extraction core for a date-indexed mailing-list archive: listing-page
//! parsing, windowed pagination with overlap deduplication, thread-starter
//! classification, and thread-detail resolution.
//!
//! The crawl itself is a dialogue ([`crawl::Crawler`]): the engine names the
//! listing window to fetch and replays fetched summaries for per-summary
//! decisions; the caller performs the fetches and hands back pages and
//! decisions. Markup is queried through the `scraper` crate behind the
//! trusted boundary in `dom`; everything else is verified.

pub mod chars;
pub mod crawl;
pub mod dates;
pub mod detail;
mod dom;
pub mod listing;
pub mod model;
pub mod subject;
