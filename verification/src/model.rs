//! The entities the crawler produces, and the range query the read
//! endpoints accept.

use crate::dates::Timestamp;
use vstd::prelude::*;

verus! {

/// An archive message, seen abstractly through its identifier. Both the
/// summary and the full detail carry the archive's opaque message id, and
/// the pagination engine deduplicates by it.
pub trait PgMessage: Sized {
    /// The message id, as the contracts speak of it.
    spec fn spec_id(&self) -> Seq<char>;

    /// The message id.
    fn id(&self) -> (r: &str)
        ensures
            r@ == self.spec_id(),
    ;
}

/// One thread summary, produced from one listing-table row.
#[derive(Debug)]
pub struct EmailThread {
    /// The archive's opaque message identifier, from the row link's target.
    pub id: String,
    /// The cleaned subject.
    pub subject: String,
    /// The row's date combined with its time-of-day cell.
    pub datetime: Timestamp,
    /// The author cell, trimmed.
    pub author: String,
}

impl EmailThread {
    /// Summaries handed to the pagination engine carry a well-formed
    /// timestamp.
    pub open spec fn wf(self) -> bool {
        self.datetime.wf()
    }
}

impl PgMessage for EmailThread {
    open spec fn spec_id(&self) -> Seq<char> {
        self.id@
    }

    fn id(&self) -> (r: &str) {
        self.id.as_str()
    }
}

/// Full detail of one thread, resolved once per distinct thread from its
/// dedicated message page.
#[derive(Debug)]
pub struct EmailThreadDetail {
    pub id: String,
    pub subject: String,
    pub datetime: Timestamp,
    pub author_name: String,
    pub author_email: String,
    pub content: String,
    /// Attachment links, in page order: target address and label.
    pub attachments: Vec<(String, String)>,
    /// All message ids of the thread, in the order the archive's
    /// thread-navigation control advertises them.
    pub replies: Vec<String>,
}

impl PgMessage for EmailThreadDetail {
    open spec fn spec_id(&self) -> Seq<char> {
        self.id@
    }

    fn id(&self) -> (r: &str) {
        self.id.as_str()
    }
}

/// A date range, as the read endpoints receive it.
#[derive(Debug)]
pub struct DateRangeQuery {
    pub start_date: String,
    pub end_date: String,
}

} // verus!
