//! Listing-page parsing: pairs each date-carrying heading with the table
//! that follows it and turns each qualifying row into a thread summary.

use crate::chars::{
    chars_to_string, str_to_chars, strip_prefix_chars, strip_prefix_spec, trim_chars, trim_spec,
};
use crate::dates::{
    epoch, parse_heading_date, parse_hm, spec_heading_date, spec_parse_hm, Date, Timestamp,
};
use crate::dom::{headings_of, listing_headings, listing_tables, tables_of};
use crate::model::EmailThread;
use crate::subject::{clean_subject_title, cleaned_shape, lemma_clean_subject_shape, spec_clean_subject};
use vstd::prelude::*;

verus! {

/// A row yields a summary exactly when its header cell carries a link and
/// at least two plain cells follow (author and time); rows with no plain
/// cell are header rows, and both kinds are skipped otherwise.
pub open spec fn row_qualifies(row: (Option<(Seq<char>, Seq<char>)>, Seq<Seq<char>>)) -> bool {
    row.0 is Some && row.1.len() >= 2
}

/// The timestamp a row denotes: the section's date combined with the row's
/// `HH:MM` cell, or the epoch fallback when the cell does not parse.
pub open spec fn spec_row_time(date: Date, time_text: Seq<char>) -> Timestamp {
    match spec_parse_hm(trim_spec(time_text)) {
        Some(hm) => Timestamp { date, hour: hm.0, minute: hm.1, second: 0 },
        None => epoch(),
    }
}

/// A summary's content, as the contracts speak of it: id, subject,
/// timestamp and author.
pub open spec fn summary_view(t: EmailThread) -> (Seq<char>, Seq<char>, Timestamp, Seq<char>) {
    (t.id@, t.subject@, t.datetime, t.author@)
}

pub open spec fn summaries_view(rs: Seq<EmailThread>) -> Seq<
    (Seq<char>, Seq<char>, Timestamp, Seq<char>),
> {
    rs.map_values(|t: EmailThread| summary_view(t))
}

/// The summary a qualifying row denotes: the link text cleaned as the
/// subject, the link target with every leading `/message-id/` stripped as
/// the id, the first plain cell trimmed as the author, and the second
/// combined with the section's date as the timestamp.
pub open spec fn spec_row_summary(
    date: Date,
    row: (Option<(Seq<char>, Seq<char>)>, Seq<Seq<char>>),
) -> (Seq<char>, Seq<char>, Timestamp, Seq<char>) {
    let link = row.0->0;
    (
        strip_prefix_spec(link.1, "/message-id/"@),
        spec_clean_subject(link.0),
        spec_row_time(date, row.1[1]),
        trim_spec(row.1[0]),
    )
}

/// The summaries of one table under its heading's date: its qualifying
/// rows, in row order.
pub open spec fn spec_table_summaries(
    date: Date,
    rows: Seq<(Option<(Seq<char>, Seq<char>)>, Seq<Seq<char>>)>,
) -> Seq<(Seq<char>, Seq<char>, Timestamp, Seq<char>)>
    decreases rows.len(),
{
    if rows.len() == 0 {
        Seq::empty()
    } else {
        let init = spec_table_summaries(date, rows.drop_last());
        if row_qualifies(rows.last()) {
            init.push(spec_row_summary(date, rows.last()))
        } else {
            init
        }
    }
}

/// The summaries of a whole listing page from heading `0` on, with `t`
/// heading-adjacent tables already consumed: each heading that carries a
/// recognizable date is paired with the next unconsumed table, in document
/// order; a heading without one is skipped and consumes nothing.
pub open spec fn spec_listing_from(
    heads: Seq<Seq<char>>,
    tables: Seq<Seq<(Option<(Seq<char>, Seq<char>)>, Seq<Seq<char>>)>>,
    t: int,
) -> Seq<(Seq<char>, Seq<char>, Timestamp, Seq<char>)>
    decreases heads.len(),
{
    if heads.len() == 0 {
        Seq::empty()
    } else {
        match spec_heading_date(heads[0]) {
            Some(d) => {
                if t < tables.len() {
                    spec_table_summaries(d, tables[t]) + spec_listing_from(
                        heads.skip(1),
                        tables,
                        t + 1,
                    )
                } else {
                    spec_listing_from(heads.skip(1), tables, t)
                }
            },
            None => spec_listing_from(heads.skip(1), tables, t),
        }
    }
}

/// Everything a listing page's markup denotes, in page order.
pub open spec fn spec_listing(markup: Seq<char>) -> Seq<
    (Seq<char>, Seq<char>, Timestamp, Seq<char>),
> {
    spec_listing_from(headings_of(markup), tables_of(markup), 0)
}

/// Builds one thread summary from the plain values of one listing row.
pub fn row_summary(
    date: &Date,
    link_text: &str,
    href: &str,
    author_text: &str,
    time_text: &str,
) -> (t: EmailThread)
    requires
        date.wf(),
    ensures
        t.id@ == strip_prefix_spec(href@, "/message-id/"@),
        t.subject@ == spec_clean_subject(link_text@),
        t.author@ == trim_spec(author_text@),
        t.datetime == spec_row_time(*date, time_text@),
        t.wf(),
        cleaned_shape(t.subject@),
{
    proof {
        lemma_clean_subject_shape(link_text@);
    }
    let hv = str_to_chars(href);
    let pat = str_to_chars("/message-id/");
    proof {
        reveal_strlit("/message-id/");
    }
    let idv = strip_prefix_chars(&hv, &pat);
    let tv = str_to_chars(time_text);
    let tt = trim_chars(&tv);
    let datetime = match parse_hm(&tt) {
        Some((h, m)) => Timestamp { date: *date, hour: h, minute: m, second: 0 },
        None => Timestamp {
            date: Date { year: 1970, month: 1, day: 1 },
            hour: 0,
            minute: 0,
            second: 0,
        },
    };
    let av = str_to_chars(author_text);
    let at = trim_chars(&av);
    EmailThread {
        id: chars_to_string(&idv),
        subject: clean_subject_title(link_text),
        datetime,
        author: chars_to_string(&at),
    }
}

/// Extracts the summaries of one dumped table under `date`, appending
/// exactly its qualifying rows' summaries.
fn handle_table(
    date: &Date,
    rows: &Vec<(Option<(String, String)>, Vec<String>)>,
    out: &mut Vec<EmailThread>,
)
    requires
        date.wf(),
    ensures
        old(out)@.len() <= final(out)@.len(),
        forall|i: int| 0 <= i < old(out)@.len() ==> final(out)@[i] == old(out)@[i],
        summaries_view(final(out)@) == summaries_view(old(out)@) + spec_table_summaries(
            *date,
            rows.deep_view(),
        ),
        forall|i: int|
            old(out)@.len() <= i < final(out)@.len() ==> (#[trigger] final(out)@[i]).wf()
                && cleaned_shape(final(out)@[i].subject@),
{
    let n = rows.len();
    let mut j: usize = 0;
    proof {
        assert(rows.deep_view().take(0) =~= Seq::<
            (Option<(Seq<char>, Seq<char>)>, Seq<Seq<char>>),
        >::empty());
        assert(summaries_view(out@) + spec_table_summaries(*date, rows.deep_view().take(0))
            =~= summaries_view(out@));
    }
    while j < n
        invariant
            j <= n,
            n == rows@.len(),
            date.wf(),
            old(out)@.len() <= out@.len(),
            forall|i: int| 0 <= i < old(out)@.len() ==> out@[i] == old(out)@[i],
            summaries_view(out@) == summaries_view(old(out)@) + spec_table_summaries(
                *date,
                rows.deep_view().take(j as int),
            ),
            forall|i: int|
                old(out)@.len() <= i < out@.len() ==> (#[trigger] out@[i]).wf() && cleaned_shape(
                    out@[i].subject@,
                ),
        decreases n - j,
    {
        proof {
            let rv = rows.deep_view();
            assert(rv.take(j + 1).drop_last() =~= rv.take(j as int));
            assert(rv.take(j + 1).last() == rv[j as int]);
        }
        let row = &rows[j];
        match &row.0 {
            Some(link) => {
                if row.1.len() >= 2 {
                    let t = row_summary(
                        date,
                        link.0.as_str(),
                        link.1.as_str(),
                        row.1[0].as_str(),
                        row.1[1].as_str(),
                    );
                    let ghost prev = out@;
                    out.push(t);
                    proof {
                        let rv = rows.deep_view();
                        let rowv = rv[j as int];
                        assert(rowv == rows@[j as int].deep_view());
                        assert(rowv.0 == Some((link.0@, link.1@)));
                        assert(rowv.1[0] == rows@[j as int].1@[0]@);
                        assert(rowv.1[1] == rows@[j as int].1@[1]@);
                        assert(row_qualifies(rowv));
                        assert(summary_view(t) == spec_row_summary(*date, rowv));
                        assert(summaries_view(out@) =~= summaries_view(prev).push(
                            summary_view(t),
                        ));
                        assert(spec_table_summaries(*date, rv.take(j + 1))
                            == spec_table_summaries(*date, rv.take(j as int)).push(
                            spec_row_summary(*date, rowv),
                        ));
                        assert(summaries_view(old(out)@) + spec_table_summaries(
                            *date,
                            rv.take(j + 1),
                        ) =~= (summaries_view(old(out)@) + spec_table_summaries(
                            *date,
                            rv.take(j as int),
                        )).push(spec_row_summary(*date, rowv)));
                    }
                } else {
                    proof {
                        assert(!row_qualifies(rows.deep_view()[j as int]));
                    }
                }
            },
            None => {
                proof {
                    assert(rows.deep_view()[j as int].0 is None);
                    assert(!row_qualifies(rows.deep_view()[j as int]));
                }
            },
        }
        j = j + 1;
    }
    proof {
        assert(rows.deep_view().take(n as int) =~= rows.deep_view());
    }
}

/// Parses one listing page: each heading that carries a recognizable date
/// is paired with the table structurally following it, and every
/// qualifying row of that table yields a summary, in page order. The
/// result is exactly what the page's dumped headings and tables denote;
/// every summary carries a well-formed timestamp and a subject in the
/// cleaned shape.
pub fn parse_listing(markup: &str) -> (r: Vec<EmailThread>)
    ensures
        summaries_view(r@) == spec_listing(markup@),
        forall|i: int|
            0 <= i < r@.len() ==> (#[trigger] r@[i]).wf() && cleaned_shape(r@[i].subject@),
{
    let heads = listing_headings(markup);
    let tables = listing_tables(markup);
    let mut out: Vec<EmailThread> = Vec::new();
    let n = heads.len();
    let mut k: usize = 0;
    let mut t: usize = 0;
    proof {
        assert(heads.deep_view().skip(0) =~= heads.deep_view());
        assert(summaries_view(out@) + spec_listing_from(heads.deep_view(), tables.deep_view(), 0)
            =~= spec_listing_from(heads.deep_view(), tables.deep_view(), 0));
    }
    while k < n
        invariant
            k <= n,
            n == heads@.len(),
            t <= tables@.len(),
            heads.deep_view() == headings_of(markup@),
            tables.deep_view() == tables_of(markup@),
            summaries_view(out@) + spec_listing_from(
                heads.deep_view().skip(k as int),
                tables.deep_view(),
                t as int,
            ) == spec_listing(markup@),
            forall|i: int|
                0 <= i < out@.len() ==> (#[trigger] out@[i]).wf() && cleaned_shape(
                    out@[i].subject@,
                ),
        decreases n - k,
    {
        proof {
            let hv = heads.deep_view();
            assert(hv.skip(k as int)[0] == hv[k as int]);
            assert(hv.skip(k as int).skip(1) =~= hv.skip(k + 1));
        }
        let text = &heads[k];
        match parse_heading_date(text.as_str()) {
            Some(date) => {
                if t < tables.len() {
                    let ghost out0 = out@;
                    handle_table(&date, &tables[t], &mut out);
                    proof {
                        let hv = heads.deep_view();
                        let tv = tables.deep_view();
                        assert(summaries_view(out@) =~= (summaries_view(out0)
                            + spec_table_summaries(date, tv[t as int])));
                        assert((summaries_view(out0) + spec_table_summaries(date, tv[t as int]))
                            + spec_listing_from(hv.skip(k + 1), tv, t + 1) =~= summaries_view(out0)
                            + (spec_table_summaries(date, tv[t as int]) + spec_listing_from(
                            hv.skip(k + 1),
                            tv,
                            t + 1,
                        )));
                    }
                    t = t + 1;
                }
            },
            None => {},
        }
        k = k + 1;
    }
    proof {
        assert(heads.deep_view().skip(n as int) =~= Seq::<Seq<char>>::empty());
        assert(summaries_view(out@) + Seq::<
            (Seq<char>, Seq<char>, Timestamp, Seq<char>),
        >::empty() =~= summaries_view(out@));
    }
    out
}

} // verus!
