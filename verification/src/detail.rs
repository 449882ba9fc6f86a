//! Thread-detail resolution: parses a dedicated message page into full
//! thread detail, tolerating the two known header-table layouts.

use crate::chars::{
    after_char, chars_to_string, replace_spec, replace_chars, str_to_chars, strip_trailing,
    strip_trailing_char, segment_after_char, trim_spec, trim_chars, trunc_at, trunc_at_char,
};
use crate::dates::{spec_parse_datetime, parse_datetime};
use crate::dom::{
    attachments_of, attachment_links, content_of, content_text, header_cells, header_cells_of,
    nav_values, nav_values_of,
};
use crate::dom;
use crate::model::EmailThreadDetail;
use vstd::prelude::*;

verus! {

/// Why resolving a thread's detail page failed. Structural errors name the
/// page element that was absent; `BadTimestamp` is a fatal parse failure.
#[derive(Clone, Copy, PartialEq, Eq, Structural, Debug)]
pub enum DetailError {
    /// The message page has no header table.
    MissingHeaderTable,
    /// The page has no thread-navigation control.
    MissingThreadSelect,
    /// The thread-navigation control has no entry.
    MissingOption,
    /// The first navigation entry carries no value.
    MissingValue,
    /// The page has no message-body container.
    MissingContent,
    /// A header row selected for from/subject/date has no value cell.
    MissingField,
    /// The header table has neither eight nor nine rows.
    UnrecognizedLayout,
    /// The header timestamp is not `YYYY-MM-DD HH:MM:SS`.
    BadTimestamp,
}

/// The two known message-page layouts, decided once from the header table's
/// row count.
#[derive(Clone, Copy, PartialEq, Eq, Structural, Debug)]
pub enum HeaderLayout {
    /// Eight header rows: from, subject and date stand at rows 0, 2 and 3.
    EightRow,
    /// Nine header rows (an extra row, e.g. in-reply-to): from, subject and
    /// date stand at rows 0, 3 and 4.
    NineRow,
}

/// Decides the layout from the header table's row count: eight or nine
/// rows are recognized, anything else is a fatal structural error.
pub fn header_layout(row_count: usize) -> (r: Result<HeaderLayout, DetailError>)
    ensures
        r == (if row_count == 8 {
            Result::<HeaderLayout, DetailError>::Ok(HeaderLayout::EightRow)
        } else if row_count == 9 {
            Result::<HeaderLayout, DetailError>::Ok(HeaderLayout::NineRow)
        } else {
            Result::<HeaderLayout, DetailError>::Err(DetailError::UnrecognizedLayout)
        }),
{
    if row_count == 8 {
        Ok(HeaderLayout::EightRow)
    } else if row_count == 9 {
        Ok(HeaderLayout::NineRow)
    } else {
        Err(DetailError::UnrecognizedLayout)
    }
}

/// The header-row indices holding from, subject and date under `l`.
pub fn layout_rows(l: HeaderLayout) -> (r: (usize, usize, usize))
    ensures
        l == HeaderLayout::EightRow ==> r == (0usize, 2usize, 3usize),
        l == HeaderLayout::NineRow ==> r == (0usize, 3usize, 4usize),
{
    match l {
        HeaderLayout::EightRow => (0, 2, 3),
        HeaderLayout::NineRow => (0, 3, 4),
    }
}

/// The author name in a `Name <obfuscated-email>` header field: what stands
/// before the `<`, trimmed.
pub open spec fn spec_author_name(s: Seq<char>) -> Seq<char> {
    trim_spec(trunc_at(trim_spec(s), '<'))
}

/// The author email in a `Name <obfuscated-email>` header field: the
/// segment after the `<`, with trailing `>` stripped and the obfuscation
/// markers `(dot)` and `(at)` replaced by `.` and `@`.
pub open spec fn spec_author_email(s: Seq<char>) -> Seq<char> {
    let seg = match after_char(trim_spec(s), '<') {
        None => Seq::<char>::empty(),
        Some(t) => trunc_at(t, '<'),
    };
    replace_spec(replace_spec(strip_trailing(seg, '>'), "(dot)"@, "."@), "(at)"@, "@"@)
}

/// Splits an author header field into name and deobfuscated email.
pub fn parse_author(text: &str) -> (r: (String, String))
    ensures
        r.0@ == spec_author_name(text@),
        r.1@ == spec_author_email(text@),
{
    let v = str_to_chars(text);
    let t = trim_chars(&v);
    let name_part = trunc_at_char(&t, '<');
    let name_t = trim_chars(&name_part);
    let seg = segment_after_char(&t, '<');
    let sg = strip_trailing_char(&seg, '>');
    proof {
        reveal_strlit("(dot)");
        reveal_strlit("(at)");
    }
    let pd = str_to_chars("(dot)");
    let rd = str_to_chars(".");
    let e1 = replace_chars(&sg, &pd, &rd);
    let pa = str_to_chars("(at)");
    let ra = str_to_chars("@");
    let e2 = replace_chars(&e1, &pa, &ra);
    (chars_to_string(&name_t), chars_to_string(&e2))
}

/// Trims a string.
fn trim_string(s: &str) -> (r: String)
    ensures
        r@ == trim_spec(s@),
{
    let v = str_to_chars(s);
    let t = trim_chars(&v);
    chars_to_string(&t)
}

/// The entry's value, or empty for an entry without one, as the reply
/// list records it.
pub open spec fn attr_or_empty(o: Option<Seq<char>>) -> Seq<char> {
    match o {
        None => Seq::<char>::empty(),
        Some(v) => v,
    }
}

/// The reply-id list a navigation dump denotes: each entry's value in
/// presented order, empty for an entry without one.
pub open spec fn spec_replies(nav: Seq<Option<Seq<char>>>) -> Seq<Seq<char>> {
    nav.map_values(|o: Option<Seq<char>>| attr_or_empty(o))
}

/// The attachment list a dump denotes: per header cell with a link, the
/// link's target and its trimmed text, in page order.
pub open spec fn spec_attachments(xs: Seq<Option<(Seq<char>, Seq<char>)>>) -> Seq<
    (Seq<char>, Seq<char>),
>
    decreases xs.len(),
{
    if xs.len() == 0 {
        Seq::empty()
    } else {
        let init = spec_attachments(xs.drop_last());
        match xs.last() {
            Some(p) => init.push((p.0, trim_spec(p.1))),
            None => init,
        }
    }
}

/// The subject row index for a header table of `n` rows (8 or 9).
pub open spec fn spec_subject_row(n: int) -> int {
    if n == 8 {
        2
    } else {
        3
    }
}

/// The date row index for a header table of `n` rows (8 or 9).
pub open spec fn spec_date_row(n: int) -> int {
    if n == 8 {
        3
    } else {
        4
    }
}

/// Why resolving the page fails, in the order the page is examined: no
/// header table, no navigation control, no body container, a row count
/// other than eight or nine, a selected header row without a value cell,
/// or an unparsable header timestamp. `None` when resolution succeeds.
pub open spec fn spec_detail_error(markup: Seq<char>) -> Option<DetailError> {
    if header_cells_of(markup) is None {
        Some(DetailError::MissingHeaderTable)
    } else if nav_values_of(markup) is None {
        Some(DetailError::MissingThreadSelect)
    } else if content_of(markup) is None {
        Some(DetailError::MissingContent)
    } else {
        let rows = header_cells_of(markup)->0;
        if rows.len() != 8 && rows.len() != 9 {
            Some(DetailError::UnrecognizedLayout)
        } else if rows[0] is None || rows[spec_subject_row(rows.len() as int)] is None
            || rows[spec_date_row(rows.len() as int)] is None {
            Some(DetailError::MissingField)
        } else if spec_parse_datetime(trim_spec(rows[spec_date_row(rows.len() as int)]->0))
            is None {
            Some(DetailError::BadTimestamp)
        } else {
            None
        }
    }
}

/// Resolves one thread's full detail from its dedicated message page's
/// markup. Resolution succeeds exactly when the page has a header table, a
/// thread-navigation control and a body container, the header table has
/// eight or nine rows, the from/subject/date rows have value cells, and
/// the date cell parses; each failure names its cause. On success the
/// detail carries the reply ids as advertised, the trimmed body and
/// subject, the attachment links with trimmed labels, and the author
/// split and deobfuscated from the from-row.
pub fn resolve_thread(id: &str, markup: &str) -> (r: Result<EmailThreadDetail, DetailError>)
    ensures
        r is Ok <==> spec_detail_error(markup@) is None,
        r is Err ==> Some(r->Err_0) == spec_detail_error(markup@),
        r is Ok ==> ({
            let rows = header_cells_of(markup@)->0;
            let si = spec_subject_row(rows.len() as int);
            let di = spec_date_row(rows.len() as int);
            let d = r->Ok_0;
            &&& d.id@ == id@
            &&& d.replies.deep_view() == spec_replies(nav_values_of(markup@)->0)
            &&& d.content@ == trim_spec(content_of(markup@)->0)
            &&& d.attachments.deep_view() == spec_attachments(attachments_of(markup@))
            &&& d.author_name@ == spec_author_name(rows[0]->0)
            &&& d.author_email@ == spec_author_email(rows[0]->0)
            &&& d.subject@ == trim_spec(rows[si]->0)
            &&& Some(d.datetime) == spec_parse_datetime(trim_spec(rows[di]->0))
            &&& d.datetime.wf()
        }),
{
    let rows = match header_cells(markup) {
        Some(r) => r,
        None => {
            return Err(DetailError::MissingHeaderTable);
        },
    };
    let nav = match nav_values(markup) {
        Some(v) => v,
        None => {
            return Err(DetailError::MissingThreadSelect);
        },
    };
    let mut replies: Vec<String> = Vec::new();
    let nn = nav.len();
    let mut k: usize = 0;
    proof {
        assert(replies.deep_view() =~= spec_replies(nav.deep_view().take(0)));
    }
    while k < nn
        invariant
            k <= nn,
            nn == nav@.len(),
            nav.deep_view() == nav_values_of(markup@)->0,
            replies.deep_view() == spec_replies(nav.deep_view().take(k as int)),
        decreases nn - k,
    {
        let val = match &nav[k] {
            Some(v) => v.clone(),
            None => String::new(),
        };
        replies.push(val);
        proof {
            let navv = nav.deep_view();
            assert(navv.take(k + 1).drop_last() =~= navv.take(k as int));
            assert(navv.take(k + 1).last() == navv[k as int]);
            assert(replies.deep_view() =~= spec_replies(navv.take(k as int)).push(
                attr_or_empty(navv[k as int]),
            ));
            assert(spec_replies(navv.take(k + 1)) =~= spec_replies(navv.take(k as int)).push(
                attr_or_empty(navv[k as int]),
            ));
        }
        k = k + 1;
    }
    proof {
        assert(nav.deep_view().take(nn as int) =~= nav.deep_view());
    }
    let content_raw = match content_text(markup) {
        Some(c) => c,
        None => {
            return Err(DetailError::MissingContent);
        },
    };
    let content = trim_string(content_raw.as_str());
    let atts = attachment_links(markup);
    let mut attachments: Vec<(String, String)> = Vec::new();
    let na = atts.len();
    let mut j: usize = 0;
    proof {
        assert(attachments.deep_view() =~= spec_attachments(atts.deep_view().take(0)));
    }
    while j < na
        invariant
            j <= na,
            na == atts@.len(),
            atts.deep_view() == attachments_of(markup@),
            attachments.deep_view() == spec_attachments(atts.deep_view().take(j as int)),
        decreases na - j,
    {
        proof {
            let av = atts.deep_view();
            assert(av.take(j + 1).drop_last() =~= av.take(j as int));
            assert(av.take(j + 1).last() == av[j as int]);
        }
        match &atts[j] {
            Some(p) => {
                let label = trim_string(p.1.as_str());
                attachments.push((p.0.clone(), label));
                proof {
                    let av = atts.deep_view();
                    let pv = av[j as int]->0;
                    assert(attachments.deep_view() =~= spec_attachments(av.take(j as int)).push(
                        (pv.0, trim_spec(pv.1)),
                    ));
                }
            },
            None => {},
        }
        j = j + 1;
    }
    proof {
        assert(atts.deep_view().take(na as int) =~= atts.deep_view());
    }
    let layout = match header_layout(rows.len()) {
        Ok(l) => l,
        Err(e) => {
            return Err(e);
        },
    };
    let (fi, si, di) = layout_rows(layout);
    let from_cell = match &rows[fi] {
        Some(c) => c,
        None => {
            return Err(DetailError::MissingField);
        },
    };
    let (author_name, author_email) = parse_author(from_cell.as_str());
    let subj_cell = match &rows[si] {
        Some(c) => c,
        None => {
            return Err(DetailError::MissingField);
        },
    };
    let subject = trim_string(subj_cell.as_str());
    let date_cell = match &rows[di] {
        Some(c) => c,
        None => {
            return Err(DetailError::MissingField);
        },
    };
    let dt_trim = trim_string(date_cell.as_str());
    let dt_chars = str_to_chars(dt_trim.as_str());
    let datetime = match parse_datetime(&dt_chars) {
        Some(t) => t,
        None => {
            return Err(DetailError::BadTimestamp);
        },
    };
    Ok(
        EmailThreadDetail {
            id: id.to_owned(),
            subject,
            datetime,
            author_name,
            author_email,
            content,
            attachments,
            replies,
        },
    )
}

/// Reads the canonical thread-starter id of a message page: the value of
/// the first entry of the thread-navigation control. Fails exactly when
/// the control, its first entry, or that entry's value is absent.
pub fn thread_starter_id(markup: &str) -> (r: Result<String, DetailError>)
    ensures
        (match nav_values_of(markup@) {
            None => r == Result::<String, DetailError>::Err(DetailError::MissingThreadSelect),
            Some(nav) => {
                if nav.len() == 0 {
                    r == Result::<String, DetailError>::Err(DetailError::MissingOption)
                } else {
                    match nav[0] {
                        None => r == Result::<String, DetailError>::Err(
                            DetailError::MissingValue,
                        ),
                        Some(v) => r is Ok && r->Ok_0@ == v,
                    }
                }
            },
        }),
{
    let nav = match nav_values(markup) {
        Some(v) => v,
        None => {
            return Err(DetailError::MissingThreadSelect);
        },
    };
    if nav.len() == 0 {
        return Err(DetailError::MissingOption);
    }
    match &nav[0] {
        Some(v) => Ok(v.clone()),
        None => Err(DetailError::MissingValue),
    }
}

} // verus!
