//! Subject handling: cleaning of listing-row subjects and the
//! thread-starter classifier.

use crate::chars::{
    chars_to_string, is_space, is_space_char, str_eq, str_to_chars, trim_chars, trim_spec,
    trim_end_spec, trim_start_spec, trunc_at, trunc_at_char,
};
use vstd::prelude::*;

verus! {

/// The attachment marker glyph; a listing subject is truncated at its first
/// occurrence.
pub const ATTACH_MARKER: char = '\u{1F4CE}';

/// `s` with every run of white space replaced by a single `' '`; a run at
/// the very start (`prev_ws` true) is dropped entirely.
pub open spec fn collapse_ws(s: Seq<char>, prev_ws: bool) -> Seq<char>
    decreases s.len(),
{
    if s.len() == 0 {
        Seq::empty()
    } else if is_space(s[0]) {
        if prev_ws {
            collapse_ws(s.skip(1), true)
        } else {
            seq![' '] + collapse_ws(s.skip(1), true)
        }
    } else {
        seq![s[0]] + collapse_ws(s.skip(1), false)
    }
}

/// What cleaning a subject yields: trim, truncate at the attachment marker,
/// trim again, and collapse every inner run of white space to one space.
pub open spec fn spec_clean_subject(s: Seq<char>) -> Seq<char> {
    collapse_ws(trim_spec(trunc_at(trim_spec(s), ATTACH_MARKER)), true)
}

/// Cleans a listing row's subject text: trims it, truncates it at the first
/// attachment marker glyph, and collapses every run of white space
/// (embedded newlines included) to a single space.
pub fn clean_subject_title(title: &str) -> (r: String)
    ensures
        r@ == spec_clean_subject(title@),
{
    let v = str_to_chars(title);
    let t1 = trim_chars(&v);
    let t2 = trunc_at_char(&t1, ATTACH_MARKER);
    let t3 = trim_chars(&t2);
    let n = t3.len();
    let mut out: Vec<char> = Vec::new();
    let mut prev_ws: bool = true;
    let mut i: usize = 0;
    proof {
        assert(t3@.skip(0) =~= t3@);
        assert(out@ + collapse_ws(t3@, true) =~= collapse_ws(t3@, true));
    }
    while i < n
        invariant
            i <= n,
            n == t3@.len(),
            collapse_ws(t3@, true) == out@ + collapse_ws(t3@.skip(i as int), prev_ws),
        decreases n - i,
    {
        let c = t3[i];
        proof {
            let rest = t3@.skip(i as int);
            assert(rest[0] == t3@[i as int]);
            assert(rest.skip(1) =~= t3@.skip(i + 1));
        }
        if is_space_char(c) {
            if !prev_ws {
                out.push(' ');
                proof {
                    assert(out@ + collapse_ws(t3@.skip(i + 1), true) =~= (out@.take(
                        out@.len() - 1,
                    ) + (seq![' '] + collapse_ws(t3@.skip(i + 1), true))));
                }
            }
            prev_ws = true;
        } else {
            out.push(c);
            proof {
                assert(out@ + collapse_ws(t3@.skip(i + 1), false) =~= (out@.take(out@.len() - 1)
                    + (seq![t3@[i as int]] + collapse_ws(t3@.skip(i + 1), false))));
            }
            prev_ws = false;
        }
        i = i + 1;
    }
    proof {
        assert(t3@.skip(n as int) =~= Seq::<char>::empty());
        assert(out@ + Seq::<char>::empty() =~= out@);
    }
    chars_to_string(&out)
}

/// `c` does not occur in `s`.
pub open spec fn no_char(s: Seq<char>, c: char) -> bool {
    forall|i: int| 0 <= i < s.len() ==> s[i] != c
}

proof fn lemma_trunc_no_char(s: Seq<char>, c: char)
    ensures
        no_char(trunc_at(s, c), c),
    decreases s.len(),
{
    if s.len() == 0 || s[0] == c {
    } else {
        lemma_trunc_no_char(s.skip(1), c);
        let r = trunc_at(s, c);
        let rest = trunc_at(s.skip(1), c);
        assert forall|i: int| 0 <= i < r.len() implies r[i] != c by {
            if i > 0 {
                assert(r[i] == rest[i - 1]);
            }
        }
    }
}

proof fn lemma_trim_start_no_char(s: Seq<char>, c: char)
    requires
        no_char(s, c),
    ensures
        no_char(trim_start_spec(s), c),
    decreases s.len(),
{
    if s.len() > 0 && is_space(s[0]) {
        assert forall|i: int| 0 <= i < s.skip(1).len() implies s.skip(1)[i] != c by {
            assert(s.skip(1)[i] == s[i + 1]);
        }
        lemma_trim_start_no_char(s.skip(1), c);
    }
}

proof fn lemma_trim_end_no_char(s: Seq<char>, c: char)
    requires
        no_char(s, c),
    ensures
        no_char(trim_end_spec(s), c),
    decreases s.len(),
{
    if s.len() > 0 && is_space(s[s.len() - 1]) {
        let t = s.take(s.len() - 1);
        assert forall|i: int| 0 <= i < t.len() implies t[i] != c by {
            assert(t[i] == s[i]);
        }
        lemma_trim_end_no_char(t, c);
    }
}

proof fn lemma_trim_no_char(s: Seq<char>, c: char)
    requires
        no_char(s, c),
    ensures
        no_char(trim_spec(s), c),
{
    lemma_trim_start_no_char(s, c);
    lemma_trim_end_no_char(trim_start_spec(s), c);
}

proof fn lemma_collapse_no_char(s: Seq<char>, prev: bool, c: char)
    requires
        no_char(s, c),
        c != ' ',
    ensures
        no_char(collapse_ws(s, prev), c),
    decreases s.len(),
{
    if s.len() == 0 {
    } else {
        let t = s.skip(1);
        assert forall|i: int| 0 <= i < t.len() implies t[i] != c by {
            assert(t[i] == s[i + 1]);
        }
        let r = collapse_ws(s, prev);
        if is_space(s[0]) {
            lemma_collapse_no_char(t, true, c);
            if !prev {
                let rest = collapse_ws(t, true);
                assert forall|i: int| 0 <= i < r.len() implies r[i] != c by {
                    if i > 0 {
                        assert(r[i] == rest[i - 1]);
                    }
                }
            }
        } else {
            lemma_collapse_no_char(t, false, c);
            let rest = collapse_ws(t, false);
            assert forall|i: int| 0 <= i < r.len() implies r[i] != c by {
                if i > 0 {
                    assert(r[i] == rest[i - 1]);
                }
            }
        }
    }
}

proof fn lemma_collapse_props(s: Seq<char>, prev: bool)
    ensures
        forall|i: int|
            0 <= i < collapse_ws(s, prev).len() && is_space(#[trigger] collapse_ws(s, prev)[i])
                ==> collapse_ws(s, prev)[i] == ' ',
        forall|i: int|
            0 <= i && i + 1 < collapse_ws(s, prev).len() ==> !((#[trigger] collapse_ws(s, prev)[i])
                == ' ' && collapse_ws(s, prev)[i + 1] == ' '),
        prev ==> (collapse_ws(s, prev).len() == 0 || collapse_ws(s, prev)[0] != ' '),
    decreases s.len(),
{
    if s.len() == 0 {
    } else {
        let t = s.skip(1);
        let r = collapse_ws(s, prev);
        if is_space(s[0]) {
            lemma_collapse_props(t, true);
            if prev {
            } else {
                let rest = collapse_ws(t, true);
                assert forall|i: int|
                    0 <= i < r.len() && is_space(#[trigger] r[i]) implies r[i] == ' ' by {
                    if i > 0 {
                        assert(r[i] == rest[i - 1]);
                    }
                }
                assert forall|i: int|
                    0 <= i && i + 1 < r.len() implies !((#[trigger] r[i]) == ' ' && r[i + 1]
                    == ' ') by {
                    if i == 0 {
                        assert(r[1] == rest[0]);
                    } else {
                        assert(r[i] == rest[i - 1]);
                        assert(r[i + 1] == rest[i]);
                    }
                }
            }
        } else {
            lemma_collapse_props(t, false);
            let rest = collapse_ws(t, false);
            assert(!is_space(r[0]));
            assert forall|i: int|
                0 <= i < r.len() && is_space(#[trigger] r[i]) implies r[i] == ' ' by {
                if i > 0 {
                    assert(r[i] == rest[i - 1]);
                }
            }
            assert forall|i: int|
                0 <= i && i + 1 < r.len() implies !((#[trigger] r[i]) == ' ' && r[i + 1]
                == ' ') by {
                if i == 0 {
                    assert(!is_space(r[0]));
                    assert(is_space(' '));
                } else {
                    assert(r[i] == rest[i - 1]);
                    assert(r[i + 1] == rest[i]);
                }
            }
        }
    }
}

proof fn lemma_trim_end_last(s: Seq<char>)
    requires
        trim_end_spec(s).len() > 0,
    ensures
        !is_space(trim_end_spec(s)[trim_end_spec(s).len() - 1]),
    decreases s.len(),
{
    if s.len() > 0 && is_space(s[s.len() - 1]) {
        lemma_trim_end_last(s.take(s.len() - 1));
    }
}

proof fn lemma_collapse_last(s: Seq<char>, prev: bool)
    requires
        s.len() > 0,
        !is_space(s[s.len() - 1]),
    ensures
        collapse_ws(s, prev).len() > 0,
        collapse_ws(s, prev)[collapse_ws(s, prev).len() - 1] != ' ',
    decreases s.len(),
{
    let t = s.skip(1);
    let r = collapse_ws(s, prev);
    if is_space(s[0]) {
        assert(t.len() > 0 && t[t.len() - 1] == s[s.len() - 1]);
        lemma_collapse_last(t, true);
        let rest = collapse_ws(t, true);
        if !prev {
            assert(r[r.len() - 1] == rest[rest.len() - 1]);
        }
    } else {
        if s.len() == 1 {
            assert(collapse_ws(t, false) =~= Seq::<char>::empty());
            assert(r[0] == s[0]);
            assert(is_space(' '));
        } else {
            assert(t[t.len() - 1] == s[s.len() - 1]);
            lemma_collapse_last(t, false);
            let rest = collapse_ws(t, false);
            assert(r[r.len() - 1] == rest[rest.len() - 1]);
        }
    }
}

/// The shape a cleaned subject always has: the attachment marker is gone
/// (everything from its first occurrence was truncated), every white-space
/// character left is a plain space, no two spaces stand adjacent —
/// embedded newlines and runs of blanks have collapsed to single spaces —
/// and no white space leads or trails.
pub open spec fn cleaned_shape(s: Seq<char>) -> bool {
    &&& no_char(s, ATTACH_MARKER)
    &&& (forall|i: int| 0 <= i < s.len() && is_space(#[trigger] s[i]) ==> s[i] == ' ')
    &&& (forall|i: int| 0 <= i && i + 1 < s.len() ==> !((#[trigger] s[i]) == ' ' && s[i + 1] == ' '))
    &&& (s.len() > 0 ==> s[0] != ' ' && s[s.len() - 1] != ' ')
}

/// Cleaning always yields the cleaned shape.
pub proof fn lemma_clean_subject_shape(s: Seq<char>)
    ensures
        cleaned_shape(spec_clean_subject(s)),
{
    let t1 = trim_spec(s);
    let t2 = trunc_at(t1, ATTACH_MARKER);
    let t3 = trim_spec(t2);
    lemma_trunc_no_char(t1, ATTACH_MARKER);
    lemma_trim_no_char(t2, ATTACH_MARKER);
    lemma_collapse_no_char(t3, true, ATTACH_MARKER);
    lemma_collapse_props(t3, true);
    if t3.len() > 0 {
        lemma_trim_end_last(trim_start_spec(t2));
        lemma_collapse_last(t3, true);
    }
}

/// A subject that opens a reply marker: any case variant of `Re` followed
/// by an ASCII or full-width colon.
pub open spec fn starts_with_reply(s: Seq<char>) -> bool {
    s.len() >= 3 && (s[0] == 'r' || s[0] == 'R') && (s[1] == 'e' || s[1] == 'E') && (s[2] == ':'
        || s[2] == '\u{FF1A}')
}

/// A subject that contains `re:` anywhere, in any case.
pub open spec fn has_re_colon(s: Seq<char>) -> bool {
    exists|i: int|
        0 <= i && i + 3 <= s.len() && (#[trigger] s[i] == 'r' || s[i] == 'R') && (s[i + 1] == 'e'
            || s[i + 1] == 'E') && s[i + 2] == ':'
}

/// How the classifier decides a subject, before any network-backed check.
#[derive(Clone, Copy, PartialEq, Eq, Structural, Debug)]
pub enum StarterVerdict {
    /// The subject opens with a reply marker: not a thread starter.
    Reply,
    /// The subject contains no `re:` at all: a thread starter, decided
    /// without any further lookup.
    Starter,
    /// The subject carries `re:` mid-string (a forwarded reply, say): only
    /// the archive's own thread-navigation control can decide, by comparing
    /// its first entry against this message's id.
    NeedsIdCheck,
}

/// Classifies a subject: rejected outright when it opens with a reply
/// marker, accepted outright when it contains no case variant of `re:`,
/// ambiguous otherwise.
pub fn classify_subject(subject: &str) -> (v: StarterVerdict)
    ensures
        v == (if starts_with_reply(subject@) {
            StarterVerdict::Reply
        } else if !has_re_colon(subject@) {
            StarterVerdict::Starter
        } else {
            StarterVerdict::NeedsIdCheck
        }),
{
    let s = str_to_chars(subject);
    let n = s.len();
    if n < 3 {
        return StarterVerdict::Starter;
    }
    let c0 = s[0];
    let c1 = s[1];
    let c2 = s[2];
    if (c0 == 'r' || c0 == 'R') && (c1 == 'e' || c1 == 'E') && (c2 == ':' || c2 == '\u{FF1A}') {
        return StarterVerdict::Reply;
    }
    let mut i: usize = 0;
    while i <= n - 3
        invariant
            n == s@.len(),
            n >= 3,
            s@ == subject@,
            !starts_with_reply(s@),
            i <= n,
            forall|j: int|
                0 <= j < i ==> !((#[trigger] s@[j] == 'r' || s@[j] == 'R') && (s@[j + 1] == 'e'
                    || s@[j + 1] == 'E') && s@[j + 2] == ':'),
        decreases n - i,
    {
        let d0 = s[i];
        let d1 = s[i + 1];
        let d2 = s[i + 2];
        if (d0 == 'r' || d0 == 'R') && (d1 == 'e' || d1 == 'E') && d2 == ':' {
            proof {
                assert((s@[i as int] == 'r' || s@[i as int] == 'R') && (s@[i as int + 1] == 'e'
                    || s@[i as int + 1] == 'E') && s@[i as int + 2] == ':');
                assert(has_re_colon(s@));
            }
            return StarterVerdict::NeedsIdCheck;
        }
        i = i + 1;
    }
    proof {
        if has_re_colon(s@) {
            let j = choose|j: int|
                0 <= j && j + 3 <= s@.len() && (#[trigger] s@[j] == 'r' || s@[j] == 'R') && (s@[j
                    + 1] == 'e' || s@[j + 1] == 'E') && s@[j + 2] == ':';
            assert(j < i);
            assert(false);
        }
    }
    StarterVerdict::Starter
}

/// Resolves the ambiguous case: a message starts its thread exactly when
/// the first entry of the archive's thread-navigation control is the
/// message itself.
pub fn is_thread_starter_by_id(id: &str, thread_first_id: &str) -> (r: bool)
    ensures
        r == (id@ == thread_first_id@),
{
    str_eq(id, thread_first_id)
}

} // verus!
