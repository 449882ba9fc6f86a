//! Character-sequence utilities: whitespace and digit classification,
//! trimming, prefix stripping, substring replacement, and conversions
//! between strings and character vectors.

use vstd::prelude::*;

verus! {

/// The Unicode white-space code points, as classified by
/// `char::is_whitespace`.
pub open spec fn is_space(c: char) -> bool {
    (c as u32) == 0x20 || (c as u32) == 0x09 || (c as u32) == 0x0A || (c as u32) == 0x0B
        || (c as u32) == 0x0C || (c as u32) == 0x0D || (c as u32) == 0x85 || (c as u32) == 0xA0
        || (c as u32) == 0x1680 || (0x2000 <= (c as u32) && (c as u32) <= 0x200A)
        || (c as u32) == 0x2028 || (c as u32) == 0x2029 || (c as u32) == 0x202F
        || (c as u32) == 0x205F || (c as u32) == 0x3000
}

/// Decides Unicode white space.
pub fn is_space_char(c: char) -> (r: bool)
    ensures
        r == is_space(c),
{
    let u = c as u32;
    u == 0x20 || u == 0x09 || u == 0x0A || u == 0x0B || u == 0x0C || u == 0x0D || u == 0x85
        || u == 0xA0 || u == 0x1680 || (0x2000 <= u && u <= 0x200A) || u == 0x2028 || u == 0x2029
        || u == 0x202F || u == 0x205F || u == 0x3000
}

pub open spec fn is_digit(c: char) -> bool {
    0x30 <= (c as u32) && (c as u32) <= 0x39
}

/// Numeric value of a decimal digit character.
pub open spec fn digit_val(c: char) -> int {
    (c as u32) - 0x30
}

/// Decides whether `c` is an ASCII decimal digit.
pub fn is_digit_char(c: char) -> (r: bool)
    ensures
        r == is_digit(c),
{
    let u = c as u32;
    0x30 <= u && u <= 0x39
}

/// Numeric value of a decimal digit character.
pub fn digit_of(c: char) -> (r: u32)
    requires
        is_digit(c),
    ensures
        r == digit_val(c),
        r <= 9,
{
    (c as u32) - 0x30
}

/// `s` without its leading white space.
pub open spec fn trim_start_spec(s: Seq<char>) -> Seq<char>
    decreases s.len(),
{
    if s.len() > 0 && is_space(s[0]) {
        trim_start_spec(s.skip(1))
    } else {
        s
    }
}

/// `s` without its trailing white space.
pub open spec fn trim_end_spec(s: Seq<char>) -> Seq<char>
    decreases s.len(),
{
    if s.len() > 0 && is_space(s[s.len() - 1]) {
        trim_end_spec(s.take(s.len() - 1))
    } else {
        s
    }
}

/// `s` without leading and trailing white space, as `str::trim` leaves it.
pub open spec fn trim_spec(s: Seq<char>) -> Seq<char> {
    trim_end_spec(trim_start_spec(s))
}

proof fn lemma_trim_start_at(s: Seq<char>, i: int)
    requires
        0 <= i <= s.len(),
        forall|k: int| 0 <= k < i ==> is_space(s[k]),
        i == s.len() || !is_space(s[i]),
    ensures
        trim_start_spec(s) == s.skip(i),
    decreases i,
{
    if i == 0 {
        assert(s.skip(0) =~= s);
    } else {
        assert(is_space(s[0]));
        let t = s.skip(1);
        assert(forall|k: int| 0 <= k < i - 1 ==> is_space(t[k]));
        lemma_trim_start_at(t, i - 1);
        assert(t.skip(i - 1) =~= s.skip(i));
    }
}

proof fn lemma_trim_end_at(s: Seq<char>, j: int)
    requires
        0 <= j <= s.len(),
        forall|k: int| j <= k < s.len() ==> is_space(s[k]),
        j == 0 || !is_space(s[j - 1]),
    ensures
        trim_end_spec(s) == s.take(j),
    decreases s.len() - j,
{
    if j == s.len() {
        assert(s.take(j) =~= s);
    } else {
        assert(is_space(s[s.len() - 1]));
        let t = s.take(s.len() - 1);
        assert(forall|k: int| j <= k < t.len() ==> is_space(t[k]));
        lemma_trim_end_at(t, j);
        assert(t.take(j) =~= s.take(j));
    }
}

/// Removes leading and trailing white space.
pub fn trim_chars(v: &Vec<char>) -> (r: Vec<char>)
    ensures
        r@ == trim_spec(v@),
{
    let mut start: usize = 0;
    while start < v.len() && is_space_char(v[start])
        invariant
            start <= v@.len(),
            forall|k: int| 0 <= k < start ==> is_space(v@[k]),
        decreases v@.len() - start,
    {
        start = start + 1;
    }
    let mut end: usize = v.len();
    while end > start && is_space_char(v[end - 1])
        invariant
            start <= end <= v@.len(),
            forall|k: int| end <= k < v@.len() ==> is_space(v@[k]),
            end < v@.len() ==> !is_space(v@[start as int]) || start == end,
            start == v@.len() ==> end == start,
            start < v@.len() ==> !is_space(v@[start as int]),
        decreases end,
    {
        end = end - 1;
    }
    proof {
        lemma_trim_start_at(v@, start as int);
        let t = v@.skip(start as int);
        assert(forall|k: int| end - start <= k < t.len() ==> is_space(t[k]));
        lemma_trim_end_at(t, end - start);
    }
    let mut r: Vec<char> = Vec::new();
    let mut i: usize = start;
    while i < end
        invariant
            start <= i <= end <= v@.len(),
            r@ == v@.subrange(start as int, i as int),
        decreases end - i,
    {
        let c = v[i];
        r.push(c);
        proof {
            assert(r@ =~= v@.subrange(start as int, i + 1 as int));
        }
        i = i + 1;
    }
    proof {
        assert(v@.subrange(start as int, end as int) =~= v@.skip(start as int).take(
            end - start as int,
        ));
    }
    r
}

/// `s` with every leading repetition of `p` removed, as
/// `str::trim_start_matches` leaves it.
pub open spec fn strip_prefix_spec(s: Seq<char>, p: Seq<char>) -> Seq<char>
    decreases s.len(),
    when p.len() > 0
{
    if s.len() >= p.len() && p.len() > 0 && s.subrange(0, p.len() as int) == p {
        strip_prefix_spec(s.skip(p.len() as int), p)
    } else {
        s
    }
}

/// Decides whether `p` occurs in `v` starting at position `i`.
pub fn match_at(v: &Vec<char>, i: usize, p: &Vec<char>) -> (r: bool)
    requires
        i <= v@.len(),
    ensures
        r == (i + p@.len() <= v@.len() && v@.subrange(i as int, i + p@.len()) == p@),
{
    let n = v.len();
    let m = p.len();
    if m > n - i {
        return false;
    }
    let mut j: usize = 0;
    while j < m
        invariant
            j <= m,
            n == v@.len(),
            m == p@.len(),
            i + m <= n,
            forall|k: int| 0 <= k < j ==> v@[i + k] == p@[k],
        decreases m - j,
    {
        if v[i + j] != p[j] {
            proof {
                assert(v@.subrange(i as int, i + p@.len())[j as int] != p@[j as int]);
            }
            return false;
        }
        j = j + 1;
    }
    proof {
        assert(v@.subrange(i as int, i + p@.len()) =~= p@);
    }
    true
}

/// Removes every leading repetition of `p` from `v`.
pub fn strip_prefix_chars(v: &Vec<char>, p: &Vec<char>) -> (r: Vec<char>)
    requires
        p@.len() > 0,
    ensures
        r@ == strip_prefix_spec(v@, p@),
{
    let n = v.len();
    let mut i: usize = 0;
    proof {
        assert(v@.skip(0) =~= v@);
    }
    while match_at(v, i, p)
        invariant
            i <= n,
            n == v@.len(),
            p@.len() > 0,
            strip_prefix_spec(v@.skip(i as int), p@) == strip_prefix_spec(v@, p@),
        decreases v@.len() - i,
    {
        proof {
            assert(v@.skip(i as int).subrange(0, p@.len() as int) =~= v@.subrange(
                i as int,
                i + p@.len(),
            ));
            assert(v@.skip(i as int).skip(p@.len() as int) =~= v@.skip(i + p@.len()));
        }
        i = i + p.len();
    }
    proof {
        if i + p@.len() <= v@.len() {
            assert(v@.skip(i as int).subrange(0, p@.len() as int) =~= v@.subrange(
                i as int,
                i + p@.len(),
            ));
        }
        assert(strip_prefix_spec(v@.skip(i as int), p@) == v@.skip(i as int));
    }
    let mut r: Vec<char> = Vec::new();
    let mut k: usize = i;
    while k < v.len()
        invariant
            i <= k <= v@.len(),
            r@ == v@.subrange(i as int, k as int),
        decreases v@.len() - k,
    {
        let c = v[k];
        r.push(c);
        proof {
            assert(r@ =~= v@.subrange(i as int, k + 1 as int));
        }
        k = k + 1;
    }
    proof {
        assert(v@.subrange(i as int, v@.len() as int) =~= v@.skip(i as int));
    }
    r
}

/// `s` with every non-overlapping occurrence of `pat`, scanned from the
/// left, replaced by `rep`, as `str::replace` leaves it.
pub open spec fn replace_spec(s: Seq<char>, pat: Seq<char>, rep: Seq<char>) -> Seq<char>
    decreases s.len(),
    when pat.len() > 0
{
    if s.len() < pat.len() {
        s
    } else if s.subrange(0, pat.len() as int) == pat {
        rep + replace_spec(s.skip(pat.len() as int), pat, rep)
    } else {
        seq![s[0]] + replace_spec(s.skip(1), pat, rep)
    }
}

/// Replaces every occurrence of `pat` by `rep`, scanning from the left.
pub fn replace_chars(v: &Vec<char>, pat: &Vec<char>, rep: &Vec<char>) -> (r: Vec<char>)
    requires
        pat@.len() > 0,
    ensures
        r@ == replace_spec(v@, pat@, rep@),
{
    let mut r: Vec<char> = Vec::new();
    let mut i: usize = 0;
    proof {
        assert(v@.skip(0) =~= v@);
        assert(r@ + replace_spec(v@, pat@, rep@) =~= replace_spec(v@, pat@, rep@));
    }
    while i < v.len()
        invariant
            i <= v@.len(),
            pat@.len() > 0,
            r@ + replace_spec(v@.skip(i as int), pat@, rep@) == replace_spec(v@, pat@, rep@),
        decreases v@.len() - i,
    {
        if match_at(v, i, pat) {
            proof {
                assert(v@.skip(i as int).subrange(0, pat@.len() as int) =~= v@.subrange(
                    i as int,
                    i + pat@.len(),
                ));
                assert(v@.skip(i as int).skip(pat@.len() as int) =~= v@.skip(i + pat@.len()));
            }
            let mut j: usize = 0;
            let ghost r0 = r@;
            while j < rep.len()
                invariant
                    j <= rep@.len(),
                    r@ == r0 + rep@.take(j as int),
                decreases rep@.len() - j,
            {
                let c = rep[j];
                r.push(c);
                proof {
                    assert(r@ =~= r0 + rep@.take(j + 1 as int));
                }
                j = j + 1;
            }
            proof {
                assert(rep@.take(rep@.len() as int) =~= rep@);
                assert(r@ + replace_spec(v@.skip(i + pat@.len()), pat@, rep@) =~= r0 + (rep@
                    + replace_spec(v@.skip(i + pat@.len()), pat@, rep@)));
            }
            i = i + pat.len();
        } else {
            let c = v[i];
            proof {
                let t = v@.skip(i as int);
                if t.len() >= pat@.len() {
                    assert(t.subrange(0, pat@.len() as int) =~= v@.subrange(
                        i as int,
                        i + pat@.len(),
                    ));
                }
                assert(t.skip(1) =~= v@.skip(i + 1));
                assert(seq![t[0]] =~= v@.subrange(i as int, i + 1));
            }
            r.push(c);
            proof {
                assert(r@ + replace_spec(v@.skip(i + 1), pat@, rep@) =~= (r@.take(r@.len() - 1)
                    + (seq![v@[i as int]] + replace_spec(v@.skip(i + 1), pat@, rep@))));
            }
            i = i + 1;
        }
    }
    proof {
        assert(v@.skip(v@.len() as int) =~= Seq::<char>::empty());
        assert(r@ + Seq::<char>::empty() =~= r@);
    }
    r
}

/// The characters of `s`, in order.
pub fn str_to_chars(s: &str) -> (r: Vec<char>)
    ensures
        r@ == s@,
{
    let n = s.unicode_len();
    let mut r: Vec<char> = Vec::new();
    let mut i: usize = 0;
    while i < n
        invariant
            i <= n,
            n == s@.len(),
            r@ == s@.take(i as int),
        decreases n - i,
    {
        let c = s.get_char(i);
        r.push(c);
        proof {
            assert(r@ =~= s@.take(i + 1 as int));
        }
        i = i + 1;
    }
    proof {
        assert(s@.take(n as int) =~= s@);
    }
    r
}

/// Relies on `String::from_iter` over `Iterator::cloned`: collecting
/// characters concatenates them in order.
#[verifier::external_body]
pub fn chars_to_string(v: &Vec<char>) -> (s: String)
    ensures
        s@ == v@,
{
    v.iter().collect()
}

/// The prefix of `s` before the first occurrence of `c`; all of `s` when `c`
/// does not occur.
pub open spec fn trunc_at(s: Seq<char>, c: char) -> Seq<char>
    decreases s.len(),
{
    if s.len() == 0 {
        s
    } else if s[0] == c {
        Seq::empty()
    } else {
        seq![s[0]] + trunc_at(s.skip(1), c)
    }
}

proof fn lemma_trunc_at_scan(s: Seq<char>, c: char, i: int)
    requires
        0 <= i <= s.len(),
        forall|k: int| 0 <= k < i ==> s[k] != c,
        i == s.len() || s[i] == c,
    ensures
        trunc_at(s, c) == s.take(i),
    decreases i,
{
    if i == 0 {
        assert(s.take(0) =~= Seq::<char>::empty());
        if s.len() > 0 {
            assert(s[0] == c);
        } else {
            assert(s.take(0) =~= s);
        }
    } else {
        let t = s.skip(1);
        assert(forall|k: int| 0 <= k < i - 1 ==> t[k] != c);
        assert(i - 1 == t.len() || t[i - 1] == c);
        lemma_trunc_at_scan(t, c, i - 1);
        assert(seq![s[0]] + t.take(i - 1) =~= s.take(i));
    }
}

/// Truncates at the first occurrence of `c`.
pub fn trunc_at_char(v: &Vec<char>, c: char) -> (r: Vec<char>)
    ensures
        r@ == trunc_at(v@, c),
{
    let n = v.len();
    let mut r: Vec<char> = Vec::new();
    let mut i: usize = 0;
    while i < n
        invariant
            i <= n,
            n == v@.len(),
            r@ == v@.take(i as int),
            forall|k: int| 0 <= k < i ==> v@[k] != c,
        decreases n - i,
    {
        let x = v[i];
        if x == c {
            proof {
                lemma_trunc_at_scan(v@, c, i as int);
            }
            return r;
        }
        r.push(x);
        proof {
            assert(r@ =~= v@.take(i + 1 as int));
        }
        i = i + 1;
    }
    proof {
        lemma_trunc_at_scan(v@, c, n as int);
    }
    r
}

/// The suffix of `s` after the first occurrence of `c`; `None` when `c`
/// does not occur.
pub open spec fn after_char(s: Seq<char>, c: char) -> Option<Seq<char>>
    decreases s.len(),
{
    if s.len() == 0 {
        None
    } else if s[0] == c {
        Some(s.skip(1))
    } else {
        after_char(s.skip(1), c)
    }
}

proof fn lemma_after_char_found(s: Seq<char>, c: char, i: int)
    requires
        0 <= i < s.len(),
        forall|k: int| 0 <= k < i ==> s[k] != c,
        s[i] == c,
    ensures
        after_char(s, c) == Some(s.skip(i + 1)),
    decreases i,
{
    if i == 0 {
        assert(s[0] == c);
    } else {
        let t = s.skip(1);
        assert(forall|k: int| 0 <= k < i - 1 ==> t[k] != c);
        assert(t[i - 1] == c);
        lemma_after_char_found(t, c, i - 1);
        assert(t.skip(i) =~= s.skip(i + 1));
    }
}

proof fn lemma_after_char_none(s: Seq<char>, c: char)
    requires
        forall|k: int| 0 <= k < s.len() ==> s[k] != c,
    ensures
        after_char(s, c) is None,
    decreases s.len(),
{
    if s.len() > 0 {
        let t = s.skip(1);
        assert(forall|k: int| 0 <= k < t.len() ==> t[k] != c);
        lemma_after_char_none(t, c);
    }
}

/// The segment of `v` after the first occurrence of `c` and before the next
/// occurrence of `c`, as the second element of splitting on `c` yields it;
/// empty when `c` does not occur.
pub fn segment_after_char(v: &Vec<char>, c: char) -> (r: Vec<char>)
    ensures
        r@ == (match after_char(v@, c) {
            Option::None => Seq::<char>::empty(),
            Option::Some(t) => trunc_at(t, c),
        }),
{
    let n = v.len();
    let mut i1: usize = 0;
    while i1 < n && v[i1] != c
        invariant
            i1 <= n,
            n == v@.len(),
            forall|k: int| 0 <= k < i1 ==> v@[k] != c,
        decreases n - i1,
    {
        i1 = i1 + 1;
    }
    if i1 == n {
        proof {
            lemma_after_char_none(v@, c);
        }
        let r: Vec<char> = Vec::new();
        return r;
    }
    proof {
        lemma_after_char_found(v@, c, i1 as int);
    }
    let mut rest: Vec<char> = Vec::new();
    let mut k: usize = i1 + 1;
    while k < n
        invariant
            i1 + 1 <= k <= n,
            n == v@.len(),
            rest@ == v@.subrange(i1 + 1, k as int),
        decreases n - k,
    {
        let x = v[k];
        rest.push(x);
        proof {
            assert(rest@ =~= v@.subrange(i1 + 1, k + 1 as int));
        }
        k = k + 1;
    }
    proof {
        assert(rest@ =~= v@.skip(i1 + 1));
    }
    trunc_at_char(&rest, c)
}

/// `s` with every trailing `c` removed, as `str::trim_end_matches` leaves
/// it for a single-character pattern.
pub open spec fn strip_trailing(s: Seq<char>, c: char) -> Seq<char>
    decreases s.len(),
{
    if s.len() > 0 && s[s.len() - 1] == c {
        strip_trailing(s.drop_last(), c)
    } else {
        s
    }
}

proof fn lemma_strip_trailing_at(s: Seq<char>, c: char, j: int)
    requires
        0 <= j <= s.len(),
        forall|k: int| j <= k < s.len() ==> s[k] == c,
        j == 0 || s[j - 1] != c,
    ensures
        strip_trailing(s, c) == s.take(j),
    decreases s.len() - j,
{
    if j == s.len() {
        assert(s.take(j) =~= s);
    } else {
        assert(s[s.len() - 1] == c);
        let t = s.drop_last();
        assert(t =~= s.take(s.len() - 1));
        assert(forall|k: int| j <= k < t.len() ==> t[k] == c);
        lemma_strip_trailing_at(t, c, j);
        assert(t.take(j) =~= s.take(j));
    }
}

/// Removes every trailing `c`.
pub fn strip_trailing_char(v: &Vec<char>, c: char) -> (r: Vec<char>)
    ensures
        r@ == strip_trailing(v@, c),
{
    let mut end: usize = v.len();
    while end > 0 && v[end - 1] == c
        invariant
            end <= v@.len(),
            forall|k: int| end <= k < v@.len() ==> v@[k] == c,
        decreases end,
    {
        end = end - 1;
    }
    proof {
        lemma_strip_trailing_at(v@, c, end as int);
    }
    let mut r: Vec<char> = Vec::new();
    let mut i: usize = 0;
    while i < end
        invariant
            i <= end <= v@.len(),
            r@ == v@.subrange(0, i as int),
        decreases end - i,
    {
        let x = v[i];
        r.push(x);
        proof {
            assert(r@ =~= v@.subrange(0, i + 1 as int));
        }
        i = i + 1;
    }
    proof {
        assert(v@.subrange(0, end as int) =~= v@.take(end as int));
    }
    r
}

/// Decides whether the characters of `v` at `from..to` spell `s`.
pub fn range_eq_lit(v: &Vec<char>, from: usize, to: usize, s: &str) -> (r: bool)
    requires
        from <= to <= v@.len(),
    ensures
        r == (v@.subrange(from as int, to as int) == s@),
{
    let m = s.unicode_len();
    if to - from != m {
        return false;
    }
    let mut k: usize = 0;
    while k < m
        invariant
            k <= m,
            m == s@.len(),
            from + m == to <= v@.len(),
            forall|j: int| 0 <= j < k ==> v@[from + j] == s@[j],
        decreases m - k,
    {
        if v[from + k] != s.get_char(k) {
            proof {
                assert(v@.subrange(from as int, to as int)[k as int] != s@[k as int]);
            }
            return false;
        }
        k = k + 1;
    }
    proof {
        assert(v@.subrange(from as int, to as int) =~= s@);
    }
    true
}

/// Decides string equality.
pub fn str_eq(a: &str, b: &str) -> (r: bool)
    ensures
        r == (a@ == b@),
{
    let na = a.unicode_len();
    let nb = b.unicode_len();
    if na != nb {
        return false;
    }
    let mut i: usize = 0;
    while i < na
        invariant
            i <= na,
            na == a@.len(),
            na == b@.len(),
            forall|k: int| 0 <= k < i ==> a@[k] == b@[k],
        decreases na - i,
    {
        if a.get_char(i) != b.get_char(i) {
            return false;
        }
        i = i + 1;
    }
    proof {
        assert(a@ =~= b@);
    }
    true
}

} // verus!
