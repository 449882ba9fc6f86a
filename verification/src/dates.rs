//! Calendar model for the archive: dates, minute/second timestamps, the
//! formats the archive uses (`YYYYMMDD` range days, `"<Month> <day>, <year>"`
//! listing headings, `HH:MM` row times, `YYYY-MM-DD HH:MM:SS` detail
//! timestamps), and a total order on timestamps.

use crate::chars::{
    digit_of, digit_val, is_digit, is_digit_char, is_space, is_space_char, range_eq_lit,
};
use vstd::prelude::*;

verus! {

/// A calendar date; well-formed values satisfy [`Date::wf`].
#[derive(Clone, Copy, PartialEq, Eq, Structural, Debug)]
pub struct Date {
    pub year: u32,
    pub month: u32,
    pub day: u32,
}

/// A timestamp at second granularity.
#[derive(Clone, Copy, PartialEq, Eq, Structural, Debug)]
pub struct Timestamp {
    pub date: Date,
    pub hour: u32,
    pub minute: u32,
    pub second: u32,
}

pub open spec fn spec_is_leap_year(y: int) -> bool {
    (y % 4 == 0 && y % 100 != 0) || y % 400 == 0
}

/// Number of days of month `m` of year `y` in the Gregorian calendar.
pub open spec fn spec_days_in_month(y: int, m: int) -> int {
    if m == 2 {
        if spec_is_leap_year(y) {
            29
        } else {
            28
        }
    } else if m == 4 || m == 6 || m == 9 || m == 11 {
        30
    } else {
        31
    }
}

/// Decides whether `y` is a leap year.
pub fn is_leap_year(y: u32) -> (r: bool)
    ensures
        r == spec_is_leap_year(y as int),
{
    (y % 4 == 0 && y % 100 != 0) || y % 400 == 0
}

/// Number of days of month `m` of year `y`.
pub fn days_in_month(y: u32, m: u32) -> (r: u32)
    ensures
        r == spec_days_in_month(y as int, m as int),
{
    if m == 2 {
        if is_leap_year(y) {
            29
        } else {
            28
        }
    } else if m == 4 || m == 6 || m == 9 || m == 11 {
        30
    } else {
        31
    }
}

impl Date {
    /// A calendar-valid date within the four-digit-year range the archive
    /// serves.
    pub open spec fn wf(self) -> bool {
        self.year <= 9999 && 1 <= self.month <= 12 && 1 <= self.day <= spec_days_in_month(
            self.year as int,
            self.month as int,
        )
    }

    /// Injective, order-preserving encoding of a date as an integer.
    pub open spec fn key(self) -> int {
        ((self.year as int) * 13 + (self.month as int)) * 32 + (self.day as int)
    }
}

impl Timestamp {
    pub open spec fn wf(self) -> bool {
        self.date.wf() && self.hour < 24 && self.minute < 60 && self.second < 60
    }

    /// Number of seconds within the day.
    pub open spec fn time_key(self) -> int {
        (self.hour as int) * 3600 + (self.minute as int) * 60 + (self.second as int)
    }

    /// Injective, order-preserving encoding of a timestamp as an integer:
    /// two well-formed timestamps compare by `key` exactly as they compare
    /// chronologically.
    pub open spec fn key(self) -> int {
        self.date.key() * 86400 + self.time_key()
    }

    /// The encoding, computed. Well-formed timestamps fit comfortably.
    pub fn key64(&self) -> (r: u64)
        requires
            self.wf(),
        ensures
            r == self.key(),
    {
        let dk: u64 = ((self.date.year as u64) * 13 + (self.date.month as u64)) * 32
            + (self.date.day as u64);
        dk * 86400 + (self.hour as u64) * 3600 + (self.minute as u64) * 60 + (self.second as u64)
    }
}

/// Chronological comparison of well-formed timestamps.
pub fn ts_le(a: &Timestamp, b: &Timestamp) -> (r: bool)
    requires
        a.wf(),
        b.wf(),
    ensures
        r == (a.key() <= b.key()),
{
    a.key64() <= b.key64()
}

/// The fallback timestamp used when a listing row's time cannot be parsed.
pub open spec fn epoch() -> Timestamp {
    Timestamp { date: Date { year: 1970, month: 1, day: 1 }, hour: 0, minute: 0, second: 0 }
}

/// Midnight at the start of `d`.
pub open spec fn start_of_day(d: Date) -> Timestamp {
    Timestamp { date: d, hour: 0, minute: 0, second: 0 }
}

/// The last second of `d`.
pub open spec fn end_of_day(d: Date) -> Timestamp {
    Timestamp { date: d, hour: 23, minute: 59, second: 59 }
}

/// The later of two timestamps, by key.
pub open spec fn ts_max(a: Timestamp, b: Timestamp) -> Timestamp {
    if b.key() > a.key() {
        b
    } else {
        a
    }
}

/// The calendar successor of a well-formed date.
pub open spec fn day_after(d: Date) -> Date {
    if d.day < spec_days_in_month(d.year as int, d.month as int) {
        Date { year: d.year, month: d.month, day: (d.day + 1) as u32 }
    } else if d.month < 12 {
        Date { year: d.year, month: (d.month + 1) as u32, day: 1 }
    } else {
        Date { year: (d.year + 1) as u32, month: 1, day: 1 }
    }
}

/// Whether `t` lies within the whole days `a` through `b` inclusive: on or
/// after `a`'s midnight and not after `b`'s last second. This is exactly
/// the window a crawl over `[a, b]` covers.
pub open spec fn in_day_range(t: Timestamp, a: Date, b: Date) -> bool {
    start_of_day(a).key() <= t.key() <= end_of_day(b).key()
}

/// Among well-formed dates, `day_after(d)` is `d`'s immediate successor in
/// `key` order: any well-formed date beyond `d` is at or beyond it.
proof fn lemma_date_key_next(d: Date, e: Date)
    requires
        d.wf(),
        e.wf(),
        day_after(d).wf(),
        e.key() > d.key(),
    ensures
        e.key() >= day_after(d).key(),
{
    let s = day_after(d);
    let ymd = (d.year as int) * 13 + (d.month as int);
    let yme = (e.year as int) * 13 + (e.month as int);
    if yme == ymd {
        assert(e.year == d.year && e.month == d.month) by {
            if e.year != d.year {
                assert(e.month as int == ymd - (e.year as int) * 13);
            }
        }
        assert(e.day > d.day);
        assert(d.day < spec_days_in_month(d.year as int, d.month as int));
    } else {
        assert(yme >= ymd + 1);
        if d.day < spec_days_in_month(d.year as int, d.month as int) {
            assert(s.key() == d.key() + 1);
            assert(e.key() >= (ymd + 1) * 32 + 1);
        } else if d.month < 12 {
            assert(s.key() == (ymd + 1) * 32 + 1);
            assert(e.key() >= (ymd + 1) * 32 + 1);
        } else {
            // December: the successor's year-month key jumps by two, and no
            // well-formed date occupies the value in between.
            assert(s.key() == (ymd + 2) * 32 + 1);
            assert(yme != ymd + 1) by {
                if yme == ymd + 1 {
                    assert((e.year as int) * 13 + (e.month as int) == (d.year as int) * 13 + 13);
                    assert((e.month as int) == 13 * ((d.year as int) + 1 - (e.year as int)));
                    assert(1 <= e.month <= 12);
                    assert(false);
                }
            }
            assert(yme >= ymd + 2);
            assert(e.key() >= (ymd + 2) * 32 + 1);
        }
    }
}

/// A well-formed timestamp past the last second of day `d` is no earlier
/// than the midnight of the following day: days leave no gap between them.
proof fn lemma_no_instant_between_days(d: Date, t: Timestamp)
    requires
        d.wf(),
        t.wf(),
        day_after(d).wf(),
        t.key() > end_of_day(d).key(),
    ensures
        t.key() >= start_of_day(day_after(d)).key(),
{
    assert(t.time_key() <= 86399);
    assert(end_of_day(d).time_key() == 86399);
    assert(t.date.key() > d.key());
    lemma_date_key_next(d, t.date);
}

/// A date's key grows from one day to the next.
proof fn lemma_day_after_grows(d: Date)
    requires
        d.wf(),
    ensures
        d.key() < day_after(d).key(),
{
}

/// Three consecutive whole days partition their three-day span: a
/// well-formed timestamp lies in the single range `[d1, d3]` exactly when
/// it lies in one of the day ranges `[d1, d1]`, `[d2, d2]`, `[d3, d3]`.
/// This is the windowing half of range idempotence: crawling three
/// consecutive days one by one covers the same instants as crawling the
/// whole range at once, with no instant covered twice.
pub proof fn lemma_consecutive_day_windows(t: Timestamp, d1: Date, d2: Date, d3: Date)
    requires
        t.wf(),
        d1.wf(),
        d2.wf(),
        d3.wf(),
        d2 == day_after(d1),
        d3 == day_after(d2),
    ensures
        (in_day_range(t, d1, d1) || in_day_range(t, d2, d2) || in_day_range(t, d3, d3))
            <==> in_day_range(t, d1, d3),
        !(in_day_range(t, d1, d1) && in_day_range(t, d2, d2)),
        !(in_day_range(t, d2, d2) && in_day_range(t, d3, d3)),
{
    lemma_day_after_grows(d1);
    lemma_day_after_grows(d2);
    if in_day_range(t, d1, d3) {
        if t.key() > end_of_day(d1).key() {
            lemma_no_instant_between_days(d1, t);
        }
        if t.key() > end_of_day(d2).key() {
            lemma_no_instant_between_days(d2, t);
        }
    }
}

/// Value of the two digit characters at `i`, `i + 1`.
pub open spec fn num2(s: Seq<char>, i: int) -> int {
    digit_val(s[i]) * 10 + digit_val(s[i + 1])
}

/// Value of the four digit characters starting at `i`.
pub open spec fn num4(s: Seq<char>, i: int) -> int {
    num2(s, i) * 100 + num2(s, i + 2)
}

pub open spec fn digits_at(s: Seq<char>, from: int, to: int) -> bool {
    forall|k: int| from <= k < to ==> is_digit(s[k])
}

/// The date denoted by an eight-digit `YYYYMMDD` day string, if the string
/// has that shape and the date is calendar-valid.
pub open spec fn spec_parse_day(s: Seq<char>) -> Option<Date> {
    if s.len() == 8 && digits_at(s, 0, 8) {
        let d = Date { year: num4(s, 0) as u32, month: num2(s, 4) as u32, day: num2(s, 6) as u32 };
        if d.wf() {
            Some(d)
        } else {
            None
        }
    } else {
        None
    }
}

/// Reads the two digit characters at `i`, `i + 1`.
fn read2(v: &Vec<char>, i: usize) -> (r: u32)
    requires
        i + 2 <= v@.len(),
        digits_at(v@, i as int, i + 2),
    ensures
        r == num2(v@, i as int),
        r <= 99,
{
    let n = v.len();
    proof {
        assert(i + 2 <= n);
    }
    digit_of(v[i]) * 10 + digit_of(v[i + 1])
}

/// Reads the four digit characters starting at `i`.
fn read4(v: &Vec<char>, i: usize) -> (r: u32)
    requires
        i + 4 <= v@.len(),
        digits_at(v@, i as int, i + 4),
    ensures
        r == num4(v@, i as int),
        r <= 9999,
{
    let n = v.len();
    proof {
        assert(i + 4 <= n);
    }
    read2(v, i) * 100 + read2(v, i + 2)
}

/// Checks that positions `from..to` hold digit characters.
fn check_digits(v: &Vec<char>, from: usize, to: usize) -> (r: bool)
    requires
        from <= to <= v@.len(),
    ensures
        r == digits_at(v@, from as int, to as int),
{
    let mut i: usize = from;
    while i < to
        invariant
            from <= i <= to <= v@.len(),
            digits_at(v@, from as int, i as int),
        decreases to - i,
    {
        if !is_digit_char(v[i]) {
            return false;
        }
        i = i + 1;
    }
    true
}

/// Parses an eight-digit `YYYYMMDD` day string.
pub fn parse_day(s: &str) -> (r: Option<Date>)
    ensures
        r == spec_parse_day(s@),
        r is Some ==> r->0.wf(),
{
    let v = crate::chars::str_to_chars(s);
    if v.len() != 8 || !check_digits(&v, 0, 8) {
        return None;
    }
    let d = Date { year: read4(&v, 0), month: read2(&v, 4), day: read2(&v, 6) };
    if 1 <= d.month && d.month <= 12 && 1 <= d.day && d.day <= days_in_month(d.year, d.month) {
        Some(d)
    } else {
        None
    }
}

/// First position at or after `i` that does not hold white space.
pub open spec fn scan_ws(s: Seq<char>, i: int) -> int
    decreases s.len() - i,
    when 0 <= i <= s.len()
{
    if i < s.len() && is_space(s[i]) {
        scan_ws(s, i + 1)
    } else {
        i
    }
}

/// First position at or after `i` that does not hold a digit.
pub open spec fn scan_digits(s: Seq<char>, i: int) -> int
    decreases s.len() - i,
    when 0 <= i <= s.len()
{
    if i < s.len() && is_digit(s[i]) {
        scan_digits(s, i + 1)
    } else {
        i
    }
}

/// First position at or after `i` that holds white space.
pub open spec fn scan_nonws(s: Seq<char>, i: int) -> int
    decreases s.len() - i,
    when 0 <= i <= s.len()
{
    if i < s.len() && !is_space(s[i]) {
        scan_nonws(s, i + 1)
    } else {
        i
    }
}

pub proof fn lemma_scan_digits_bounds(s: Seq<char>, i: int)
    requires
        0 <= i <= s.len(),
    ensures
        i <= scan_digits(s, i) <= s.len(),
        digits_at(s, i, scan_digits(s, i)),
    decreases s.len() - i,
{
    if i < s.len() && is_digit(s[i]) {
        lemma_scan_digits_bounds(s, i + 1);
    }
}

/// Advances past white space.
fn skip_ws(v: &Vec<char>, i: usize) -> (r: usize)
    requires
        i <= v@.len(),
    ensures
        r == scan_ws(v@, i as int),
        i <= r <= v@.len(),
{
    let mut j: usize = i;
    while j < v.len() && is_space_char(v[j])
        invariant
            i <= j <= v@.len(),
            scan_ws(v@, i as int) == scan_ws(v@, j as int),
        decreases v@.len() - j,
    {
        j = j + 1;
    }
    j
}

/// Advances past digits.
fn skip_digits(v: &Vec<char>, i: usize) -> (r: usize)
    requires
        i <= v@.len(),
    ensures
        r == scan_digits(v@, i as int),
        i <= r <= v@.len(),
{
    let mut j: usize = i;
    while j < v.len() && is_digit_char(v[j])
        invariant
            i <= j <= v@.len(),
            scan_digits(v@, i as int) == scan_digits(v@, j as int),
        decreases v@.len() - j,
    {
        j = j + 1;
    }
    j
}

/// The month named by a heading token: the twelve full English month names,
/// or one of the abbreviated forms the archive's headings use, which a fixed
/// lookup maps to the full name.
pub open spec fn spec_month_token(t: Seq<char>) -> Option<u32> {
    if t == "January"@ || t == "Jan."@ {
        Some(1u32)
    } else if t == "February"@ || t == "Feb."@ {
        Some(2u32)
    } else if t == "March"@ {
        Some(3u32)
    } else if t == "April"@ {
        Some(4u32)
    } else if t == "May"@ {
        Some(5u32)
    } else if t == "June"@ {
        Some(6u32)
    } else if t == "July"@ {
        Some(7u32)
    } else if t == "August"@ || t == "Aug."@ {
        Some(8u32)
    } else if t == "September"@ || t == "Sept."@ {
        Some(9u32)
    } else if t == "October"@ || t == "Oct."@ {
        Some(10u32)
    } else if t == "November"@ || t == "Nov."@ {
        Some(11u32)
    } else if t == "December"@ || t == "Dec."@ {
        Some(12u32)
    } else {
        None
    }
}

/// Recognizes a month token at `from..to`.
fn month_of_range(v: &Vec<char>, from: usize, to: usize) -> (r: Option<u32>)
    requires
        from <= to <= v@.len(),
    ensures
        r == spec_month_token(v@.subrange(from as int, to as int)),
{
    if range_eq_lit(v, from, to, "January") || range_eq_lit(v, from, to, "Jan.") {
        Some(1)
    } else if range_eq_lit(v, from, to, "February") || range_eq_lit(v, from, to, "Feb.") {
        Some(2)
    } else if range_eq_lit(v, from, to, "March") {
        Some(3)
    } else if range_eq_lit(v, from, to, "April") {
        Some(4)
    } else if range_eq_lit(v, from, to, "May") {
        Some(5)
    } else if range_eq_lit(v, from, to, "June") {
        Some(6)
    } else if range_eq_lit(v, from, to, "July") {
        Some(7)
    } else if range_eq_lit(v, from, to, "August") || range_eq_lit(v, from, to, "Aug.") {
        Some(8)
    } else if range_eq_lit(v, from, to, "September") || range_eq_lit(v, from, to, "Sept.") {
        Some(9)
    } else if range_eq_lit(v, from, to, "October") || range_eq_lit(v, from, to, "Oct.") {
        Some(10)
    } else if range_eq_lit(v, from, to, "November") || range_eq_lit(v, from, to, "Nov.") {
        Some(11)
    } else if range_eq_lit(v, from, to, "December") || range_eq_lit(v, from, to, "Dec.") {
        Some(12)
    } else {
        None
    }
}

/// The date denoted by a listing heading of the shape
/// `"<Month> <day>, <year>"`: a recognized month token, a one- or two-digit
/// day, a comma, and a four-digit year, separated by optional white space,
/// with trailing white space tolerated. `None` when the heading does not
/// have that shape or the date is not calendar-valid.
pub open spec fn spec_heading_date(s: Seq<char>) -> Option<Date> {
    let m0 = scan_ws(s, 0);
    let m1 = scan_nonws(s, m0);
    match spec_month_token(s.subrange(m0, m1)) {
        None => None,
        Some(mo) => {
            let d0 = scan_ws(s, m1);
            let d1 = scan_digits(s, d0);
            if 1 <= d1 - d0 <= 2 && d1 < s.len() && s[d1] == ',' {
                let y0 = scan_ws(s, d1 + 1);
                let y1 = scan_digits(s, y0);
                if y1 - y0 == 4 && scan_ws(s, y1) == s.len() {
                    let dd = Date {
                        year: num4(s, y0) as u32,
                        month: mo,
                        day: if d1 - d0 == 2 {
                            num2(s, d0) as u32
                        } else {
                            digit_val(s[d0]) as u32
                        },
                    };
                    if dd.wf() {
                        Some(dd)
                    } else {
                        None
                    }
                } else {
                    None
                }
            } else {
                None
            }
        },
    }
}

/// Parses a listing heading's date, if it carries one.
pub fn parse_heading_date(text: &str) -> (r: Option<Date>)
    ensures
        r == spec_heading_date(text@),
        r is Some ==> r->0.wf(),
{
    let v = crate::chars::str_to_chars(text);
    let m0 = skip_ws(&v, 0);
    let m1 = skip_nonws(&v, m0);
    let mo = match month_of_range(&v, m0, m1) {
        Some(mo) => mo,
        None => {
            return None;
        },
    };
    let d0 = skip_ws(&v, m1);
    let d1 = skip_digits(&v, d0);
    if !(d1 - d0 >= 1 && d1 - d0 <= 2 && d1 < v.len() && v[d1] == ',') {
        return None;
    }
    let y0 = skip_ws(&v, d1 + 1);
    let y1 = skip_digits(&v, y0);
    if !(y1 - y0 == 4 && skip_ws(&v, y1) == v.len()) {
        return None;
    }
    proof {
        lemma_scan_digits_bounds(v@, d0 as int);
        lemma_scan_digits_bounds(v@, y0 as int);
    }
    let dayv: u32 = if d1 - d0 == 2 {
        read2(&v, d0)
    } else {
        digit_of(v[d0])
    };
    let dd = Date { year: read4(&v, y0), month: mo, day: dayv };
    if 1 <= dd.day && dd.day <= days_in_month(dd.year, dd.month) {
        Some(dd)
    } else {
        None
    }
}

/// The time of day denoted by an `H:MM` or `HH:MM` string, if valid.
pub open spec fn spec_parse_hm(s: Seq<char>) -> Option<(u32, u32)> {
    if s.len() == 5 && digits_at(s, 0, 2) && s[2] == ':' && digits_at(s, 3, 5) {
        if num2(s, 0) < 24 && num2(s, 3) < 60 {
            Some((num2(s, 0) as u32, num2(s, 3) as u32))
        } else {
            None
        }
    } else if s.len() == 4 && is_digit(s[0]) && s[1] == ':' && digits_at(s, 2, 4) {
        if num2(s, 2) < 60 {
            Some((digit_val(s[0]) as u32, num2(s, 2) as u32))
        } else {
            None
        }
    } else {
        None
    }
}

/// Parses a row's `HH:MM` time of day.
pub fn parse_hm(v: &Vec<char>) -> (r: Option<(u32, u32)>)
    ensures
        r == spec_parse_hm(v@),
{
    if v.len() == 5 && check_digits(v, 0, 2) && v[2] == ':' && check_digits(v, 3, 5) {
        let h = read2(v, 0);
        let m = read2(v, 3);
        if h < 24 && m < 60 {
            Some((h, m))
        } else {
            None
        }
    } else if v.len() == 4 && is_digit_char(v[0]) && v[1] == ':' && check_digits(v, 2, 4) {
        let m = read2(v, 2);
        if m < 60 {
            Some((digit_of(v[0]), m))
        } else {
            None
        }
    } else {
        None
    }
}

/// The timestamp denoted by a `YYYY-MM-DD HH:MM:SS` string, if the string
/// has exactly that shape and the fields are valid.
pub open spec fn spec_parse_datetime(s: Seq<char>) -> Option<Timestamp> {
    if s.len() == 19 && digits_at(s, 0, 4) && s[4] == '-' && digits_at(s, 5, 7) && s[7] == '-'
        && digits_at(s, 8, 10) && s[10] == ' ' && digits_at(s, 11, 13) && s[13] == ':'
        && digits_at(s, 14, 16) && s[16] == ':' && digits_at(s, 17, 19) {
        let t = Timestamp {
            date: Date { year: num4(s, 0) as u32, month: num2(s, 5) as u32, day: num2(s, 8) as u32 },
            hour: num2(s, 11) as u32,
            minute: num2(s, 14) as u32,
            second: num2(s, 17) as u32,
        };
        if t.wf() {
            Some(t)
        } else {
            None
        }
    } else {
        None
    }
}

/// Parses a detail page's `YYYY-MM-DD HH:MM:SS` timestamp.
pub fn parse_datetime(v: &Vec<char>) -> (r: Option<Timestamp>)
    ensures
        r == spec_parse_datetime(v@),
        r is Some ==> r->0.wf(),
{
    if !(v.len() == 19 && check_digits(v, 0, 4) && v[4] == '-' && check_digits(v, 5, 7)
        && v[7] == '-' && check_digits(v, 8, 10) && v[10] == ' ' && check_digits(v, 11, 13)
        && v[13] == ':' && check_digits(v, 14, 16) && v[16] == ':' && check_digits(v, 17, 19)) {
        return None;
    }
    let t = Timestamp {
        date: Date { year: read4(v, 0), month: read2(v, 5), day: read2(v, 8) },
        hour: read2(v, 11),
        minute: read2(v, 14),
        second: read2(v, 17),
    };
    if 1 <= t.date.month && t.date.month <= 12 && 1 <= t.date.day && t.date.day <= days_in_month(
        t.date.year,
        t.date.month,
    ) && t.hour < 24 && t.minute < 60 && t.second < 60 {
        Some(t)
    } else {
        None
    }
}

/// The decimal digit character for `d`.
pub open spec fn digit_char(d: int) -> char {
    if d == 0 {
        '0'
    } else if d == 1 {
        '1'
    } else if d == 2 {
        '2'
    } else if d == 3 {
        '3'
    } else if d == 4 {
        '4'
    } else if d == 5 {
        '5'
    } else if d == 6 {
        '6'
    } else if d == 7 {
        '7'
    } else if d == 8 {
        '8'
    } else {
        '9'
    }
}

/// Two-digit zero-padded decimal rendering.
pub open spec fn pad2(n: int) -> Seq<char> {
    seq![digit_char(n / 10), digit_char(n % 10)]
}

/// Four-digit zero-padded decimal rendering.
pub open spec fn pad4(n: int) -> Seq<char> {
    pad2(n / 100) + pad2(n % 100)
}

fn digit_char_of(d: u32) -> (c: char)
    requires
        d <= 9,
    ensures
        c == digit_char(d as int),
{
    if d == 0 {
        '0'
    } else if d == 1 {
        '1'
    } else if d == 2 {
        '2'
    } else if d == 3 {
        '3'
    } else if d == 4 {
        '4'
    } else if d == 5 {
        '5'
    } else if d == 6 {
        '6'
    } else if d == 7 {
        '7'
    } else if d == 8 {
        '8'
    } else {
        '9'
    }
}

fn push_pad2(v: &mut Vec<char>, n: u32)
    requires
        n <= 99,
    ensures
        final(v)@ == old(v)@ + pad2(n as int),
{
    v.push(digit_char_of(n / 10));
    v.push(digit_char_of(n % 10));
    proof {
        assert(v@ =~= old(v)@ + pad2(n as int));
    }
}

fn push_pad4(v: &mut Vec<char>, n: u32)
    requires
        n <= 9999,
    ensures
        final(v)@ == old(v)@ + pad4(n as int),
{
    push_pad2(v, n / 100);
    push_pad2(v, n % 100);
    proof {
        assert(v@ =~= old(v)@ + pad4(n as int));
    }
}

/// The minute-granularity `YYYYMMDDHHMM` stamp of `t`, as the listing
/// window's address carries it.
pub open spec fn since_stamp(t: Timestamp) -> Seq<char> {
    pad4(t.date.year as int) + pad2(t.date.month as int) + pad2(t.date.day as int) + pad2(
        t.hour as int,
    ) + pad2(t.minute as int)
}

/// The address of the listing window that starts at `t`.
pub open spec fn spec_since_url(t: Timestamp) -> Seq<char> {
    "https://www.postgresql.org/list/pgsql-hackers/since/"@ + since_stamp(t)
}

/// Builds the listing-window address for the cursor `t`, bit-exact.
pub fn since_url(t: &Timestamp) -> (r: String)
    requires
        t.wf(),
    ensures
        r@ == spec_since_url(*t),
{
    let mut v = crate::chars::str_to_chars("https://www.postgresql.org/list/pgsql-hackers/since/");
    push_pad4(&mut v, t.date.year);
    push_pad2(&mut v, t.date.month);
    push_pad2(&mut v, t.date.day);
    push_pad2(&mut v, t.hour);
    push_pad2(&mut v, t.minute);
    proof {
        assert(v@ =~= spec_since_url(*t));
    }
    crate::chars::chars_to_string(&v)
}

/// The address of the dedicated page of message `id`.
pub open spec fn spec_message_url(id: Seq<char>) -> Seq<char> {
    "https://www.postgresql.org/message-id/"@ + id
}

/// Builds the message-detail address for `id`, bit-exact.
pub fn message_url(id: &str) -> (r: String)
    ensures
        r@ == spec_message_url(id@),
{
    let mut v = crate::chars::str_to_chars("https://www.postgresql.org/message-id/");
    let mut w = crate::chars::str_to_chars(id);
    let mut k: usize = 0;
    let n = w.len();
    while k < n
        invariant
            k <= n,
            n == w@.len(),
            w@ == id@,
            v@ == "https://www.postgresql.org/message-id/"@ + id@.take(k as int),
        decreases n - k,
    {
        let c = w[k];
        v.push(c);
        proof {
            assert(v@ =~= "https://www.postgresql.org/message-id/"@ + id@.take(k + 1 as int));
        }
        k = k + 1;
    }
    proof {
        assert(id@.take(n as int) =~= id@);
    }
    crate::chars::chars_to_string(&v)
}

/// Advances past non-white-space.
fn skip_nonws(v: &Vec<char>, i: usize) -> (r: usize)
    requires
        i <= v@.len(),
    ensures
        r == scan_nonws(v@, i as int),
        i <= r <= v@.len(),
{
    let mut j: usize = i;
    while j < v.len() && !is_space_char(v[j])
        invariant
            i <= j <= v@.len(),
            scan_nonws(v@, i as int) == scan_nonws(v@, j as int),
        decreases v@.len() - j,
    {
        j = j + 1;
    }
    j
}

} // verus!
