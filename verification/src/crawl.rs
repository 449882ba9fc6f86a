//! The pagination/dedup engine. One crawl is a dialogue: the engine names
//! the listing window to fetch, the caller hands back the page's summaries,
//! the engine replays them one at a time for a per-summary decision, and
//! the caller hands back each decision. Every cursor move, the overlap
//! suppression at window boundaries, and both termination rules are decided
//! here, under contract; the caller only fetches and decides summaries.

use crate::chars::str_eq;
use crate::dates::{
    Timestamp, end_of_day, parse_day, spec_parse_day, spec_since_url, since_url, start_of_day,
    ts_le, ts_max,
};
use crate::model::{EmailThread, PgMessage};
use vstd::prelude::*;

verus! {

/// Why a crawl could not start.
#[derive(Clone, Copy, PartialEq, Eq, Structural, Debug)]
pub enum RangeError {
    /// The start day is not a valid `YYYYMMDD` date.
    BadStartDay,
    /// The end day is not a valid `YYYYMMDD` date.
    BadEndDay,
}

/// What the engine waits for next.
#[derive(Clone, Copy, PartialEq, Eq, Structural, Debug)]
pub enum Phase {
    /// Fetch the listing window at [`Crawler::fetch_url`] and hand the
    /// parsed page to [`Crawler::give_page`].
    FetchPage,
    /// Decide the summary at [`Crawler::pending_summary`] and hand the
    /// outcome to [`Crawler::give_verdict`].
    Decide,
    /// The range is exhausted; the accumulated results are final.
    Done,
}

/// The ids of a result sequence, in order.
pub open spec fn ids_of<T: PgMessage>(rs: Seq<T>) -> Seq<Seq<char>> {
    rs.map_values(|t: T| t.spec_id())
}

/// Length of the longest prefix of `page` whose summaries' ids already
/// stand among `ids`: the page overlap that a window boundary repeats.
/// Once one summary is not found, overlap is over and everything after it
/// counts as new.
pub open spec fn overlap_len(ids: Seq<Seq<char>>, page: Seq<EmailThread>) -> int
    decreases page.len(),
{
    if page.len() > 0 && ids.contains(page[0].id@) {
        1 + overlap_len(ids, page.skip(1))
    } else {
        0
    }
}

proof fn lemma_overlap_len_at(ids: Seq<Seq<char>>, page: Seq<EmailThread>, i: int)
    requires
        0 <= i <= page.len(),
        forall|k: int| 0 <= k < i ==> ids.contains((#[trigger] page[k]).id@),
        i == page.len() || !ids.contains(page[i].id@),
    ensures
        overlap_len(ids, page) == i,
    decreases i,
{
    if i == 0 {
        if page.len() > 0 {
            assert(!ids.contains(page[0].id@));
        }
    } else {
        assert(ids.contains(page[0].id@));
        let t = page.skip(1);
        assert(forall|k: int| 0 <= k < i - 1 ==> ids.contains((#[trigger] t[k]).id@));
        assert(i - 1 == t.len() || !ids.contains(t[i - 1].id@));
        lemma_overlap_len_at(ids, t, i - 1);
    }
}

/// The overlap suppression is exact: every summary it suppresses is
/// already accumulated, and the first summary it lets through is not.
/// Together with the engine's transition contracts this is the boundary
/// half of range idempotence: a window boundary neither drops a new
/// thread nor collects a repeated one twice.
pub proof fn lemma_overlap_prefix_exact(ids: Seq<Seq<char>>, page: Seq<EmailThread>)
    ensures
        0 <= overlap_len(ids, page) <= page.len(),
        forall|k: int|
            0 <= k < overlap_len(ids, page) ==> ids.contains((#[trigger] page[k]).id@),
        overlap_len(ids, page) < page.len() ==> !ids.contains(
            page[overlap_len(ids, page)].id@,
        ),
    decreases page.len(),
{
    if page.len() > 0 && ids.contains(page[0].id@) {
        let t = page.skip(1);
        lemma_overlap_prefix_exact(ids, t);
        assert(forall|k: int| 0 <= k < t.len() ==> (#[trigger] t[k]) == page[k + 1]);
        assert forall|k: int| 0 <= k < overlap_len(ids, page) implies ids.contains(
            (#[trigger] page[k]).id@,
        ) by {
            if k > 0 {
                assert(page[k] == t[k - 1]);
            }
        }
    }
}

/// Decides whether `id` stands among the ids of `rs`.
fn results_contain_id<T: PgMessage>(rs: &Vec<T>, id: &str) -> (r: bool)
    ensures
        r == ids_of(rs@).contains(id@),
{
    let n = rs.len();
    let mut j: usize = 0;
    while j < n
        invariant
            j <= n,
            n == rs@.len(),
            forall|k: int| 0 <= k < j ==> (#[trigger] rs@[k]).spec_id() != id@,
        decreases n - j,
    {
        let x = &rs[j];
        if str_eq(x.id(), id) {
            proof {
                assert(ids_of(rs@)[j as int] == id@);
            }
            return true;
        }
        j = j + 1;
    }
    proof {
        if ids_of(rs@).contains(id@) {
            let k = choose|k: int| 0 <= k < ids_of(rs@).len() && ids_of(rs@)[k] == id@;
            assert(rs@[k].spec_id() == id@);
            assert(false);
        }
    }
    false
}

/// The set of thread-starter ids already resolved in one crawl: each
/// physical thread is resolved at most once, even when several summaries
/// reference it.
pub struct SeenIds {
    pub ids: Vec<String>,
}

impl SeenIds {
    /// Whether `id` was recorded.
    pub open spec fn spec_has(self, id: Seq<char>) -> bool {
        exists|i: int| 0 <= i < self.ids@.len() && (#[trigger] self.ids@[i])@ == id
    }

    pub fn new() -> (r: SeenIds)
        ensures
            r.ids@.len() == 0,
            forall|id: Seq<char>| !r.spec_has(id),
    {
        SeenIds { ids: Vec::new() }
    }

    /// Decides whether `id` was recorded.
    pub fn contains(&self, id: &str) -> (r: bool)
        ensures
            r == self.spec_has(id@),
    {
        let n = self.ids.len();
        let mut j: usize = 0;
        while j < n
            invariant
                j <= n,
                n == self.ids@.len(),
                forall|k: int| 0 <= k < j ==> (#[trigger] self.ids@[k])@ != id@,
            decreases n - j,
        {
            if str_eq(self.ids[j].as_str(), id) {
                return true;
            }
            j = j + 1;
        }
        false
    }

    /// Records `id`.
    pub fn insert(&mut self, id: String)
        ensures
            final(self).ids@ == old(self).ids@.push(id),
            final(self).spec_has(id@),
            forall|x: Seq<char>| old(self).spec_has(x) ==> final(self).spec_has(x),
    {
        self.ids.push(id);
        proof {
            assert(final(self).ids@[old(self).ids@.len() as int]@ == id@);
            assert forall|x: Seq<char>| old(self).spec_has(x) implies final(self).spec_has(x) by {
                let k = choose|k: int|
                    0 <= k < old(self).ids@.len() && (#[trigger] old(self).ids@[k])@ == x;
                assert(final(self).ids@[k]@ == x);
            }
        }
    }
}

/// One crawl's cursor state and accumulator. `T` is what the per-summary
/// decision produces: the summary itself when listing new threads, the
/// resolved detail when listing active threads.
pub struct Crawler<T: PgMessage> {
    /// The accumulated output, in discovery order.
    pub results: Vec<T>,
    /// How far pagination has progressed.
    pub cursor: Timestamp,
    /// The last second of the requested range.
    pub range_end: Timestamp,
    /// The cursor value the current window was fetched at.
    pub prev_window: Option<Timestamp>,
    /// The output count when the current window was fetched.
    pub window_base: usize,
    /// The summaries of the window being replayed.
    pub page: Vec<EmailThread>,
    /// The next summary of `page` to examine.
    pub pos: usize,
    /// What the engine waits for.
    pub phase: Phase,
}

impl<T: PgMessage> Crawler<T> {
    /// The engine's invariant, established by [`Crawler::new`] and kept by
    /// every step. At `FetchPage` the window bookkeeping is settled: the
    /// base count matches, the cursor is in range and differs from the
    /// window fetched before. At `Decide` the cursor, advanced as far as the
    /// pending summary's timestamp, is still in range.
    pub open spec fn wf(self) -> bool {
        &&& self.cursor.wf()
        &&& self.range_end.wf()
        &&& self.pos <= self.page@.len()
        &&& (forall|i: int| 0 <= i < self.page@.len() ==> (#[trigger] self.page@[i]).wf())
        &&& (self.phase == Phase::FetchPage ==> self.window_base == self.results@.len()
            && self.cursor.key() <= self.range_end.key() && self.prev_window != Some(self.cursor))
        &&& (self.phase == Phase::Decide ==> self.pos < self.page@.len() && self.cursor.key()
            <= self.range_end.key())
    }

    /// Starts a crawl over the inclusive day range `[start_day, end_day]`,
    /// both as `YYYYMMDD`: the cursor opens at the start day's midnight,
    /// the range closes at the end day's last second. Fails exactly when a
    /// bound is not a valid day string; an empty range (start beyond end)
    /// is immediately `Done` with no results.
    pub fn new(start_day: &str, end_day: &str) -> (r: Result<Crawler<T>, RangeError>)
        ensures
            (match (spec_parse_day(start_day@), spec_parse_day(end_day@)) {
                (Some(sd), Some(ed)) => r is Ok && {
                    let c = r->Ok_0;
                    &&& c.wf()
                    &&& c.results@.len() == 0
                    &&& c.cursor == start_of_day(sd)
                    &&& c.range_end == end_of_day(ed)
                    &&& c.prev_window is None
                    &&& c.window_base == 0
                    &&& c.page@.len() == 0
                    &&& c.phase == (if start_of_day(sd).key() <= end_of_day(ed).key() {
                        Phase::FetchPage
                    } else {
                        Phase::Done
                    })
                },
                (None, _) => r == Result::<Crawler<T>, RangeError>::Err(RangeError::BadStartDay),
                (Some(_), None) => r == Result::<Crawler<T>, RangeError>::Err(
                    RangeError::BadEndDay,
                ),
            }),
    {
        let sd = match parse_day(start_day) {
            Some(d) => d,
            None => {
                return Err(RangeError::BadStartDay);
            },
        };
        let ed = match parse_day(end_day) {
            Some(d) => d,
            None => {
                return Err(RangeError::BadEndDay);
            },
        };
        let cursor = Timestamp { date: sd, hour: 0, minute: 0, second: 0 };
        let range_end = Timestamp { date: ed, hour: 23, minute: 59, second: 59 };
        let in_range = ts_le(&cursor, &range_end);
        Ok(
            Crawler {
                results: Vec::new(),
                cursor,
                range_end,
                prev_window: None,
                window_base: 0,
                page: Vec::new(),
                pos: 0,
                phase: if in_range {
                    Phase::FetchPage
                } else {
                    Phase::Done
                },
            },
        )
    }

    /// The address of the window to fetch next, built from the cursor at
    /// minute granularity.
    pub fn fetch_url(&self) -> (u: String)
        requires
            self.wf(),
            self.phase == Phase::FetchPage,
        ensures
            u@ == spec_since_url(self.cursor),
    {
        since_url(&self.cursor)
    }

    /// The summary awaiting a decision.
    pub fn pending_summary(&self) -> (s: &EmailThread)
        requires
            self.wf(),
            self.phase == Phase::Decide,
        ensures
            *s == self.page@[self.pos as int],
    {
        &self.page[self.pos]
    }

    /// Yields the accumulated results; final once the phase is `Done`.
    pub fn into_results(self) -> (r: Vec<T>)
        ensures
            r == self.results,
    {
        self.results
    }

    /// Examines the summary at `pos` (or closes the window when the page
    /// is spent): the cursor advances to the summary's timestamp when that
    /// moves it forward — it never decreases, so an out-of-order row or an
    /// epoch-fallback timestamp cannot drag the crawl backwards — and the
    /// engine asks for a decision, unless the advanced cursor leaves the
    /// range, which ends the whole crawl. A spent page ends the crawl when
    /// the window grew nothing, and otherwise opens the next window —
    /// unless the cursor did not move since the window was fetched.
    fn step_from(&mut self)
        requires
            old(self).cursor.wf(),
            old(self).range_end.wf(),
            old(self).pos <= old(self).page@.len(),
            forall|i: int| 0 <= i < old(self).page@.len() ==> (#[trigger] old(self).page@[i]).wf(),
        ensures
            final(self).results == old(self).results,
            final(self).range_end == old(self).range_end,
            final(self).prev_window == old(self).prev_window,
            final(self).page == old(self).page,
            final(self).pos == old(self).pos,
            old(self).cursor.key() <= final(self).cursor.key(),
            ({
                let page = old(self).page@;
                let p = old(self).pos as int;
                if p < page.len() {
                    &&& final(self).cursor == ts_max(old(self).cursor, page[p].datetime)
                    &&& final(self).window_base == old(self).window_base
                    &&& final(self).phase == (if ts_max(old(self).cursor, page[p].datetime).key()
                        <= old(self).range_end.key() {
                        Phase::Decide
                    } else {
                        Phase::Done
                    })
                } else {
                    &&& final(self).cursor == old(self).cursor
                    &&& (if old(self).window_base == old(self).results@.len() {
                        final(self).window_base == old(self).window_base && final(self).phase
                            == Phase::Done
                    } else {
                        final(self).window_base == old(self).results@.len() && final(self).phase
                            == (if old(self).cursor.key() > old(self).range_end.key() {
                            Phase::Done
                        } else if old(self).prev_window == Some(old(self).cursor) {
                            Phase::Done
                        } else {
                            Phase::FetchPage
                        })
                    })
                }
            }),
    {
        if self.pos < self.page.len() {
            let s = &self.page[self.pos];
            let dt = s.datetime;
            if dt.key64() > self.cursor.key64() {
                self.cursor = dt;
            }
            if ts_le(&self.cursor, &self.range_end) {
                self.phase = Phase::Decide;
            } else {
                self.phase = Phase::Done;
            }
        } else {
            if self.window_base == self.results.len() {
                self.phase = Phase::Done;
            } else {
                self.window_base = self.results.len();
                if !ts_le(&self.cursor, &self.range_end) {
                    self.phase = Phase::Done;
                } else {
                    let repeated = match &self.prev_window {
                        Some(p) => *p == self.cursor,
                        None => false,
                    };
                    if repeated {
                        self.phase = Phase::Done;
                    } else {
                        self.phase = Phase::FetchPage;
                    }
                }
            }
        }
    }

    /// Computes the window-boundary overlap: the longest page prefix whose
    /// ids already stand among the accumulated results.
    fn compute_overlap(&self) -> (r: usize)
        ensures
            r == overlap_len(ids_of(self.results@), self.page@),
            r <= self.page@.len(),
    {
        let n = self.page.len();
        let mut i: usize = 0;
        while i < n && results_contain_id(&self.results, self.page[i].id.as_str())
            invariant
                i <= n,
                n == self.page@.len(),
                forall|k: int|
                    0 <= k < i ==> ids_of(self.results@).contains(
                        (#[trigger] self.page@[k]).id@,
                    ),
            decreases n - i,
        {
            i = i + 1;
        }
        proof {
            lemma_overlap_len_at(ids_of(self.results@), self.page@, i as int);
        }
        i
    }

    /// Takes one fetched window's summaries, in page order. The repeated
    /// boundary prefix — summaries whose ids are already accumulated — is
    /// suppressed without moving the cursor; the engine then turns to the
    /// first genuinely new summary, advancing the cursor to its timestamp
    /// when that moves it forward (the cursor never decreases). A page that
    /// is empty, or repeats only (so that the window grew nothing), ends
    /// the crawl with the results unchanged; so does a first new summary
    /// that falls beyond the range.
    pub fn give_page(&mut self, page: Vec<EmailThread>)
        requires
            old(self).wf(),
            old(self).phase == Phase::FetchPage,
            forall|i: int| 0 <= i < page@.len() ==> (#[trigger] page@[i]).wf(),
        ensures
            final(self).wf(),
            final(self).results == old(self).results,
            final(self).range_end == old(self).range_end,
            final(self).prev_window == Some(old(self).cursor),
            final(self).page == page,
            final(self).pos == overlap_len(ids_of(old(self).results@), page@),
            old(self).cursor.key() <= final(self).cursor.key(),
            ({
                let skip = overlap_len(ids_of(old(self).results@), page@);
                if skip == page@.len() {
                    final(self).phase == Phase::Done && final(self).cursor == old(self).cursor
                        && final(self).window_base == old(self).window_base
                } else {
                    &&& final(self).cursor == ts_max(old(self).cursor, page@[skip].datetime)
                    &&& final(self).window_base == old(self).window_base
                    &&& final(self).phase == (if ts_max(
                        old(self).cursor,
                        page@[skip].datetime,
                    ).key() <= old(self).range_end.key() {
                        Phase::Decide
                    } else {
                        Phase::Done
                    })
                }
            }),
    {
        self.prev_window = Some(self.cursor);
        self.page = page;
        let skip = self.compute_overlap();
        self.pos = skip;
        self.step_from();
    }

    /// Takes the decision for the pending summary: `Some` appends the
    /// produced value to the results, `None` discards the summary. The
    /// engine then turns to the next summary, or closes the window as
    /// [`Crawler::step_from`] describes.
    pub fn give_verdict(&mut self, keep: Option<T>)
        requires
            old(self).wf(),
            old(self).phase == Phase::Decide,
        ensures
            final(self).wf(),
            final(self).range_end == old(self).range_end,
            final(self).prev_window == old(self).prev_window,
            final(self).page == old(self).page,
            final(self).pos == old(self).pos + 1,
            old(self).cursor.key() <= final(self).cursor.key(),
            final(self).results@ == (match keep {
                Option::Some(t) => old(self).results@.push(t),
                Option::None => old(self).results@,
            }),
            ({
                let page = old(self).page@;
                let p = old(self).pos + 1;
                let new_len = old(self).results@.len() + (if keep is Some {
                    1int
                } else {
                    0int
                });
                if p < page.len() {
                    &&& final(self).cursor == ts_max(old(self).cursor, page[p].datetime)
                    &&& final(self).window_base == old(self).window_base
                    &&& final(self).phase == (if ts_max(old(self).cursor, page[p].datetime).key()
                        <= old(self).range_end.key() {
                        Phase::Decide
                    } else {
                        Phase::Done
                    })
                } else {
                    &&& final(self).cursor == old(self).cursor
                    &&& (if old(self).window_base == new_len {
                        final(self).window_base == old(self).window_base && final(self).phase
                            == Phase::Done
                    } else {
                        final(self).window_base == new_len && final(self).phase == (if old(
                            self,
                        ).prev_window == Some(old(self).cursor) {
                            Phase::Done
                        } else {
                            Phase::FetchPage
                        })
                    })
                }
            }),
    {
        let n = self.page.len();
        proof {
            assert(self.pos < n);
        }
        match keep {
            Some(t) => {
                self.results.push(t);
            },
            None => {},
        }
        self.pos = self.pos + 1;
        self.step_from();
    }
}

} // verus!
