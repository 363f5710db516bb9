//! The interval timeline: the verified model of the persisted activity log.
//!
//! A timeline is a sequence of intervals, each attributing a span of time to
//! one named activity.  At most one interval is open (has no end) at any
//! time; the only mutations are closing the open interval and opening a new
//! one.  The daemon mirrors every mutation to its storage backend, so the
//! contracts here describe exactly what ends up persisted.

use vstd::prelude::*;

verus! {

/// One span of time attributed to one activity.  `end` is `None` while the
/// interval is still open.  Timestamps are seconds since the epoch.
pub struct Interval {
    pub name: String,
    pub start: i64,
    pub end: Option<i64>,
}

/// The mathematical value of an [`Interval`].
pub ghost struct IntervalModel {
    pub name: Seq<char>,
    pub start: int,
    pub end: Option<int>,
}

impl View for Interval {
    type V = IntervalModel;

    open spec fn view(&self) -> IntervalModel {
        IntervalModel {
            name: self.name@,
            start: self.start as int,
            end: match self.end {
                Some(t) => Some(t as int),
                None => None,
            },
        }
    }
}

/// The model of a sequence of interval records.
pub open spec fn records_view(rs: Seq<Interval>) -> Seq<IntervalModel> {
    Seq::new(rs.len(), |i: int| rs[i]@)
}

/// At most one open interval exists.
pub open spec fn tl_wf(s: Seq<IntervalModel>) -> bool {
    forall|i: int, j: int|
        0 <= i < s.len() && 0 <= j < s.len() && s[i].end is None && s[j].end is None ==> i == j
}

/// Some interval is open.
pub open spec fn has_open(s: Seq<IntervalModel>) -> bool {
    exists|i: int| 0 <= i < s.len() && s[i].end is None
}

/// The index of an open interval (meaningful when `has_open(s)`; unique when
/// `tl_wf(s)`).
pub open spec fn open_index(s: Seq<IntervalModel>) -> int {
    choose|i: int| 0 <= i < s.len() && s[i].end is None
}

/// `iv` with its end set to `now` if it was open, and unchanged otherwise.
pub open spec fn close_one(iv: IntervalModel, now: int) -> IntervalModel {
    if iv.end is None {
        IntervalModel { end: Some(now), ..iv }
    } else {
        iv
    }
}

/// Every open interval closed at `now`; closed intervals are untouched.
pub open spec fn close_all(s: Seq<IntervalModel>, now: int) -> Seq<IntervalModel> {
    Seq::new(s.len(), |i: int| close_one(s[i], now))
}

/// The timeline after a switch: the open interval closed at `now`, then a new
/// open interval for `name` starting at `now`.
pub open spec fn spec_switch(s: Seq<IntervalModel>, name: Seq<char>, now: int) -> Seq<
    IntervalModel,
> {
    close_all(s, now).push(IntervalModel { name: name, start: now, end: None })
}

/// The name of the open interval, if one exists.
pub open spec fn spec_current(s: Seq<IntervalModel>) -> Option<Seq<char>> {
    if has_open(s) {
        Some(s[open_index(s)].name)
    } else {
        None
    }
}

/// Seconds from the open interval's start to `now`, clamped below at zero.
pub open spec fn spec_elapsed(s: Seq<IntervalModel>, now: int) -> Option<int> {
    if has_open(s) {
        let st = s[open_index(s)].start;
        Some(
            if now >= st {
                now - st
            } else {
                0
            },
        )
    } else {
        None
    }
}

/// The in-memory interval log.  The daemon is its only writer; every
/// mutation goes through [`Timeline::switch_activity`] or
/// [`Timeline::end_current_activity`].
pub struct Timeline {
    intervals: Vec<Interval>,
}

impl View for Timeline {
    type V = Seq<IntervalModel>;

    closed spec fn view(&self) -> Seq<IntervalModel> {
        records_view(self.intervals@)
    }
}

impl Timeline {
    /// At most one open interval exists (the timeline invariant).
    pub open spec fn wf(&self) -> bool {
        tl_wf(self@)
    }

    /// An empty timeline.
    pub fn new() -> (r: Timeline)
        ensures
            r@ =~= Seq::<IntervalModel>::empty(),
            r.wf(),
    {
        Timeline { intervals: Vec::new() }
    }

    /// Adopts a list of records, e.g. read back from storage at startup.
    /// Returns `None` exactly when the records break the invariant by
    /// holding two open intervals.
    pub fn from_records(recs: Vec<Interval>) -> (r: Option<Timeline>)
        ensures
            r is Some <==> tl_wf(records_view(recs@)),
            r matches Some(t) ==> t@ == records_view(recs@) && t.wf(),
    {
        let ghost s = records_view(recs@);
        let mut seen_open = false;
        let mut i: usize = 0;
        while i < recs.len()
            invariant
                0 <= i <= recs.len(),
                s == records_view(recs@),
                s.len() == recs@.len(),
                seen_open <==> has_open(s.take(i as int)),
                tl_wf(s.take(i as int)),
            decreases recs.len() - i,
        {
            let ghost prefix = s.take(i as int);
            if recs[i].end.is_none() {
                if seen_open {
                    proof {
                        let j = choose|j: int| 0 <= j < prefix.len() && prefix[j].end is None;
                        assert(s[j].end is None);
                        assert(s[i as int].end is None);
                        assert(!tl_wf(s));
                    }
                    return None;
                }
                seen_open = true;
            }
            i = i + 1;
            proof {
                assert forall|k: int| 0 <= k < i implies s.take(i as int)[k] == s[k] by {}
                assert(has_open(s.take(i as int)) <==> (has_open(prefix) || s[i - 1].end is None));
            }
        }
        proof {
            assert(s.take(recs@.len() as int) =~= s);
        }
        Some(Timeline { intervals: recs })
    }

    /// The raw records, oldest first.
    pub fn records(&self) -> (r: &Vec<Interval>)
        ensures
            records_view(r@) == self@,
    {
        &self.intervals
    }

    /// Closes the open interval, if any, at `now`.  Calling it with no open
    /// interval is a no-op, not an error.
    pub fn end_current_activity(&mut self, now: i64)
        ensures
            final(self)@ == close_all(old(self)@, now as int),
            final(self).wf(),
            !has_open(final(self)@),
    {
        let ghost s = self@;
        let mut out: Vec<Interval> = Vec::new();
        let mut i: usize = 0;
        while i < self.intervals.len()
            invariant
                0 <= i <= self.intervals@.len(),
                s == records_view(self.intervals@),
                out@.len() == i,
                forall|k: int| 0 <= k < i ==> #[trigger] out@[k]@ == close_one(s[k], now as int),
            decreases self.intervals@.len() - i,
        {
            let iv = &self.intervals[i];
            if iv.end.is_none() {
                out.push(Interval { name: iv.name.clone(), start: iv.start, end: Some(now) });
            } else {
                out.push(Interval { name: iv.name.clone(), start: iv.start, end: iv.end });
            }
            i = i + 1;
        }
        self.intervals = out;
        proof {
            assert(self@ =~= close_all(s, now as int));
        }
    }

    /// Closes the open interval, if any, and opens a new one for `name`
    /// starting at `now`.  The single state-transition primitive.
    pub fn switch_activity(&mut self, name: &str, now: i64)
        ensures
            final(self)@ == spec_switch(old(self)@, name@, now as int),
            final(self).wf(),
            spec_current(final(self)@) == Some(name@),
    {
        let ghost s = self@;
        self.end_current_activity(now);
        self.intervals.push(Interval { name: name.to_owned(), start: now, end: None });
        proof {
            assert(self@ =~= spec_switch(s, name@, now as int));
            lemma_switch_wf(s, name@, now as int);
            lemma_switch_then_current(s, name@, now as int);
        }
    }

    /// The name of the open interval, or `None` if no interval is open.
    pub fn current_activity(&self) -> (r: Option<String>)
        requires
            self.wf(),
        ensures
            r is Some <==> has_open(self@),
            r matches Some(n) ==> has_open(self@) && n@ == self@[open_index(self@)].name,
    {
        let ghost s = self@;
        let mut i: usize = 0;
        while i < self.intervals.len()
            invariant
                0 <= i <= self.intervals@.len(),
                s == records_view(self.intervals@),
                tl_wf(s),
                forall|k: int| 0 <= k < i ==> !(#[trigger] s[k].end is None),
            decreases self.intervals@.len() - i,
        {
            let iv = &self.intervals[i];
            if iv.end.is_none() {
                proof {
                    assert(s[i as int].end is None);
                    assert(open_index(s) == i as int);
                }
                return Some(iv.name.clone());
            }
            i = i + 1;
        }
        proof {
            assert(!has_open(s));
        }
        None
    }

    /// Seconds elapsed since the open interval began, clamped below at zero,
    /// or `None` if no interval is open.
    pub fn current_elapsed(&self, now: i64) -> (r: Option<u64>)
        requires
            self.wf(),
        ensures
            r is Some <==> has_open(self@),
            r matches Some(e) ==> spec_elapsed(self@, now as int) == Some(e as int),
    {
        let ghost s = self@;
        let mut i: usize = 0;
        while i < self.intervals.len()
            invariant
                0 <= i <= self.intervals@.len(),
                s == records_view(self.intervals@),
                tl_wf(s),
                forall|k: int| 0 <= k < i ==> !(#[trigger] s[k].end is None),
            decreases self.intervals@.len() - i,
        {
            let iv = &self.intervals[i];
            if iv.end.is_none() {
                proof {
                    assert(s[i as int].end is None);
                    assert(open_index(s) == i as int);
                }
                let d: i128 = now as i128 - iv.start as i128;
                let e: u64 = if d > 0 {
                    d as u64
                } else {
                    0
                };
                return Some(e);
            }
            i = i + 1;
        }
        proof {
            assert(!has_open(s));
        }
        None
    }
}

/// Law: after every operation at most one interval is open.  Closing leaves
/// no open interval at all.
pub proof fn lemma_close_all_wf(s: Seq<IntervalModel>, now: int)
    ensures
        tl_wf(close_all(s, now)),
        !has_open(close_all(s, now)),
{
}

/// Law: after every operation at most one interval is open.  A switch leaves
/// exactly one, the newly opened interval at the end.
pub proof fn lemma_switch_wf(s: Seq<IntervalModel>, name: Seq<char>, now: int)
    ensures
        tl_wf(spec_switch(s, name, now)),
        has_open(spec_switch(s, name, now)),
{
    let s2 = spec_switch(s, name, now);
    assert(s2[s2.len() - 1].end is None);
}

/// Law: ending the current activity twice in a row leaves the same state as
/// ending it once; with nothing open the second call is a no-op.
pub proof fn lemma_end_idempotent(s: Seq<IntervalModel>, t1: int, t2: int)
    ensures
        close_all(close_all(s, t1), t2) == close_all(s, t1),
{
    assert(close_all(close_all(s, t1), t2) =~= close_all(s, t1));
}

/// Law: immediately after switching to `name`, the current activity is
/// `name`.
pub proof fn lemma_switch_then_current(s: Seq<IntervalModel>, name: Seq<char>, now: int)
    ensures
        spec_current(spec_switch(s, name, now)) == Some(name),
{
    let s2 = spec_switch(s, name, now);
    assert(s2[s2.len() - 1].end is None);
    let i = open_index(s2);
    assert(0 <= i < s2.len() && s2[i].end is None);
    assert(i == s2.len() - 1);
}

} // verus!
