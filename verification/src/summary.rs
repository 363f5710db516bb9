//! Windowed summaries: how much time each activity was attributed within a
//! half-open window `[start_bound, end_bound)`.
//!
//! Each interval overlapping the window contributes
//! `min(end_bound, end-or-now) - max(start_bound, start)`, clamped below at
//! zero: intervals are clipped at the window boundaries, not excluded.

use vstd::prelude::*;

use crate::timeline::{records_view, Interval, IntervalModel, Timeline};

verus! {

/// The interval's end for summary purposes: its recorded end, or `now` while
/// it is still open.
pub open spec fn end_or(iv: IntervalModel, now: int) -> int {
    match iv.end {
        Some(e) => e,
        None => now,
    }
}

/// Seconds of `iv` falling within the window `[a, b)`, clamped below at
/// zero.
pub open spec fn clip(iv: IntervalModel, a: int, b: int, now: int) -> int {
    let lo = if iv.start > a {
        iv.start
    } else {
        a
    };
    let hi = if end_or(iv, now) < b {
        end_or(iv, now)
    } else {
        b
    };
    if hi - lo > 0 {
        hi - lo
    } else {
        0
    }
}

/// Total seconds attributed to activity `name` within `[a, b)`.
pub open spec fn total_for(s: Seq<IntervalModel>, name: Seq<char>, a: int, b: int, now: int) -> int
    decreases s.len(),
{
    if s.len() == 0 {
        0
    } else {
        total_for(s.drop_last(), name, a, b, now) + if s.last().name == name {
            clip(s.last(), a, b, now)
        } else {
            0
        }
    }
}

/// Some interval of activity `name` contributes positive time to `[a, b)`.
pub open spec fn contributes(
    s: Seq<IntervalModel>,
    name: Seq<char>,
    a: int,
    b: int,
    now: int,
) -> bool {
    exists|i: int| 0 <= i < s.len() && s[i].name == name && clip(s[i], a, b, now) > 0
}

/// The summary as a mapping: every activity with positive attributed time
/// within the window, mapped to its total.
pub open spec fn summary_map(s: Seq<IntervalModel>, a: int, b: int, now: int) -> Map<
    Seq<char>,
    int,
> {
    Map::new(
        |n: Seq<char>| contributes(s, n, a, b, now),
        |n: Seq<char>| total_for(s, n, a, b, now),
    )
}

/// Peeling one interval off the end of a prefix.
proof fn lemma_total_step(s: Seq<IntervalModel>, name: Seq<char>, a: int, b: int, now: int, i: int)
    requires
        0 <= i < s.len(),
    ensures
        total_for(s.take(i + 1), name, a, b, now) == total_for(s.take(i), name, a, b, now) + if s[
            i
        ].name == name {
            clip(s[i], a, b, now)
        } else {
            0
        },
{
    assert(s.take(i + 1).drop_last() =~= s.take(i));
    assert(s.take(i + 1).last() == s[i]);
}

/// Every single contribution is at most the window's width.
proof fn lemma_clip_bound(iv: IntervalModel, a: int, b: int, now: int)
    ensures
        0 <= clip(iv, a, b, now) <= if b - a > 0 {
            b - a
        } else {
            0
        },
{
}

/// The total is at most the window's width times the number of intervals.
proof fn lemma_total_bound(s: Seq<IntervalModel>, name: Seq<char>, a: int, b: int, now: int)
    ensures
        0 <= total_for(s, name, a, b, now) <= s.len() * (if b - a > 0 {
            b - a
        } else {
            0
        }),
    decreases s.len(),
{
    let w = if b - a > 0 {
        b - a
    } else {
        0
    };
    if s.len() == 0 {
    } else {
        lemma_total_bound(s.drop_last(), name, a, b, now);
        lemma_clip_bound(s.last(), a, b, now);
        let t1 = total_for(s.drop_last(), name, a, b, now);
        let c = if s.last().name == name {
            clip(s.last(), a, b, now)
        } else {
            0
        };
        let n = s.len() as int;
        assert(0 <= t1 + c <= n * w) by (nonlinear_arith)
            requires
                0 <= t1 <= (n - 1) * w,
                0 <= c <= w,
                n >= 1,
                w >= 0,
        ;
    }
}

/// Total seconds attributed to `name` within `[a, b)`, over these records.
fn total_seconds(recs: &Vec<Interval>, name: &String, a: i64, b: i64, now: i64) -> (r: u128)
    ensures
        r as int == total_for(records_view(recs@), name@, a as int, b as int, now as int),
{
    let ghost s = records_view(recs@);
    let ghost aa = a as int;
    let ghost bb = b as int;
    let mut sum: u128 = 0;
    let mut i: usize = 0;
    while i < recs.len()
        invariant
            0 <= i <= recs@.len(),
            s == records_view(recs@),
            aa == a as int,
            bb == b as int,
            sum as int == total_for(s.take(i as int), name@, aa, bb, now as int),
        decreases recs@.len() - i,
    {
        let c = clip_seconds(&recs[i], a, b, now);
        proof {
            assert(s[i as int] == recs@[i as int]@);
            lemma_total_step(s, name@, aa, bb, now as int, i as int);
            lemma_total_bound(s.take(i as int + 1), name@, aa, bb, now as int);
            let w: int = if bb - aa > 0 {
                bb - aa
            } else {
                0
            };
            let n = s.take(i as int + 1).len() as int;
            assert(n * w < 0x1_0000_0000_0000_0000_0000_0000_0000_0000) by (nonlinear_arith)
                requires
                    0 <= n < 0x1_0000_0000_0000_0000,
                    0 <= w < 0x1_0000_0000_0000_0000,
            ;
        }
        if recs[i].name.eq(name) {
            sum = sum + c as u128;
        }
        i = i + 1;
    }
    proof {
        assert(s.take(recs@.len() as int) =~= s);
    }
    sum
}

/// Seconds of one record falling within `[a, b)`, clamped below at zero.
fn clip_seconds(iv: &Interval, a: i64, b: i64, now: i64) -> (r: u64)
    ensures
        r as int == clip(iv@, a as int, b as int, now as int),
{
    let e: i64 = match iv.end {
        Some(t) => t,
        None => now,
    };
    let lo: i64 = if iv.start > a {
        iv.start
    } else {
        a
    };
    let hi: i64 = if e < b {
        e
    } else {
        b
    };
    let d: i128 = hi as i128 - lo as i128;
    if d > 0 {
        d as u64
    } else {
        0
    }
}

impl Timeline {
    /// The per-activity totals for the window `[start_bound, end_bound)`.
    /// Open intervals are taken to run until `now` and are then clipped at
    /// the window boundaries like any other.  The result lists every
    /// activity with positive attributed time exactly once, paired with its
    /// total in seconds; it is the summary mapping in list form.
    pub fn summary(&self, start_bound: i64, end_bound: i64, now: i64) -> (r: Vec<(String, u128)>)
        ensures
            forall|j: int|
                0 <= j < r@.len() ==> (#[trigger] r@[j]).1 as int == total_for(
                    self@,
                    r@[j].0@,
                    start_bound as int,
                    end_bound as int,
                    now as int,
                ) && contributes(self@, r@[j].0@, start_bound as int, end_bound as int, now as int),
            forall|n: Seq<char>|
                contributes(self@, n, start_bound as int, end_bound as int, now as int)
                    ==> exists|j: int| 0 <= j < r@.len() && (#[trigger] r@[j]).0@ == n,
            forall|j1: int, j2: int|
                0 <= j1 < r@.len() && 0 <= j2 < r@.len() && (#[trigger] r@[j1]).0@ == (
                #[trigger] r@[j2]).0@ ==> j1 == j2,
    {
        let ghost aa = start_bound as int;
        let ghost bb = end_bound as int;
        let ghost nn = now as int;
        let recs = self.records();
        let ghost s = self@;
        // First pass: collect each activity with a positive contribution,
        // in order of first appearance.
        let mut names: Vec<String> = Vec::new();
        let mut i: usize = 0;
        while i < recs.len()
            invariant
                0 <= i <= recs@.len(),
                s == records_view(recs@),
                aa == start_bound as int,
                bb == end_bound as int,
                nn == now as int,
                forall|n: Seq<char>|
                    contributes(s.take(i as int), n, aa, bb, nn) ==> exists|j: int|
                        0 <= j < names@.len() && (#[trigger] names@[j])@ == n,
                forall|j: int|
                    0 <= j < names@.len() ==> contributes(s, (#[trigger] names@[j])@, aa, bb, nn),
                forall|j1: int, j2: int|
                    0 <= j1 < names@.len() && 0 <= j2 < names@.len() && (#[trigger] names@[j1])@ == (
                    #[trigger] names@[j2])@ ==> j1 == j2,
            decreases recs@.len() - i,
        {
            let c = clip_seconds(&recs[i], start_bound, end_bound, now);
            let ghost names0 = names@;
            proof {
                assert(s[i as int] == recs@[i as int]@);
            }
            if c > 0 {
                let mut j: usize = 0;
                while j < names.len() && !names[j].eq(&recs[i].name)
                    invariant
                        0 <= j <= names@.len(),
                        i < recs@.len(),
                        forall|k: int| 0 <= k < j ==> (#[trigger] names@[k])@ != recs@[i as int].name@,
                    decreases names@.len() - j,
                {
                    j = j + 1;
                }
                if j == names.len() {
                    names.push(recs[i].name.clone());
                    proof {
                        assert(names@[names@.len() - 1]@ == recs@[i as int].name@);
                        assert(contributes(s, recs@[i as int].name@, aa, bb, nn)) by {
                            assert(s[i as int].name == recs@[i as int].name@ && clip(
                                s[i as int],
                                aa,
                                bb,
                                nn,
                            ) > 0);
                        }
                    }
                } else {
                    proof {
                        assert(names@[j as int]@ == recs@[i as int].name@);
                    }
                }
            }
            proof {
                assert(forall|k: int| 0 <= k < names0.len() ==> names@[k] == names0[k]);
                assert(c > 0 ==> exists|p: int|
                    0 <= p < names@.len() && (#[trigger] names@[p])@ == recs@[i as int].name@);
                assert forall|n: Seq<char>|
                    #[trigger] contributes(s.take(i as int + 1), n, aa, bb, nn) implies exists|p: int|
                    0 <= p < names@.len() && (#[trigger] names@[p])@ == n by {
                    let k = choose|k: int|
                        0 <= k < s.take(i as int + 1).len() && (#[trigger] s.take(i as int + 1)[k]).name
                            == n && clip(s.take(i as int + 1)[k], aa, bb, nn) > 0;
                    assert(s.take(i as int + 1)[k] == s[k]);
                    if k < i as int {
                        assert(contributes(s.take(i as int), n, aa, bb, nn));
                        let p = choose|p: int|
                            0 <= p < names0.len() && (#[trigger] names0[p])@ == n;
                        assert(names@[p]@ == n);
                    } else {
                        assert(s[i as int].name == n && clip(s[i as int], aa, bb, nn) > 0);
                        assert(c as int == clip(s[i as int], aa, bb, nn));
                        assert(c > 0);
                    }
                }
            }
            i = i + 1;
        }
        proof {
            assert(s.take(recs@.len() as int) =~= s);
        }
        // Second pass: one total per collected activity.
        let mut out: Vec<(String, u128)> = Vec::new();
        let mut j: usize = 0;
        while j < names.len()
            invariant
                0 <= j <= names@.len(),
                s == records_view(recs@),
                aa == start_bound as int,
                bb == end_bound as int,
                nn == now as int,
                out@.len() == j,
                forall|k: int| 0 <= k < j ==> (#[trigger] out@[k]).0@ == names@[k]@,
                forall|k: int|
                    0 <= k < j ==> (#[trigger] out@[k]).1 as int == total_for(
                        s,
                        out@[k].0@,
                        aa,
                        bb,
                        nn,
                    ) && contributes(s, out@[k].0@, aa, bb, nn),
                forall|n: Seq<char>|
                    contributes(s, n, aa, bb, nn) ==> exists|p: int|
                        0 <= p < names@.len() && (#[trigger] names@[p])@ == n,
                forall|p: int|
                    0 <= p < names@.len() ==> contributes(s, (#[trigger] names@[p])@, aa, bb, nn),
                forall|j1: int, j2: int|
                    0 <= j1 < names@.len() && 0 <= j2 < names@.len() && (#[trigger] names@[j1])@ == (
                    #[trigger] names@[j2])@ ==> j1 == j2,
            decreases names@.len() - j,
        {
            let total = total_seconds(recs, &names[j], start_bound, end_bound, now);
            out.push((names[j].clone(), total));
            j = j + 1;
        }
        proof {
            assert forall|n: Seq<char>| contributes(s, n, aa, bb, nn) implies exists|p: int|
                0 <= p < out@.len() && (#[trigger] out@[p]).0@ == n by {
                let p = choose|p: int| 0 <= p < names@.len() && (#[trigger] names@[p])@ == n;
                assert(out@[p].0@ == n);
            }
        }
        out
    }
}

/// The window a `Summary` query asks for.  A missing bound defaults to the
/// current time (so a query with no bounds at all covers nothing): the
/// defaulting policy is part of the query protocol and is fixed here.
pub fn resolve_window(start_bound: Option<i64>, end_bound: Option<i64>, now: i64) -> (r: (i64, i64))
    ensures
        r.0 == match start_bound {
            Some(t) => t,
            None => now,
        },
        r.1 == match end_bound {
            Some(t) => t,
            None => now,
        },
{
    let a = match start_bound {
        Some(t) => t,
        None => now,
    };
    let b = match end_bound {
        Some(t) => t,
        None => now,
    };
    (a, b)
}

/// One clipped contribution splits cleanly at any point of a window that
/// contains the whole interval.
proof fn lemma_clip_split(iv: IntervalModel, a: int, b: int, c: int, now: int)
    requires
        a <= b <= c,
        a <= iv.start,
        end_or(iv, now) <= c,
    ensures
        clip(iv, a, c, now) == clip(iv, a, b, now) + clip(iv, b, c, now),
{
}

/// Law: the summary is additive.  For a window `[a, c)` containing every
/// interval outright (ends taken at `now`), splitting the window at any
/// `b` with `a <= b <= c` neither loses nor double-counts time:
/// the total for each activity over `[a, c)` is the sum of its totals over
/// `[a, b)` and `[b, c)`.
pub proof fn lemma_summary_additive(
    s: Seq<IntervalModel>,
    name: Seq<char>,
    a: int,
    b: int,
    c: int,
    now: int,
)
    requires
        a <= b <= c,
        forall|i: int|
            0 <= i < s.len() ==> a <= (#[trigger] s[i]).start && end_or(s[i], now) <= c,
    ensures
        total_for(s, name, a, c, now) == total_for(s, name, a, b, now) + total_for(
            s,
            name,
            b,
            c,
            now,
        ),
    decreases s.len(),
{
    if s.len() == 0 {
    } else {
        assert(forall|i: int|
            0 <= i < s.drop_last().len() ==> s.drop_last()[i] == s[i]);
        lemma_summary_additive(s.drop_last(), name, a, b, c, now);
        assert(s.last() == s[s.len() - 1]);
        lemma_clip_split(s.last(), a, b, c, now);
    }
}

/// Law: a window lying entirely before every recorded interval has an empty
/// summary: no activity contributes, and every total is zero.
pub proof fn lemma_summary_empty_before(s: Seq<IntervalModel>, a: int, b: int, now: int)
    requires
        forall|i: int| 0 <= i < s.len() ==> b <= (#[trigger] s[i]).start,
    ensures
        forall|n: Seq<char>| !contributes(s, n, a, b, now),
        forall|n: Seq<char>| total_for(s, n, a, b, now) == 0,
        summary_map(s, a, b, now) =~= Map::<Seq<char>, int>::empty(),
    decreases s.len(),
{
    assert forall|n: Seq<char>| !contributes(s, n, a, b, now) by {
        assert forall|i: int| 0 <= i < s.len() implies clip(s[i], a, b, now) <= 0 by {}
    }
    if s.len() == 0 {
    } else {
        assert(forall|i: int| 0 <= i < s.drop_last().len() ==> s.drop_last()[i] == s[i]);
        lemma_summary_empty_before(s.drop_last(), a, b, now);
        assert(s.last() == s[s.len() - 1]);
        assert(clip(s.last(), a, b, now) == 0);
        assert forall|n: Seq<char>| total_for(s, n, a, b, now) == 0 by {
            assert(total_for(s.drop_last(), n, a, b, now) == 0);
        }
    }
}

} // verus!
