//! Partitioning a batch of spans into traces.
use vstd::prelude::*;
use vstd::relations::{sorted_by, total_ordering};
use vstd::seq_lib::lemma_sorted_unique;
use crate::span::{SpanData, trace_keys};

verus! {

broadcast use vstd::seq_lib::group_to_multiset_ensures;

/// The spans are ordered by trace id.
pub open spec fn sorted_by_trace(s: Seq<SpanData>) -> bool {
    forall|i: int, j: int| 0 <= i < j < s.len() ==> s[i].trace_id <= s[j].trace_id
}

/// The maximal runs of equal keys, as half-open index ranges, in order.
pub open spec fn runs(k: Seq<u128>) -> Seq<(int, int)>
    decreases k.len(),
{
    if k.len() == 0 {
        Seq::empty()
    } else {
        let r = runs(k.drop_last());
        let n = k.len() as int;
        if n >= 2 && k[n - 2] == k[n - 1] {
            r.update(r.len() - 1, (r.last().0, n))
        } else {
            r.push((n - 1, n))
        }
    }
}

/// Index ranges as mathematical integers.
pub open spec fn ranges_view(g: Seq<(usize, usize)>) -> Seq<(int, int)> {
    g.map_values(|p: (usize, usize)| (p.0 as int, p.1 as int))
}

/// `r` cuts `k` into non-empty contiguous ranges that cover it in order.
pub open spec fn is_range_cover(k: Seq<u128>, r: Seq<(int, int)>) -> bool {
    &&& (k.len() == 0 <==> r.len() == 0)
    &&& r.len() > 0 ==> r[0].0 == 0 && r.last().1 == k.len()
    &&& forall|g: int| 0 <= g < r.len() ==> 0 <= #[trigger] r[g].0 < r[g].1 <= k.len()
    &&& forall|g: int| 0 <= g < r.len() - 1 ==> #[trigger] r[g].1 == r[g + 1].0
}

/// Every range of `r` holds a single key of `k`.
pub open spec fn ranges_constant(k: Seq<u128>, r: Seq<(int, int)>) -> bool {
    forall|g: int, j: int|
        #![trigger r[g], k[j]]
        0 <= g < r.len() && r[g].0 <= j < r[g].1 ==> k[j] == k[r[g].0]
}

/// Neighbouring ranges of `r` hold different keys of `k`.
pub open spec fn ranges_maximal(k: Seq<u128>, r: Seq<(int, int)>) -> bool {
    forall|g: int| 0 <= g < r.len() - 1 ==> k[#[trigger] r[g + 1].0] != k[r[g].0]
}

/// `r` cuts `k` into non-empty contiguous ranges that cover it in order, each
/// holding one key, and neighbouring ranges hold different keys.
pub open spec fn is_trace_partition(k: Seq<u128>, r: Seq<(int, int)>) -> bool {
    &&& is_range_cover(k, r)
    &&& ranges_constant(k, r)
    &&& ranges_maximal(k, r)
}

/// The maximal runs of a key sequence partition it.
#[verifier::rlimit(60)]
pub proof fn lemma_runs_partition(k: Seq<u128>)
    ensures
        is_trace_partition(k, runs(k)),
    decreases k.len(),
{
    if k.len() > 0 {
        let kp = k.drop_last();
        lemma_runs_partition(kp);
        let rp = runs(kp);
        let n = k.len() as int;
        let r = runs(k);
        assert forall|j: int| 0 <= j < n - 1 implies kp[j] == #[trigger] k[j] by {}
        if n >= 2 && k[n - 2] == k[n - 1] {
            assert(kp[rp.last().0] == kp[n - 2]);
            assert(r.len() == rp.len());
            assert forall|g: int| 0 <= g < r.len() - 1 implies #[trigger] r[g] == rp[g] by {}
            assert(r.last() == (rp.last().0, n));
            assert(is_range_cover(k, r));
            assert forall|g: int, j: int|
                #![trigger r[g], k[j]]
                0 <= g < r.len() && r[g].0 <= j < r[g].1 implies k[j] == k[r[g].0] by {
                if j < n - 1 {
                    assert(kp[j] == kp[rp[g].0]);
                }
            }
            assert forall|g: int| 0 <= g < r.len() - 1 implies k[#[trigger] r[g + 1].0] != k[r[g].0] by {
                assert(kp[rp[g + 1].0] != kp[rp[g].0]);
            }
        } else {
            if n >= 2 {
                assert(kp[rp.last().0] == kp[n - 2]);
            }
            assert(r == rp.push((n - 1, n)));
            assert(is_range_cover(k, r));
            assert forall|g: int, j: int|
                #![trigger r[g], k[j]]
                0 <= g < r.len() && r[g].0 <= j < r[g].1 implies k[j] == k[r[g].0] by {
                if g < r.len() - 1 {
                    assert(r[g] == rp[g]);
                    assert(kp[j] == kp[rp[g].0]);
                }
            }
            assert forall|g: int| 0 <= g < r.len() - 1 implies k[#[trigger] r[g + 1].0] != k[r[g].0] by {
                if g < r.len() - 2 {
                    assert(kp[rp[g + 1].0] != kp[rp[g].0]);
                }
            }
        }
    }
}

/// Rearranging spans rearranges their trace ids alike.
proof fn lemma_keys_multiset(a: Seq<SpanData>, b: Seq<SpanData>)
    requires
        a.to_multiset() == b.to_multiset(),
    ensures
        trace_keys(a).to_multiset() == trace_keys(b).to_multiset(),
    decreases a.len(),
{
    if a.len() == 0 {
        vstd::seq_lib::to_multiset_len(a);
        vstd::seq_lib::to_multiset_len(b);
        assert(b.len() == 0);
        assert(trace_keys(a) =~= Seq::<u128>::empty());
        assert(trace_keys(b) =~= Seq::<u128>::empty());
    } else {
        let x = a[0];
        assert(a.to_multiset().contains(x));
        assert(b.to_multiset().contains(x));
        let i = choose|i: int| 0 <= i < b.len() && b[i] == x;
        vstd::seq_lib::to_multiset_remove(a, 0);
        vstd::seq_lib::to_multiset_remove(b, i);
        assert(a.remove(0) =~= a.drop_first());
        lemma_keys_multiset(a.drop_first(), b.remove(i));
        assert(trace_keys(b.remove(i)) =~= trace_keys(b).remove(i));
        assert(trace_keys(a.drop_first()) =~= trace_keys(a).remove(0));
        vstd::seq_lib::to_multiset_remove(trace_keys(a), 0);
        vstd::seq_lib::to_multiset_remove(trace_keys(b), i);
        assert(trace_keys(a).to_multiset() =~= trace_keys(a).remove(0).to_multiset().insert(x.trace_id));
        assert(trace_keys(b).to_multiset() =~= trace_keys(b).remove(i).to_multiset().insert(x.trace_id));
    }
}

/// In a cover, a range ends no later than any later range starts.
proof fn lemma_cover_ordered(k: Seq<u128>, r: Seq<(int, int)>, g: int, h: int)
    requires
        is_range_cover(k, r),
        0 <= g < h < r.len(),
    ensures
        r[g].1 <= r[h].0,
    decreases h - g,
{
    if h > g + 1 {
        lemma_cover_ordered(k, r, g, h - 1);
        assert(r[h - 1].0 < r[h - 1].1);
    }
}

/// In spans ordered by trace id, the trace ids of successive maximal runs increase.
proof fn lemma_run_keys_increase(s: Seq<SpanData>)
    requires
        sorted_by_trace(s),
    ensures
        forall|g: int, h: int|
            0 <= g < h < runs(trace_keys(s)).len() ==> trace_keys(s)[#[trigger] runs(
                trace_keys(s),
            )[g].0] < trace_keys(s)[#[trigger] runs(trace_keys(s))[h].0],
{
    let k = trace_keys(s);
    let r = runs(k);
    lemma_runs_partition(k);
    assert forall|g: int, h: int| 0 <= g < h < r.len() implies k[#[trigger] r[g].0] < k[#[trigger] r[h].0] by {
        lemma_cover_ordered(k, r, g, h);
        assert(k[r[h].0 - 1] == k[r[h - 1].0]);
        assert(k[r[h - 1].0] != k[r[h].0]);
        assert(k[r[g].0] <= k[r[h].0 - 1]);
    }
}

/// A batch whose spans carry exactly two distinct trace ids is cut into exactly
/// two groups: the grouped batch holds the same spans as the batch, its groups
/// cover it without gaps or overlaps, every group holds spans of one trace id
/// only, and the two groups hold different trace ids.
pub proof fn lemma_two_traces_two_groups(batch: Seq<SpanData>, grouped: Seq<SpanData>, t1: u128, t2: u128)
    requires
        t1 != t2,
        forall|i: int| 0 <= i < batch.len() ==> #[trigger] batch[i].trace_id == t1 || batch[i].trace_id == t2,
        exists|i: int| 0 <= i < batch.len() && #[trigger] batch[i].trace_id == t1,
        exists|i: int| 0 <= i < batch.len() && #[trigger] batch[i].trace_id == t2,
        grouped.to_multiset() == batch.to_multiset(),
        sorted_by_trace(grouped),
    ensures
        runs(trace_keys(grouped)).len() == 2,
        is_trace_partition(trace_keys(grouped), runs(trace_keys(grouped))),
        grouped[runs(trace_keys(grouped))[0].0].trace_id != grouped[runs(trace_keys(grouped))[1].0].trace_id,
{
    let k = trace_keys(grouped);
    let r = runs(k);
    lemma_runs_partition(k);
    lemma_run_keys_increase(grouped);
    assert forall|j: int| 0 <= j < grouped.len() implies #[trigger] k[j] == t1 || k[j] == t2 by {
        assert(grouped.to_multiset().contains(grouped[j]));
        assert(batch.to_multiset().contains(grouped[j]));
    }
    let i1 = choose|i: int| 0 <= i < batch.len() && #[trigger] batch[i].trace_id == t1;
    let i2 = choose|i: int| 0 <= i < batch.len() && #[trigger] batch[i].trace_id == t2;
    assert(batch.to_multiset().contains(batch[i1]));
    assert(batch.to_multiset().contains(batch[i2]));
    assert(grouped.to_multiset().contains(batch[i1]));
    assert(grouped.to_multiset().contains(batch[i2]));
    let j1 = choose|j: int| 0 <= j < grouped.len() && grouped[j] == batch[i1];
    let j2 = choose|j: int| 0 <= j < grouped.len() && grouped[j] == batch[i2];
    assert(k[j1] == t1 && k[j2] == t2);
    if r.len() == 1 {
        assert(k[j1] == k[r[0].0]);
        assert(k[j2] == k[r[0].0]);
    }
    if r.len() >= 3 {
        assert(k[r[0].0] < k[r[1].0]);
        assert(k[r[1].0] < k[r[2].0]);
    }
    assert(r.len() == 2);
}

/// In spans ordered by trace id, the spans before a run and after it carry
/// other trace ids than the run.
proof fn lemma_outside_run(s: Seq<SpanData>, g: int)
    requires
        sorted_by_trace(s),
        0 <= g < runs(trace_keys(s)).len(),
    ensures
        forall|j: int|
            0 <= j < runs(trace_keys(s))[g].0 ==> #[trigger] s[j].trace_id != s[runs(trace_keys(s))[g].0].trace_id,
        forall|j: int|
            runs(trace_keys(s))[g].1 <= j < s.len() ==> #[trigger] s[j].trace_id != s[runs(trace_keys(s))[g].0].trace_id,
        forall|j: int|
            runs(trace_keys(s))[g].0 <= j < runs(trace_keys(s))[g].1 ==> #[trigger] s[j].trace_id
                == s[runs(trace_keys(s))[g].0].trace_id,
        0 <= runs(trace_keys(s))[g].0 < runs(trace_keys(s))[g].1 <= s.len(),
{
    let k = trace_keys(s);
    let r = runs(k);
    lemma_runs_partition(k);
    let a = r[g].0;
    let b = r[g].1;
    if g > 0 {
        assert(r[g - 1].1 == a);
        assert(k[a - 1] == k[r[g - 1].0]);
        assert(k[a] != k[r[g - 1].0]);
        assert forall|j: int| 0 <= j < a implies #[trigger] s[j].trace_id != s[a].trace_id by {
            assert(k[j] == s[j].trace_id);
            assert(k[j] <= k[a - 1]);
        }
    }
    if g < r.len() - 1 {
        assert(r[g + 1].0 == b);
        assert(k[b - 1] == k[a]);
        assert(k[b] != k[a]);
        assert forall|j: int| b <= j < s.len() implies #[trigger] s[j].trace_id != s[a].trace_id by {
            assert(k[j] == s[j].trace_id);
            assert(k[b] <= k[j]);
        }
    }
    assert forall|j: int| a <= j < b implies #[trigger] s[j].trace_id == s[a].trace_id by {
        assert(k[j] == k[a]);
    }
}

/// In spans ordered by trace id, a run holds exactly the spans of the batch
/// that carry the run's trace id.
proof fn lemma_run_multiset(s: Seq<SpanData>, g: int, x: SpanData)
    requires
        sorted_by_trace(s),
        0 <= g < runs(trace_keys(s)).len(),
    ensures
        s.subrange(runs(trace_keys(s))[g].0, runs(trace_keys(s))[g].1).to_multiset().count(x) == if x.trace_id
            == s[runs(trace_keys(s))[g].0].trace_id {
            s.to_multiset().count(x)
        } else {
            0
        },
{
    let r = runs(trace_keys(s));
    lemma_outside_run(s, g);
    let a = r[g].0;
    let b = r[g].1;
    let n = s.len() as int;
    let t = s[a].trace_id;
    let left = s.subrange(0, a);
    let mid = s.subrange(a, b);
    let right = s.subrange(b, n);
    assert(s =~= left + mid + right);
    vstd::seq_lib::lemma_multiset_commutative(left + mid, right);
    vstd::seq_lib::lemma_multiset_commutative(left, mid);
    vstd::seq_lib::to_multiset_contains(left, x);
    vstd::seq_lib::to_multiset_contains(mid, x);
    vstd::seq_lib::to_multiset_contains(right, x);
    if x.trace_id == t {
        if left.contains(x) {
            let j = choose|j: int| 0 <= j < left.len() && left[j] == x;
            assert(s[j] == x);
        }
        if right.contains(x) {
            let j = choose|j: int| 0 <= j < right.len() && right[j] == x;
            assert(s[b + j] == x);
        }
    } else {
        if mid.contains(x) {
            let j = choose|j: int| 0 <= j < mid.len() && mid[j] == x;
            assert(s[a + j] == x);
        }
    }
}

/// Grouping an already grouped batch gives the same groups: any two orderings
/// by trace id of the same spans have the same trace id at every position, so
/// the same ranges, and each range holds the same spans in both.
pub proof fn lemma_regroup_same_groups(grouped: Seq<SpanData>, regrouped: Seq<SpanData>)
    requires
        sorted_by_trace(grouped),
        regrouped.to_multiset() == grouped.to_multiset(),
        sorted_by_trace(regrouped),
    ensures
        trace_keys(regrouped) == trace_keys(grouped),
        runs(trace_keys(regrouped)) == runs(trace_keys(grouped)),
        forall|g: int|
            0 <= g < runs(trace_keys(grouped)).len() ==> #[trigger] regrouped.subrange(
                runs(trace_keys(grouped))[g].0,
                runs(trace_keys(grouped))[g].1,
            ).to_multiset() == grouped.subrange(
                runs(trace_keys(grouped))[g].0,
                runs(trace_keys(grouped))[g].1,
            ).to_multiset(),
{
    let leq = |a: u128, b: u128| a <= b;
    lemma_keys_multiset(regrouped, grouped);
    assert(total_ordering(leq));
    assert(sorted_by(trace_keys(grouped), leq));
    assert(sorted_by(trace_keys(regrouped), leq));
    lemma_sorted_unique(trace_keys(regrouped), trace_keys(grouped), leq);
    let r = runs(trace_keys(grouped));
    lemma_runs_partition(trace_keys(grouped));
    assert forall|g: int| 0 <= g < r.len() implies #[trigger] regrouped.subrange(r[g].0, r[g].1).to_multiset()
        == grouped.subrange(r[g].0, r[g].1).to_multiset() by {
        assert(trace_keys(regrouped)[r[g].0] == trace_keys(grouped)[r[g].0]);
        assert forall|x: SpanData| regrouped.subrange(r[g].0, r[g].1).to_multiset().count(x)
            == grouped.subrange(r[g].0, r[g].1).to_multiset().count(x) by {
            lemma_run_multiset(grouped, g, x);
            lemma_run_multiset(regrouped, g, x);
        }
        assert(regrouped.subrange(r[g].0, r[g].1).to_multiset() =~= grouped.subrange(r[g].0, r[g].1).to_multiset());
    }
}

/// Relies on `slice::sort_unstable_by_key` of std: afterwards the vector holds the
/// same spans, ordered by trace id.
#[verifier::external_body]
fn sort_by_trace_id(spans: &mut Vec<SpanData>)
    ensures
        final(spans)@.to_multiset() == old(spans)@.to_multiset(),
        sorted_by_trace(final(spans)@),
{
    spans.sort_unstable_by_key(|s| s.trace_id)
}

/// Orders the batch by trace id in place and returns the ranges of its traces:
/// one range `(start, end)` for each maximal run of spans sharing a trace id,
/// in order. An empty batch gives no range.
pub fn group_into_traces(spans: &mut Vec<SpanData>) -> (groups: Vec<(usize, usize)>)
    ensures
        final(spans)@.to_multiset() == old(spans)@.to_multiset(),
        sorted_by_trace(final(spans)@),
        ranges_view(groups@) == runs(trace_keys(final(spans)@)),
        is_trace_partition(trace_keys(final(spans)@), ranges_view(groups@)),
{
    sort_by_trace_id(spans);
    let ghost sorted = spans@;
    let ghost k = trace_keys(sorted);
    proof {
        lemma_runs_partition(k);
    }
    let n = spans.len();
    let mut groups: Vec<(usize, usize)> = Vec::new();
    if n == 0 {
        assert(ranges_view(groups@) =~= Seq::<(int, int)>::empty());
        return groups;
    }
    let mut start: usize = 0;
    let mut start_trace_id = spans[0].trace_id;
    let mut idx: usize = 1;
    assert(k.take(1).drop_last() =~= Seq::<u128>::empty());
    assert(ranges_view(groups@).push((0, 1)) =~= seq![(0int, 1int)]);
    assert(runs(Seq::<u128>::empty()) == Seq::<(int, int)>::empty());
    assert(runs(k.take(1)) =~= seq![(0int, 1int)]);
    while idx < n
        invariant
            spans@ == sorted,
            k == trace_keys(sorted),
            n == sorted.len(),
            1 <= idx <= n,
            start < idx,
            start_trace_id == k[start as int],
            forall|j: int| start <= j < idx ==> k[j] == start_trace_id,
            runs(k.take(idx as int)) == ranges_view(groups@).push((start as int, idx as int)),
        decreases n - idx,
    {
        let current = spans[idx].trace_id;
        let ghost prev = ranges_view(groups@).push((start as int, idx as int));
        assert(k.take(idx + 1).drop_last() =~= k.take(idx as int));
        assert(k[idx - 1] == start_trace_id);
        if current != start_trace_id {
            groups.push((start, idx));
            assert(ranges_view(groups@) =~= prev);
            start = idx;
            start_trace_id = current;
            assert(runs(k.take(idx + 1)) =~= ranges_view(groups@).push((start as int, idx + 1)));
        } else {
            assert(runs(k.take(idx + 1)) =~= ranges_view(groups@).push((start as int, idx + 1)));
        }
        idx += 1;
    }
    let ghost before = ranges_view(groups@);
    groups.push((start, n));
    assert(ranges_view(groups@) =~= before.push((start as int, n as int)));
    assert(k.take(n as int) =~= k);
    groups
}

} // verus!
