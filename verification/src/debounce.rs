//! Beat debouncer: a greedy left-to-right scan over onset timestamps that
//! drops any timestamp within the minimum separation window of the
//! previously accepted one. The first timestamp is always accepted.

use vstd::prelude::*;
use crate::config::{time_ok, MAX_TIME_MS};

verus! {

/// All timestamps within the range the core handles.
pub open spec fn times_ok(xs: Seq<i64>) -> bool {
    forall|i: int| 0 <= i < xs.len() ==> time_ok(#[trigger] xs[i] as int)
}

/// A strictly increasing sequence of timestamps.
pub open spec fn strictly_increasing(xs: Seq<i64>) -> bool {
    forall|i: int, j: int| 0 <= i < j < xs.len() ==> xs[i] < xs[j]
}

/// The tail of the greedy scan: what survives from position `i` onward,
/// given that `last` was the most recently accepted timestamp.
pub open spec fn debounce_from(xs: Seq<i64>, sep: int, i: int, last: int) -> Seq<i64>
    decreases xs.len() - i,
{
    if i < 0 || i >= xs.len() {
        Seq::empty()
    } else if xs[i] >= last + sep {
        seq![xs[i]] + debounce_from(xs, sep, i + 1, xs[i] as int)
    } else {
        debounce_from(xs, sep, i + 1, last)
    }
}

/// The debounced sequence: the first timestamp, then every later one that
/// keeps at least `sep` of distance from the previously accepted one.
pub open spec fn spec_debounce(xs: Seq<i64>, sep: int) -> Seq<i64> {
    if xs.len() == 0 {
        Seq::empty()
    } else {
        seq![xs[0]] + debounce_from(xs, sep, 1, xs[0] as int)
    }
}

/// Debounce a beat sequence.
pub fn debounce_beats(beats: &Vec<i64>, min_separation_ms: i64) -> (out: Vec<i64>)
    requires
        1 <= min_separation_ms <= MAX_TIME_MS,
        times_ok(beats@),
    ensures
        out@ == spec_debounce(beats@, min_separation_ms as int),
        strictly_increasing(out@),
        times_ok(out@),
        out@.len() <= beats@.len(),
        beats@.len() > 0 ==> out@.len() > 0 && out@[0] == beats@[0],
{
    let ghost sep = min_separation_ms as int;
    let mut out: Vec<i64> = Vec::new();
    if beats.len() == 0 {
        proof {
            lemma_debounce_properties(beats@, sep);
        }
        return out;
    }
    let first = beats[0];
    out.push(first);
    let mut last: i64 = first;
    let mut i: usize = 1;
    proof {
        assert(spec_debounce(beats@, sep)
            =~= out@ + debounce_from(beats@, sep, 1, first as int));
    }
    while i < beats.len()
        invariant
            1 <= i <= beats@.len(),
            sep == min_separation_ms as int,
            1 <= min_separation_ms <= MAX_TIME_MS,
            times_ok(beats@),
            out@.len() >= 1,
            0 <= last <= MAX_TIME_MS,
            last == out@[out@.len() - 1],
            spec_debounce(beats@, sep)
                == out@ + debounce_from(beats@, sep, i as int, last as int),
        decreases beats@.len() - i,
    {
        let t = beats[i];
        if t >= last + min_separation_ms {
            proof {
                assert(debounce_from(beats@, sep, i as int, last as int)
                    == seq![beats@[i as int]]
                        + debounce_from(beats@, sep, i as int + 1, t as int));
            }
            out.push(t);
            last = t;
            proof {
                assert(spec_debounce(beats@, sep)
                    =~= out@ + debounce_from(beats@, sep, i as int + 1, last as int));
            }
        } else {
            proof {
                assert(debounce_from(beats@, sep, i as int, last as int)
                    == debounce_from(beats@, sep, i as int + 1, last as int));
            }
        }
        i = i + 1;
    }
    proof {
        assert(debounce_from(beats@, sep, i as int, last as int) =~= Seq::<i64>::empty());
        assert(out@ =~= spec_debounce(beats@, sep));
        lemma_debounce_properties(beats@, sep);
    }
    out
}

/// An index sequence placing each element of `a` in `b`, strictly left
/// to right, no position below `lo`.
pub open spec fn subsequence_witness(a: Seq<i64>, b: Seq<i64>, idx: Seq<int>, lo: int) -> bool {
    &&& idx.len() == a.len()
    &&& forall|k: int| 0 <= k < idx.len() ==> lo <= #[trigger] idx[k] < b.len() && b[idx[k]] == a[k]
    &&& forall|k: int| 0 < k < idx.len() ==> idx[k - 1] < #[trigger] idx[k]
}

/// `a` occurs in `b` in order: some strictly increasing index sequence
/// places each element of `a` in `b`.
pub open spec fn is_subsequence(a: Seq<i64>, b: Seq<i64>) -> bool {
    exists|idx: Seq<int>| #[trigger] subsequence_witness(a, b, idx, 0)
}

/// The greedy tail is a subsequence of the input from position `i` on.
proof fn lemma_debounce_from_subsequence(xs: Seq<i64>, sep: int, i: int, last: int)
    ensures
        exists|idx: Seq<int>| #[trigger] subsequence_witness(debounce_from(xs, sep, i, last), xs, idx, i),
    decreases xs.len() - i,
{
    let r = debounce_from(xs, sep, i, last);
    if i < 0 || i >= xs.len() {
        assert(subsequence_witness(r, xs, Seq::<int>::empty(), i));
    } else if xs[i] >= last + sep {
        lemma_debounce_from_subsequence(xs, sep, i + 1, xs[i] as int);
        let rest = debounce_from(xs, sep, i + 1, xs[i] as int);
        let w = choose|w: Seq<int>| #[trigger] subsequence_witness(rest, xs, w, i + 1);
        let idx = seq![i] + w;
        assert forall|k: int| 0 <= k < idx.len()
            implies i <= #[trigger] idx[k] < xs.len() && xs[idx[k]] == r[k] by {
            if k > 0 {
                assert(idx[k] == w[k - 1]);
                assert(r[k] == rest[k - 1]);
            }
        }
        assert forall|k: int| 0 < k < idx.len() implies idx[k - 1] < #[trigger] idx[k] by {
            if k == 1 {
                assert(idx[0] == i && idx[1] == w[0]);
            } else {
                assert(idx[k - 1] == w[k - 2] && idx[k] == w[k - 1]);
                assert(w[k - 1 - 1] < w[k - 1]);
            }
        }
        assert(subsequence_witness(r, xs, idx, i));
    } else {
        lemma_debounce_from_subsequence(xs, sep, i + 1, last);
        let w = choose|w: Seq<int>| #[trigger] subsequence_witness(r, xs, w, i + 1);
        assert(subsequence_witness(r, xs, w, i));
    }
}

/// What the greedy tail guarantees: everything it keeps clears `last` by
/// at least `sep`, consecutive survivors keep `sep` of distance, every
/// survivor is an element of the input at or after `i`, and no more
/// survive than there are inputs left.
proof fn lemma_debounce_from_props(xs: Seq<i64>, sep: int, i: int, last: int)
    requires
        sep >= 1,
    ensures
        ({
            let r = debounce_from(xs, sep, i, last);
            &&& forall|j: int| 0 <= j < r.len() ==> #[trigger] r[j] >= last + sep
            &&& forall|j: int| 0 < j < r.len() ==> #[trigger] r[j] >= r[j - 1] + sep
            &&& forall|j: int| 0 <= j < r.len()
                ==> exists|idx: int| i <= idx < xs.len() && #[trigger] r[j] == xs[idx]
            &&& r.len() <= if xs.len() - i >= 0 { xs.len() - i } else { 0 }
        }),
    decreases xs.len() - i,
{
    if 0 <= i < xs.len() {
        let r = debounce_from(xs, sep, i, last);
        if xs[i] >= last + sep {
            lemma_debounce_from_props(xs, sep, i + 1, xs[i] as int);
            let rest = debounce_from(xs, sep, i + 1, xs[i] as int);
            assert(r == seq![xs[i]] + rest);
            assert(r[0] == xs[i]);
            assert forall|j: int| 0 <= j < r.len() implies #[trigger] r[j] >= last + sep by {
                if j > 0 {
                    assert(r[j] == rest[j - 1]);
                    assert(rest[j - 1] >= xs[i] as int + sep);
                }
            }
            assert forall|j: int| 0 < j < r.len() implies #[trigger] r[j] >= r[j - 1] + sep by {
                if j == 1 {
                    assert(r[1] == rest[0]);
                    assert(rest[0] >= xs[i] as int + sep);
                } else {
                    assert(r[j] == rest[j - 1] && r[j - 1] == rest[j - 2]);
                    assert(rest[j - 1] >= rest[j - 1 - 1] + sep);
                }
            }
            assert forall|j: int| 0 <= j < r.len()
                implies exists|idx: int| i <= idx < xs.len() && #[trigger] r[j] == xs[idx] by {
                if j == 0 {
                    assert(i <= i < xs.len() && r[0] == xs[i]);
                } else {
                    assert(r[j] == rest[j - 1]);
                    let idx = choose|idx: int|
                        i + 1 <= idx < xs.len() && rest[j - 1] == xs[idx];
                    assert(i <= idx < xs.len() && r[j] == xs[idx]);
                }
            }
        } else {
            lemma_debounce_from_props(xs, sep, i + 1, last);
        }
    }
}

/// Debouncing guarantees (over any input): the output is a strictly
/// increasing subsequence of the input; any two consecutive outputs are
/// at least `sep` apart; the output is no longer than the input; the
/// first input is always accepted.
pub proof fn lemma_debounce_properties(xs: Seq<i64>, sep: int)
    requires
        sep >= 1,
    ensures
        ({
            let r = spec_debounce(xs, sep);
            &&& strictly_increasing(r)
            &&& is_subsequence(r, xs)
            &&& forall|j: int| 0 < j < r.len() ==> #[trigger] r[j] - r[j - 1] >= sep
            &&& r.len() <= xs.len()
            &&& xs.len() > 0 ==> r.len() > 0 && r[0] == xs[0]
            &&& forall|j: int| 0 <= j < r.len()
                ==> exists|idx: int| 0 <= idx < xs.len() && #[trigger] r[j] == xs[idx]
        }),
{
    let r = spec_debounce(xs, sep);
    if xs.len() == 0 {
        assert(subsequence_witness(r, xs, Seq::<int>::empty(), 0));
    }
    if xs.len() > 0 {
        lemma_debounce_from_subsequence(xs, sep, 1, xs[0] as int);
        let w = choose|w: Seq<int>|
            subsequence_witness(debounce_from(xs, sep, 1, xs[0] as int), xs, w, 1);
        let idx0 = seq![0] + w;
        assert forall|k: int| 0 <= k < idx0.len()
            implies 0 <= #[trigger] idx0[k] < xs.len() && xs[idx0[k]] == r[k] by {
            if k > 0 {
                assert(idx0[k] == w[k - 1]);
                assert(r[k] == debounce_from(xs, sep, 1, xs[0] as int)[k - 1]);
            }
        }
        assert forall|k: int| 0 < k < idx0.len() implies idx0[k - 1] < #[trigger] idx0[k] by {
            if k == 1 {
                assert(idx0[0] == 0 && idx0[1] == w[0]);
            } else {
                assert(idx0[k - 1] == w[k - 2] && idx0[k] == w[k - 1]);
                assert(w[k - 1 - 1] < w[k - 1]);
            }
        }
        assert(subsequence_witness(r, xs, idx0, 0));
    }
    if xs.len() > 0 {
        lemma_debounce_from_props(xs, sep, 1, xs[0] as int);
        let rest = debounce_from(xs, sep, 1, xs[0] as int);
        assert(r == seq![xs[0]] + rest);
        assert forall|j: int| 0 < j < r.len() implies #[trigger] r[j] - r[j - 1] >= sep by {
            if j == 1 {
                assert(r[1] == rest[0]);
                assert(rest[0] >= xs[0] as int + sep);
            } else {
                assert(r[j] == rest[j - 1] && r[j - 1] == rest[j - 2]);
                assert(rest[j - 1] >= rest[j - 1 - 1] + sep);
            }
        }
        lemma_gaps_imply_increasing(r, sep);
        assert forall|j: int| 0 <= j < r.len()
            implies exists|idx: int| 0 <= idx < xs.len() && #[trigger] r[j] == xs[idx] by {
            if j == 0 {
                assert(0 <= 0 < xs.len() && r[0] == xs[0]);
            } else {
                assert(r[j] == rest[j - 1]);
                let idx = choose|idx: int| 1 <= idx < xs.len() && rest[j - 1] == xs[idx];
                assert(0 <= idx < xs.len() && r[j] == xs[idx]);
            }
        }
    }
}

/// Positive gaps between neighbours make the whole sequence strictly
/// increasing.
proof fn lemma_gaps_imply_increasing(r: Seq<i64>, sep: int)
    requires
        sep >= 1,
        forall|j: int| 0 < j < r.len() ==> #[trigger] r[j] - r[j - 1] >= sep,
    ensures
        strictly_increasing(r),
{
    assert forall|i: int, j: int| 0 <= i < j < r.len() implies r[i] < r[j] by {
        lemma_chain_increasing(r, sep, i, j);
    }
}

proof fn lemma_chain_increasing(r: Seq<i64>, sep: int, i: int, j: int)
    requires
        sep >= 1,
        forall|k: int| 0 < k < r.len() ==> #[trigger] r[k] - r[k - 1] >= sep,
        0 <= i < j < r.len(),
    ensures
        r[i] < r[j],
    decreases j - i,
{
    if j == i + 1 {
        assert(r[j] - r[j - 1] >= sep);
    } else {
        lemma_chain_increasing(r, sep, i, j - 1);
        assert(r[j] - r[j - 1] >= sep);
    }
}

} // verus!
