use vstd::prelude::*;
use vstd::relations::{sorted_by, total_ordering};
use vstd::multiset::group_multiset_axioms;
use vstd::seq_lib::{
    group_to_multiset_ensures, lemma_multiset_commutative, lemma_sorted_unique, to_multiset_build,
    to_multiset_len,
};
use crate::metrics::{clamp, mean_micros, mean_micros_spec};
use crate::roster::saturate;

verus! {

/// The order of samples: the smaller comes first.
pub open spec fn leq() -> spec_fn(u64, u64) -> bool {
    |a: u64, b: u64| a <= b
}

/// No sample of the list is followed by a smaller one.
pub open spec fn ascending(s: Seq<u64>) -> bool {
    forall|i: int, j: int| 0 <= i <= j < s.len() ==> s[i] <= s[j]
}

/// The samples of a list in ascending order.
pub open spec fn sorted(s: Seq<u64>) -> Seq<u64> {
    s.sort_by(leq())
}

/// The place in an ascending list of `len` samples below which the given
/// percentage of the samples lies; the last place at most.
pub open spec fn percentile_index(len: nat, percent: nat) -> int
    recommends
        len > 0,
{
    if (len * percent) / 100 < len - 1 {
        ((len * percent) / 100) as int
    } else {
        len - 1
    }
}

/// The median of an ascending list of samples in milliseconds, in
/// microseconds: the middle sample, or the mean of the two middle samples
/// of a list of even length.
pub open spec fn median_micros_spec(t: Seq<u64>) -> nat
    recommends
        t.len() > 0,
{
    if t.len() % 2 == 0 {
        ((t[t.len() / 2 - 1] + t[t.len() as int / 2]) * 500) as nat
    } else {
        (t[t.len() as int / 2] * 1000) as nat
    }
}

/// What a list of response times comes to. The least, the greatest and the
/// two percentiles are samples and are in milliseconds; the mean and the
/// median are in microseconds.
#[derive(Clone, Copy, Debug, PartialEq, Eq, Structural)]
pub struct LatencySummary {
    pub min_ms: u64,
    pub max_ms: u64,
    pub avg_us: u64,
    pub median_us: u64,
    pub p95_ms: u64,
    pub p99_ms: u64,
}

/// The summary of a list of samples; every figure is zero for an empty
/// list.
pub open spec fn summary_spec(s: Seq<u64>) -> LatencySummary {
    if s.len() == 0 {
        LatencySummary { min_ms: 0, max_ms: 0, avg_us: 0, median_us: 0, p95_ms: 0, p99_ms: 0 }
    } else {
        let t = sorted(s);
        LatencySummary {
            min_ms: t[0],
            max_ms: t[t.len() - 1],
            avg_us: saturate(mean_micros_spec(s)),
            median_us: saturate(median_micros_spec(t)),
            p95_ms: t[percentile_index(t.len(), 95)],
            p99_ms: t[percentile_index(t.len(), 99)],
        }
    }
}

/// An ascending list with the same samples as `s` is the sorted form of
/// `s`.
pub proof fn lemma_sorted_form(s: Seq<u64>, t: Seq<u64>)
    requires
        ascending(t),
        t.to_multiset() == s.to_multiset(),
    ensures
        t == sorted(s),
        t.len() == s.len(),
{
    broadcast use group_to_multiset_ensures;

    assert(total_ordering(leq()));
    to_multiset_len(s);
    to_multiset_len(t);
    s.lemma_sort_by_ensures(leq());
    assert(sorted_by(t, leq()));
    lemma_sorted_unique(t, sorted(s), leq());
}

/// Merges two ascending lists into one.
fn merge(a: &Vec<u64>, b: &Vec<u64>) -> (out: Vec<u64>)
    requires
        ascending(a@),
        ascending(b@),
    ensures
        ascending(out@),
        out@.to_multiset() == a@.to_multiset().add(b@.to_multiset()),
{
    broadcast use {group_to_multiset_ensures, group_multiset_axioms};

    let mut out: Vec<u64> = Vec::new();
    let mut i: usize = 0;
    let mut j: usize = 0;
    assert(a@.take(0) =~= Seq::<u64>::empty());
    assert(b@.take(0) =~= Seq::<u64>::empty());
    assert(out@.to_multiset() =~= a@.take(0).to_multiset().add(b@.take(0).to_multiset()));
    while i < a.len() || j < b.len()
        invariant
            i <= a@.len(),
            j <= b@.len(),
            ascending(a@),
            ascending(b@),
            ascending(out@),
            out@.to_multiset() == a@.take(i as int).to_multiset().add(
                b@.take(j as int).to_multiset(),
            ),
            forall|k: int| 0 <= k < out@.len() && i < a@.len() ==> out@[k] <= a@[i as int],
            forall|k: int| 0 <= k < out@.len() && j < b@.len() ==> out@[k] <= b@[j as int],
        decreases (a@.len() - i) + (b@.len() - j),
    {
        let ghost before = out@;
        if j >= b.len() || (i < a.len() && a[i] <= b[j]) {
            let x = a[i];
            out.push(x);
            proof {
                assert(a@.take(i + 1) =~= a@.take(i as int).push(x));
                assert(out@ == before.push(x));
                to_multiset_build(before, x);
                to_multiset_build(a@.take(i as int), x);
                assert(out@.to_multiset() =~= a@.take(i + 1).to_multiset().add(
                    b@.take(j as int).to_multiset(),
                ));
            }
            i += 1;
        } else {
            let x = b[j];
            out.push(x);
            proof {
                assert(b@.take(j + 1) =~= b@.take(j as int).push(x));
                assert(out@ == before.push(x));
                to_multiset_build(before, x);
                to_multiset_build(b@.take(j as int), x);
                assert(out@.to_multiset() =~= a@.take(i as int).to_multiset().add(
                    b@.take(j + 1).to_multiset(),
                ));
            }
            j += 1;
        }
    }
    assert(a@.take(i as int) =~= a@);
    assert(b@.take(j as int) =~= b@);
    out
}

/// Sorts the part `lo..hi` of a list of samples.
fn sort_range(samples: &Vec<u64>, lo: usize, hi: usize) -> (out: Vec<u64>)
    requires
        lo <= hi <= samples@.len(),
    ensures
        ascending(out@),
        out@.to_multiset() == samples@.subrange(lo as int, hi as int).to_multiset(),
    decreases hi - lo,
{
    broadcast use group_to_multiset_ensures;

    let ghost part = samples@.subrange(lo as int, hi as int);
    if hi - lo <= 1 {
        let mut out: Vec<u64> = Vec::new();
        if hi - lo == 1 {
            out.push(samples[lo]);
            assert(out@ =~= part);
        } else {
            assert(out@ =~= part);
        }
        out
    } else {
        let mid: usize = lo + (hi - lo) / 2;
        let left = sort_range(samples, lo, mid);
        let right = sort_range(samples, mid, hi);
        proof {
            let l = samples@.subrange(lo as int, mid as int);
            let r = samples@.subrange(mid as int, hi as int);
            assert(part =~= l + r);
            lemma_multiset_commutative(l, r);
        }
        merge(&left, &right)
    }
}

/// The samples of a list in ascending order.
pub fn sort_samples(samples: &Vec<u64>) -> (out: Vec<u64>)
    ensures
        out@ == sorted(samples@),
        out@.len() == samples@.len(),
        ascending(out@),
{
    let out = sort_range(samples, 0, samples.len());
    proof {
        assert(samples@.subrange(0, samples@.len() as int) =~= samples@);
        lemma_sorted_form(samples@, out@);
    }
    out
}

/// The place of a percentile in an ascending list of `len` samples.
pub fn percentile_place(len: usize, percent: u8) -> (place: usize)
    requires
        len > 0,
    ensures
        place == percentile_index(len as nat, percent as nat),
        place < len,
{
    assert(len * percent <= u128::MAX) by (nonlinear_arith)
        requires
            len <= u64::MAX,
            percent <= u8::MAX,
    ;
    let scaled: u128 = (len as u128 * percent as u128) / 100;
    if scaled < (len - 1) as u128 {
        scaled as usize
    } else {
        len - 1
    }
}

/// The median of an ascending list of samples.
pub fn median_micros(ordered: &Vec<u64>) -> (median: u64)
    requires
        ordered@.len() > 0,
    ensures
        median == saturate(median_micros_spec(ordered@)),
{
    let len: usize = ordered.len();
    if len % 2 == 0 {
        let pair: u128 = ordered[len / 2 - 1] as u128 + ordered[len / 2] as u128;
        clamp(pair * 500)
    } else {
        clamp(ordered[len / 2] as u128 * 1000)
    }
}

/// Sums up a list of response times in milliseconds.
pub fn summarize(samples: &Vec<u64>) -> (summary: LatencySummary)
    ensures
        summary == summary_spec(samples@),
{
    if samples.len() == 0 {
        return LatencySummary {
            min_ms: 0,
            max_ms: 0,
            avg_us: 0,
            median_us: 0,
            p95_ms: 0,
            p99_ms: 0,
        };
    }
    let ordered = sort_samples(samples);
    let len: usize = ordered.len();
    LatencySummary {
        min_ms: ordered[0],
        max_ms: ordered[len - 1],
        avg_us: mean_micros(samples),
        median_us: median_micros(&ordered),
        p95_ms: ordered[percentile_place(len, 95)],
        p99_ms: ordered[percentile_place(len, 99)],
    }
}

} // verus!
