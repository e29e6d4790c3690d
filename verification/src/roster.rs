use vstd::prelude::*;
use crate::worker::{WorkerProgress, WorkerStateView, WorkerStatusView};

verus! {

/// How long a worker may stay silent before it counts as gone: ten
/// seconds, in nanoseconds.
pub const LIVENESS_TIMEOUT_NANOS: u64 = 10_000_000_000;

/// No two records of the roster belong to the same worker.
pub open spec fn distinct_ids(s: Seq<WorkerStateView>) -> bool {
    forall|i: int, j: int| 0 <= i < j < s.len() ==> s[i].id != s[j].id
}

/// Some record of the roster belongs to worker `id`.
pub open spec fn has_id(s: Seq<WorkerStateView>, id: Seq<char>) -> bool {
    exists|i: int| 0 <= i < s.len() && #[trigger] s[i].id == id
}

/// The place of worker `id` in a roster that holds it.
pub open spec fn index_of(s: Seq<WorkerStateView>, id: Seq<char>) -> int
    recommends
        has_id(s, id),
{
    choose|i: int| 0 <= i < s.len() && #[trigger] s[i].id == id
}

/// The record of worker `id`, if the roster holds one.
pub open spec fn record_of(s: Seq<WorkerStateView>, id: Seq<char>) -> Option<WorkerStateView> {
    if has_id(s, id) {
        Some(s[index_of(s, id)])
    } else {
        None
    }
}

/// The roster after record `r` has been stored: it takes the place of the
/// record with the same id, or goes to the end when there is none.
pub open spec fn upsert(s: Seq<WorkerStateView>, r: WorkerStateView) -> Seq<WorkerStateView> {
    if has_id(s, r.id) {
        s.update(index_of(s, r.id), r)
    } else {
        s.push(r)
    }
}

/// A record is stale at time `now` when the worker was last heard from
/// more than the liveness timeout ago. A record stamped later than `now`
/// has age zero.
pub open spec fn stale(r: WorkerStateView, now: u64) -> bool {
    now - r.last_seen > LIVENESS_TIMEOUT_NANOS
}

/// The records that are not stale at time `now`, in their order.
pub open spec fn live(s: Seq<WorkerStateView>, now: u64) -> Seq<WorkerStateView>
    decreases s.len(),
{
    if s.len() == 0 {
        Seq::empty()
    } else if stale(s.last(), now) {
        live(s.drop_last(), now)
    } else {
        live(s.drop_last(), now).push(s.last())
    }
}

/// The ids of the records that are stale at time `now`, in their order.
pub open spec fn stale_ids(s: Seq<WorkerStateView>, now: u64) -> Seq<Seq<char>>
    decreases s.len(),
{
    if s.len() == 0 {
        Seq::empty()
    } else if stale(s.last(), now) {
        stale_ids(s.drop_last(), now).push(s.last().id)
    } else {
        stale_ids(s.drop_last(), now)
    }
}

/// Every record of the roster says that its worker has completed.
pub open spec fn all_completed(s: Seq<WorkerStateView>) -> bool {
    forall|i: int| 0 <= i < s.len() ==> (#[trigger] s[i]).status == WorkerStatusView::Completed
}

/// The run is complete when every registered worker has completed and as
/// many workers are registered as are expected.
pub open spec fn complete(s: Seq<WorkerStateView>, expected: usize) -> bool {
    all_completed(s) && s.len() == expected
}

/// The quantities that are added up over a roster.
pub enum Measure {
    /// Requests sent.
    Sent,
    /// Requests that succeeded.
    Success,
    /// Requests that failed.
    Error,
    /// The request rate, in thousandths of a request per second.
    Rate,
    /// The average response time in microseconds.
    ResponseTime,
    /// One for a worker that reports a non-zero average response time,
    /// zero for any other.
    Reporting,
}

/// What one snapshot contributes to a measure.
pub open spec fn measure(m: Measure, p: WorkerProgress) -> nat {
    match m {
        Measure::Sent => p.requests_sent as nat,
        Measure::Success => p.requests_success as nat,
        Measure::Error => p.requests_error as nat,
        Measure::Rate => p.current_rps_milli as nat,
        Measure::ResponseTime => p.avg_response_time_us as nat,
        Measure::Reporting => if p.avg_response_time_us > 0 {
            1nat
        } else {
            0nat
        },
    }
}

/// The sum of a measure over all records of a roster.
pub open spec fn total(s: Seq<WorkerStateView>, m: Measure) -> nat
    decreases s.len(),
{
    if s.len() == 0 {
        0
    } else {
        total(s.drop_last(), m) + measure(m, s.last().progress)
    }
}

/// A sum as a counter holds it: the sum itself while it fits, the largest
/// counter value beyond that.
pub open spec fn saturate(n: nat) -> u64 {
    if n > u64::MAX {
        u64::MAX
    } else {
        n as u64
    }
}

/// The mean of the workers' average response times, each worker that
/// reports a non-zero average counting once whatever its volume; zero when
/// no worker reports one. The quotient is rounded down.
pub open spec fn mean_response_time(s: Seq<WorkerStateView>) -> nat {
    if total(s, Measure::Reporting) > 0 {
        total(s, Measure::ResponseTime) / total(s, Measure::Reporting)
    } else {
        0
    }
}

/// The single snapshot that stands for a whole roster: the counters and
/// the rates added up, the response time averaged over the workers that
/// report one.
pub open spec fn aggregate(s: Seq<WorkerStateView>) -> WorkerProgress {
    WorkerProgress {
        requests_sent: saturate(total(s, Measure::Sent)),
        requests_success: saturate(total(s, Measure::Success)),
        requests_error: saturate(total(s, Measure::Error)),
        avg_response_time_us: saturate(mean_response_time(s)),
        current_rps_milli: saturate(total(s, Measure::Rate)),
    }
}

/// A sum over a roster is at most the largest counter value for each
/// record.
pub proof fn lemma_total_bound(s: Seq<WorkerStateView>, m: Measure)
    ensures
        total(s, m) <= s.len() * u64::MAX,
    decreases s.len(),
{
    if s.len() > 0 {
        lemma_total_bound(s.drop_last(), m);
        assert(total(s, m) <= (s.len() - 1) * u64::MAX + u64::MAX);
        assert((s.len() - 1) * u64::MAX + u64::MAX == s.len() * u64::MAX) by (nonlinear_arith);
    }
}

/// A record added at the end adds its contribution to the sum.
pub proof fn lemma_total_push(s: Seq<WorkerStateView>, r: WorkerStateView, m: Measure)
    ensures
        total(s.push(r), m) == total(s, m) + measure(m, r.progress),
{
    assert(s.push(r).drop_last() =~= s);
}

/// Taking a record out takes its contribution out of the sum.
pub proof fn lemma_total_remove(s: Seq<WorkerStateView>, i: int, m: Measure)
    requires
        0 <= i < s.len(),
    ensures
        total(s, m) == total(s.remove(i), m) + measure(m, s[i].progress),
    decreases s.len(),
{
    if i == s.len() - 1 {
        assert(s.remove(i) =~= s.drop_last());
    } else {
        lemma_total_remove(s.drop_last(), i, m);
        assert(s.remove(i).drop_last() =~= s.drop_last().remove(i));
        assert(s.remove(i).last() == s.last());
    }
}

/// Replacing a record exchanges its contribution to the sum for that of
/// the new record.
pub proof fn lemma_total_update(s: Seq<WorkerStateView>, i: int, r: WorkerStateView, m: Measure)
    requires
        0 <= i < s.len(),
    ensures
        total(s.update(i, r), m) + measure(m, s[i].progress) == total(s, m) + measure(
            m,
            r.progress,
        ),
{
    lemma_total_remove(s, i, m);
    lemma_total_remove(s.update(i, r), i, m);
    assert(s.update(i, r).remove(i) =~= s.remove(i));
}

/// What the live part of a roster holds: exactly the records that are not
/// stale, and no id twice where the roster held none twice.
pub proof fn lemma_live_members(s: Seq<WorkerStateView>, now: u64)
    ensures
        live(s, now).len() <= s.len(),
        forall|k: int|
            0 <= k < live(s, now).len() ==> !stale(#[trigger] live(s, now)[k], now) && s.contains(
                live(s, now)[k],
            ),
        forall|i: int| 0 <= i < s.len() && !stale(#[trigger] s[i], now) ==> live(s, now).contains(s[i]),
        distinct_ids(s) ==> distinct_ids(live(s, now)),
    decreases s.len(),
{
    if s.len() > 0 {
        let front = s.drop_last();
        let kept = live(front, now);
        lemma_live_members(front, now);
        assert forall|k: int| 0 <= k < live(s, now).len() implies !stale(
            #[trigger] live(s, now)[k],
            now,
        ) && s.contains(live(s, now)[k]) by {
            if k < kept.len() {
                assert(live(s, now)[k] == kept[k]);
                assert(front.contains(kept[k]));
                let i = choose|i: int| 0 <= i < front.len() && front[i] == kept[k];
                assert(s[i] == kept[k]);
            } else {
                assert(live(s, now)[k] == s.last());
                assert(s[s.len() - 1] == s.last());
            }
        }
        assert forall|i: int| 0 <= i < s.len() && !stale(#[trigger] s[i], now) implies live(
            s,
            now,
        ).contains(s[i]) by {
            if i < front.len() {
                assert(front[i] == s[i]);
                assert(kept.contains(front[i]));
                let k = choose|k: int| 0 <= k < kept.len() && kept[k] == front[i];
                assert(live(s, now)[k] == s[i]);
            } else {
                assert(live(s, now)[kept.len() as int] == s[i]);
            }
        }
        if distinct_ids(s) {
            assert(distinct_ids(front));
            assert forall|a: int, b: int| 0 <= a < b < live(s, now).len() implies live(s, now)[a].id
                != live(s, now)[b].id by {
                if b < kept.len() {
                    assert(live(s, now)[a] == kept[a]);
                    assert(live(s, now)[b] == kept[b]);
                } else {
                    assert(live(s, now)[a] == kept[a]);
                    assert(front.contains(kept[a]));
                    let i = choose|i: int| 0 <= i < front.len() && front[i] == kept[a];
                    assert(s[i].id != s[s.len() - 1].id);
                }
            }
        }
    }
}

} // verus!
