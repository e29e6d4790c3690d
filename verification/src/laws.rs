use vstd::prelude::*;
use crate::roster::{
    aggregate, complete, distinct_ids, has_id, index_of, lemma_live_members,
    lemma_total_push, lemma_total_remove, lemma_total_update, live, measure,
    record_of, stale, stale_ids, total, upsert, Measure,
};
use crate::cluster::task_spec;
use crate::command::AttackCommandView;
use crate::dispatch::{share_spec, ClusterDistributionMode};
use crate::worker::{WorkerProgress, WorkerStateView};

verus! {

/// In a roster without duplicates a record is found under its own id, at
/// its own place.
pub proof fn lemma_record_at(s: Seq<WorkerStateView>, i: int)
    requires
        distinct_ids(s),
        0 <= i < s.len(),
    ensures
        has_id(s, s[i].id),
        index_of(s, s[i].id) == i,
        record_of(s, s[i].id) == Some(s[i]),
{
    assert(s[i].id == s[i].id);
    let j = index_of(s, s[i].id);
    assert(0 <= j < s.len() && s[j].id == s[i].id);
    if j < i {
        assert(s[j].id != s[i].id);
    } else if i < j {
        assert(s[i].id != s[j].id);
    }
}

/// Storing a record keeps the roster free of duplicates, makes the record
/// the one found under its id, and leaves every other worker's record as
/// it was. The roster grows by one record when the id is new and keeps its
/// length when it is not.
pub proof fn lemma_upsert(s: Seq<WorkerStateView>, r: WorkerStateView)
    requires
        distinct_ids(s),
    ensures
        distinct_ids(upsert(s, r)),
        record_of(upsert(s, r), r.id) == Some(r),
        forall|id: Seq<char>| id != r.id ==> record_of(upsert(s, r), id) == record_of(s, id),
        upsert(s, r).len() == if has_id(s, r.id) {
            s.len()
        } else {
            s.len() + 1
        },
{
    let t = upsert(s, r);
    let at: int = if has_id(s, r.id) {
        index_of(s, r.id)
    } else {
        s.len() as int
    };
    assert(0 <= at < t.len() && t[at] == r);
    assert forall|i: int, j: int| 0 <= i < j < t.len() implies t[i].id != t[j].id by {
        if has_id(s, r.id) {
            assert(t[i].id == s[i].id && t[j].id == s[j].id);
        } else if j == s.len() {
            assert(t[i] == s[i]);
            assert(s[i].id != r.id);
        } else {
            assert(t[i] == s[i] && t[j] == s[j]);
        }
    }
    lemma_record_at(t, at);
    assert forall|id: Seq<char>| id != r.id implies record_of(t, id) == record_of(s, id) by {
        if has_id(s, id) {
            let k = index_of(s, id);
            assert(t[k] == s[k]);
            lemma_record_at(s, k);
            lemma_record_at(t, k);
        } else if has_id(t, id) {
            let k = index_of(t, id);
            assert(k != at);
            assert(s[k].id == id);
        }
    }
}

/// Storing a record changes a sum by what the record contributes beyond
/// the record it replaces.
pub proof fn lemma_total_upsert(s: Seq<WorkerStateView>, r: WorkerStateView, m: Measure)
    requires
        distinct_ids(s),
    ensures
        total(upsert(s, r), m) + (match record_of(s, r.id) {
            Some(earlier) => measure(m, earlier.progress),
            None => 0,
        }) == total(s, m) + measure(m, r.progress),
{
    if has_id(s, r.id) {
        lemma_total_update(s, index_of(s, r.id), r, m);
    } else {
        lemma_total_push(s, r, m);
    }
}

/// The progress that a roster holds for worker `id`, if it holds the
/// worker.
pub open spec fn progress_of(s: Seq<WorkerStateView>, id: Seq<char>) -> Option<WorkerProgress> {
    match record_of(s, id) {
        Some(r) => Some(r.progress),
        None => None,
    }
}

/// Two rosters hold the same workers with the same progress, in whatever
/// order and whenever each worker was last heard from.
pub open spec fn same_progress(a: Seq<WorkerStateView>, b: Seq<WorkerStateView>) -> bool {
    forall|id: Seq<char>| progress_of(a, id) == progress_of(b, id)
}

/// Two rosters hold the same records: whatever is found under an id in
/// one is found under it in the other.
pub open spec fn same_records(a: Seq<WorkerStateView>, b: Seq<WorkerStateView>) -> bool {
    forall|id: Seq<char>| record_of(a, id) == record_of(b, id)
}

/// Storing the records of two different workers gives the same records
/// whichever is stored first.
pub proof fn lemma_stores_commute(s: Seq<WorkerStateView>, p: WorkerStateView, q: WorkerStateView)
    requires
        distinct_ids(s),
        p.id != q.id,
    ensures
        same_records(upsert(upsert(s, p), q), upsert(upsert(s, q), p)),
{
    lemma_upsert(s, p);
    lemma_upsert(s, q);
    lemma_upsert(upsert(s, p), q);
    lemma_upsert(upsert(s, q), p);
    let pq = upsert(upsert(s, p), q);
    let qp = upsert(upsert(s, q), p);
    assert forall|id: Seq<char>| record_of(pq, id) == record_of(qp, id) by {
        if id == p.id {
            assert(record_of(pq, id) == record_of(upsert(s, p), id));
            assert(record_of(upsert(s, p), id) == Some(p));
            assert(record_of(qp, id) == Some(p));
        } else if id == q.id {
            assert(record_of(qp, id) == record_of(upsert(s, q), id));
            assert(record_of(upsert(s, q), id) == Some(q));
            assert(record_of(pq, id) == Some(q));
        } else {
            assert(record_of(pq, id) == record_of(upsert(s, p), id));
            assert(record_of(upsert(s, p), id) == record_of(s, id));
            assert(record_of(qp, id) == record_of(upsert(s, q), id));
            assert(record_of(upsert(s, q), id) == record_of(s, id));
        }
    }
}

/// Taking one record out of a roster without duplicates removes its id
/// and nothing else.
proof fn lemma_remove_record(s: Seq<WorkerStateView>, k: int)
    requires
        distinct_ids(s),
        0 <= k < s.len(),
    ensures
        distinct_ids(s.remove(k)),
        !has_id(s.remove(k), s[k].id),
        forall|id: Seq<char>| id != s[k].id ==> record_of(s.remove(k), id) == record_of(s, id),
{
    let t = s.remove(k);
    assert forall|i: int| 0 <= i < t.len() implies #[trigger] t[i] == s[if i < k {
        i
    } else {
        i + 1
    }] by {}
    assert forall|i: int, j: int| 0 <= i < j < t.len() implies t[i].id != t[j].id by {
        let a = if i < k { i } else { i + 1 };
        let b = if j < k { j } else { j + 1 };
        assert(t[i] == s[a] && t[j] == s[b]);
        assert(s[a].id != s[b].id);
    }
    if has_id(t, s[k].id) {
        let i = index_of(t, s[k].id);
        let a = if i < k { i } else { i + 1 };
        assert(t[i] == s[a]);
        if a < k {
            assert(s[a].id != s[k].id);
        } else {
            assert(s[k].id != s[a].id);
        }
    }
    assert forall|id: Seq<char>| id != s[k].id implies record_of(t, id) == record_of(s, id) by {
        if has_id(s, id) {
            let a = index_of(s, id);
            lemma_record_at(s, a);
            let i = if a < k { a } else { a - 1 };
            assert(t[i] == s[a]);
            lemma_record_at(t, i);
        } else if has_id(t, id) {
            let i = index_of(t, id);
            let a = if i < k { i } else { i + 1 };
            assert(t[i] == s[a]);
            assert(s[a].id == id);
        }
    }
}

/// A sum over a roster does not depend on the order of its records: two
/// rosters that hold the same workers with the same progress give the same
/// sum.
pub proof fn lemma_total_order_independent(
    a: Seq<WorkerStateView>,
    b: Seq<WorkerStateView>,
    m: Measure,
)
    requires
        distinct_ids(a),
        distinct_ids(b),
        same_progress(a, b),
    ensures
        total(a, m) == total(b, m),
    decreases a.len(),
{
    if a.len() == 0 {
        if b.len() > 0 {
            lemma_record_at(b, 0);
            assert(progress_of(a, b[0].id) == progress_of(b, b[0].id));
        }
    } else {
        let last = a.len() - 1;
        let r = a[last];
        lemma_record_at(a, last);
        assert(progress_of(a, r.id) == progress_of(b, r.id));
        let k = index_of(b, r.id);
        assert(b[k].progress == r.progress);
        assert(b[k].id == r.id);
        let a2 = a.drop_last();
        let b2 = b.remove(k);
        assert(a2 =~= a.remove(last));
        lemma_remove_record(a, last);
        lemma_remove_record(b, k);
        assert forall|id: Seq<char>| progress_of(a2, id) == progress_of(b2, id) by {
            if id != r.id {
                assert(progress_of(a, id) == progress_of(b, id));
            }
        }
        lemma_total_order_independent(a2, b2, m);
        lemma_total_remove(b, k, m);
    }
}

/// The snapshot that stands for a roster does not depend on the order in
/// which the workers registered or reported.
pub proof fn lemma_aggregate_order_independent(a: Seq<WorkerStateView>, b: Seq<WorkerStateView>)
    requires
        distinct_ids(a),
        distinct_ids(b),
        same_progress(a, b),
    ensures
        aggregate(a) == aggregate(b),
{
    lemma_total_order_independent(a, b, Measure::Sent);
    lemma_total_order_independent(a, b, Measure::Success);
    lemma_total_order_independent(a, b, Measure::Error);
    lemma_total_order_independent(a, b, Measure::Rate);
    lemma_total_order_independent(a, b, Measure::ResponseTime);
    lemma_total_order_independent(a, b, Measure::Reporting);
}

/// Eviction removes exactly the stale workers: a stale worker is not found
/// afterwards, a worker that is not stale keeps its record, and the roster
/// shrinks by the number of ids that are reported as removed.
pub proof fn lemma_eviction(s: Seq<WorkerStateView>, now: u64)
    requires
        distinct_ids(s),
    ensures
        distinct_ids(live(s, now)),
        forall|i: int|
            0 <= i < s.len() && stale(#[trigger] s[i], now) ==> !has_id(live(s, now), s[i].id),
        forall|i: int|
            0 <= i < s.len() && !stale(#[trigger] s[i], now) ==> record_of(live(s, now), s[i].id)
                == Some(s[i]),
        live(s, now).len() + stale_ids(s, now).len() == s.len(),
{
    let kept = live(s, now);
    lemma_live_members(s, now);
    lemma_live_count(s, now);
    assert forall|i: int| 0 <= i < s.len() && stale(#[trigger] s[i], now) implies !has_id(
        kept,
        s[i].id,
    ) by {
        if has_id(kept, s[i].id) {
            let k = index_of(kept, s[i].id);
            assert(!stale(kept[k], now) && s.contains(kept[k]));
            let j = choose|j: int| 0 <= j < s.len() && s[j] == kept[k];
            if j < i {
                assert(s[j].id != s[i].id);
            } else if i < j {
                assert(s[i].id != s[j].id);
            }
        }
    }
    assert forall|i: int| 0 <= i < s.len() && !stale(#[trigger] s[i], now) implies record_of(
        kept,
        s[i].id,
    ) == Some(s[i]) by {
        assert(kept.contains(s[i]));
        let k = choose|k: int| 0 <= k < kept.len() && kept[k] == s[i];
        lemma_record_at(kept, k);
    }
}

/// Every record is either kept or reported as removed.
proof fn lemma_live_count(s: Seq<WorkerStateView>, now: u64)
    ensures
        live(s, now).len() + stale_ids(s, now).len() == s.len(),
    decreases s.len(),
{
    if s.len() > 0 {
        lemma_live_count(s.drop_last(), now);
    }
}

/// A roster of another size than expected is never complete, whatever its
/// workers report.
pub proof fn lemma_incomplete_unless_all_present(s: Seq<WorkerStateView>, expected: usize)
    requires
        s.len() != expected,
    ensures
        !complete(s, expected),
{
}

/// When a worker of a full roster goes stale, the run is not complete
/// after the eviction.
pub proof fn lemma_eviction_prevents_completion(
    s: Seq<WorkerStateView>,
    now: u64,
    expected: usize,
    i: int,
)
    requires
        distinct_ids(s),
        s.len() <= expected,
        0 <= i < s.len(),
        stale(s[i], now),
    ensures
        !complete(live(s, now), expected),
{
    lemma_eviction(s, now);
    lemma_stale_ids_nonempty(s, now, i);
}

/// A stale record is reported.
proof fn lemma_stale_ids_nonempty(s: Seq<WorkerStateView>, now: u64, i: int)
    requires
        0 <= i < s.len(),
        stale(s[i], now),
    ensures
        stale_ids(s, now).len() > 0,
    decreases s.len(),
{
    if i < s.len() - 1 {
        lemma_stale_ids_nonempty(s.drop_last(), now, i);
    }
}

/// An operation that changes which workers a roster holds.
pub enum RosterOp {
    /// A record is stored.
    Store(WorkerStateView),
    /// The workers that are stale at the given time are evicted.
    Evict(u64),
}

/// The roster after one operation.
pub open spec fn apply(s: Seq<WorkerStateView>, op: RosterOp) -> Seq<WorkerStateView> {
    match op {
        RosterOp::Store(r) => upsert(s, r),
        RosterOp::Evict(now) => live(s, now),
    }
}

/// The roster after a sequence of operations.
pub open spec fn run(s: Seq<WorkerStateView>, ops: Seq<RosterOp>) -> Seq<WorkerStateView>
    decreases ops.len(),
{
    if ops.len() == 0 {
        s
    } else {
        apply(run(s, ops.drop_last()), ops.last())
    }
}

/// Whatever sequence of registrations and evictions a roster goes through,
/// it never holds an id twice, and it never holds more records than it
/// started with and were stored since.
pub proof fn lemma_run_keeps_distinct(s: Seq<WorkerStateView>, ops: Seq<RosterOp>)
    requires
        distinct_ids(s),
    ensures
        distinct_ids(run(s, ops)),
        0 <= run(s, ops).len() <= s.len() + ops.len(),
    decreases ops.len(),
{
    if ops.len() > 0 {
        let before = run(s, ops.drop_last());
        lemma_run_keeps_distinct(s, ops.drop_last());
        match ops.last() {
            RosterOp::Store(r) => {
                lemma_upsert(before, r);
            },
            RosterOp::Evict(now) => {
                lemma_live_members(before, now);
            },
        }
    }
}

/// A command that is handed out with a concurrency names at least one
/// issuer, and a command that names no concurrency is handed out as it is.
pub proof fn lemma_task_has_an_issuer(
    command: AttackCommandView,
    mode: ClusterDistributionMode,
    live: int,
)
    requires
        0 <= live,
    ensures
        match task_spec(command, mode, live) {
            Some(task) => match command.concurrent {
                Some(total) => task.concurrent matches Some(portion) && 1 <= portion && (total >= 1
                    ==> portion <= total),
                None => task == command,
            },
            None => command.concurrent is Some && live == 0,
        },
{
    match command.concurrent {
        Some(total) => {
            if live > 0 {
                let wide = share_spec(mode, total as int, live, 1, live);
                assert(total as int / live <= total as int) by (nonlinear_arith)
                    requires
                        live > 0,
                        0 <= total,
                ;
                assert(1 <= wide <= u32::MAX);
            }
        },
        None => {},
    }
}

} // verus!
