//! The guarantees of the coordination core, stated once over the spec
//! functions that the transition contracts use, and proved here.

use vstd::prelude::*;
use crate::client::{Client, TIMEOUT_SECS};
use crate::job::{Work, disjoint_ranges};
use crate::server::{Server, grants_work, has_client, stale_ids, submits, worker_ids};

verus! {

/// An id is a dispatch target exactly when some registered client carries it
/// in the Worker role.
pub proof fn lemma_worker_ids_membership(cs: Seq<Client>, id: u64)
    ensures
        worker_ids(cs).contains(id) <==> exists|i: int|
            0 <= i < cs.len() && cs[i].id == id && cs[i].is_worker(),
    decreases cs.len(),
{
    if cs.len() > 0 {
        let cs0 = cs.drop_last();
        let c = cs.last();
        lemma_worker_ids_membership(cs0, id);
        if worker_ids(cs).contains(id) {
            let j = choose|j: int|
                0 <= j < worker_ids(cs).len() && worker_ids(cs)[j] == id;
            if c.is_worker() && j == worker_ids(cs0).len() {
                assert(cs[cs.len() - 1] == c && c.id == id);
            } else {
                assert(worker_ids(cs0)[j] == id);
                let i = choose|i: int|
                    0 <= i < cs0.len() && cs0[i].id == id && cs0[i].is_worker();
                assert(cs[i] == cs0[i]);
            }
        }
        if exists|i: int| 0 <= i < cs.len() && cs[i].id == id && cs[i].is_worker() {
            let i = choose|i: int|
                0 <= i < cs.len() && cs[i].id == id && cs[i].is_worker();
            if i == cs.len() - 1 {
                assert(worker_ids(cs).last() == id);
            } else {
                assert(cs0[i] == cs[i]);
                assert(worker_ids(cs0).contains(id));
                let j = choose|j: int|
                    0 <= j < worker_ids(cs0).len() && worker_ids(cs0)[j] == id;
                if c.is_worker() {
                    assert(worker_ids(cs)[j] == id);
                }
            }
        }
    }
}

/// An id is on the watchdog's eviction list exactly when some registered
/// client carries it and is stale at `now`.
pub proof fn lemma_stale_ids_membership(cs: Seq<Client>, now: u64, id: u64)
    ensures
        stale_ids(cs, now).contains(id) <==> exists|i: int|
            0 <= i < cs.len() && cs[i].id == id && cs[i].stale(now),
    decreases cs.len(),
{
    if cs.len() > 0 {
        let cs0 = cs.drop_last();
        let c = cs.last();
        lemma_stale_ids_membership(cs0, now, id);
        if stale_ids(cs, now).contains(id) {
            let j = choose|j: int|
                0 <= j < stale_ids(cs, now).len() && stale_ids(cs, now)[j] == id;
            if c.stale(now) && j == stale_ids(cs0, now).len() {
                assert(cs[cs.len() - 1] == c && c.id == id);
            } else {
                assert(stale_ids(cs0, now)[j] == id);
                let i = choose|i: int|
                    0 <= i < cs0.len() && cs0[i].id == id && cs0[i].stale(now);
                assert(cs[i] == cs0[i]);
            }
        }
        if exists|i: int| 0 <= i < cs.len() && cs[i].id == id && cs[i].stale(now) {
            let i = choose|i: int|
                0 <= i < cs.len() && cs[i].id == id && cs[i].stale(now);
            if i == cs.len() - 1 {
                assert(stale_ids(cs, now).last() == id);
            } else {
                assert(cs0[i] == cs[i]);
                assert(stale_ids(cs0, now).contains(id));
                let j = choose|j: int|
                    0 <= j < stale_ids(cs0, now).len() && stale_ids(cs0, now)[j] == id;
                if c.stale(now) {
                    assert(stale_ids(cs, now)[j] == id);
                }
            }
        }
    }
}

/// When client ids are unique, no id appears twice among the dispatch
/// targets.
pub proof fn lemma_worker_ids_distinct(cs: Seq<Client>)
    requires
        forall|i: int, j: int| 0 <= i < j < cs.len() ==> cs[i].id != cs[j].id,
    ensures
        forall|p: int, q: int| 0 <= p < q < worker_ids(cs).len()
            ==> worker_ids(cs)[p] != worker_ids(cs)[q],
    decreases cs.len(),
{
    if cs.len() > 0 {
        let cs0 = cs.drop_last();
        let c = cs.last();
        assert forall|i: int, j: int| 0 <= i < j < cs0.len()
            implies cs0[i].id != cs0[j].id by {
            assert(cs0[i] == cs[i] && cs0[j] == cs[j]);
        }
        lemma_worker_ids_distinct(cs0);
        if c.is_worker() {
            let wids0 = worker_ids(cs0);
            assert(worker_ids(cs) == wids0.push(c.id));
            assert(!wids0.contains(c.id)) by {
                lemma_worker_ids_membership(cs0, c.id);
                if exists|i: int| 0 <= i < cs0.len() && cs0[i].id == c.id
                    && cs0[i].is_worker() {
                    let i = choose|i: int|
                        0 <= i < cs0.len() && cs0[i].id == c.id && cs0[i].is_worker();
                    assert(cs[i] == cs0[i]);
                    assert(cs[i].id != cs[cs.len() - 1].id);
                }
            }
            assert forall|p: int, q: int| 0 <= p < q < worker_ids(cs).len()
                implies worker_ids(cs)[p] != worker_ids(cs)[q] by {
                assert(worker_ids(cs)[p] == wids0[p]);
                if q == wids0.len() {
                    assert(worker_ids(cs)[q] == c.id);
                    assert(wids0.contains(wids0[p]));
                } else {
                    assert(worker_ids(cs)[q] == wids0[q]);
                }
            }
        } else {
            assert(worker_ids(cs) == worker_ids(cs0));
        }
    }
}

/// One dispatcher pass visits every Worker-role client present at snapshot
/// time exactly once — each such client's id is among the targets, and no id
/// is there twice — and never visits a client registered after the snapshot:
/// every target id is below the registry's id counter, while a later
/// registration receives an id at or above it.
pub proof fn lemma_dispatch_visits_workers_exactly_once(s: Server)
    requires
        s.wf(),
    ensures
        forall|i: int| 0 <= i < s.clients@.len() && s.clients@[i].is_worker()
            ==> worker_ids(s.clients@).contains(s.clients@[i].id),
        forall|p: int, q: int| 0 <= p < q < worker_ids(s.clients@).len()
            ==> worker_ids(s.clients@)[p] != worker_ids(s.clients@)[q],
        forall|id: u64| worker_ids(s.clients@).contains(id)
            ==> has_client(s.clients@, id) && id < s.next_client_id,
{
    assert forall|i: int| 0 <= i < s.clients@.len() && s.clients@[i].is_worker()
        implies worker_ids(s.clients@).contains(s.clients@[i].id) by {
        lemma_worker_ids_membership(s.clients@, s.clients@[i].id);
    }
    lemma_worker_ids_distinct(s.clients@);
    assert forall|id: u64| worker_ids(s.clients@).contains(id)
        implies has_client(s.clients@, id) && id < s.next_client_id by {
        lemma_worker_ids_membership(s.clients@, id);
        let i = choose|i: int|
            0 <= i < s.clients@.len() && s.clients@[i].id == id
            && s.clients@[i].is_worker();
        assert(has_client(s.clients@, id));
    }
}

/// A client registered after a dispatch plan was taken is never among that
/// plan's targets: registration hands out ids at or above the counter's value
/// at snapshot time, and every target id lies below it.
pub proof fn lemma_later_registration_not_in_plan(s: Server, id: u64)
    requires
        s.wf(),
        id >= s.next_client_id,
    ensures
        !worker_ids(s.clients@).contains(id),
{
    lemma_worker_ids_membership(s.clients@, id);
    if worker_ids(s.clients@).contains(id) {
        let i = choose|i: int|
            0 <= i < s.clients@.len() && s.clients@[i].id == id
            && s.clients@[i].is_worker();
        assert(s.clients@[i].id < s.next_client_id);
    }
}

/// A client in a non-Worker role is never a dispatch target, whatever the job
/// queue holds.
pub proof fn lemma_non_workers_never_dispatched(s: Server, i: int)
    requires
        s.wf(),
        0 <= i < s.clients@.len(),
        !s.clients@[i].is_worker(),
    ensures
        !worker_ids(s.clients@).contains(s.clients@[i].id),
{
    lemma_worker_ids_membership(s.clients@, s.clients@[i].id);
    if worker_ids(s.clients@).contains(s.clients@[i].id) {
        let j = choose|j: int|
            0 <= j < s.clients@.len() && s.clients@[j].id == s.clients@[i].id
            && s.clients@[j].is_worker();
        assert(j != i);
        assert(s.clients@[i].id != s.clients@[j].id);
    }
}

/// The ids of the queued jobs are strictly increasing along the queue of a
/// well-formed server: no id is ever reused within it.
pub proof fn lemma_job_ids_strictly_increasing(s: Server)
    requires
        s.wf(),
    ensures
        forall|i: int, j: int| 0 <= i < j < s.jobs@.len()
            ==> s.jobs@[i].id < s.jobs@[j].id,
{
}

/// Ids handed out by `submit` are strictly increasing — and hence unique —
/// across the life of the process: a submission returns the counter's current
/// value and advances it, and no transition between two submissions ever
/// lowers the counter (every other transition leaves it unchanged).
pub proof fn lemma_submitted_ids_strictly_increase(
    s0: Server, s1: Server, s2: Server, s3: Server, id_a: u64, id_b: u64,
)
    requires
        submits(s0, s1, id_a),
        s1.job_seq <= s2.job_seq,
        submits(s2, s3, id_b),
    ensures
        id_a < id_b,
{
}

/// A client with no outstanding work is never on the watchdog's eviction
/// list, regardless of the age of its last activity.
pub proof fn lemma_watchdog_spares_clients_without_work(s: Server, now: u64, i: int)
    requires
        s.wf(),
        0 <= i < s.clients@.len(),
        s.clients@[i].unfinished_business@.len() == 0,
    ensures
        !stale_ids(s.clients@, now).contains(s.clients@[i].id),
{
    lemma_watchdog_eviction_exact(s, now, i);
}

/// The watchdog's tick evicts a client with outstanding work exactly when its
/// last activity is at least `TIMEOUT_SECS` seconds in the past: if so, its
/// id is on the list this tick; if not, it is not.
pub proof fn lemma_watchdog_eviction_exact(s: Server, now: u64, i: int)
    requires
        s.wf(),
        0 <= i < s.clients@.len(),
    ensures
        stale_ids(s.clients@, now).contains(s.clients@[i].id)
            <==> (s.clients@[i].unfinished_business@.len() > 0
                && now - s.clients@[i].last_update >= TIMEOUT_SECS),
{
    lemma_stale_ids_membership(s.clients@, now, s.clients@[i].id);
    if stale_ids(s.clients@, now).contains(s.clients@[i].id) {
        let j = choose|j: int|
            0 <= j < s.clients@.len() && s.clients@[j].id == s.clients@[i].id
            && s.clients@[j].stale(now);
        if j != i {
            assert(s.clients@[i].id != s.clients@[j].id);
        }
    }
}

/// Granting work twice in succession to the same client — what two
/// consecutive work passes do when it stays connected — appends two entries
/// to the head job's work ledger and to the client's outstanding work; when
/// the granted ranges honor the partitioner's non-overlap obligation, the two
/// recorded entries are distinct and non-overlapping.
pub proof fn lemma_update_work_twice(
    s0: Server, s1: Server, s2: Server, id: u64, w1: Work, w2: Work,
)
    requires
        grants_work(s0, s1, id, w1),
        grants_work(s1, s2, id, w2),
        w1.wf(),
        w2.wf(),
        disjoint_ranges(w1, w2),
    ensures
        s2.jobs@[0].work@ == s0.jobs@[0].work@.push(w1).push(w2),
        s2.jobs@[0].work@.len() == s0.jobs@[0].work@.len() + 2,
        ({
            let ws = s2.jobs@[0].work@;
            ws[ws.len() - 2] != ws[ws.len() - 1]
                && disjoint_ranges(ws[ws.len() - 2], ws[ws.len() - 1])
        }),
        forall|i: int| 0 <= i < s0.clients@.len() && s0.clients@[i].id == id
            ==> s2.clients@[i].unfinished_business@
                == s0.clients@[i].unfinished_business@.push(w1).push(w2),
{
    assert(s2.jobs@[0].work@ == s0.jobs@[0].work@.push(w1).push(w2));
    assert(w1 != w2) by {
        if w1 == w2 {
            assert(disjoint_ranges(w1, w1));
        }
    }
    assert forall|i: int| 0 <= i < s0.clients@.len() && s0.clients@[i].id == id
        implies s2.clients@[i].unfinished_business@
            == s0.clients@[i].unfinished_business@.push(w1).push(w2) by {
        assert(s1.clients@[i].id == id);
    }
}

} // verus!
