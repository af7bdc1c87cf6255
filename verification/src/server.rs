//! Server state: client registry, job queue, dispatch policy and watchdog
//! rule.
//!
//! The state is a plain value with verified transition functions.  The
//! process wraps it in its own synchronization (one writer at a time, many
//! readers of a snapshot) and performs the accompanying I/O: every contract
//! here speaks of one such serialized step.

use vstd::prelude::*;
use crate::client::{Client, ClientState, TIMEOUT_SECS, same_client_core};
use crate::job::{Job, JobRequest, Work, job_matches_request, same_meta};

verus! {

/// The ids of the Worker-role clients among `cs`, in registry order: the
/// clients the dispatcher sends to, one send each per pass.
pub open spec fn worker_ids(cs: Seq<Client>) -> Seq<u64>
    decreases cs.len(),
{
    if cs.len() == 0 {
        Seq::empty()
    } else if cs.last().is_worker() {
        worker_ids(cs.drop_last()).push(cs.last().id)
    } else {
        worker_ids(cs.drop_last())
    }
}

/// The ids of the clients among `cs` that the watchdog must evict at time
/// `now`: those holding unacknowledged work with no activity inside the
/// timeout window, in registry order.
pub open spec fn stale_ids(cs: Seq<Client>, now: u64) -> Seq<u64>
    decreases cs.len(),
{
    if cs.len() == 0 {
        Seq::empty()
    } else if cs.last().stale(now) {
        stale_ids(cs.drop_last(), now).push(cs.last().id)
    } else {
        stale_ids(cs.drop_last(), now)
    }
}

/// Some client in `cs` carries the id.
pub open spec fn has_client(cs: Seq<Client>, id: u64) -> bool {
    exists|i: int| 0 <= i < cs.len() && cs[i].id == id
}

/// The client carrying `id` holds an unacknowledged partition over
/// `begin..end`.
pub open spec fn client_has_entry(cs: Seq<Client>, id: u64, begin: u64, end: u64) -> bool {
    exists|i: int, k: int|
        0 <= i < cs.len() && cs[i].id == id
        && 0 <= k < cs[i].unfinished_business@.len()
        && cs[i].unfinished_business@[k].begin == begin
        && cs[i].unfinished_business@[k].end == end
}

/// The index of the first entry over `begin..end` in a work ledger, if any.
fn find_entry(ws: &Vec<Work>, begin: u64, end: u64) -> (r: Option<usize>)
    ensures
        match r {
            Some(m) => m < ws@.len() && ws@[m as int].begin == begin
                && ws@[m as int].end == end,
            None => forall|k: int| 0 <= k < ws@.len()
                ==> !(ws@[k].begin == begin && ws@[k].end == end),
        },
{
    let n = ws.len();
    let mut m: usize = 0;
    while m < n
        invariant
            m <= n,
            n == ws@.len(),
            forall|k: int| 0 <= k < m ==> !(ws@[k].begin == begin && ws@[k].end == end),
        decreases n - m,
    {
        if ws[m].begin == begin && ws[m].end == end {
            return Some(m);
        }
        m = m + 1;
    }
    None
}

/// The transition `submit` makes when it accepts a job under id `id`: the id
/// counter moves past `id`, the job joins the tail of the queue, and the
/// registry is untouched.
pub open spec fn submits(pre: Server, post: Server, id: u64) -> bool {
    &&& id == pre.job_seq
    &&& post.job_seq == id + 1
    &&& post.jobs@.len() == pre.jobs@.len() + 1
    &&& post.jobs@.drop_last() == pre.jobs@
    &&& post.jobs@.last().id == id
    &&& post.clients@ == pre.clients@
    &&& post.next_client_id == pre.next_client_id
}

/// What one dispatcher pass must do: the head job whose metadata or next work
/// partition is to be sent, and the ids of the Worker-role clients to send
/// to, in registry order — one send each.
pub struct DispatchPlan {
    /// Id of the head of the job queue, or nothing if the queue is empty (in
    /// which case no sends are due).
    pub job_id: Option<u64>,
    /// Ids of the clients to send to.
    pub targets: Vec<u64>,
}

/// The transition `record_work` makes when it grants partition `w` to the
/// client carrying `id`: `w` is appended to the head job's work ledger and to
/// that client's outstanding work, and nothing else changes.
pub open spec fn grants_work(pre: Server, post: Server, id: u64, w: Work) -> bool {
    &&& pre.jobs@.len() > 0
    &&& has_client(pre.clients@, id)
    &&& post.jobs@.len() == pre.jobs@.len()
    &&& same_meta(post.jobs@[0], pre.jobs@[0])
    &&& post.jobs@[0].work@ == pre.jobs@[0].work@.push(w)
    &&& forall|k: int| 1 <= k < pre.jobs@.len() ==> post.jobs@[k] == pre.jobs@[k]
    &&& post.clients@.len() == pre.clients@.len()
    &&& forall|i: int| 0 <= i < pre.clients@.len() && pre.clients@[i].id != id
        ==> post.clients@[i] == pre.clients@[i]
    &&& forall|i: int| 0 <= i < pre.clients@.len() && pre.clients@[i].id == id
        ==> same_client_core(post.clients@[i], pre.clients@[i])
            && post.clients@[i].unfinished_business@
                == pre.clients@[i].unfinished_business@.push(w)
    &&& post.job_seq == pre.job_seq
    &&& post.next_client_id == pre.next_client_id
}

/// Process-wide coordination state: the client registry, the job queue and
/// the two id counters.  The listening socket and the per-connection streams
/// live outside the library.
pub struct Server {
    /// Currently registered clients, in registration order.
    pub clients: Vec<Client>,
    /// Next id to hand to a registering client.
    pub next_client_id: u64,
    /// Next job id: the value `submit` will assign.
    pub job_seq: u64,
    /// Pending jobs, oldest first; only the head is ever dispatched.
    pub jobs: Vec<Job>,
}

impl Server {
    /// Well-formedness: client ids are unique and below the client counter,
    /// and job ids are strictly increasing along the queue and below the job
    /// counter.  Established by `new` and preserved by every transition.
    pub open spec fn wf(self) -> bool {
        &&& forall|i: int, j: int|
            0 <= i < j < self.clients@.len() ==> self.clients@[i].id != self.clients@[j].id
        &&& forall|i: int| 0 <= i < self.clients@.len() ==> self.clients@[i].id < self.next_client_id
        &&& forall|i: int, j: int|
            0 <= i < j < self.jobs@.len() ==> self.jobs@[i].id < self.jobs@[j].id
        &&& forall|i: int| 0 <= i < self.jobs@.len() ==> self.jobs@[i].id < self.job_seq
    }

    /// A fresh server: no clients, no jobs, both counters at zero.
    pub fn new() -> (s: Server)
        ensures
            s.wf(),
            s.clients@ == Seq::<Client>::empty(),
            s.jobs@ == Seq::<Job>::empty(),
            s.next_client_id == 0,
            s.job_seq == 0,
    {
        Server {
            clients: Vec::new(),
            next_client_id: 0,
            job_seq: 0,
            jobs: Vec::new(),
        }
    }

    /// Admit a newly accepted connection: append a fresh client record under
    /// the next free id.  The new client starts outside the Worker role with
    /// no outstanding work, and its activity clock starts at `now`.
    pub fn register(&mut self, addr: String, now: u64) -> (id: u64)
        requires
            old(self).wf(),
            old(self).next_client_id < u64::MAX,
        ensures
            final(self).wf(),
            id == old(self).next_client_id,
            final(self).next_client_id == id + 1,
            final(self).clients@.len() == old(self).clients@.len() + 1,
            final(self).clients@.drop_last() == old(self).clients@,
            ({
                let c = final(self).clients@.last();
                &&& c.id == id
                &&& c.addr@ == addr@
                &&& c.state == ClientState::Fresh
                &&& c.last_update == now
                &&& c.unfinished_business@ == Seq::<Work>::empty()
            }),
            final(self).jobs@ == old(self).jobs@,
            final(self).job_seq == old(self).job_seq,
    {
        let id = self.next_client_id;
        let c = Client {
            id,
            addr,
            state: ClientState::Fresh,
            last_update: now,
            unfinished_business: Vec::new(),
        };
        self.clients.push(c);
        self.next_client_id = id + 1;
        proof {
            assert(self.clients@.drop_last() =~= old(self).clients@);
        }
        id
    }

    /// A consistent view of all currently registered clients, for iteration
    /// by the dispatcher and the watchdog.
    pub fn snapshot(&self) -> (r: &Vec<Client>)
        ensures
            r@ == self.clients@,
    {
        &self.clients
    }

    /// The index of the client carrying `id`, if it is registered.
    fn find_client(&self, id: u64) -> (r: Option<usize>)
        ensures
            match r {
                Some(i) => i < self.clients@.len() && self.clients@[i as int].id == id,
                None => !has_client(self.clients@, id),
            },
    {
        let n = self.clients.len();
        let mut i: usize = 0;
        while i < n
            invariant
                i <= n,
                n == self.clients@.len(),
                forall|k: int| 0 <= k < i ==> self.clients@[k].id != id,
            decreases n - i,
        {
            if self.clients[i].id == id {
                return Some(i);
            }
            i = i + 1;
        }
        None
    }

    /// Remove the client carrying `id` from the registry, if present: the
    /// deregistration the per-connection handler performs on exit.  Returns
    /// whether the client was found.
    pub fn deregister(&mut self, id: u64) -> (found: bool)
        requires
            old(self).wf(),
        ensures
            final(self).wf(),
            found == has_client(old(self).clients@, id),
            found ==> exists|i: int|
                0 <= i < old(self).clients@.len()
                && old(self).clients@[i].id == id
                && final(self).clients@ == old(self).clients@.remove(i),
            !found ==> final(self).clients@ == old(self).clients@,
            final(self).next_client_id == old(self).next_client_id,
            final(self).jobs@ == old(self).jobs@,
            final(self).job_seq == old(self).job_seq,
    {
        match self.find_client(id) {
            Some(i) => {
                self.clients.remove(i);
                true
            }
            None => false,
        }
    }

    /// Submit a job: assign it the next value of the monotonic id counter and
    /// append it to the tail of the queue with an empty work ledger.  The
    /// returned id is strictly greater than the id of every job already in
    /// the queue and of every job ever submitted before.
    pub fn submit(&mut self, req: JobRequest) -> (id: u64)
        requires
            old(self).wf(),
            old(self).job_seq < u64::MAX,
        ensures
            final(self).wf(),
            id == old(self).job_seq,
            final(self).job_seq == id + 1,
            final(self).jobs@.len() == old(self).jobs@.len() + 1,
            final(self).jobs@.drop_last() == old(self).jobs@,
            job_matches_request(final(self).jobs@.last(), req, id),
            final(self).jobs@.last().work@ == Seq::<Work>::empty(),
            forall|i: int| 0 <= i < old(self).jobs@.len() ==> old(self).jobs@[i].id < id,
            final(self).clients@ == old(self).clients@,
            final(self).next_client_id == old(self).next_client_id,
            submits(*old(self), *final(self), id),
    {
        let id = self.job_seq;
        let job = Job {
            id,
            width: req.width,
            height: req.height,
            camera: req.camera,
            scene: req.scene,
            key: req.key,
            render_mode: req.render_mode,
            batch_size: req.batch_size,
            trace_batch_size: req.trace_batch_size,
            work: Vec::new(),
        };
        self.jobs.push(job);
        self.job_seq = id + 1;
        proof {
            assert(self.jobs@.drop_last() =~= old(self).jobs@);
        }
        id
    }

    /// The head of the job queue — the only job eligible for dispatch — or
    /// nothing if the queue is empty.
    pub fn peek_head(&self) -> (r: Option<&Job>)
        ensures
            match r {
                Some(j) => self.jobs@.len() > 0 && *j == self.jobs@[0],
                None => self.jobs@.len() == 0,
            },
    {
        if self.jobs.len() > 0 {
            Some(&self.jobs[0])
        } else {
            None
        }
    }

    /// One dispatch pass over the current state: the head job, if any, and
    /// every Worker-role client, each exactly once, in registry order.
    fn make_plan(&self) -> (plan: DispatchPlan)
        ensures
            self.jobs@.len() == 0 ==> plan.job_id == None::<u64>
                && plan.targets@ == Seq::<u64>::empty(),
            self.jobs@.len() > 0 ==> plan.job_id == Some(self.jobs@[0].id)
                && plan.targets@ == worker_ids(self.clients@),
    {
        if self.jobs.len() == 0 {
            return DispatchPlan { job_id: None, targets: Vec::new() };
        }
        let job_id = self.jobs[0].id;
        let n = self.clients.len();
        let mut targets: Vec<u64> = Vec::new();
        let mut i: usize = 0;
        while i < n
            invariant
                i <= n,
                n == self.clients@.len(),
                targets@ == worker_ids(self.clients@.take(i as int)),
            decreases n - i,
        {
            let c = &self.clients[i];
            if let ClientState::Worker = c.state {
                targets.push(c.id);
            }
            proof {
                assert(self.clients@.take(i as int + 1).drop_last()
                    =~= self.clients@.take(i as int));
                assert(self.clients@.take(i as int + 1).last() == self.clients@[i as int]);
            }
            i = i + 1;
        }
        proof {
            assert(self.clients@.take(n as int) =~= self.clients@);
        }
        DispatchPlan { job_id: Some(job_id), targets }
    }

    /// The metadata pass: reads the head of the job queue and names every
    /// Worker-role client, each of which is to be sent the job's static
    /// metadata once.  The caller must follow this pass, whether or not the
    /// queue was empty, with the work pass (`update_work`).
    pub fn update_jobs(&self) -> (plan: DispatchPlan)
        ensures
            self.jobs@.len() == 0 ==> plan.job_id == None::<u64>
                && plan.targets@ == Seq::<u64>::empty(),
            self.jobs@.len() > 0 ==> plan.job_id == Some(self.jobs@[0].id)
                && plan.targets@ == worker_ids(self.clients@),
    {
        self.make_plan()
    }

    /// The work pass: re-reads the head of the job queue and names every
    /// Worker-role client, each of which is to be sent one freshly computed
    /// work partition, recorded through `record_work`.
    pub fn update_work(&self) -> (plan: DispatchPlan)
        ensures
            self.jobs@.len() == 0 ==> plan.job_id == None::<u64>
                && plan.targets@ == Seq::<u64>::empty(),
            self.jobs@.len() > 0 ==> plan.job_id == Some(self.jobs@[0].id)
                && plan.targets@ == worker_ids(self.clients@),
    {
        self.make_plan()
    }

    /// Record that partition `w` of the head job was handed to the client
    /// carrying `client_id`: append it to the job's work ledger and to the
    /// client's outstanding work.  Nothing is recorded — and `false` comes
    /// back — if the queue is empty or no such client is registered.
    pub fn record_work(&mut self, client_id: u64, w: Work) -> (granted: bool)
        requires
            old(self).wf(),
        ensures
            final(self).wf(),
            granted == (old(self).jobs@.len() > 0 && has_client(old(self).clients@, client_id)),
            granted ==> grants_work(*old(self), *final(self), client_id, w),
            !granted ==> *final(self) == *old(self),
    {
        if self.jobs.len() == 0 {
            return false;
        }
        match self.find_client(client_id) {
            None => false,
            Some(i) => {
                let mut job = self.jobs.remove(0);
                job.work.push(w);
                self.jobs.insert(0, job);
                let mut c = self.clients.remove(i);
                c.unfinished_business.push(w);
                self.clients.insert(i, c);
                proof {
                    assert(forall|k: int| 1 <= k < self.jobs@.len()
                        ==> self.jobs@[k] == old(self).jobs@[k]);
                    assert(forall|k: int| 0 <= k < self.clients@.len() && k != i as int
                        ==> self.clients@[k] == old(self).clients@[k]);
                }
                true
            }
        }
    }

    /// Set the role of the client carrying `id`, as its per-connection
    /// handler reports protocol events; every other field and every other
    /// client is untouched.  Returns whether the client was found.
    pub fn set_state(&mut self, id: u64, state: ClientState) -> (found: bool)
        requires
            old(self).wf(),
        ensures
            final(self).wf(),
            found == has_client(old(self).clients@, id),
            !found ==> *final(self) == *old(self),
            found ==> final(self).clients@.len() == old(self).clients@.len(),
            found ==> forall|k: int|
                0 <= k < old(self).clients@.len() && old(self).clients@[k].id != id
                ==> final(self).clients@[k] == old(self).clients@[k],
            found ==> forall|k: int|
                0 <= k < old(self).clients@.len() && old(self).clients@[k].id == id
                ==> ({
                    let c0 = old(self).clients@[k];
                    let c1 = final(self).clients@[k];
                    &&& c1.id == c0.id
                    &&& c1.addr@ == c0.addr@
                    &&& c1.state == state
                    &&& c1.last_update == c0.last_update
                    &&& c1.unfinished_business@ == c0.unfinished_business@
                }),
            final(self).next_client_id == old(self).next_client_id,
            final(self).jobs@ == old(self).jobs@,
            final(self).job_seq == old(self).job_seq,
    {
        match self.find_client(id) {
            None => false,
            Some(i) => {
                let mut c = self.clients.remove(i);
                c.state = state;
                self.clients.insert(i, c);
                proof {
                    assert(forall|k: int| 0 <= k < self.clients@.len() && k != i as int
                        ==> self.clients@[k] == old(self).clients@[k]);
                }
                true
            }
        }
    }

    /// Record protocol activity from the client carrying `id`: move its
    /// activity clock to `now`.  Returns whether the client was found.
    pub fn touch(&mut self, id: u64, now: u64) -> (found: bool)
        requires
            old(self).wf(),
        ensures
            final(self).wf(),
            found == has_client(old(self).clients@, id),
            !found ==> *final(self) == *old(self),
            found ==> final(self).clients@.len() == old(self).clients@.len(),
            found ==> forall|k: int|
                0 <= k < old(self).clients@.len() && old(self).clients@[k].id != id
                ==> final(self).clients@[k] == old(self).clients@[k],
            found ==> forall|k: int|
                0 <= k < old(self).clients@.len() && old(self).clients@[k].id == id
                ==> ({
                    let c0 = old(self).clients@[k];
                    let c1 = final(self).clients@[k];
                    &&& c1.id == c0.id
                    &&& c1.addr@ == c0.addr@
                    &&& c1.state == c0.state
                    &&& c1.last_update == now
                    &&& c1.unfinished_business@ == c0.unfinished_business@
                }),
            final(self).next_client_id == old(self).next_client_id,
            final(self).jobs@ == old(self).jobs@,
            final(self).job_seq == old(self).job_seq,
    {
        match self.find_client(id) {
            None => false,
            Some(i) => {
                let mut c = self.clients.remove(i);
                c.last_update = now;
                self.clients.insert(i, c);
                proof {
                    assert(forall|k: int| 0 <= k < self.clients@.len() && k != i as int
                        ==> self.clients@[k] == old(self).clients@[k]);
                }
                true
            }
        }
    }

    /// Acknowledge one outstanding partition over `begin..end` held by the
    /// client carrying `id`: remove one matching entry from its
    /// outstanding-work ledger.  Returns whether such an entry was found;
    /// when none is, nothing changes.
    pub fn acknowledge_work(&mut self, id: u64, begin: u64, end: u64) -> (acked: bool)
        requires
            old(self).wf(),
        ensures
            final(self).wf(),
            acked == client_has_entry(old(self).clients@, id, begin, end),
            !acked ==> *final(self) == *old(self),
            acked ==> final(self).clients@.len() == old(self).clients@.len(),
            acked ==> forall|k: int|
                0 <= k < old(self).clients@.len() && old(self).clients@[k].id != id
                ==> final(self).clients@[k] == old(self).clients@[k],
            acked ==> forall|k: int|
                0 <= k < old(self).clients@.len() && old(self).clients@[k].id == id
                ==> ({
                    let c0 = old(self).clients@[k];
                    let c1 = final(self).clients@[k];
                    &&& same_client_core(c1, c0)
                    &&& exists|m: int|
                        0 <= m < c0.unfinished_business@.len()
                        && c0.unfinished_business@[m].begin == begin
                        && c0.unfinished_business@[m].end == end
                        && c1.unfinished_business@ == c0.unfinished_business@.remove(m)
                }),
            final(self).next_client_id == old(self).next_client_id,
            final(self).jobs@ == old(self).jobs@,
            final(self).job_seq == old(self).job_seq,
    {
        match self.find_client(id) {
            None => {
                proof {
                    if client_has_entry(self.clients@, id, begin, end) {
                        let (j, m): (int, int) = choose|j: int, m: int|
                            0 <= j < self.clients@.len() && self.clients@[j].id == id
                            && 0 <= m < self.clients@[j].unfinished_business@.len()
                            && self.clients@[j].unfinished_business@[m].begin == begin
                            && self.clients@[j].unfinished_business@[m].end == end;
                        assert(self.clients@[j].id == id);
                        assert(has_client(self.clients@, id));
                    }
                }
                false
            }
            Some(i) => {
                match find_entry(&self.clients[i].unfinished_business, begin, end) {
                    None => {
                        proof {
                            if client_has_entry(self.clients@, id, begin, end) {
                                let (j, m): (int, int) = choose|j: int, m: int|
                                    0 <= j < self.clients@.len() && self.clients@[j].id == id
                                    && 0 <= m < self.clients@[j].unfinished_business@.len()
                                    && self.clients@[j].unfinished_business@[m].begin == begin
                                    && self.clients@[j].unfinished_business@[m].end == end;
                                assert(j == i as int);
                                assert(false);
                            }
                        }
                        false
                    }
                    Some(m) => {
                        let mut c = self.clients.remove(i);
                        c.unfinished_business.remove(m);
                        self.clients.insert(i, c);
                        proof {
                            assert(forall|k: int| 0 <= k < self.clients@.len() && k != i as int
                                ==> self.clients@[k] == old(self).clients@[k]);
                            assert(old(self).clients@[i as int]
                                .unfinished_business@[m as int].begin == begin);
                            assert(client_has_entry(old(self).clients@, id, begin, end));
                            assert forall|k: int|
                                0 <= k < old(self).clients@.len()
                                && old(self).clients@[k].id == id
                                implies k == i as int by {
                                if k != i as int {
                                    assert(old(self).clients@[k].id
                                        == old(self).clients@[i as int].id);
                                }
                            }
                        }
                        true
                    }
                }
            }
        }
    }

    /// One watchdog tick at time `now`: the ids of exactly those clients that
    /// hold unacknowledged work and have shown no activity for at least
    /// `TIMEOUT_SECS` seconds.  The caller shuts down each named connection;
    /// every other client is left untouched regardless of connection age.
    pub fn watchdog_tick(&self, now: u64) -> (expired: Vec<u64>)
        ensures
            expired@ == stale_ids(self.clients@, now),
    {
        let n = self.clients.len();
        let mut expired: Vec<u64> = Vec::new();
        let mut i: usize = 0;
        while i < n
            invariant
                i <= n,
                n == self.clients@.len(),
                expired@ == stale_ids(self.clients@.take(i as int), now),
            decreases n - i,
        {
            let c = &self.clients[i];
            if c.unfinished_business.len() > 0
                && now >= c.last_update
                && now - c.last_update >= TIMEOUT_SECS {
                expired.push(c.id);
            }
            proof {
                assert(self.clients@.take(i as int + 1).drop_last()
                    =~= self.clients@.take(i as int));
                assert(self.clients@.take(i as int + 1).last() == self.clients@[i as int]);
            }
            i = i + 1;
        }
        proof {
            assert(self.clients@.take(n as int) =~= self.clients@);
        }
        expired
    }
}

} // verus!
