//! The worker pool's lifecycle as a verified state machine.
//!
//! Tasks are opaque to the pool: each submission is assigned a fresh id, and
//! the pool tracks where every id stands — pending in the queue, in flight on
//! exactly one worker, or recorded in the completion log. The surrounding
//! program pairs each id with the actual unit of work, performs the blocking
//! channel and thread operations, and reports every event back here.

use vstd::prelude::*;

verus! {

/// Lifecycle of the pool. Tasks are accepted only while `Running`;
/// `ShuttingDown` drains the tasks already accepted; `Stopped` means every
/// accepted task has finished and every worker has terminated. No transition
/// leads back to `Running`.
#[derive(Clone, Copy, PartialEq, Eq, Structural, Debug)]
pub enum Phase {
    Running,
    ShuttingDown,
    Stopped,
}

/// The errors the pool surfaces to its caller. A task that fails while
/// running is contained by its worker and recorded in the log instead.
#[derive(Clone, Copy, PartialEq, Eq, Structural, Debug)]
pub enum PoolError {
    /// The pool was requested with zero workers.
    ConstructionError,
    /// A task was submitted after shutdown began.
    SubmissionRejected,
}

/// The abstract state of a pool: what has been submitted, what each worker
/// holds, and what has finished. Task ids are assigned in submission order,
/// `0, 1, 2, ...`, so the pending queue is exactly the ids in
/// `claimed .. submitted`, in first-in-first-out order.
#[verifier::ext_equal]
pub struct PoolModel {
    /// Where the pool stands in its lifecycle.
    pub phase: Phase,
    /// Number of tasks accepted so far; also the next fresh id.
    pub submitted: u64,
    /// Number of tasks claimed by workers so far; also the next id to hand out.
    pub claimed: u64,
    /// One slot per worker: the id of the task it is running, if any.
    pub slots: Seq<Option<u64>>,
    /// Completion log, in completion order: the task's id, and whether it ran
    /// to completion without failing.
    pub log: Seq<(u64, bool)>,
}

impl PoolModel {
    /// How many workers the pool owns.
    pub open spec fn worker_count(self) -> int {
        self.slots.len() as int
    }

    /// How many accepted tasks have not been claimed yet.
    pub open spec fn pending(self) -> int {
        self.submitted - self.claimed
    }

    /// There is a pending task for a worker to claim.
    pub open spec fn can_claim(self) -> bool {
        self.claimed < self.submitted
    }

    /// No worker is running a task.
    pub open spec fn all_idle(self) -> bool {
        forall|w: int| 0 <= w < self.slots.len() ==> self.slots[w] is None
    }

    /// Every accepted task has been claimed and run to the end.
    pub open spec fn drained(self) -> bool {
        self.claimed == self.submitted && self.all_idle()
    }

    /// The task with this id appears in the completion log.
    pub open spec fn has_finished(self, id: u64) -> bool {
        exists|i: int| 0 <= i < self.log.len() && (#[trigger] self.log[i]).0 == id
    }

    /// The task with this id is currently running on some worker.
    pub open spec fn in_flight(self, id: u64) -> bool {
        exists|w: int| 0 <= w < self.slots.len() && self.slots[w] == Some(id)
    }

    /// The workers currently running a task.
    pub open spec fn busy(self) -> Set<int> {
        Set::new(|w: int| 0 <= w < self.slots.len() && self.slots[w] is Some)
    }

    /// The pool's invariant: ids are handed out in order, each claimed id sits
    /// in exactly one place (one worker's slot or one log entry), and a
    /// stopped pool is fully drained.
    pub open spec fn wf(self) -> bool {
        &&& self.slots.len() >= 1
        &&& self.claimed <= self.submitted
        &&& forall|w: int|
            0 <= w < self.slots.len() ==> ((#[trigger] self.slots[w]) matches Some(id) ==> id
                < self.claimed)
        &&& forall|w1: int, w2: int|
            0 <= w1 < w2 < self.slots.len() && self.slots[w1] is Some ==> self.slots[w1]
                != self.slots[w2]
        &&& forall|i: int| 0 <= i < self.log.len() ==> (#[trigger] self.log[i]).0 < self.claimed
        &&& forall|i: int, j: int|
            0 <= i < j < self.log.len() ==> (#[trigger] self.log[i]).0 != (#[trigger] self.log[j]).0
        &&& forall|i: int, w: int|
            0 <= i < self.log.len() && 0 <= w < self.slots.len() ==> (#[trigger] self.slots[w])
                != Some((#[trigger] self.log[i]).0)
        &&& forall|id: u64|
            id < self.claimed ==> #[trigger] self.has_finished(id) || self.in_flight(id)
        &&& self.phase is Stopped ==> self.drained()
    }

    /// The state after accepting one more task.
    pub open spec fn after_submit(self) -> PoolModel {
        PoolModel { submitted: (self.submitted + 1) as u64, ..self }
    }

    /// The state after shutdown has begun: submissions are no longer accepted.
    pub open spec fn after_begin_shutdown(self) -> PoolModel {
        PoolModel {
            phase: if self.phase is Stopped {
                Phase::Stopped
            } else {
                Phase::ShuttingDown
            },
            ..self
        }
    }

    /// The state after worker `w` claims the oldest pending task.
    pub open spec fn after_claim(self, w: int) -> PoolModel {
        PoolModel {
            claimed: (self.claimed + 1) as u64,
            slots: self.slots.update(w, Some(self.claimed)),
            ..self
        }
    }

    /// The state after worker `w` finishes its task, `ok` false when the task
    /// failed: the worker is idle again either way.
    pub open spec fn after_finish(self, w: int, ok: bool) -> PoolModel {
        PoolModel {
            slots: self.slots.update(w, None),
            log: self.log.push((self.slots[w]->Some_0, ok)),
            ..self
        }
    }

    /// The state once shutdown completes: the drained pool stops.
    pub open spec fn after_stop(self) -> PoolModel {
        PoolModel { phase: Phase::Stopped, ..self }
    }
}

/// Accepting one more submission keeps the pool well-formed: the fresh id is
/// pending, and every older id still sits exactly where it sat.
pub proof fn lemma_submit_preserves_wf(m: PoolModel)
    requires
        m.wf(),
        m.phase is Running,
        m.submitted < u64::MAX,
    ensures
        m.after_submit().wf(),
{
    let n = m.after_submit();
    assert forall|id: u64| id < n.claimed implies #[trigger] n.has_finished(id) || n.in_flight(
        id,
    ) by {
        assert(m.has_finished(id) || m.in_flight(id));
        if m.has_finished(id) {
            let i = choose|i: int| 0 <= i < m.log.len() && (#[trigger] m.log[i]).0 == id;
            assert(0 <= i < n.log.len() && (n.log[i]).0 == id);
        } else {
            let w = choose|w: int| 0 <= w < m.slots.len() && m.slots[w] == Some(id);
            assert(0 <= w < n.slots.len() && n.slots[w] == Some(id));
        }
    }
}

/// Beginning shutdown changes only the phase, so it keeps the pool
/// well-formed: no pending or in-flight task is dropped.
pub proof fn lemma_begin_shutdown_preserves_wf(m: PoolModel)
    requires
        m.wf(),
    ensures
        m.after_begin_shutdown().wf(),
{
    let n = m.after_begin_shutdown();
    assert forall|id: u64| id < n.claimed implies #[trigger] n.has_finished(id) || n.in_flight(
        id,
    ) by {
        assert(m.has_finished(id) || m.in_flight(id));
        if m.has_finished(id) {
            let i = choose|i: int| 0 <= i < m.log.len() && (#[trigger] m.log[i]).0 == id;
            assert(0 <= i < n.log.len() && (n.log[i]).0 == id);
        } else {
            let w = choose|w: int| 0 <= w < m.slots.len() && m.slots[w] == Some(id);
            assert(0 <= w < n.slots.len() && n.slots[w] == Some(id));
        }
    }
}

/// Claiming moves the oldest pending id onto the idle worker that claimed it,
/// and nowhere else: the pool stays well-formed.
pub proof fn lemma_claim_preserves_wf(m: PoolModel, w: int)
    requires
        m.wf(),
        m.can_claim(),
        0 <= w < m.worker_count(),
        m.slots[w] is None,
    ensures
        m.after_claim(w).wf(),
        !(m.phase is Stopped),
{
    let n = m.after_claim(w);
    assert forall|id: u64| id < n.claimed implies #[trigger] n.has_finished(id) || n.in_flight(
        id,
    ) by {
        if id == m.claimed {
            assert(n.slots[w] == Some(id));
        } else {
            assert(m.has_finished(id) || m.in_flight(id));
            if m.has_finished(id) {
                let i = choose|i: int| 0 <= i < m.log.len() && (#[trigger] m.log[i]).0 == id;
                assert(0 <= i < n.log.len() && (n.log[i]).0 == id);
            } else {
                let v = choose|v: int| 0 <= v < m.slots.len() && m.slots[v] == Some(id);
                assert(v != w);
                assert(0 <= v < n.slots.len() && n.slots[v] == Some(id));
            }
        }
    }
}

/// Finishing a task — whether it succeeded or failed — moves its id from the
/// worker's slot to a fresh log entry, and touches nothing else: the pool
/// stays well-formed.
pub proof fn lemma_finish_preserves_wf(m: PoolModel, w: int, ok: bool)
    requires
        m.wf(),
        0 <= w < m.worker_count(),
        m.slots[w] is Some,
    ensures
        m.after_finish(w, ok).wf(),
{
    let n = m.after_finish(w, ok);
    assert forall|id: u64| id < n.claimed implies #[trigger] n.has_finished(id) || n.in_flight(
        id,
    ) by {
        assert(m.has_finished(id) || m.in_flight(id));
        if m.has_finished(id) {
            let i = choose|i: int| 0 <= i < m.log.len() && (#[trigger] m.log[i]).0 == id;
            assert(0 <= i < n.log.len() && (n.log[i]).0 == id);
        } else {
            let v = choose|v: int| 0 <= v < m.slots.len() && m.slots[v] == Some(id);
            if v == w {
                assert((n.log[n.log.len() - 1]).0 == id);
            } else {
                assert(0 <= v < n.slots.len() && n.slots[v] == Some(id));
            }
        }
    }
}

/// Stopping a drained pool that is shutting down keeps it well-formed.
pub proof fn lemma_stop_preserves_wf(m: PoolModel)
    requires
        m.wf(),
        m.drained(),
    ensures
        m.after_stop().wf(),
{
    let n = m.after_stop();
    assert forall|id: u64| id < n.claimed implies #[trigger] n.has_finished(id) || n.in_flight(
        id,
    ) by {
        assert(m.has_finished(id) || m.in_flight(id));
        if m.has_finished(id) {
            let i = choose|i: int| 0 <= i < m.log.len() && (#[trigger] m.log[i]).0 == id;
            assert(0 <= i < n.log.len() && (n.log[i]).0 == id);
        } else {
            let v = choose|v: int| 0 <= v < m.slots.len() && m.slots[v] == Some(id);
            assert(m.slots[v] is None);
        }
    }
}

/// The pool: accepts task submissions while running, hands each pending task
/// to exactly one worker, records completions, and stops only once drained.
/// Its abstract state is a `PoolModel`, and every operation's contract says
/// how it moves that state.
pub struct ThreadPool {
    phase: Phase,
    next_id: u64,
    next_claim: u64,
    workers: Vec<Option<u64>>,
    finished: Vec<(u64, bool)>,
}

impl View for ThreadPool {
    type V = PoolModel;

    closed spec fn view(&self) -> PoolModel {
        PoolModel {
            phase: self.phase,
            submitted: self.next_id,
            claimed: self.next_claim,
            slots: self.workers@,
            log: self.finished@,
        }
    }
}

impl ThreadPool {
    /// Creates a pool of `size` workers, all idle, accepting submissions.
    /// A pool of zero workers could never make progress, so `size == 0` is a
    /// construction-time error.
    pub fn new(size: usize) -> (r: Result<ThreadPool, PoolError>)
        ensures
            size == 0 <==> r == Err::<ThreadPool, PoolError>(PoolError::ConstructionError),
            size >= 1 ==> (r matches Ok(p) && p@ == (PoolModel {
                phase: Phase::Running,
                submitted: 0,
                claimed: 0,
                slots: Seq::new(size as nat, |w: int| None::<u64>),
                log: Seq::empty(),
            })),
            size >= 1 ==> (r matches Ok(p) && p@.wf()),
    {
        if size == 0 {
            return Err(PoolError::ConstructionError);
        }
        let mut workers: Vec<Option<u64>> = Vec::new();
        let mut i: usize = 0;
        while i < size
            invariant
                i <= size,
                workers@.len() == i,
                forall|w: int| 0 <= w < i ==> workers@[w] is None,
            decreases size - i,
        {
            workers.push(None);
            i += 1;
        }
        let pool = ThreadPool {
            phase: Phase::Running,
            next_id: 0,
            next_claim: 0,
            workers,
            finished: Vec::new(),
        };
        proof {
            assert(pool@.slots =~= Seq::new(size as nat, |w: int| None::<u64>));
        }
        Ok(pool)
    }

    /// Submits one task. While the pool is running the task is accepted, given
    /// the next fresh id and queued; once shutdown has begun the submission is
    /// rejected and the pool — so in particular the set of tasks that will
    /// ever run — is left unchanged.
    pub fn execute(&mut self) -> (r: Result<u64, PoolError>)
        requires
            old(self)@.wf(),
            old(self)@.submitted < u64::MAX,
        ensures
            final(self)@.wf(),
            old(self)@.phase is Running ==> {
                &&& r == Ok::<u64, PoolError>(old(self)@.submitted)
                &&& final(self)@ == old(self)@.after_submit()
            },
            !(old(self)@.phase is Running) ==> {
                &&& r == Err::<u64, PoolError>(PoolError::SubmissionRejected)
                &&& final(self)@ == old(self)@
            },
    {
        match self.phase {
            Phase::Running => {
                let id = self.next_id;
                self.next_id = self.next_id + 1;
                proof {
                    lemma_submit_preserves_wf(old(self)@);
                    assert(self@ =~= old(self)@.after_submit());
                }
                Ok(id)
            },
            _ => Err(PoolError::SubmissionRejected),
        }
    }

    /// Begins shutdown: from now on every submission is rejected. The tasks
    /// already accepted — pending or in flight — are untouched and still run.
    pub fn begin_shutdown(&mut self)
        requires
            old(self)@.wf(),
        ensures
            final(self)@.wf(),
            final(self)@ == old(self)@.after_begin_shutdown(),
            !(final(self)@.phase is Running),
    {
        match self.phase {
            Phase::Stopped => {},
            _ => {
                self.phase = Phase::ShuttingDown;
            },
        }
        proof {
            lemma_begin_shutdown_preserves_wf(old(self)@);
            assert(self@ =~= old(self)@.after_begin_shutdown());
        }
    }

    /// Worker `w`, currently idle, tries to claim a task. Exactly when a task
    /// is pending the claim succeeds, and it yields the oldest pending id:
    /// one submitter's tasks are claimed in submission order, and no id is
    /// ever handed to two workers.
    pub fn claim(&mut self, w: usize) -> (r: Option<u64>)
        requires
            old(self)@.wf(),
            w < old(self)@.worker_count(),
            old(self)@.slots[w as int] is None,
        ensures
            final(self)@.wf(),
            old(self)@.can_claim() ==> (r == Some(old(self)@.claimed) && final(self)@ == old(
                self,
            )@.after_claim(w as int)),
            !old(self)@.can_claim() ==> (r is None && final(self)@ == old(self)@),
    {
        if self.next_claim < self.next_id {
            let id = self.next_claim;
            self.next_claim = self.next_claim + 1;
            self.workers.set(w, Some(id));
            proof {
                lemma_claim_preserves_wf(old(self)@, w as int);
                assert(self@ =~= old(self)@.after_claim(w as int));
            }
            Some(id)
        } else {
            None
        }
    }

    /// Worker `w` reports the task it was running as finished; `ok` is false
    /// when the task failed or panicked. Either way the id moves to the
    /// completion log and the worker is idle again, ready to claim.
    pub fn finish_task(&mut self, w: usize, ok: bool)
        requires
            old(self)@.wf(),
            w < old(self)@.worker_count(),
            old(self)@.slots[w as int] is Some,
        ensures
            final(self)@.wf(),
            final(self)@ == old(self)@.after_finish(w as int, ok),
            final(self)@.slots[w as int] is None,
    {
        let id = self.workers[w].unwrap();
        self.workers.set(w, None);
        self.finished.push((id, ok));
        proof {
            lemma_finish_preserves_wf(old(self)@, w as int, ok);
            assert(self@ =~= old(self)@.after_finish(w as int, ok));
        }
    }

    /// True exactly when no worker is running a task.
    pub fn all_idle(&self) -> (r: bool)
        ensures
            r == self@.all_idle(),
    {
        let mut i: usize = 0;
        while i < self.workers.len()
            invariant
                i <= self.workers@.len(),
                forall|w: int| 0 <= w < i ==> self.workers@[w] is None,
            decreases self.workers@.len() - i,
        {
            if self.workers[i].is_some() {
                return false;
            }
            i += 1;
        }
        true
    }

    /// Completes shutdown if the pool has drained. Returns true — and the
    /// pool stops — exactly when shutdown has begun, no accepted task is
    /// still pending, and no worker is still running one: shutdown finishes
    /// only after every task submitted before it began has completed.
    pub fn try_complete_shutdown(&mut self) -> (r: bool)
        requires
            old(self)@.wf(),
        ensures
            final(self)@.wf(),
            r == (!(old(self)@.phase is Running) && old(self)@.drained()),
            r ==> final(self)@ == old(self)@.after_stop(),
            !r ==> final(self)@ == old(self)@,
    {
        let accepting = match self.phase {
            Phase::Running => true,
            _ => false,
        };
        if accepting {
            return false;
        }
        if self.next_claim != self.next_id {
            return false;
        }
        if !self.all_idle() {
            return false;
        }
        self.phase = Phase::Stopped;
        proof {
            lemma_stop_preserves_wf(old(self)@);
            assert(self@ =~= old(self)@.after_stop());
        }
        true
    }

    /// The number of workers, fixed at construction.
    pub fn size(&self) -> (r: usize)
        ensures
            r == self@.worker_count(),
    {
        self.workers.len()
    }

    /// How many tasks have been accepted so far.
    pub fn submitted_count(&self) -> (r: u64)
        ensures
            r == self@.submitted,
    {
        self.next_id
    }

    /// How many tasks workers have claimed so far.
    pub fn claimed_count(&self) -> (r: u64)
        ensures
            r == self@.claimed,
    {
        self.next_claim
    }

    /// How many accepted tasks no worker has claimed yet.
    pub fn pending_count(&self) -> (r: u64)
        requires
            self@.wf(),
        ensures
            r == self@.pending(),
    {
        self.next_id - self.next_claim
    }

    /// Where the pool stands in its lifecycle.
    pub fn current_phase(&self) -> (r: Phase)
        ensures
            r == self@.phase,
    {
        self.phase
    }

    /// The task worker `w` is running right now, if any.
    pub fn in_flight_on(&self, w: usize) -> (r: Option<u64>)
        requires
            w < self@.worker_count(),
        ensures
            r == self@.slots[w as int],
    {
        self.workers[w]
    }

    /// The completion log so far: each finished task's id, in completion
    /// order, with whether it ran without failing.
    pub fn completion_log(&self) -> (r: &Vec<(u64, bool)>)
        ensures
            r@ == self@.log,
    {
        &self.finished
    }
}

/// Law: every accepted task runs exactly once. Once the pool has stopped,
/// each id it ever accepted appears at exactly one position of the completion
/// log, and the log holds nothing else.
pub proof fn lemma_stopped_pool_ran_each_task_once(m: PoolModel)
    requires
        m.wf(),
        m.phase is Stopped,
    ensures
        forall|id: u64| id < m.submitted ==> m.has_finished(id),
        forall|i: int, j: int|
            0 <= i < j < m.log.len() ==> (#[trigger] m.log[i]).0 != (#[trigger] m.log[j]).0,
        forall|i: int| 0 <= i < m.log.len() ==> (#[trigger] m.log[i]).0 < m.submitted,
{
    assert forall|id: u64| id < m.submitted implies m.has_finished(id) by {
        assert(m.has_finished(id) || m.in_flight(id));
        if m.in_flight(id) {
            let w = choose|w: int| 0 <= w < m.slots.len() && m.slots[w] == Some(id);
            assert(m.slots[w] is None);
        }
    }
}

/// Law: at most `worker_count` tasks run concurrently — each running task
/// occupies one worker, the workers are fixed at construction, and no worker
/// runs two tasks at once.
pub proof fn lemma_concurrency_bounded(m: PoolModel)
    requires
        m.wf(),
    ensures
        m.busy().finite(),
        m.busy().len() <= m.worker_count(),
{
    let all = vstd::set_lib::set_int_range(0, m.worker_count());
    vstd::set_lib::lemma_int_range(0, m.worker_count());
    assert(m.busy().subset_of(all));
    vstd::set_lib::lemma_len_subset(m.busy(), all);
}

/// Law: a task's failure is contained in its worker's iteration. Finishing a
/// task leaves the pool in the same state whether the task succeeded or
/// failed — same phase, same pending queue, same slots, same logged ids, only
/// the recorded outcome differs — so every later task is claimed and executed
/// exactly as it would have been.
pub proof fn lemma_failure_contained(m: PoolModel, w: int)
    requires
        m.wf(),
        0 <= w < m.worker_count(),
        m.slots[w] is Some,
    ensures
        m.after_finish(w, false).wf(),
        m.after_finish(w, false).slots[w] is None,
        m.after_finish(w, false).phase == m.phase,
        m.after_finish(w, false).pending() == m.pending(),
        m.after_finish(w, false).can_claim() == m.after_finish(w, true).can_claim(),
        forall|v: int|
            0 <= v < m.worker_count() ==> m.after_finish(w, false).slots[v] == m.after_finish(
                w,
                true,
            ).slots[v],
        m.after_finish(w, false).log.len() == m.after_finish(w, true).log.len(),
        forall|i: int|
            0 <= i < m.after_finish(w, false).log.len() ==> (#[trigger] m.after_finish(
                w,
                false,
            ).log[i]).0 == (m.after_finish(w, true).log[i]).0,
{
    lemma_finish_preserves_wf(m, w, false);
}

/// Law: graceful drain. A stopped pool is drained — every task submitted
/// before shutdown began was claimed and run to the end, and every worker is
/// idle — so shutdown, which stops the pool only through
/// `try_complete_shutdown`, returns only after all of that work completed.
pub proof fn lemma_stopped_pool_is_drained(m: PoolModel)
    requires
        m.wf(),
        m.phase is Stopped,
    ensures
        m.drained(),
        m.claimed == m.submitted,
        m.all_idle(),
{
}

} // verus!
