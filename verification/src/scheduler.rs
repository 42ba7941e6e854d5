//! The cooperative task executor: which tasks exist, and in which order the
//! ones that were woken are run.
//!
//! Tasks are known here by their ids; the futures themselves, and the
//! polling, belong to the caller. A task is run when its id reaches the front
//! of the bounded ready queue; ids of tasks that have finished in the
//! meantime are skipped.

use vstd::prelude::*;
use std::collections::BTreeSet;
use crossbeam_queue::ArrayQueue;

verus! {

#[verifier::external_type_specification]
#[verifier::external_body]
#[verifier::reject_recursive_types(T)]
pub struct ExArrayQueue<T>(ArrayQueue<T>);

/// The ids a queue holds, oldest first.
pub uninterp spec fn queued_ids(q: ArrayQueue<u64>) -> Seq<u64>;

/// The capacity a queue was made with.
pub uninterp spec fn queue_capacity(q: ArrayQueue<u64>) -> nat;

/// `ArrayQueue::new` (crossbeam-queue): an empty queue that holds at most
/// `cap` ids. The crate panics on a zero capacity and on one too large to
/// round up to a power of two; both are left out here.
#[verifier::external_body]
fn queue_new(cap: usize) -> (q: ArrayQueue<u64>)
    requires
        0 < cap < 0x1_0000,
    ensures
        queued_ids(q) == Seq::<u64>::empty(),
        queue_capacity(q) == cap,
{
    ArrayQueue::new(cap)
}

/// `ArrayQueue::push_mut` (crossbeam-queue): appends `id` unless the queue
/// holds as many ids as its capacity, in which case `id` comes back as the
/// error and the queue is unchanged.
#[verifier::external_body]
fn queue_push(q: &mut ArrayQueue<u64>, id: u64) -> (r: Result<(), u64>)
    ensures
        queue_capacity(*final(q)) == queue_capacity(*old(q)),
        r is Ok <==> queued_ids(*old(q)).len() < queue_capacity(*old(q)),
        r is Ok ==> queued_ids(*final(q)) == queued_ids(*old(q)).push(id),
        r matches Err(v) ==> v == id && queued_ids(*final(q)) == queued_ids(*old(q)),
{
    q.push_mut(id)
}

/// `ArrayQueue::pop_mut` (crossbeam-queue): removes and returns the oldest
/// id, `None` when the queue is empty.
#[verifier::external_body]
fn queue_pop(q: &mut ArrayQueue<u64>) -> (r: Option<u64>)
    ensures
        queue_capacity(*final(q)) == queue_capacity(*old(q)),
        queued_ids(*old(q)).len() == 0 ==> r is None && queued_ids(*final(q)) == queued_ids(*old(q)),
        queued_ids(*old(q)).len() > 0 ==> r == Some(queued_ids(*old(q))[0]) && queued_ids(*final(q))
            == queued_ids(*old(q)).drop_first(),
{
    q.pop_mut()
}

/// `ArrayQueue::is_empty` (crossbeam-queue): whether the queue holds no id.
#[verifier::external_body]
fn queue_is_empty(q: &ArrayQueue<u64>) -> (r: bool)
    ensures
        r == (queued_ids(*q).len() == 0),
{
    q.is_empty()
}

/// `ArrayQueue::is_full` (crossbeam-queue): whether the queue holds as many
/// ids as its capacity.
#[verifier::external_body]
fn queue_is_full(q: &ArrayQueue<u64>) -> (r: bool)
    ensures
        r == (queued_ids(*q).len() >= queue_capacity(*q)),
{
    q.is_full()
}

/// How many woken task ids the ready queue holds.
pub const TASK_QUEUE_CAPACITY: usize = 100;

/// `q` without the ids at its front whose task no longer exists.
pub open spec fn skip_finished(q: Seq<u64>, live: Set<u64>) -> Seq<u64>
    decreases q.len(),
{
    if q.len() == 0 {
        q
    } else if live.contains(q[0]) {
        q
    } else {
        skip_finished(q.drop_first(), live)
    }
}

/// What `skip_finished` leaves is a suffix of the queue, and its first id,
/// if any, names a live task.
proof fn lemma_skip_finished(q: Seq<u64>, live: Set<u64>)
    ensures
        skip_finished(q, live).len() <= q.len(),
        skip_finished(q, live) == q.subrange(q.len() - skip_finished(q, live).len(), q.len() as int),
        skip_finished(q, live).len() > 0 ==> live.contains(skip_finished(q, live)[0]),
    decreases q.len(),
{
    if q.len() > 0 && !live.contains(q[0]) {
        lemma_skip_finished(q.drop_first(), live);
        let s = skip_finished(q.drop_first(), live);
        assert(q.drop_first().subrange(q.len() - 1 - s.len(), q.len() - 1) =~= q.subrange(
            q.len() - s.len(),
            q.len() as int,
        ));
    } else {
        assert(q.subrange(0, q.len() as int) =~= q);
    }
}

/// When every queued id names a live task, the ready order is the queue
/// order: nothing is skipped.
pub proof fn lemma_live_queue_runs_in_order(q: Seq<u64>, live: Set<u64>)
    requires
        forall|i: int| 0 <= i < q.len() ==> live.contains(#[trigger] q[i]),
    ensures
        skip_finished(q, live) == q,
{
    if q.len() > 0 {
        assert(live.contains(q[0]));
    }
}

/// A task that has finished is never handed out again, whatever the queue
/// still holds of it.
pub proof fn lemma_finished_task_not_run(q: Seq<u64>, live: Set<u64>, id: u64)
    requires
        !live.contains(id),
    ensures
        skip_finished(q, live).len() > 0 ==> skip_finished(q, live)[0] != id,
{
    lemma_skip_finished(q, live);
}

/// The executor's bookkeeping: the ids of the tasks that exist, and the
/// queue of ids that were spawned or woken and wait to be polled.
pub struct Executor {
    tasks: BTreeSet<u64>,
    task_queue: ArrayQueue<u64>,
    should_exit: bool,
}

impl Executor {
    /// Ids of the tasks that exist (spawned and not finished).
    pub closed spec fn live_tasks(&self) -> Set<u64> {
        self.tasks@
    }

    /// Ids waiting in the ready queue, oldest first.
    pub closed spec fn ready_queue(&self) -> Seq<u64> {
        queued_ids(self.task_queue)
    }

    pub closed spec fn exit_requested(&self) -> bool {
        self.should_exit
    }

    /// The ready queue was made with its fixed capacity and never holds more.
    pub closed spec fn wf(&self) -> bool {
        &&& queue_capacity(self.task_queue) == TASK_QUEUE_CAPACITY
        &&& queued_ids(self.task_queue).len() <= TASK_QUEUE_CAPACITY
    }

    /// An executor with no task and an empty ready queue.
    pub fn new() -> (e: Self)
        ensures
            e.wf(),
            e.live_tasks() == Set::<u64>::empty(),
            e.ready_queue() == Seq::<u64>::empty(),
            !e.exit_requested(),
    {
        Executor { tasks: BTreeSet::new(), task_queue: queue_new(TASK_QUEUE_CAPACITY), should_exit: false }
    }

    /// Whether a task with this id exists.
    pub fn has_task(&self, id: u64) -> (r: bool)
        ensures
            r == self.live_tasks().contains(id),
    {
        self.tasks.contains(&id)
    }

    /// Whether the ready queue cannot take another id.
    pub fn queue_full(&self) -> (r: bool)
        requires
            self.wf(),
        ensures
            r == (self.ready_queue().len() == TASK_QUEUE_CAPACITY),
    {
        queue_is_full(&self.task_queue)
    }

    /// Whether no task waits to be polled; the executor then halts until the
    /// next interrupt.
    pub fn is_idle(&self) -> (r: bool)
        ensures
            r == (self.ready_queue().len() == 0),
    {
        queue_is_empty(&self.task_queue)
    }

    /// Whether the run loop should stop.
    pub fn should_exit(&self) -> (r: bool)
        ensures
            r == self.exit_requested(),
    {
        self.should_exit
    }

    /// Registers a new task and queues it to be polled. Its id must be new,
    /// and the ready queue must have room.
    pub fn spawn(&mut self, id: u64)
        requires
            old(self).wf(),
            !old(self).live_tasks().contains(id),
            old(self).ready_queue().len() < TASK_QUEUE_CAPACITY,
        ensures
            final(self).wf(),
            final(self).live_tasks() == old(self).live_tasks().insert(id),
            final(self).ready_queue() == old(self).ready_queue().push(id),
            final(self).exit_requested() == old(self).exit_requested(),
    {
        self.tasks.insert(id);
        let pushed = queue_push(&mut self.task_queue, id);
        assert(pushed is Ok);
    }

    /// Queues the task `id` to be polled again; the ready queue must have room.
    pub fn wake(&mut self, id: u64)
        requires
            old(self).wf(),
            old(self).ready_queue().len() < TASK_QUEUE_CAPACITY,
        ensures
            final(self).wf(),
            final(self).live_tasks() == old(self).live_tasks(),
            final(self).ready_queue() == old(self).ready_queue().push(id),
            final(self).exit_requested() == old(self).exit_requested(),
    {
        let pushed = queue_push(&mut self.task_queue, id);
        assert(pushed is Ok);
    }

    /// Takes the next task to poll off the ready queue, skipping the ids of
    /// tasks that no longer exist; `None` once the queue is drained.
    pub fn next_ready(&mut self) -> (r: Option<u64>)
        requires
            old(self).wf(),
        ensures
            final(self).wf(),
            final(self).live_tasks() == old(self).live_tasks(),
            final(self).exit_requested() == old(self).exit_requested(),
            ({
                let s = skip_finished(old(self).ready_queue(), old(self).live_tasks());
                if s.len() == 0 {
                    r is None && final(self).ready_queue() == s
                } else {
                    r == Some(s[0]) && final(self).ready_queue() == s.drop_first()
                }
            }),
            r matches Some(id) ==> old(self).live_tasks().contains(id),
    {
        let ghost live = self.tasks@;
        let ghost pending = skip_finished(queued_ids(self.task_queue), live);
        proof {
            lemma_skip_finished(queued_ids(self.task_queue), live);
        }
        let mut found: Option<u64> = None;
        let mut searching = true;
        while searching
            invariant
                self.wf(),
                self.tasks@ == live,
                self.should_exit == old(self).should_exit,
                searching ==> found is None && skip_finished(queued_ids(self.task_queue), live) == pending,
                !searching ==> if pending.len() == 0 {
                    found is None && queued_ids(self.task_queue) == pending
                } else {
                    found == Some(pending[0]) && queued_ids(self.task_queue) == pending.drop_first()
                },
                pending.len() > 0 ==> live.contains(pending[0]),
            decreases queued_ids(self.task_queue).len() + (if searching { 1int } else { 0int }),
        {
            match queue_pop(&mut self.task_queue) {
                None => {
                    searching = false;
                },
                Some(id) => {
                    if self.tasks.contains(&id) {
                        found = Some(id);
                        searching = false;
                    }
                },
            }
        }
        found
    }

    /// Forgets the task `id`, which has run to completion.
    pub fn complete(&mut self, id: u64)
        requires
            old(self).wf(),
        ensures
            final(self).wf(),
            final(self).live_tasks() == old(self).live_tasks().remove(id),
            final(self).ready_queue() == old(self).ready_queue(),
            final(self).exit_requested() == old(self).exit_requested(),
    {
        self.tasks.remove(&id);
    }
}

} // verus!
