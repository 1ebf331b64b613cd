//! Ready queue and scheduling decisions of the cooperative executor.
//!
//! The executor polls a fixed array of tasks. Interrupt handlers and tasks
//! make a task runnable again by pushing its index onto a bounded FIFO; the
//! executor loop takes indices off the front and polls the task at each one.
//! A full queue is fatal: a wake is never dropped silently.

use vstd::prelude::*;
use heapless::mpmc::MpMcQueue;

verus! {

#[verifier::external_type_specification]
#[verifier::external_body]
#[verifier::reject_recursive_types(T)]
pub struct ExMpMcQueue<T, const N: usize>(MpMcQueue<T, N>);

/// The task indices held by a ready queue, oldest first.
pub uninterp spec fn queued_tasks(q: MpMcQueue<usize, 16>) -> Seq<usize>;

/// Relies on heapless's `MpMcQueue::new`: a fresh queue holds nothing.
#[verifier::external_body]
fn queue_new() -> (r: MpMcQueue<usize, 16>)
    ensures
        queued_tasks(r) == Seq::<usize>::empty(),
{
    MpMcQueue::new()
}

/// Relies on heapless's `MpMcQueue::enqueue`: the item goes to the back,
/// unless the queue already holds its capacity of 16, in which case the
/// item is handed back and the queue is left as it was.
#[verifier::external_body]
fn queue_enqueue(q: &mut MpMcQueue<usize, 16>, item: usize) -> (r: Result<(), usize>)
    ensures
        queued_tasks(*old(q)).len() < 16 ==> r is Ok && queued_tasks(*final(q))
            == queued_tasks(*old(q)).push(item),
        queued_tasks(*old(q)).len() >= 16 ==> r is Err && r->Err_0 == item && queued_tasks(
            *final(q),
        ) == queued_tasks(*old(q)),
    no_unwind
{
    q.enqueue(item)
}

/// Relies on heapless's `MpMcQueue::dequeue`: the oldest item leaves the
/// queue, or `None` comes back when it is empty.
#[verifier::external_body]
fn queue_dequeue(q: &mut MpMcQueue<usize, 16>) -> (r: Option<usize>)
    ensures
        queued_tasks(*old(q)).len() == 0 ==> r is None && queued_tasks(*final(q)) == queued_tasks(
            *old(q),
        ),
        queued_tasks(*old(q)).len() > 0 ==> r == Some(queued_tasks(*old(q))[0]) && queued_tasks(
            *final(q),
        ) == queued_tasks(*old(q)).drop_first(),
    no_unwind
{
    q.dequeue()
}

/// Number of wakes the ready queue can hold at once.
pub const READY_CAPACITY: usize = 16;

/// The conditions after which the system cannot go on.
#[derive(Clone, Copy, Debug, PartialEq, Eq, Structural)]
pub enum Fault {
    /// A wake arrived while the ready queue was full.
    ReadyQueueFull,
    /// A timer was registered while its timer queue was full.
    TimerQueueFull,
}

/// The ready queue after waking `task` on `q`, or `None` where the wake does
/// not fit.
pub open spec fn woken_queue(q: Seq<usize>, task: usize) -> Option<Seq<usize>> {
    if q.len() < READY_CAPACITY {
        Some(q.push(task))
    } else {
        None
    }
}

/// Bounded FIFO of the indices of tasks that want to be polled.
pub struct ReadyQueue {
    queue: MpMcQueue<usize, 16>,
}

impl View for ReadyQueue {
    type V = Seq<usize>;

    closed spec fn view(&self) -> Seq<usize> {
        queued_tasks(self.queue)
    }
}

impl ReadyQueue {
    /// The queue never holds more than its capacity.
    #[verifier::type_invariant]
    pub closed spec fn inv(self) -> bool {
        queued_tasks(self.queue).len() <= READY_CAPACITY
    }

    /// What the invariant says of the queue's length.
    pub proof fn lemma_bounded(&self)
        requires
            self.inv(),
        ensures
            self@.len() <= READY_CAPACITY,
    {
    }

    /// An empty ready queue.
    pub fn new() -> (r: ReadyQueue)
        ensures
            r@ == Seq::<usize>::empty(),
    {
        ReadyQueue { queue: queue_new() }
    }

    /// Takes the oldest index off the queue.
    pub fn dequeue(&mut self) -> (r: Option<usize>)
        ensures
            old(self)@.len() == 0 ==> r is None && final(self)@ == old(self)@,
            old(self)@.len() > 0 ==> r == Some(old(self)@[0]) && final(self)@ == old(
                self,
            )@.drop_first(),
    {
        proof {
            use_type_invariant(&*self);
        }
        queue_dequeue(&mut self.queue)
    }

    /// Removes every index from the queue.
    pub fn clear(&mut self)
        ensures
            final(self)@ == Seq::<usize>::empty(),
    {
        loop
            invariant_except_break
                true,
            ensures
                self@ == Seq::<usize>::empty(),
            decreases self@.len(),
        {
            proof {
                use_type_invariant(&*self);
            }
            match queue_dequeue(&mut self.queue) {
                Some(_) => {},
                None => {
                    break ;
                },
            }
        }
    }
}

/// Makes the task at index `task` runnable again by appending its index to
/// the ready queue. The same index may stand in the queue more than once:
/// each occurrence gives the task one more poll. A wake onto a full queue is
/// reported as `Fault::ReadyQueueFull` and leaves the queue unchanged.
pub fn wake_task(ready: &mut ReadyQueue, task: usize) -> (r: Result<(), Fault>)
    ensures
        r is Ok <==> woken_queue(old(ready)@, task) is Some,
        r is Ok ==> final(ready)@ == woken_queue(old(ready)@, task)->0,
        r is Err ==> r->Err_0 == Fault::ReadyQueueFull && final(ready)@ == old(ready)@,
{
    proof {
        use_type_invariant(&*ready);
    }
    match queue_enqueue(&mut ready.queue, task) {
        Ok(()) => Ok(()),
        Err(_) => Err(Fault::ReadyQueueFull),
    }
}

/// What the executor loop does next.
#[derive(Clone, Copy, Debug, PartialEq, Eq, Structural)]
pub enum Step {
    /// Poll the task at this index once.
    Poll(usize),
    /// Nothing is ready: wait for the next interrupt.
    Sleep,
    /// The current phase is over: return to the caller of the run.
    PhaseEnd,
}

/// The queue left once indices at or beyond `n` (wakes of tasks that do not
/// belong to the installed task set) are dropped from its front.
pub open spec fn skip_stale(q: Seq<usize>, n: usize) -> Seq<usize>
    decreases q.len(),
{
    if q.len() > 0 && q[0] >= n {
        skip_stale(q.drop_first(), n)
    } else {
        q
    }
}

/// The indices `0..n`, in order.
pub open spec fn first_indices(n: nat) -> Seq<usize> {
    Seq::new(n, |i: int| i as usize)
}

/// Scheduling state of the executor: the ready queue, the size of the
/// installed task set, and whether the current phase has been ended.
pub struct Executor {
    pub ready: ReadyQueue,
    pub num_tasks: usize,
    pub phase_over: bool,
}

impl Executor {
    /// An executor with no tasks installed and nothing ready.
    pub fn new() -> (r: Executor)
        ensures
            r.ready@ == Seq::<usize>::empty(),
            r.num_tasks == 0,
            !r.phase_over,
    {
        Executor { ready: ReadyQueue::new(), num_tasks: 0, phase_over: false }
    }

    /// Installs a task set of `n` tasks for a new phase: wakes left over
    /// from an earlier phase are dropped and every task of the new set gets
    /// one initial poll, in index order.
    pub fn begin_phase(&mut self, n: usize)
        requires
            n <= READY_CAPACITY,
        ensures
            final(self).ready@ == first_indices(n as nat),
            final(self).num_tasks == n,
            !final(self).phase_over,
    {
        self.ready.clear();
        let mut i: usize = 0;
        while i < n
            invariant
                i <= n <= READY_CAPACITY,
                self.ready@ == first_indices(i as nat),
            decreases n - i,
        {
            let seeded = wake_task(&mut self.ready, i);
            assert(seeded is Ok);
            proof {
                assert(self.ready@ =~= first_indices((i + 1) as nat));
            }
            i = i + 1;
        }
        self.num_tasks = n;
        self.phase_over = false;
    }

    /// Ends the current phase: the loop returns at its next step.
    pub fn end_phase(&mut self)
        ensures
            final(self).phase_over,
            final(self).ready@ == old(self).ready@,
            final(self).num_tasks == old(self).num_tasks,
    {
        self.phase_over = true;
    }

    /// Decides the loop's next step. An ended phase takes precedence; else
    /// the oldest ready index of the installed task set is taken off the
    /// queue, stale indices before it being dropped; with none, the loop
    /// sleeps.
    ///
    /// An index at or beyond `num_tasks` is not treated as fatal: a timer
    /// or pin registration made by a task of an earlier, larger phase may
    /// still fire after the task set was replaced, and such a wake names
    /// no task of the current set. Dropping it keeps every task of the
    /// current set reachable only through its own index.
    pub fn next_step(&mut self) -> (r: Step)
        ensures
            final(self).num_tasks == old(self).num_tasks,
            final(self).phase_over == old(self).phase_over,
            old(self).phase_over ==> r == Step::PhaseEnd && final(self).ready@ == old(self).ready@,
            !old(self).phase_over && skip_stale(old(self).ready@, old(self).num_tasks).len() == 0
                ==> r == Step::Sleep && final(self).ready@ == Seq::<usize>::empty(),
            !old(self).phase_over && skip_stale(old(self).ready@, old(self).num_tasks).len() > 0
                ==> r == Step::Poll(skip_stale(old(self).ready@, old(self).num_tasks)[0])
                && final(self).ready@ == skip_stale(old(self).ready@, old(self).num_tasks).drop_first(),
            r matches Step::Poll(i) ==> i < old(self).num_tasks,
    {
        if self.phase_over {
            return Step::PhaseEnd;
        }
        let n = self.num_tasks;
        loop
            invariant
                n == self.num_tasks,
                !self.phase_over,
                skip_stale(self.ready@, n) == skip_stale(old(self).ready@, n),
                self.num_tasks == old(self).num_tasks,
                self.phase_over == old(self).phase_over,
            decreases self.ready@.len(),
        {
            match self.ready.dequeue() {
                None => {
                    return Step::Sleep;
                },
                Some(i) => {
                    if i < n {
                        return Step::Poll(i);
                    }
                },
            }
        }
    }
}

/// A wake onto a queue with room for two more, made twice for the same
/// task, leaves that task's index twice at the back of the queue: the task
/// is polled once more than after a single wake, and no wake is lost.
pub proof fn lemma_double_wake(q: Seq<usize>, task: usize)
    requires
        q.len() + 2 <= READY_CAPACITY,
    ensures
        woken_queue(q, task) is Some,
        woken_queue(woken_queue(q, task)->0, task) == Some(q + seq![task, task]),
        (q + seq![task, task]).drop_last() == woken_queue(q, task)->0,
{
    assert(q.push(task).push(task) =~= q + seq![task, task]);
    assert((q + seq![task, task]).drop_last() =~= q.push(task));
}

/// A wake onto a full queue is refused, and the queue keeps every index it
/// held, in order.
pub proof fn lemma_full_queue_refuses(q: Seq<usize>, task: usize)
    requires
        q.len() == READY_CAPACITY,
    ensures
        woken_queue(q, task) is None,
{
}

/// A handle given to a running task; it names the task's index directly.
#[derive(Clone, Copy, Debug, PartialEq, Eq, Structural)]
pub struct TaskHandle {
    pub index: usize,
}

/// Resolves a wake handle back to the index of the task it belongs to.
pub trait ExtWaker {
    /// The index of the task the handle was made for.
    spec fn handle_index(&self) -> usize;

    fn task_id(&self) -> (r: usize)
        ensures
            r == self.handle_index(),
    ;
}

impl ExtWaker for TaskHandle {
    open spec fn handle_index(&self) -> usize {
        self.index
    }

    fn task_id(&self) -> (r: usize) {
        self.index
    }
}

} // verus!
