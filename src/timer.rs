//! Tick-based timer services.
//!
//! A service keeps a bounded min-priority queue of (deadline, task) entries
//! and a tick counter that only its compare-match interrupt advances. An
//! entry whose deadline is at most `epsilon` ticks ahead of the counter is
//! due: its task is woken at once instead of arming another interrupt. For
//! the nearest entry that is not due, the compare register is armed with the
//! remaining ticks, capped at the register's reach.

use vstd::prelude::*;
use vstd::multiset::Multiset;
use heapless::binary_heap::{BinaryHeap, Min};
use crate::executor::{wake_task, Fault, ReadyQueue, READY_CAPACITY};

verus! {

#[verifier::external_type_specification]
#[verifier::external_body]
#[verifier::reject_recursive_types(T)]
#[verifier::reject_recursive_types(K)]
pub struct ExBinaryHeap<T, K, const N: usize>(BinaryHeap<T, K, N>);

#[verifier::external_type_specification]
#[verifier::external_body]
pub struct ExMin(Min);

/// The (deadline, task) entries held by a timer heap.
pub uninterp spec fn heap_entries(h: BinaryHeap<(u64, usize), Min, 8>) -> Multiset<(u64, usize)>;

/// The order of std's `Ord` for pairs: by deadline, then by task index.
pub open spec fn entry_le(a: (u64, usize), b: (u64, usize)) -> bool {
    a.0 < b.0 || (a.0 == b.0 && a.1 <= b.1)
}

/// `x` is an entry of `m` that no other entry of `m` precedes.
pub open spec fn is_min_entry(m: Multiset<(u64, usize)>, x: (u64, usize)) -> bool {
    m.contains(x) && forall|y: (u64, usize)| m.contains(y) ==> entry_le(x, y)
}

/// Relies on heapless's `BinaryHeap::new`: a fresh heap holds nothing.
#[verifier::external_body]
fn heap_new() -> (r: BinaryHeap<(u64, usize), Min, 8>)
    ensures
        heap_entries(r) == Multiset::<(u64, usize)>::empty(),
{
    BinaryHeap::new()
}

/// Relies on heapless's `BinaryHeap::len`: the number of entries held.
#[verifier::external_body]
fn heap_len(h: &BinaryHeap<(u64, usize), Min, 8>) -> (r: usize)
    ensures
        r == heap_entries(*h).len(),
{
    h.len()
}

/// Relies on heapless's `BinaryHeap::peek`: on a min-heap, the least entry,
/// or `None` when the heap is empty.
#[verifier::external_body]
fn heap_peek(h: &BinaryHeap<(u64, usize), Min, 8>) -> (r: Option<(u64, usize)>)
    ensures
        heap_entries(*h).len() == 0 ==> r is None,
        heap_entries(*h).len() > 0 ==> r is Some && is_min_entry(heap_entries(*h), r->0),
{
    h.peek().copied()
}

/// Relies on heapless's `BinaryHeap::pop`: on a min-heap, removes and
/// returns the least entry, or `None` when the heap is empty.
#[verifier::external_body]
fn heap_pop(h: &mut BinaryHeap<(u64, usize), Min, 8>) -> (r: Option<(u64, usize)>)
    ensures
        heap_entries(*old(h)).len() == 0 ==> r is None && heap_entries(*final(h)) == heap_entries(
            *old(h),
        ),
        heap_entries(*old(h)).len() > 0 ==> r is Some && is_min_entry(heap_entries(*old(h)), r->0)
            && heap_entries(*final(h)) == heap_entries(*old(h)).remove(r->0),
    no_unwind
{
    h.pop()
}

/// Relies on heapless's `BinaryHeap::push`: adds the entry unless the heap
/// already holds its capacity of 8, in which case the entry is handed back
/// and the heap is left as it was.
#[verifier::external_body]
fn heap_push(h: &mut BinaryHeap<(u64, usize), Min, 8>, item: (u64, usize)) -> (r: Result<
    (),
    (u64, usize),
>)
    ensures
        heap_entries(*old(h)).len() < 8 ==> r is Ok && heap_entries(*final(h)) == heap_entries(
            *old(h),
        ).insert(item),
        heap_entries(*old(h)).len() >= 8 ==> r is Err && heap_entries(*final(h)) == heap_entries(
            *old(h),
        ),
    no_unwind
{
    h.push(item)
}

/// Slots of the heap behind every timer service.
pub const TIMER_SLOTS: usize = 8;

/// The least entry of `m`, where `m` is not empty.
pub open spec fn min_entry(m: Multiset<(u64, usize)>) -> (u64, usize) {
    choose|x: (u64, usize)| is_min_entry(m, x)
}

/// A non-empty multiset of entries has exactly one least entry.
pub proof fn lemma_min_entry(m: Multiset<(u64, usize)>)
    requires
        m.len() > 0,
    ensures
        is_min_entry(m, min_entry(m)),
        forall|x: (u64, usize)| is_min_entry(m, x) ==> x == min_entry(m),
        m.remove(min_entry(m)).len() == m.len() - 1,
    decreases m.len(),
{
    broadcast use vstd::multiset::group_multiset_axioms;

    let c = m.choose();
    let m2 = m.remove(c);
    assert(Multiset::singleton(c).subset_of(m));
    assert(m2.len() == m.len() - 1);
    if m2.len() == 0 {
        assert forall|y: (u64, usize)| m.contains(y) implies entry_le(c, y) by {
            if y != c {
                assert(m2.count(y) == m.count(y));
            }
        }
        assert(is_min_entry(m, c));
    } else {
        lemma_min_entry(m2);
        let x = min_entry(m2);
        assert forall|y: (u64, usize)| m.contains(y) implies (y == c || m2.contains(y)) by {
            if y != c {
                assert(m2.count(y) == m.count(y));
            }
        }
        assert(m.count(x) >= m2.count(x));
        if entry_le(c, x) {
            assert(is_min_entry(m, c));
        } else {
            assert(is_min_entry(m, x));
        }
    }
    let w = min_entry(m);
    assert(Multiset::singleton(w).subset_of(m));
}

/// Termination of `due_entries`: each step removes one entry.
#[via_fn]
proof fn lemma_due_decreases(m: Multiset<(u64, usize)>, limit: int) {
    if m.len() > 0 {
        lemma_min_entry(m);
    }
}

/// Termination of `not_due_entries`: each step removes one entry.
#[via_fn]
proof fn lemma_not_due_decreases(m: Multiset<(u64, usize)>, limit: int) {
    if m.len() > 0 {
        lemma_min_entry(m);
    }
}

/// The entries due at `limit`, least first: the batch that one pass of
/// the wakeup logic takes off the queue.
pub open spec fn due_entries(m: Multiset<(u64, usize)>, limit: int) -> Seq<(u64, usize)>
    decreases m.len(),
    via lemma_due_decreases
{
    if m.len() > 0 && min_entry(m).0 <= limit {
        seq![min_entry(m)] + due_entries(m.remove(min_entry(m)), limit)
    } else {
        Seq::empty()
    }
}

/// The entries left on the queue once the batch due at `limit` is gone.
pub open spec fn not_due_entries(m: Multiset<(u64, usize)>, limit: int) -> Multiset<(u64, usize)>
    decreases m.len(),
    via lemma_not_due_decreases
{
    if m.len() > 0 && min_entry(m).0 <= limit {
        not_due_entries(m.remove(min_entry(m)), limit)
    } else {
        m
    }
}

/// The task indices of a sequence of entries.
pub open spec fn tasks_of(s: Seq<(u64, usize)>) -> Seq<usize> {
    s.map_values(|e: (u64, usize)| e.1)
}

/// A batch of due entries leaves the queue in order of deadline (ties by
/// task index), none of them due after `limit`; every entry left behind is
/// due strictly after all of them, so later batches never wake a task
/// whose deadline precedes one already woken.
pub proof fn lemma_due_in_deadline_order(m: Multiset<(u64, usize)>, limit: int)
    ensures
        forall|i: int, j: int|
            0 <= i < j < due_entries(m, limit).len() ==> entry_le(
                #[trigger] due_entries(m, limit)[i],
                #[trigger] due_entries(m, limit)[j],
            ) && due_entries(m, limit)[i].0 <= due_entries(m, limit)[j].0,
        forall|i: int|
            0 <= i < due_entries(m, limit).len() ==> #[trigger] due_entries(m, limit)[i].0 <= limit
                && m.contains(due_entries(m, limit)[i]),
        forall|e: (u64, usize)| #[trigger] not_due_entries(m, limit).contains(e) ==> e.0 > limit,
        due_entries(m, limit).len() + not_due_entries(m, limit).len() == m.len(),
    decreases m.len(),
{
    broadcast use vstd::multiset::group_multiset_axioms;

    if m.len() > 0 {
        lemma_min_entry(m);
        let x = min_entry(m);
        if x.0 <= limit {
            let m2 = m.remove(x);
            lemma_due_in_deadline_order(m2, limit);
            let d = due_entries(m, limit);
            let d2 = due_entries(m2, limit);
            assert(d == seq![x] + d2);
            assert forall|i: int| 0 <= i < d2.len() implies m.contains(#[trigger] d2[i]) by {
                assert(m2.contains(d2[i]));
                if d2[i] != x {
                    assert(m2.count(d2[i]) == m.count(d2[i]));
                }
            }
            assert forall|i: int, j: int| 0 <= i < j < d.len() implies entry_le(
                #[trigger] d[i],
                #[trigger] d[j],
            ) && d[i].0 <= d[j].0 by {
                if i == 0 {
                    assert(d[j] == d2[j - 1]);
                    assert(m.contains(d2[j - 1]));
                } else {
                    assert(d[i] == d2[i - 1] && d[j] == d2[j - 1]);
                }
            }
            assert forall|i: int| 0 <= i < d.len() implies #[trigger] d[i].0 <= limit && m.contains(
                d[i],
            ) by {
                if i > 0 {
                    assert(d[i] == d2[i - 1]);
                }
            }
        } else {
            assert forall|e: (u64, usize)| #[trigger]
                not_due_entries(m, limit).contains(e) implies e.0 > limit by {
                assert(entry_le(x, e));
            }
        }
    }
}

/// A timer service seen as data.
pub struct TimerView {
    /// The pending (deadline, task) entries.
    pub entries: Multiset<(u64, usize)>,
    /// Ticks elapsed, as the interrupt has counted them.
    pub counter: u64,
    /// Ticks that the compare register was last armed for.
    pub increment: u64,
    /// Most entries that may be pending at once.
    pub capacity: usize,
    /// Most ticks the compare register can be armed for.
    pub max_arm: u64,
    /// Entries at most this many ticks ahead are woken at once.
    pub epsilon: u64,
}

/// The entries due on `v`'s counter.
pub open spec fn due_now(v: TimerView) -> Seq<(u64, usize)> {
    due_entries(v.entries, v.counter + v.epsilon)
}

/// The entries that stay on the queue after the due ones leave.
pub open spec fn left_pending(v: TimerView) -> Multiset<(u64, usize)> {
    not_due_entries(v.entries, v.counter + v.epsilon)
}

/// The value to arm the compare register with once the due entries are
/// gone: the ticks to the nearest remaining deadline, capped at `max_arm`;
/// `None` where nothing remains.
pub open spec fn schedule_arm(v: TimerView) -> Option<u64> {
    if left_pending(v).len() == 0 {
        None
    } else if min_entry(left_pending(v)).0 - v.counter < v.max_arm {
        Some((min_entry(left_pending(v)).0 - v.counter) as u64)
    } else {
        Some(v.max_arm)
    }
}

/// The service after one wakeup pass.
pub open spec fn after_schedule(v: TimerView) -> TimerView {
    TimerView {
        entries: left_pending(v),
        increment: match schedule_arm(v) {
            Some(a) => a,
            None => v.increment,
        },
        ..v
    }
}

/// One wakeup pass from `v` with ready queue `q` ended in `v2` and `q2`,
/// returning `r`: the due tasks are woken in order of deadline and the
/// register is armed for the rest, unless the ready queue overflows.
pub open spec fn scheduled(
    v: TimerView,
    q: Seq<usize>,
    v2: TimerView,
    q2: Seq<usize>,
    r: Result<Option<u64>, Fault>,
) -> bool {
    &&& (r is Ok <==> q.len() + due_now(v).len() <= READY_CAPACITY)
    &&& (r is Ok ==> v2 == after_schedule(v) && q2 == q + tasks_of(due_now(v)) && r->Ok_0
        == schedule_arm(v))
    &&& (r is Err ==> r->Err_0 == Fault::ReadyQueueFull)
}

/// A new entry with this deadline would be the nearest one.
pub open spec fn register_first(v: TimerView, deadline: u64) -> bool {
    v.entries.len() == 0 || deadline < min_entry(v.entries).0
}

/// `v` with one more entry.
pub open spec fn with_entry(v: TimerView, e: (u64, usize)) -> TimerView {
    TimerView { entries: v.entries.insert(e), ..v }
}

/// Registering entry `e` on `v` with ready queue `q` ended in `v2` and
/// `q2`, returning `r`.
pub open spec fn registered(
    v: TimerView,
    q: Seq<usize>,
    e: (u64, usize),
    v2: TimerView,
    q2: Seq<usize>,
    r: Result<Option<u64>, Fault>,
) -> bool {
    if v.entries.len() >= v.capacity {
        r == Err::<Option<u64>, Fault>(Fault::TimerQueueFull) && v2 == v && q2 == q
    } else if !register_first(v, e.0) {
        r == Ok::<Option<u64>, Fault>(None) && v2 == with_entry(v, e) && q2 == q
    } else {
        scheduled(with_entry(v, e), q, v2, q2, r)
    }
}

/// `v` once the compare-match interrupt has counted the ticks it was armed
/// for (saturating at the counter's maximum).
pub open spec fn advanced(v: TimerView) -> TimerView {
    TimerView {
        counter: if v.counter + v.increment <= u64::MAX {
            (v.counter + v.increment) as u64
        } else {
            u64::MAX
        },
        ..v
    }
}

/// A timer service: pending entries, tick counter and arming state.
pub struct TimerService {
    heap: BinaryHeap<(u64, usize), Min, 8>,
    counter: u64,
    increment: u64,
    capacity: usize,
    max_arm: u64,
    epsilon: u64,
}

impl View for TimerService {
    type V = TimerView;

    closed spec fn view(&self) -> TimerView {
        TimerView {
            entries: heap_entries(self.heap),
            counter: self.counter,
            increment: self.increment,
            capacity: self.capacity,
            max_arm: self.max_arm,
            epsilon: self.epsilon,
        }
    }
}

impl TimerService {
    /// No more entries are pending than the service's capacity allows.
    #[verifier::type_invariant]
    pub closed spec fn inv(self) -> bool {
        heap_entries(self.heap).len() <= self.capacity <= TIMER_SLOTS
    }

    /// What the invariant says of the pending entries.
    pub proof fn lemma_bounded(&self)
        requires
            self.inv(),
        ensures
            self@.entries.len() <= self@.capacity <= TIMER_SLOTS,
    {
    }

    /// A service with no pending entries and its counter at zero, whose
    /// compare register runs with a period of `period` ticks.
    pub fn new(capacity: usize, period: u64, max_arm: u64, epsilon: u64) -> (r: TimerService)
        requires
            capacity <= TIMER_SLOTS,
        ensures
            r@ == (TimerView {
                entries: Multiset::empty(),
                counter: 0,
                increment: period,
                capacity,
                max_arm,
                epsilon,
            }),
    {
        TimerService { heap: heap_new(), counter: 0, increment: period, capacity, max_arm, epsilon }
    }

    /// The tick counter.
    pub fn now(&self) -> (r: u64)
        ensures
            r == self@.counter,
    {
        self.counter
    }

    /// The second-scale service: room for 4 pending delays, a compare
    /// period of 62500 ticks (one match every second), a 16-bit compare
    /// register, and entries within 10 ticks woken at once.
    pub fn generic() -> (r: TimerService)
        ensures
            r@ == (TimerView {
                entries: Multiset::empty(),
                counter: 0,
                increment: GENERIC_TICKS_PER_SECOND,
                capacity: GENERIC_CAPACITY,
                max_arm: GENERIC_MAX_ARM,
                epsilon: GENERIC_EPSILON,
            }),
    {
        TimerService::new(GENERIC_CAPACITY, GENERIC_TICKS_PER_SECOND, GENERIC_MAX_ARM, GENERIC_EPSILON)
    }

    /// The sub-millisecond service: room for 8 pending delays, a compare
    /// period of 250 ticks (one match every millisecond), armed for at most
    /// 250 ticks, and entries within 5 ticks woken at once.
    pub fn precision() -> (r: TimerService)
        ensures
            r@ == (TimerView {
                entries: Multiset::empty(),
                counter: 0,
                increment: PRECISION_TICKS_PER_MILLI,
                capacity: PRECISION_CAPACITY,
                max_arm: PRECISION_MAX_ARM,
                epsilon: PRECISION_EPSILON,
            }),
    {
        TimerService::new(
            PRECISION_CAPACITY,
            PRECISION_TICKS_PER_MILLI,
            PRECISION_MAX_ARM,
            PRECISION_EPSILON,
        )
    }

    /// Adds the entry (`deadline`, `task`). Where it is the nearest pending
    /// deadline, a wakeup pass follows at once, and its result tells what to
    /// arm the compare register with; otherwise nothing is to be armed. A
    /// service already holding its capacity reports `Fault::TimerQueueFull`
    /// and stays as it was.
    pub fn register(&mut self, deadline: u64, task: usize, ready: &mut ReadyQueue) -> (r: Result<
        Option<u64>,
        Fault,
    >)
        ensures
            registered(old(self)@, old(ready)@, (deadline, task), final(self)@, final(ready)@, r),
    {
        proof {
            use_type_invariant(&*self);
        }
        let len = heap_len(&self.heap);
        if len >= self.capacity {
            return Err(Fault::TimerQueueFull);
        }
        let is_first = match heap_peek(&self.heap) {
            None => true,
            Some(e) => deadline < e.0,
        };
        proof {
            if self@.entries.len() > 0 {
                lemma_min_entry(self@.entries);
            }
        }
        let pushed = heap_push(&mut self.heap, (deadline, task));
        assert(pushed is Ok);
        if is_first {
            self.schedule(ready)
        } else {
            Ok(None)
        }
    }

    /// The compare-match interrupt: counts the ticks the register was armed
    /// for, then wakes what is due and tells what to arm next.
    pub fn on_compare_match(&mut self, ready: &mut ReadyQueue) -> (r: Result<Option<u64>, Fault>)
        ensures
            scheduled(advanced(old(self)@), old(ready)@, final(self)@, final(ready)@, r),
    {
        proof {
            use_type_invariant(&*self);
        }
        if self.counter > u64::MAX - self.increment {
            self.counter = u64::MAX;
        } else {
            self.counter = self.counter + self.increment;
        }
        self.schedule(ready)
    }

    /// One wakeup pass: wakes every due task, nearest deadline first, and
    /// returns the value to arm the compare register with, if any.
    fn schedule(&mut self, ready: &mut ReadyQueue) -> (r: Result<Option<u64>, Fault>)
        ensures
            scheduled(old(self)@, old(ready)@, final(self)@, final(ready)@, r),
    {
        proof {
            use_type_invariant(&*ready);
            ready.lemma_bounded();
        }
        let ghost v0 = self@;
        let ghost q0 = ready@;
        let ghost limit: int = v0.counter + v0.epsilon;
        let ghost mut woken: Seq<(u64, usize)> = Seq::empty();
        loop
            invariant
                v0 == old(self)@,
                q0 == old(ready)@,
                self@.counter == v0.counter,
                self@.increment == v0.increment,
                self@.capacity == v0.capacity,
                self@.max_arm == v0.max_arm,
                self@.epsilon == v0.epsilon,
                limit == v0.counter + v0.epsilon,
                due_entries(v0.entries, limit) == woken + due_entries(self@.entries, limit),
                not_due_entries(self@.entries, limit) == not_due_entries(v0.entries, limit),
                ready@ == q0 + tasks_of(woken),
                q0.len() <= READY_CAPACITY,
            decreases self@.entries.len(),
        {
            proof {
                use_type_invariant(&*ready);
                ready.lemma_bounded();
                use_type_invariant(&*self);
            }
            let ghost cur = self@.entries;
            match heap_peek(&self.heap) {
                None => {
                    proof {
                        assert(due_entries(cur, limit) == Seq::<(u64, usize)>::empty());
                        assert(not_due_entries(cur, limit) == cur);
                        assert(woken + Seq::<(u64, usize)>::empty() =~= woken);
                        assert(due_now(v0) == woken);
                        assert(left_pending(v0) == cur);
                        assert(schedule_arm(v0) is None);
                        assert(self@ == after_schedule(v0));
                        assert(tasks_of(woken).len() == woken.len());
                    }
                    return Ok(None);
                },
                Some(e) => {
                    proof {
                        lemma_min_entry(cur);
                    }
                    if e.0 <= self.counter || e.0 - self.counter <= self.epsilon {
                        let popped = heap_pop(&mut self.heap);
                        proof {
                            assert(due_entries(cur, limit) == seq![e] + due_entries(
                                cur.remove(e),
                                limit,
                            ));
                        }
                        match wake_task(ready, e.1) {
                            Ok(()) => {},
                            Err(f) => {
                                proof {
                                    assert(tasks_of(woken).len() == woken.len());
                                    assert(due_now(v0).len() == woken.len() + due_entries(
                                        cur,
                                        limit,
                                    ).len());
                                }
                                return Err(f);
                            },
                        }
                        proof {
                            assert(woken + due_entries(cur, limit) =~= woken.push(e)
                                + due_entries(cur.remove(e), limit));
                            assert(tasks_of(woken.push(e)) =~= tasks_of(woken).push(e.1));
                            assert(q0 + tasks_of(woken.push(e)) =~= (q0 + tasks_of(woken)).push(
                                e.1,
                            ));
                            woken = woken.push(e);
                        }
                    } else {
                        let d = e.0 - self.counter;
                        let arm = if d < self.max_arm {
                            d
                        } else {
                            self.max_arm
                        };
                        self.increment = arm;
                        proof {
                            assert(due_entries(cur, limit) == Seq::<(u64, usize)>::empty());
                            assert(woken + Seq::<(u64, usize)>::empty() =~= woken);
                            assert(not_due_entries(cur, limit) == cur);
                        }
                        return Ok(Some(arm));
                    }
                },
            }
        }
    }
}

/// Ticks of the second-scale service in one second.
pub const GENERIC_TICKS_PER_SECOND: u64 = 62500;

/// Pending delays the second-scale service makes room for.
pub const GENERIC_CAPACITY: usize = 4;

/// Reach of the second-scale service's 16-bit compare register.
pub const GENERIC_MAX_ARM: u64 = 65535;

/// Entries this close are woken at once by the second-scale service.
pub const GENERIC_EPSILON: u64 = 10;

/// Ticks of the sub-millisecond service in one millisecond.
pub const PRECISION_TICKS_PER_MILLI: u64 = 250;

/// Pending delays the sub-millisecond service makes room for.
pub const PRECISION_CAPACITY: usize = 8;

/// Most ticks the sub-millisecond service arms its compare register for.
pub const PRECISION_MAX_ARM: u64 = 250;

/// Entries this close are woken at once by the sub-millisecond service.
pub const PRECISION_EPSILON: u64 = 5;

/// Converts whole seconds to ticks of the second-scale service.
pub fn s_to_generic_ticks(s: u8) -> (r: u64)
    ensures
        r == 62500 * s,
{
    GENERIC_TICKS_PER_SECOND * s as u64
}

/// Converts microseconds to ticks of the sub-millisecond service (one tick
/// is 4 microseconds), rounding down; the product is formed in 32 bits so
/// that it cannot wrap.
pub fn us_to_p_ticks(us: u16) -> (r: u16)
    ensures
        r == us * 250 / 1000,
{
    ((250 * us as u32) / 1000) as u16
}

/// Whole seconds in a count of second-scale ticks.
pub fn generic_ticks_to_seconds(ticks: u64) -> (r: u64)
    ensures
        r == ticks / 62500,
{
    ticks / GENERIC_TICKS_PER_SECOND
}

/// Whole milliseconds in a count of sub-millisecond ticks.
pub fn precision_ticks_to_millis(ticks: u64) -> (r: u64)
    ensures
        r == ticks / 250,
{
    ticks / PRECISION_TICKS_PER_MILLI
}

/// Where a delay stands: not yet registered, or waiting for its deadline.
#[derive(Clone, Copy, Debug, PartialEq, Eq, Structural)]
pub enum TimerState {
    Init,
    Waiting,
}

/// The outcome of polling a delay.
#[derive(Clone, Copy, Debug, PartialEq, Eq, Structural)]
pub enum TimerPoll {
    /// The deadline has passed.
    Ready,
    /// Not yet; where a value is given, the compare register is to be armed
    /// with it.
    Pending(Option<u64>),
}

/// The deadline `ticks` after `now`, saturating at the counter's maximum.
pub open spec fn deadline_after(now: u64, ticks: u64) -> u64 {
    if now + ticks <= u64::MAX {
        (now + ticks) as u64
    } else {
        u64::MAX
    }
}

/// A deadline fixed `ticks` after `now` is never earlier than that: a delay
/// that polls ready once the counter reaches its deadline has waited its
/// full length, unless the deadline saturated at the counter's maximum.
pub proof fn lemma_deadline_not_early(now: u64, ticks: u64)
    ensures
        deadline_after(now, ticks) >= now,
        now + ticks <= u64::MAX ==> deadline_after(now, ticks) == now + ticks,
        now + ticks > u64::MAX ==> deadline_after(now, ticks) == u64::MAX,
{
}

/// The registration result carried by a poll outcome.
pub open spec fn poll_registration(r: Result<TimerPoll, Fault>) -> Result<Option<u64>, Fault> {
    match r {
        Ok(TimerPoll::Pending(a)) => Ok(a),
        Ok(TimerPoll::Ready) => Ok(None),
        Err(f) => Err(f),
    }
}

/// A first poll never finds the delay over.
pub open spec fn is_pending_poll(r: Result<TimerPoll, Fault>) -> bool {
    match r {
        Ok(TimerPoll::Ready) => false,
        _ => true,
    }
}

/// A delay of a number of ticks of one timer service.
#[derive(Clone, Copy, Debug, PartialEq, Eq, Structural)]
pub struct Delay {
    /// Length of the delay.
    pub ticks: u64,
    /// The absolute deadline, fixed at the first poll.
    pub end_ticks: u64,
    pub state: TimerState,
}

impl Delay {
    /// A delay of `ticks` ticks that has not started.
    pub fn new(ticks: u64) -> (r: Delay)
        ensures
            r.ticks == ticks,
            r.end_ticks == 0,
            r.state == TimerState::Init,
    {
        Delay { ticks, end_ticks: 0, state: TimerState::Init }
    }

    /// Polls the delay on behalf of task `task`. The first poll fixes the
    /// deadline from the service's counter, registers it and is pending;
    /// every later poll is ready exactly when the counter has reached the
    /// deadline, and touches nothing.
    pub fn poll(&mut self, service: &mut TimerService, task: usize, ready: &mut ReadyQueue) -> (r:
        Result<TimerPoll, Fault>)
        ensures
            final(self).ticks == old(self).ticks,
            old(self).state == TimerState::Init ==> final(self).end_ticks == deadline_after(
                old(service)@.counter,
                old(self).ticks,
            ) && final(self).state == TimerState::Waiting && is_pending_poll(r) && registered(
                old(service)@,
                old(ready)@,
                (final(self).end_ticks, task),
                final(service)@,
                final(ready)@,
                poll_registration(r),
            ),
            old(self).state == TimerState::Waiting ==> *final(self) == *old(self) && final(service)@
                == old(service)@ && final(ready)@ == old(ready)@ && r == Ok::<TimerPoll, Fault>(
                if old(service)@.counter >= old(self).end_ticks {
                    TimerPoll::Ready
                } else {
                    TimerPoll::Pending(None)
                },
            ),
    {
        match self.state {
            TimerState::Init => {
                let now = service.now();
                let deadline = if now > u64::MAX - self.ticks {
                    u64::MAX
                } else {
                    now + self.ticks
                };
                self.end_ticks = deadline;
                self.state = TimerState::Waiting;
                match service.register(deadline, task, ready) {
                    Ok(arm) => Ok(TimerPoll::Pending(arm)),
                    Err(f) => Err(f),
                }
            },
            TimerState::Waiting => {
                if service.now() >= self.end_ticks {
                    Ok(TimerPoll::Ready)
                } else {
                    Ok(TimerPoll::Pending(None))
                }
            },
        }
    }
}

/// A delay on the second-scale service.
pub struct GenericTimer {
    pub delay: Delay,
}

impl GenericTimer {
    /// A delay of `seconds` seconds.
    pub fn new(seconds: u8) -> (r: GenericTimer)
        ensures
            r.delay.ticks == 62500 * seconds,
            r.delay.state == TimerState::Init,
    {
        GenericTimer { delay: Delay::new(s_to_generic_ticks(seconds)) }
    }
}

/// A delay on the sub-millisecond service.
pub struct PrecisionTimer {
    pub delay: Delay,
}

impl PrecisionTimer {
    /// A delay of `microseconds` microseconds, rounded down to whole ticks.
    pub fn new(microseconds: u16) -> (r: PrecisionTimer)
        ensures
            r.delay.ticks == microseconds * 250 / 1000,
            r.delay.state == TimerState::Init,
    {
        PrecisionTimer { delay: Delay::new(us_to_p_ticks(microseconds) as u64) }
    }
}

} // verus!
