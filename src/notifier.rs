//! Edge notifier for a group of digital inputs that share one pin-change
//! interrupt line.
//!
//! Each pin has a remembered level and at most one waiting task together
//! with the level it waits for. When the line fires, every pin whose level
//! differs from the remembered one is examined: a task that waits for the
//! new level is woken and its slot cleared. The remembered level is updated
//! for every pin. No timing is done here: debouncing is the waiting task's
//! business.

use vstd::prelude::*;
use crate::executor::{wake_task, Fault, ReadyQueue, READY_CAPACITY};

verus! {

/// A task waiting for a pin to reach a level.
#[derive(Clone, Copy, Debug, PartialEq, Eq, Structural)]
pub struct Waiter {
    pub task: usize,
    pub level: bool,
}

/// What the notifier knows of one pin.
#[derive(Clone, Copy, Debug, PartialEq, Eq)]
pub struct PinSlot {
    /// The level last observed (`true` is high).
    pub level: bool,
    /// The task waiting on this pin, if any.
    pub waiter: Option<Waiter>,
}

/// The change of `s`'s pin to level `now` wakes its waiting task.
pub open spec fn fires(s: PinSlot, now: bool) -> bool {
    s.level != now && s.waiter is Some && s.waiter->0.level == now
}

/// The slot once its pin has been observed at level `now`.
pub open spec fn observed(s: PinSlot, now: bool) -> PinSlot {
    PinSlot {
        level: now,
        waiter: if fires(s, now) {
            None
        } else {
            s.waiter
        },
    }
}

/// The tasks woken when the first `n` pins are observed at the levels
/// `now`, in pin order.
pub open spec fn edge_wakes(slots: Seq<PinSlot>, now: Seq<bool>, n: nat) -> Seq<usize>
    decreases n,
{
    if n == 0 {
        Seq::empty()
    } else {
        edge_wakes(slots, now, (n - 1) as nat) + if fires(slots[n - 1], now[n - 1]) {
            seq![slots[n - 1].waiter->0.task]
        } else {
            Seq::empty()
        }
    }
}

/// All slots once the pins have been observed at the levels `now`.
pub open spec fn all_observed(slots: Seq<PinSlot>, now: Seq<bool>) -> Seq<PinSlot> {
    Seq::new(slots.len(), |i: int| observed(slots[i], now[i]))
}

/// Fewer pins never wake more tasks.
proof fn lemma_edge_wakes_grow(slots: Seq<PinSlot>, now: Seq<bool>, m: nat, n: nat)
    requires
        m <= n,
    ensures
        edge_wakes(slots, now, m).len() <= edge_wakes(slots, now, n).len(),
    decreases n - m,
{
    if m < n {
        lemma_edge_wakes_grow(slots, now, m, (n - 1) as nat);
    }
}

/// Remembered levels and waiting tasks of a group of pins.
pub struct EdgeNotifier {
    slots: Vec<PinSlot>,
}

impl View for EdgeNotifier {
    type V = Seq<PinSlot>;

    closed spec fn view(&self) -> Seq<PinSlot> {
        self.slots@
    }
}

impl EdgeNotifier {
    /// A group of `pins` pins, all remembered high (the idle level of a
    /// pulled-up switch) and none waited on.
    pub fn new(pins: usize) -> (r: EdgeNotifier)
        ensures
            r@ == Seq::new(pins as nat, |i: int| PinSlot { level: true, waiter: None }),
    {
        let mut slots: Vec<PinSlot> = Vec::new();
        let mut i: usize = 0;
        while i < pins
            invariant
                i <= pins,
                slots@ == Seq::new(i as nat, |j: int| PinSlot { level: true, waiter: None }),
            decreases pins - i,
        {
            slots.push(PinSlot { level: true, waiter: None });
            i = i + 1;
            proof {
                assert(slots@ =~= Seq::new(i as nat, |j: int| PinSlot { level: true, waiter: None }));
            }
        }
        EdgeNotifier { slots }
    }

    /// The number of pins in the group.
    pub fn pins(&self) -> (r: usize)
        ensures
            r == self@.len(),
    {
        self.slots.len()
    }

    /// What the notifier knows of pin `pin`.
    pub fn slot(&self, pin: usize) -> (r: PinSlot)
        requires
            pin < self@.len(),
        ensures
            r == self@[pin as int],
    {
        self.slots[pin]
    }

    /// Polls a wait of task `task` for pin `pin` to be at `level`, the pin
    /// being at `current` now. Where it already is, the wait is over at once
    /// and nothing is recorded. Otherwise the task and the level it waits for
    /// are recorded in the pin's slot, in place of any earlier waiter; the
    /// remembered level is left to the pin-change interrupt.
    pub fn wait_for(&mut self, pin: usize, level: bool, current: bool, task: usize) -> (r: bool)
        requires
            pin < old(self)@.len(),
        ensures
            r == (current == level),
            r ==> final(self)@ == old(self)@,
            !r ==> final(self)@ == old(self)@.update(
                pin as int,
                PinSlot { level: old(self)@[pin as int].level, waiter: Some(Waiter { task, level }) },
            ),
    {
        if current == level {
            true
        } else {
            let remembered = self.slots[pin].level;
            self.slots[pin] = PinSlot { level: remembered, waiter: Some(Waiter { task, level }) };
            false
        }
    }

    /// The pin-change interrupt: observes every pin at the level `now`
    /// gives for it, wakes the tasks whose awaited level was reached by a
    /// change, in pin order, and remembers the new levels. A wake that does
    /// not fit in the ready queue is reported as `Fault::ReadyQueueFull`.
    pub fn on_pin_change(&mut self, now: &[bool], ready: &mut ReadyQueue) -> (r: Result<(), Fault>)
        requires
            now@.len() == old(self)@.len(),
        ensures
            r is Ok <==> old(ready)@.len() + edge_wakes(old(self)@, now@, old(self)@.len()).len()
                <= READY_CAPACITY,
            r is Ok ==> final(self)@ == all_observed(old(self)@, now@) && final(ready)@ == old(
                ready,
            )@ + edge_wakes(old(self)@, now@, old(self)@.len()),
            r is Err ==> r->Err_0 == Fault::ReadyQueueFull,
    {
        proof {
            use_type_invariant(&*ready);
            ready.lemma_bounded();
        }
        let ghost s0 = self@;
        let ghost q0 = ready@;
        let n = self.slots.len();
        let mut i: usize = 0;
        while i < n
            invariant
                n == s0.len(),
                now@.len() == n,
                i <= n,
                s0 == old(self)@,
                q0 == old(ready)@,
                q0.len() <= READY_CAPACITY,
                self@ == Seq::new(
                    n as nat,
                    |j: int|
                        if j < i {
                            observed(s0[j], now@[j])
                        } else {
                            s0[j]
                        },
                ),
                ready@ == q0 + edge_wakes(s0, now@, i as nat),
            decreases n - i,
        {
            proof {
                use_type_invariant(&*ready);
                ready.lemma_bounded();
            }
            let slot = self.slots[i];
            let level = now[i];
            let mut fired = false;
            if slot.level != level {
                match slot.waiter {
                    Some(w) => {
                        if w.level == level {
                            fired = true;
                            match wake_task(ready, w.task) {
                                Ok(()) => {},
                                Err(f) => {
                                    proof {
                                        lemma_edge_wakes_grow(s0, now@, (i + 1) as nat, n as nat);
                                    }
                                    return Err(f);
                                },
                            }
                        }
                    },
                    None => {},
                }
            }
            let waiter = if fired {
                None
            } else {
                slot.waiter
            };
            self.slots[i] = PinSlot { level, waiter };
            proof {
                assert(q0 + edge_wakes(s0, now@, (i + 1) as nat) =~= ready@);
            }
            i = i + 1;
            proof {
                assert(self@ =~= Seq::new(
                    n as nat,
                    |j: int|
                        if j < i {
                            observed(s0[j], now@[j])
                        } else {
                            s0[j]
                        },
                ));
            }
        }
        proof {
            assert(self@ =~= all_observed(s0, now@));
            use_type_invariant(&*ready);
            ready.lemma_bounded();
        }
        Ok(())
    }
}

/// Some pin among the first `n` changed to the level that `task` waited
/// for on it.
pub open spec fn reached_by_edge(slots: Seq<PinSlot>, now: Seq<bool>, n: nat, task: usize) -> bool {
    exists|i: int| 0 <= i < n && fires(slots[i], now[i]) && slots[i].waiter->0.task == task
}

/// One observation of the pins wakes exactly the tasks whose awaited level
/// their pin has just changed to: each woken task was waiting on a pin that
/// reached its level by a change, each such task is woken, and a task
/// waiting for a level that was not reached stays registered.
pub proof fn lemma_wakes_match_levels(slots: Seq<PinSlot>, now: Seq<bool>)
    requires
        now.len() == slots.len(),
    ensures
        forall|t: usize|
            #[trigger] edge_wakes(slots, now, slots.len()).contains(t) <==> reached_by_edge(
                slots,
                now,
                slots.len(),
                t,
            ),
        forall|i: int|
            0 <= i < slots.len() && #[trigger] fires(slots[i], now[i]) ==> (all_observed(
                slots,
                now,
            )[i].waiter is None),
        forall|i: int|
            0 <= i < slots.len() && slots[i].waiter is Some && slots[i].waiter->0.level != now[i]
                ==> (#[trigger] all_observed(slots, now)[i]).waiter == slots[i].waiter,
{
    lemma_wakes_prefix(slots, now, slots.len());
}

/// Which tasks the first `n` pins wake.
proof fn lemma_wakes_prefix(slots: Seq<PinSlot>, now: Seq<bool>, n: nat)
    requires
        n <= slots.len(),
        now.len() == slots.len(),
    ensures
        forall|t: usize|
            #[trigger] edge_wakes(slots, now, n).contains(t) <==> reached_by_edge(slots, now, n, t),
    decreases n,
{
    if n > 0 {
        lemma_wakes_prefix(slots, now, (n - 1) as nat);
        let prev = edge_wakes(slots, now, (n - 1) as nat);
        let cur = edge_wakes(slots, now, n);
        assert forall|t: usize| #[trigger] cur.contains(t) <==> reached_by_edge(slots, now, n, t) by {
            if cur.contains(t) {
                let k = choose|k: int| 0 <= k < cur.len() && cur[k] == t;
                if k < prev.len() {
                    assert(cur[k] == prev[k]);
                    assert(prev.contains(t));
                    let i = choose|i: int|
                        0 <= i < n - 1 && fires(slots[i], now[i]) && slots[i].waiter->0.task == t;
                    assert(reached_by_edge(slots, now, n, t));
                } else {
                    assert(fires(slots[n - 1], now[n - 1]));
                    assert(reached_by_edge(slots, now, n, t));
                }
            }
            if reached_by_edge(slots, now, n, t) {
                let i = choose|i: int|
                    0 <= i < n && fires(slots[i], now[i]) && slots[i].waiter->0.task == t;
                if i < n - 1 {
                    assert(reached_by_edge(slots, now, (n - 1) as nat, t));
                    assert(prev.contains(t));
                    let k = choose|k: int| 0 <= k < prev.len() && prev[k] == t;
                    assert(cur[k] == prev[k]);
                } else {
                    assert(cur[prev.len() as int] == t);
                }
            }
        }
    }
}

} // verus!
