//! The mechanical limit switches of the three axes, on one pin-change line.

use vstd::prelude::*;
use crate::notifier::{EdgeNotifier, PinSlot, Waiter};

verus! {

/// Notifier slot of the x axis's limit switch.
pub const X_LIMIT: usize = 0;

/// Notifier slot of the y axis's limit switch.
pub const Y_LIMIT: usize = 1;

/// Notifier slot of the z axis's limit switch.
pub const Z_LIMIT: usize = 2;

/// Number of limit switches.
pub const LIMIT_SWITCHES: usize = 3;

/// One limit switch.
#[derive(Clone, Copy, Debug, PartialEq, Eq, Structural)]
pub struct LimitSwitch {
    pub switch_index: usize,
}

impl LimitSwitch {
    pub fn new(switch_index: usize) -> (r: LimitSwitch)
        ensures
            r.switch_index == switch_index,
    {
        LimitSwitch { switch_index }
    }

    /// Polls a wait of task `task` for this switch to be at `desired`, the
    /// switch reading `current` now: over at once where it already is,
    /// else recorded in the switch's notifier slot.
    pub fn wait_for(
        &self,
        notifier: &mut EdgeNotifier,
        desired: bool,
        current: bool,
        task: usize,
    ) -> (r: bool)
        requires
            self.switch_index < old(notifier)@.len(),
        ensures
            r == (current == desired),
            r ==> final(notifier)@ == old(notifier)@,
            !r ==> final(notifier)@ == old(notifier)@.update(
                self.switch_index as int,
                PinSlot {
                    level: old(notifier)@[self.switch_index as int].level,
                    waiter: Some(Waiter { task, level: desired }),
                },
            ),
    {
        notifier.wait_for(self.switch_index, desired, current, task)
    }
}

} // verus!
