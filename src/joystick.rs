//! The joystick's four direction switches, on one pin-change line.

use vstd::prelude::*;
use crate::notifier::{EdgeNotifier, PinSlot, Waiter};
use crate::stepper::StepperDirection;

verus! {

/// A direction of the joystick.
#[allow(non_camel_case_types)]
#[derive(Clone, Copy, Debug, PartialEq, Eq, Structural)]
pub enum JoystickDirection {
    RIGHT,
    LEFT,
    FORWARD,
    BACKWARD,
}

/// Number of joystick switches.
pub const JOYSTICK_SWITCHES: usize = 4;

/// The notifier slot of a direction's switch and the way its gantry motor
/// turns while the switch is held: forward and backward drive the y
/// gantry, right and left the x gantry.
pub open spec fn binding_of(direction: JoystickDirection) -> (usize, StepperDirection) {
    match direction {
        JoystickDirection::FORWARD => (0, StepperDirection::CounterClockWise),
        JoystickDirection::BACKWARD => (1, StepperDirection::ClockWise),
        JoystickDirection::LEFT => (2, StepperDirection::CounterClockWise),
        JoystickDirection::RIGHT => (3, StepperDirection::ClockWise),
    }
}

/// The notifier slot and motor direction of a joystick direction.
pub fn joystick_binding(direction: JoystickDirection) -> (r: (usize, StepperDirection))
    ensures
        r == binding_of(direction),
        r.0 < JOYSTICK_SWITCHES,
{
    match direction {
        JoystickDirection::FORWARD => (0, StepperDirection::CounterClockWise),
        JoystickDirection::BACKWARD => (1, StepperDirection::ClockWise),
        JoystickDirection::LEFT => (2, StepperDirection::CounterClockWise),
        JoystickDirection::RIGHT => (3, StepperDirection::ClockWise),
    }
}

/// One switch of the joystick.
#[derive(Clone, Copy, Debug, PartialEq, Eq, Structural)]
pub struct JoystickSwitch {
    pub joystick_direction: JoystickDirection,
    pub switch_index: usize,
}

impl JoystickSwitch {
    pub fn new(joystick_direction: JoystickDirection, switch_index: usize) -> (r: JoystickSwitch)
        ensures
            r.joystick_direction == joystick_direction,
            r.switch_index == switch_index,
    {
        JoystickSwitch { joystick_direction, switch_index }
    }

    /// Polls a wait of task `task` for this switch to be at `desired`, the
    /// switch reading `current` now: over at once where it already is,
    /// else recorded in the switch's notifier slot.
    pub fn wait_for(
        &self,
        notifier: &mut EdgeNotifier,
        desired: bool,
        current: bool,
        task: usize,
    ) -> (r: bool)
        requires
            self.switch_index < old(notifier)@.len(),
        ensures
            r == (current == desired),
            r ==> final(notifier)@ == old(notifier)@,
            !r ==> final(notifier)@ == old(notifier)@.update(
                self.switch_index as int,
                PinSlot {
                    level: old(notifier)@[self.switch_index as int].level,
                    waiter: Some(Waiter { task, level: desired }),
                },
            ),
    {
        notifier.wait_for(self.switch_index, desired, current, task)
    }
}

} // verus!
