//! Decisions of a gantry's motor loop: which way to step next, within the
//! travel limits, as commands arrive on its channel.

use vstd::prelude::*;

verus! {

/// Where a stepper motor is asked to go.
#[derive(Clone, Copy, Debug, PartialEq, Eq, Structural)]
pub enum StepperDirection {
    Idle,
    ClockWise,
    CounterClockWise,
}

/// Travel of the x gantry, in steps from its home position.
pub const MAX_X_STEPS: u32 = 800;

/// Travel of the y gantry, in steps from its home position.
pub const MAX_Y_STEPS: u32 = 800;

/// What a gantry's motor loop does next.
#[derive(Clone, Copy, Debug, PartialEq, Eq, Structural)]
pub enum GantryAction {
    /// Wait until a command arrives.
    AwaitCommand,
    /// Emit one step pulse in this direction, then decide again (a command
    /// that arrives meanwhile takes precedence).
    Pulse(StepperDirection),
}

/// Direction and position of one gantry.
#[derive(Clone, Copy, Debug, PartialEq, Eq, Structural)]
pub struct Gantry {
    pub direction: StepperDirection,
    /// Steps away from home; clockwise steps count up.
    pub steps: u32,
    pub max_steps: u32,
}

/// The gantry and action after deciding on `command`, the latest command
/// received if any: a command replaces the direction; clockwise steps are
/// taken while below the limit, counter-clockwise steps while above home,
/// and at either end the gantry falls idle.
pub open spec fn gantry_next(g: Gantry, command: Option<StepperDirection>) -> (Gantry, GantryAction) {
    let d = match command {
        Some(c) => c,
        None => g.direction,
    };
    match d {
        StepperDirection::ClockWise => if g.steps < g.max_steps {
            (
                Gantry { direction: d, steps: (g.steps + 1) as u32, ..g },
                GantryAction::Pulse(d),
            )
        } else {
            (Gantry { direction: StepperDirection::Idle, ..g }, GantryAction::AwaitCommand)
        },
        StepperDirection::CounterClockWise => if g.steps > 0 {
            (
                Gantry { direction: d, steps: (g.steps - 1) as u32, ..g },
                GantryAction::Pulse(d),
            )
        } else {
            (Gantry { direction: StepperDirection::Idle, ..g }, GantryAction::AwaitCommand)
        },
        StepperDirection::Idle => (
            Gantry { direction: StepperDirection::Idle, ..g },
            GantryAction::AwaitCommand,
        ),
    }
}

impl Gantry {
    /// A gantry at home, idle, with `max_steps` steps of travel.
    pub fn new(max_steps: u32) -> (r: Gantry)
        ensures
            r == (Gantry { direction: StepperDirection::Idle, steps: 0, max_steps }),
    {
        Gantry { direction: StepperDirection::Idle, steps: 0, max_steps }
    }

    /// Decides the next action on `command`, the command received since
    /// the last decision, if any. The position never leaves `0..=max_steps`.
    pub fn next_action(&mut self, command: Option<StepperDirection>) -> (r: GantryAction)
        ensures
            (*final(self), r) == gantry_next(*old(self), command),
            old(self).steps <= old(self).max_steps ==> final(self).steps <= final(self).max_steps,
    {
        let d = match command {
            Some(c) => c,
            None => self.direction,
        };
        match d {
            StepperDirection::ClockWise => {
                if self.steps < self.max_steps {
                    self.direction = d;
                    self.steps = self.steps + 1;
                    GantryAction::Pulse(d)
                } else {
                    self.direction = StepperDirection::Idle;
                    GantryAction::AwaitCommand
                }
            },
            StepperDirection::CounterClockWise => {
                if self.steps > 0 {
                    self.direction = d;
                    self.steps = self.steps - 1;
                    GantryAction::Pulse(d)
                } else {
                    self.direction = StepperDirection::Idle;
                    GantryAction::AwaitCommand
                }
            },
            StepperDirection::Idle => {
                self.direction = StepperDirection::Idle;
                GantryAction::AwaitCommand
            },
        }
    }
}

} // verus!
