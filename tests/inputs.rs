use claw_machine::channel::Channel;
use claw_machine::executor::ReadyQueue;
use claw_machine::game::{button_ends_phase, GameState};
use claw_machine::joystick::{joystick_binding, JoystickDirection, JoystickSwitch};
use claw_machine::limit_switch::{LimitSwitch, LIMIT_SWITCHES, Y_LIMIT};
use claw_machine::notifier::{EdgeNotifier, PinSlot, Waiter};
use claw_machine::stepper::{Gantry, GantryAction, StepperDirection};

fn drain(q: &mut ReadyQueue) -> Vec<usize> {
    let mut out = Vec::new();
    while let Some(t) = q.dequeue() {
        out.push(t);
    }
    out
}

#[test]
fn wait_for_level_already_reached_is_over_at_once() {
    let mut n = EdgeNotifier::new(4);
    let before = n.slot(2);
    assert!(n.wait_for(2, true, true, 5));
    assert_eq!(n.slot(2), before);
    assert_eq!(n.slot(2), PinSlot { level: true, waiter: None });
}

#[test]
fn low_high_low_wakes_matching_waiters_only() {
    let mut n = EdgeNotifier::new(2);
    let mut q = ReadyQueue::new();
    assert!(!n.wait_for(0, false, true, 5));
    assert!(!n.wait_for(1, false, true, 8));
    // pin 0 goes low
    assert_eq!(n.on_pin_change(&vec![false, true], &mut q), Ok(()));
    assert_eq!(drain(&mut q), vec![5]);
    assert_eq!(n.slot(0), PinSlot { level: false, waiter: None });
    assert!(!n.wait_for(0, true, false, 6));
    // pin 0 goes high
    assert_eq!(n.on_pin_change(&vec![true, true], &mut q), Ok(()));
    assert_eq!(drain(&mut q), vec![6]);
    assert!(!n.wait_for(0, false, true, 7));
    // pin 0 goes low again
    assert_eq!(n.on_pin_change(&vec![false, true], &mut q), Ok(()));
    assert_eq!(drain(&mut q), vec![7]);
    // pin 1 never went low: its waiter stays
    assert_eq!(n.slot(1), PinSlot { level: true, waiter: Some(Waiter { task: 8, level: false }) });
}

#[test]
fn change_to_other_level_keeps_waiter() {
    let mut n = EdgeNotifier::new(1);
    let mut q = ReadyQueue::new();
    assert!(!n.wait_for(0, true, false, 3));
    assert_eq!(n.on_pin_change(&vec![false], &mut q), Ok(()));
    assert_eq!(drain(&mut q), Vec::<usize>::new());
    assert_eq!(n.on_pin_change(&vec![true], &mut q), Ok(()));
    assert_eq!(drain(&mut q), vec![3]);
}

#[test]
fn wakes_come_in_pin_order() {
    let mut n = EdgeNotifier::new(3);
    let mut q = ReadyQueue::new();
    assert!(!n.wait_for(2, false, true, 12));
    assert!(!n.wait_for(0, false, true, 10));
    assert_eq!(n.on_pin_change(&vec![false, false, false], &mut q), Ok(()));
    assert_eq!(drain(&mut q), vec![10, 12]);
    assert_eq!(n.pins(), 3);
}

#[test]
fn second_send_overwrites_first() {
    let mut c: Channel<StepperDirection> = Channel::new();
    assert_eq!(c.receive(), None);
    c.send(StepperDirection::ClockWise);
    c.send(StepperDirection::CounterClockWise);
    assert_eq!(c.receive(), Some(StepperDirection::CounterClockWise));
    assert_eq!(c.receive(), None);
}

#[test]
fn gantry_stops_at_its_limits() {
    let mut g = Gantry::new(2);
    assert_eq!(g.next_action(None), GantryAction::AwaitCommand);
    assert_eq!(g.next_action(Some(StepperDirection::CounterClockWise)), GantryAction::AwaitCommand);
    assert_eq!(g.direction, StepperDirection::Idle);
    assert_eq!(g.next_action(Some(StepperDirection::ClockWise)), GantryAction::Pulse(StepperDirection::ClockWise));
    assert_eq!(g.next_action(None), GantryAction::Pulse(StepperDirection::ClockWise));
    assert_eq!(g.steps, 2);
    assert_eq!(g.next_action(None), GantryAction::AwaitCommand);
    assert_eq!(g.direction, StepperDirection::Idle);
    assert_eq!(g.next_action(Some(StepperDirection::CounterClockWise)), GantryAction::Pulse(StepperDirection::CounterClockWise));
    assert_eq!(g.steps, 1);
    assert_eq!(g.next_action(Some(StepperDirection::Idle)), GantryAction::AwaitCommand);
    assert_eq!(g.steps, 1);
}

#[test]
fn joystick_bindings() {
    assert_eq!(joystick_binding(JoystickDirection::FORWARD), (0, StepperDirection::CounterClockWise));
    assert_eq!(joystick_binding(JoystickDirection::BACKWARD), (1, StepperDirection::ClockWise));
    assert_eq!(joystick_binding(JoystickDirection::LEFT), (2, StepperDirection::CounterClockWise));
    assert_eq!(joystick_binding(JoystickDirection::RIGHT), (3, StepperDirection::ClockWise));
}

#[test]
fn switches_wait_through_their_slot() {
    let mut joy = EdgeNotifier::new(4);
    let s = JoystickSwitch::new(JoystickDirection::LEFT, 2);
    assert_eq!(s.switch_index, 2);
    assert!(!s.wait_for(&mut joy, false, true, 1));
    assert_eq!(joy.slot(2).waiter, Some(Waiter { task: 1, level: false }));

    let mut limits = EdgeNotifier::new(LIMIT_SWITCHES);
    let l = LimitSwitch::new(Y_LIMIT);
    assert!(l.wait_for(&mut limits, true, true, 0));
    assert_eq!(limits.slot(Y_LIMIT).waiter, None);
    assert!(!l.wait_for(&mut limits, false, true, 0));
    assert_eq!(limits.slot(Y_LIMIT).waiter, Some(Waiter { task: 0, level: false }));
}

#[test]
fn game_phases_cycle() {
    assert_eq!(GameState::IDLE.next(), GameState::RUNNING);
    assert_eq!(GameState::RUNNING.next(), GameState::FINISHED);
    assert_eq!(GameState::FINISHED.next(), GameState::IDLE);
    assert!(button_ends_phase(true, false));
    assert!(button_ends_phase(false, true));
    assert!(!button_ends_phase(false, false));
}

#[test]
fn pending_wait_leaves_the_remembered_level() {
    let mut n = EdgeNotifier::new(2);
    assert!(!n.wait_for(1, true, false, 4));
    assert_eq!(n.slot(1), PinSlot { level: true, waiter: Some(Waiter { task: 4, level: true }) });
    assert_eq!(n.slot(0), PinSlot { level: true, waiter: None });
}
