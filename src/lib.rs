//! Concurrency core of a claw-machine controller: a cooperative executor's
//! ready queue, tick-based timer services, pin-change edge notifiers and a
//! single-slot channel, each stated over a mathematical model, together
//! with the decisions of the input and motor tasks built on them.

pub mod channel;
pub mod executor;
pub mod game;
pub mod joystick;
pub mod limit_switch;
pub mod notifier;
pub mod stepper;
pub mod timer;
