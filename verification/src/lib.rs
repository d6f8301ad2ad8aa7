//! A dead-man's switch engine: named timers that must be checked into before
//! their deadline, the stores that hold them, and the notifications that a
//! missed or an early check-in gives rise to.
//!
//! The library decides and keeps state; it does no input or output. The
//! process around it reads the clock, serves the requests, carries out what
//! the notifiers want done and writes what the stores want written.

pub mod checkin;
pub mod notifiers;
pub mod stores;
pub mod switch;
pub mod text;
pub mod time;
pub mod validate;

pub use crate::notifiers::{AggregateNotifier, Notifier};
pub use crate::stores::{Store, Stores};
pub use crate::switch::Switch;
