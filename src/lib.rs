//! Reminder utility: a tree of tasks with completion percentages, and a
//! time-ordered alarm queue whose scheduler decides, poll by poll, when each
//! alarm is delivered.

pub mod alarm;
mod clock;
pub mod progress;
pub mod queue;
pub mod scheduler;
pub mod task;
