//! The rules behind the commands on days, attempts, reviews and sessions.

pub mod attempts;
pub mod day_plans;
pub mod days;
pub mod intelligence;
pub mod time_planning;
