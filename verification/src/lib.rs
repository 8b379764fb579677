//! A countdown-timer engine: a registry of independently addressable timers,
//! each of which can be created, started, paused, resumed, reset, and deleted.
//!
//! The registry (`timer::TimerState`) owns the timer records and serializes
//! all mutations; remaining time is always derived from an absolute deadline
//! (`clock::remaining_at`) rather than accumulated tick by tick, so long
//! countdowns stay accurate regardless of scheduling jitter. Time enters the
//! engine as an explicit monotonic reading in milliseconds, so every decision
//! the engine makes is a function of its state and that reading; the driver
//! that sleeps between ticks and delivers notifications lives outside.

pub mod clock;
pub mod timer;
