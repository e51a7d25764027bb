//! Core of a fan/PWM control daemon: a bounded worker pool with a polling
//! scheduler for periodic jobs, an event bus, and the curve and input-source
//! decisions of the control loop.  The threads, clocks and device files live
//! with the caller; every decision they act on is made here.
use vstd::prelude::*;

pub mod capacity;
pub mod control;
pub mod counting;
pub mod error;
pub mod event;
pub mod job;
pub mod laws;
pub mod scheduler;
pub mod signal;
pub mod source;
pub mod state;

verus! {

} // verus!
