use vstd::prelude::*;

use crate::error::{Code, Error};
use crate::event::Event;

verus! {

/// The outcome of one scheduler tick.
pub struct Tick {
    /// The scheduler found its shutdown message and is to stop.
    pub stop: bool,
    /// Handles of the periodic jobs dispatched, in registry order.
    pub dispatched: Vec<usize>,
    /// Events to broadcast before the next tick.
    pub events: Vec<Event>,
}

/// How long the scheduler sleeps after a tick that cost `cost` out of a budget
/// of `resolution`, and the anomaly to report when the tick overran its
/// budget.  An overrun is reported and the next tick starts at once.
pub fn plan_sleep(resolution: u64, cost: u64) -> (r: (u64, Option<Event>))
    ensures
        r.0 == if cost < resolution { resolution - cost } else { 0 },
        r.1 is Some <==> cost > resolution,
        r.1 is Some ==> r.1->Some_0.is_error_with(Code::TickBudgetExceeded),
{
    let overrun = if cost > resolution {
        Some(Event::Error(Error::new(
            Code::TickBudgetExceeded,
            "a scheduler tick took longer than the timer resolution".to_string(),
        )))
    } else {
        None
    };
    if cost < resolution {
        (resolution - cost, overrun)
    } else {
        (0, overrun)
    }
}

} // verus!
