use vstd::prelude::*;

verus! {

/// Scheduling record of a periodic job.  Times are readings of a monotonic
/// clock in a unit of the caller's choosing.
#[derive(Clone, Copy, Debug)]
pub struct PollingJob {
    /// How long after its last start the job becomes due again.
    pub timeout: u64,
    /// When a worker last started the job.
    pub last_t: u64,
    /// Whether the job may be dispatched at all.
    pub waiting: bool,
    /// Whether the job has been dispatched and not yet finished.
    pub running: bool,
}

impl PollingJob {
    /// Due: its timeout has strictly passed since its last start, it is not
    /// dispatched already, and it is armed.
    pub open spec fn is_due_at(&self, now: u64) -> bool {
        &&& now as int > self.last_t as int + self.timeout as int
        &&& !self.running
        &&& self.waiting
    }

    pub fn new(waiting: bool, timeout: u64, now: u64) -> (r: Self)
        ensures
            r.timeout == timeout,
            r.last_t == now,
            r.waiting == waiting,
            !r.running,
    {
        Self { timeout, last_t: now, waiting, running: false }
    }

    pub fn is_due(&self, now: u64) -> (r: bool)
        ensures
            r == self.is_due_at(now),
    {
        now > self.last_t && now - self.last_t > self.timeout && !self.running && self.waiting
    }
}

} // verus!
