use vstd::prelude::*;

verus! {

/// Shared counters for admission control: how many workers exist, how many of
/// them are executing a job, and how many periodic dispatches have been
/// admitted but not yet picked up by a worker.
pub struct Capacity {
    total_workers: usize,
    in_flight: usize,
    reserved: usize,
}

impl Capacity {
    pub closed spec fn spec_total_workers(&self) -> nat {
        self.total_workers as nat
    }

    pub closed spec fn spec_in_flight(&self) -> nat {
        self.in_flight as nat
    }

    pub closed spec fn spec_reserved(&self) -> nat {
        self.reserved as nat
    }

    /// Room is left for one more admitted dispatch.
    pub open spec fn has_room(&self) -> bool {
        self.spec_in_flight() + self.spec_reserved() < self.spec_total_workers()
    }

    /// The same counters apart from the reservations.
    pub open spec fn same_workers(&self, other: &Capacity) -> bool {
        &&& self.spec_total_workers() == other.spec_total_workers()
        &&& self.spec_in_flight() == other.spec_in_flight()
    }

    pub fn new() -> (r: Self)
        ensures
            r.spec_total_workers() == 0,
            r.spec_in_flight() == 0,
            r.spec_reserved() == 0,
    {
        Self { total_workers: 0, in_flight: 0, reserved: 0 }
    }

    pub fn total_workers(&self) -> (r: usize)
        ensures
            r == self.spec_total_workers(),
    {
        self.total_workers
    }

    pub fn in_flight(&self) -> (r: usize)
        ensures
            r == self.spec_in_flight(),
    {
        self.in_flight
    }

    pub fn reserved(&self) -> (r: usize)
        ensures
            r == self.spec_reserved(),
    {
        self.reserved
    }

    /// A worker starts up and offers one more slot.
    pub fn register_worker(&mut self)
        requires
            old(self).spec_total_workers() < usize::MAX,
        ensures
            final(self).spec_total_workers() == old(self).spec_total_workers() + 1,
            final(self).spec_in_flight() == old(self).spec_in_flight(),
            final(self).spec_reserved() == old(self).spec_reserved(),
    {
        self.total_workers = self.total_workers + 1;
    }

    /// A worker stops and withdraws its slot.
    pub fn deregister_worker(&mut self)
        requires
            old(self).spec_total_workers() > 0,
        ensures
            final(self).spec_total_workers() == old(self).spec_total_workers() - 1,
            final(self).spec_in_flight() == old(self).spec_in_flight(),
            final(self).spec_reserved() == old(self).spec_reserved(),
    {
        self.total_workers = self.total_workers - 1;
    }

    /// Admits one dispatch when a slot is free, without ever blocking.
    pub fn try_reserve(&mut self) -> (r: bool)
        ensures
            r == old(self).has_room(),
            final(self).same_workers(old(self)),
            final(self).spec_reserved() == old(self).spec_reserved() + (if r { 1int } else { 0int }),
    {
        if self.reserved < self.total_workers && self.in_flight < self.total_workers - self.reserved {
            self.reserved = self.reserved + 1;
            true
        } else {
            false
        }
    }

    /// A worker starts an admitted dispatch: its reservation becomes a job in flight.
    pub fn claim(&mut self)
        requires
            old(self).spec_reserved() > 0,
            old(self).spec_in_flight() < usize::MAX,
        ensures
            final(self).spec_total_workers() == old(self).spec_total_workers(),
            final(self).spec_in_flight() == old(self).spec_in_flight() + 1,
            final(self).spec_reserved() == old(self).spec_reserved() - 1,
    {
        self.reserved = self.reserved - 1;
        self.in_flight = self.in_flight + 1;
    }

    /// A worker starts a one-shot job, which is not subject to admission.
    pub fn acquire(&mut self)
        requires
            old(self).spec_in_flight() < usize::MAX,
        ensures
            final(self).spec_total_workers() == old(self).spec_total_workers(),
            final(self).spec_in_flight() == old(self).spec_in_flight() + 1,
            final(self).spec_reserved() == old(self).spec_reserved(),
    {
        self.in_flight = self.in_flight + 1;
    }

    /// A worker has finished a job.
    pub fn release(&mut self)
        requires
            old(self).spec_in_flight() > 0,
        ensures
            final(self).spec_total_workers() == old(self).spec_total_workers(),
            final(self).spec_in_flight() == old(self).spec_in_flight() - 1,
            final(self).spec_reserved() == old(self).spec_reserved(),
    {
        self.in_flight = self.in_flight - 1;
    }

    /// Drops every reservation, for dispatches that were discarded unrun.
    pub fn clear_reservations(&mut self)
        ensures
            final(self).same_workers(old(self)),
            final(self).spec_reserved() == 0,
    {
        self.reserved = 0;
    }
}

} // verus!
