use std::sync::Arc;

use vstd::prelude::*;

use crate::event::Event;

verus! {

/// Listener `f` has been called with a shared pointer to `e`.
pub open spec fn heard<F: Fn(Arc<Event>)>(f: F, e: Event) -> bool {
    exists|a: Arc<Event>| *a == e && #[trigger] f.ensures((a,), ())
}

/// A publish/subscribe bus: every listener that is connected when an event is
/// broadcast receives it, in the order in which the listeners were connected.
pub struct Signal<F> {
    listeners: Vec<F>,
}

impl<F: Fn(Arc<Event>)> Signal<F> {
    /// The connected listeners, in connection order.
    pub closed spec fn listeners(&self) -> Seq<F> {
        self.listeners@
    }

    /// Every connected listener accepts any event.
    pub open spec fn wf(&self) -> bool {
        forall|i: int, e: Arc<Event>|
            0 <= i < self.listeners().len() ==> #[trigger] self.listeners()[i].requires((e,))
    }

    pub fn new() -> (r: Self)
        ensures
            r.listeners() == Seq::<F>::empty(),
            r.wf(),
    {
        Self { listeners: Vec::new() }
    }

    /// Delivers `e` once to each listener, in connection order.
    pub fn notify(&self, e: Event)
        requires
            self.wf(),
        ensures
            forall|i: int| 0 <= i < self.listeners().len() ==> heard(#[trigger] self.listeners()[i], e),
    {
        let ghost event = e;
        let e_ptr = Arc::new(e);
        let mut i: usize = 0;
        while i < self.listeners.len()
            invariant
                self.wf(),
                i <= self.listeners@.len(),
                *e_ptr == event,
                forall|k: int| 0 <= k < i ==> heard(#[trigger] self.listeners()[k], event),
            decreases self.listeners@.len() - i,
        {
            let f = &self.listeners[i];
            let arg = Arc::clone(&e_ptr);
            assert(self.listeners()[i as int].requires((arg,)));
            f(arg);
            assert(heard(self.listeners()[i as int], event));
            i = i + 1;
        }
    }

    /// Adds a listener; it receives only what is broadcast from now on.
    pub fn connect(&mut self, f: F)
        requires
            old(self).wf(),
            forall|e: Arc<Event>| #[trigger] f.requires((e,)),
        ensures
            final(self).listeners() == old(self).listeners().push(f),
            final(self).wf(),
    {
        self.listeners.push(f);
        assert forall|i: int, e: Arc<Event>|
            0 <= i < self.listeners().len() implies #[trigger] self.listeners()[i].requires((e,)) by {
            if i < old(self).listeners().len() {
                assert(old(self).listeners()[i].requires((e,)));
            } else {
                assert(f.requires((e,)));
            }
        }
    }
}

} // verus!
