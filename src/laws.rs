//! What holds of every reachable state of the pool, and of its operations
//! taken together.
use vstd::prelude::*;

use crate::counting::{lemma_count_mono, lemma_count_update};
use crate::state::{is_busy, is_live, AsyncState, Message, Phase};

verus! {

/// A periodic job never runs on two workers at once, and while one worker
/// runs it the scheduler does not find it due, however often it ticks.
pub proof fn lemma_periodic_job_exclusive<J>(s: AsyncState<J>, a: int, b: int, now: u64)
    requires
        s.wf(),
        0 <= a < s.workers().len(),
        0 <= b < s.workers().len(),
        a != b,
        s.workers()[a] is Periodic,
    ensures
        s.workers()[b] != s.workers()[a],
        !s.is_shut_down() ==> {
            let h = s.workers()[a].executes()->0;
            h < s.jobs().len() && !s.jobs()[h as int].is_due_at(now)
        },
        forall|i: int| 0 <= i < s.queue().len() ==> (#[trigger] s.queue()[i]).dispatches() != s.workers()[a].executes(),
{
    assert(s.workers()[a].executes() != s.workers()[b].executes());
    if !s.is_shut_down() {
        let h = s.workers()[a].executes()->0;
        assert(h < s.jobs().len() && s.jobs()[h as int].running);
    }
}

/// No dispatch is lost: a periodic job marked running is either waiting in
/// the queue or executing on a worker, so it is released again when that
/// run ends.
pub proof fn lemma_running_job_is_held<J>(s: AsyncState<J>, h: usize)
    requires
        s.wf(),
        h < s.jobs().len(),
        s.jobs()[h as int].running,
    ensures
        s.queued_for(h) || s.executing(h),
{
    assert(s.jobs()[h as int].running);
}

/// Admission bound: the number of workers executing a job, one-shot or
/// periodic, is the in-flight count, and never exceeds the number of workers.
pub proof fn lemma_admission_bound<J>(s: AsyncState<J>)
    requires
        s.wf(),
    ensures
        s.busy_count() == s.capacity().spec_in_flight(),
        s.capacity().spec_in_flight() <= s.capacity().spec_total_workers(),
        s.capacity().spec_total_workers() == s.live_count(),
{
    lemma_count_mono(s.workers(), |p: Phase| is_busy(p), |p: Phase| is_live(p));
}

/// One-shot jobs submitted one after the other before shutdown stand in the
/// queue in submission order behind what was queued already, so the worker
/// that takes from its head takes `a` before `b`.
pub proof fn lemma_submit_order<J>(s0: AsyncState<J>, s1: AsyncState<J>, s2: AsyncState<J>, a: J, b: J)
    requires
        !s0.is_shut_down(),
        AsyncState::submitted(s0, s1, a),
        AsyncState::submitted(s1, s2, b),
    ensures
        s2.queue() == s0.queue() + seq![Message::NewJob(a), Message::NewJob(b)],
        s2.queue()[s0.queue().len() as int] == Message::<J>::NewJob(a),
        s2.queue()[s0.queue().len() + 1int] == Message::<J>::NewJob(b),
{
    assert(s2.queue() =~= s0.queue() + seq![Message::NewJob(a), Message::NewJob(b)]);
}

/// After shutdown the queue holds only shutdown messages, one for each thread
/// still running, so no one-shot job that was still queued ever runs, and
/// every idle worker, and the scheduler while it runs, finds a shutdown
/// message at the head of the queue: it stops at its next step.
pub proof fn lemma_shutdown_drains<J>(s: AsyncState<J>)
    requires
        s.wf(),
        s.is_shut_down(),
    ensures
        s.jobs().len() == 0,
        s.queue().len() == s.pending_stops(),
        forall|i: int| 0 <= i < s.queue().len() ==> !(#[trigger] s.queue()[i] is NewJob),
        forall|w: int|
            0 <= w < s.workers().len() && #[trigger] s.workers()[w] == Phase::Idle ==> s.queue().len() > 0
                && s.queue()[0] is Shutdown,
        s.polling_alive() ==> s.queue().len() > 0 && s.queue()[0] is Shutdown,
{
    assert forall|w: int|
        0 <= w < s.workers().len() && #[trigger] s.workers()[w] == Phase::Idle implies s.queue().len() > 0
            && s.queue()[0] is Shutdown by {
        lemma_count_update(s.workers(), w, Phase::Stopped, |p: Phase| is_live(p));
    }
    assert forall|i: int| 0 <= i < s.queue().len() implies !(#[trigger] s.queue()[i] is NewJob) by {
        assert(s.queue()[i] is Shutdown);
    }
}

} // verus!
