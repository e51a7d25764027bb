use std::collections::VecDeque;

use vstd::prelude::*;

use crate::capacity::Capacity;
use crate::counting::{
    count_where, lemma_count_drop_first, lemma_count_le_len, lemma_count_none,
    lemma_count_push, lemma_count_update,
};
use crate::error::{Code, Error};
use crate::event::Event;
use crate::job::PollingJob;
use crate::scheduler::Tick;

verus! {

/// An element of the job queue.
pub enum Message<J> {
    /// Tells the one thread that takes it to stop.
    Shutdown,
    /// A one-shot job.
    NewJob(J),
    /// An admitted dispatch of the periodic job with this handle.
    NewPollingJob(usize),
}

impl<J> Message<J> {
    /// The periodic job that this message dispatches, if any.
    pub open spec fn dispatches(&self) -> Option<usize> {
        match *self {
            Message::NewPollingJob(h) => Some(h),
            _ => None,
        }
    }
}

/// What a worker thread is doing.
#[derive(Clone, Copy, Debug, PartialEq, Eq, Structural)]
pub enum Phase {
    Idle,
    OneShot,
    Periodic(usize),
    Stopped,
}

impl Phase {
    /// The periodic job that the worker executes, if any.
    pub open spec fn executes(&self) -> Option<usize> {
        match *self {
            Phase::Periodic(h) => Some(h),
            _ => None,
        }
    }
}

/// The worker executes a job.
pub open spec fn is_busy(p: Phase) -> bool {
    p == Phase::OneShot || p is Periodic
}

/// The worker has not stopped.
pub open spec fn is_live(p: Phase) -> bool {
    p != Phase::Stopped
}

/// The message dispatches a periodic job.
pub open spec fn is_dispatch<J>(m: Message<J>) -> bool {
    m is NewPollingJob
}

/// What a worker is to do next.
pub enum Task<J> {
    Run(J),
    RunPeriodic(usize),
    Stop,
}

/// The handles, in registry order, of the jobs among the first `n` that are
/// due at `now`.
pub open spec fn due_upto(jobs: Seq<PollingJob>, now: u64, n: int) -> Seq<usize>
    decreases n,
{
    if n <= 0 {
        Seq::empty()
    } else if jobs[n - 1].is_due_at(now) {
        due_upto(jobs, now, n - 1).push((n - 1) as usize)
    } else {
        due_upto(jobs, now, n - 1)
    }
}

/// The handles of all jobs due at `now`, in registry order.
pub open spec fn due_handles(jobs: Seq<PollingJob>, now: u64) -> Seq<usize> {
    due_upto(jobs, now, jobs.len() as int)
}

proof fn lemma_due_upto_len(jobs: Seq<PollingJob>, now: u64, n: int)
    requires
        0 <= n <= jobs.len(),
    ensures
        due_upto(jobs, now, n).len() <= n,
        forall|i: int| 0 <= i < due_upto(jobs, now, n).len() ==> #[trigger] due_upto(jobs, now, n)[i] < n,
    decreases n,
{
    if n > 0 {
        lemma_due_upto_len(jobs, now, n - 1);
    }
}

/// A running job keeps its holder when the queue and the workers only grow
/// and no job starts running.
proof fn lemma_holders_kept<J>(pre: AsyncState<J>, post: AsyncState<J>)
    requires
        pre.no_lost_dispatch(),
        forall|h: int|
            0 <= h < post.jobs().len() && (#[trigger] post.jobs()[h]).running ==> h < pre.jobs().len()
                && pre.jobs()[h].running,
        pre.queue().len() <= post.queue().len(),
        forall|i: int| 0 <= i < pre.queue().len() ==> #[trigger] post.queue()[i] == pre.queue()[i],
        pre.workers().len() <= post.workers().len(),
        forall|a: int| 0 <= a < pre.workers().len() ==> #[trigger] post.workers()[a] == pre.workers()[a],
    ensures
        post.no_lost_dispatch(),
{
    assert forall|h: int| 0 <= h < post.jobs().len() && (#[trigger] post.jobs()[h]).running implies post.queued_for(
        h as usize,
    ) || post.executing(h as usize) by {
        assert(pre.jobs()[h].running);
        if pre.queued_for(h as usize) {
            let i = choose|i: int| 0 <= i < pre.queue().len() && (#[trigger] pre.queue()[i]).dispatches() == Some(h as usize);
            assert(post.queue()[i] == pre.queue()[i]);
        } else {
            let a = choose|a: int| 0 <= a < pre.workers().len() && (#[trigger] pre.workers()[a]).executes() == Some(h as usize);
            assert(post.workers()[a] == pre.workers()[a]);
        }
    }
}

/// A running job keeps its holder when a worker takes the head of the queue
/// and, if that head dispatched a job, now executes it.
proof fn lemma_holders_after_take<J>(pre: AsyncState<J>, post: AsyncState<J>, w: int)
    requires
        pre.no_lost_dispatch(),
        pre.queue().len() > 0,
        0 <= w < pre.workers().len(),
        pre.workers()[w].executes() is None,
        post.queue() == pre.queue().drop_first(),
        post.workers().len() == pre.workers().len(),
        forall|a: int| 0 <= a < pre.workers().len() && a != w ==> #[trigger] post.workers()[a] == pre.workers()[a],
        pre.queue()[0].dispatches() is Some ==> post.workers()[w].executes() == pre.queue()[0].dispatches(),
        post.jobs().len() == pre.jobs().len(),
        forall|h: int| 0 <= h < pre.jobs().len() ==> (#[trigger] post.jobs()[h]).running == pre.jobs()[h].running,
    ensures
        post.no_lost_dispatch(),
{
    assert forall|h: int| 0 <= h < post.jobs().len() && (#[trigger] post.jobs()[h]).running implies post.queued_for(
        h as usize,
    ) || post.executing(h as usize) by {
        assert(pre.jobs()[h].running);
        if pre.queued_for(h as usize) {
            let i = choose|i: int| 0 <= i < pre.queue().len() && (#[trigger] pre.queue()[i]).dispatches() == Some(h as usize);
            if i == 0 {
                assert(post.workers()[w].executes() == Some(h as usize));
            } else {
                assert(post.queue()[i - 1] == pre.queue()[i]);
            }
        } else {
            let a = choose|a: int| 0 <= a < pre.workers().len() && (#[trigger] pre.workers()[a]).executes() == Some(h as usize);
            assert(post.workers()[a] == pre.workers()[a]);
        }
    }
}

/// A running job keeps its holder when worker `w` finishes, as long as the
/// job that `w` executed is no longer running.
proof fn lemma_holders_after_done<J>(pre: AsyncState<J>, post: AsyncState<J>, w: int)
    requires
        pre.no_lost_dispatch(),
        0 <= w < pre.workers().len(),
        post.queue() == pre.queue(),
        post.workers() == pre.workers().update(w, Phase::Idle),
        post.jobs().len() == pre.jobs().len(),
        forall|h: int|
            0 <= h < post.jobs().len() && (#[trigger] post.jobs()[h]).running ==> pre.jobs()[h].running
                && pre.workers()[w].executes() != Some(h as usize),
    ensures
        post.no_lost_dispatch(),
{
    assert forall|h: int| 0 <= h < post.jobs().len() && (#[trigger] post.jobs()[h]).running implies post.queued_for(
        h as usize,
    ) || post.executing(h as usize) by {
        assert(pre.jobs()[h].running);
        if pre.queued_for(h as usize) {
            let i = choose|i: int| 0 <= i < pre.queue().len() && (#[trigger] pre.queue()[i]).dispatches() == Some(h as usize);
            assert(post.queue()[i] == pre.queue()[i]);
        } else {
            let a = choose|a: int| 0 <= a < pre.workers().len() && (#[trigger] pre.workers()[a]).executes() == Some(h as usize);
            assert(a != w);
            assert(post.workers()[a] == pre.workers()[a]);
        }
    }
}

/// A running job keeps its holder when the scheduler queues a dispatch of
/// job `d`, which starts running.
proof fn lemma_holders_after_dispatch<J>(pre: AsyncState<J>, post: AsyncState<J>, d: usize)
    requires
        pre.no_lost_dispatch(),
        post.queue() == pre.queue().push(Message::NewPollingJob(d)),
        post.workers() == pre.workers(),
        post.jobs().len() == pre.jobs().len(),
        forall|h: int|
            0 <= h < post.jobs().len() && (#[trigger] post.jobs()[h]).running ==> pre.jobs()[h].running || h == d,
    ensures
        post.no_lost_dispatch(),
{
    assert forall|h: int| 0 <= h < post.jobs().len() && (#[trigger] post.jobs()[h]).running implies post.queued_for(
        h as usize,
    ) || post.executing(h as usize) by {
        let n = pre.queue().len() as int;
        if h == d {
            assert(post.queue()[n].dispatches() == Some(h as usize));
        } else if pre.queued_for(h as usize) {
            let i = choose|i: int| 0 <= i < pre.queue().len() && (#[trigger] pre.queue()[i]).dispatches() == Some(h as usize);
            assert(post.queue()[i] == pre.queue()[i]);
        } else {
            let a = choose|a: int| 0 <= a < pre.workers().len() && (#[trigger] pre.workers()[a]).executes() == Some(h as usize);
            assert(post.workers()[a] == pre.workers()[a]);
        }
    }
}

/// The state shared by the workers, the scheduler and the pool: the job
/// queue, the periodic job registry, the capacity counters, and what each
/// worker thread is doing.
pub struct AsyncState<J> {
    queue: VecDeque<Message<J>>,
    jobs: Vec<PollingJob>,
    capacity: Capacity,
    workers: Vec<Phase>,
    polling_attached: bool,
    polling_stopped: bool,
    shut_down: bool,
}

impl<J> AsyncState<J> {
    pub closed spec fn queue(&self) -> Seq<Message<J>> {
        self.queue@
    }

    pub closed spec fn jobs(&self) -> Seq<PollingJob> {
        self.jobs@
    }

    pub closed spec fn capacity(&self) -> Capacity {
        self.capacity
    }

    pub closed spec fn workers(&self) -> Seq<Phase> {
        self.workers@
    }

    pub closed spec fn polling_attached(&self) -> bool {
        self.polling_attached
    }

    pub closed spec fn polling_stopped(&self) -> bool {
        self.polling_stopped
    }

    pub closed spec fn is_shut_down(&self) -> bool {
        self.shut_down
    }

    /// The scheduler thread has been started and has not stopped.
    pub open spec fn polling_alive(&self) -> bool {
        self.polling_attached() && !self.polling_stopped()
    }

    /// Number of worker threads executing a job.
    pub open spec fn busy_count(&self) -> nat {
        count_where(self.workers(), |p: Phase| is_busy(p))
    }

    /// Number of worker threads that have not stopped.
    pub open spec fn live_count(&self) -> nat {
        count_where(self.workers(), |p: Phase| is_live(p))
    }

    /// Number of threads that still have to receive a shutdown message.
    pub open spec fn pending_stops(&self) -> nat {
        self.live_count() + if self.polling_alive() { 1nat } else { 0nat }
    }

    /// Number of admitted dispatches waiting in the queue.
    pub open spec fn queued_dispatches(&self) -> nat {
        count_where(self.queue(), |m: Message<J>| is_dispatch(m))
    }

    /// The counters agree with the workers and the queue.
    pub open spec fn counters_agree(&self) -> bool {
        &&& self.capacity().spec_in_flight() == self.busy_count()
        &&& self.capacity().spec_total_workers() == self.live_count()
        &&& self.capacity().spec_reserved() == self.queued_dispatches()
    }

    /// Each periodic job is held by at most one queued message or executing
    /// worker, and a held job is marked running.
    pub open spec fn single_holder(&self) -> bool {
        let q = self.queue();
        let w = self.workers();
        &&& forall|i: int, j: int|
            0 <= i < q.len() && 0 <= j < q.len() && i != j && (#[trigger] q[i]).dispatches() is Some
                ==> q[i].dispatches() != (#[trigger] q[j]).dispatches()
        &&& forall|a: int, b: int|
            0 <= a < w.len() && 0 <= b < w.len() && a != b && (#[trigger] w[a]).executes() is Some
                ==> w[a].executes() != (#[trigger] w[b]).executes()
        &&& forall|a: int, i: int|
            0 <= a < w.len() && 0 <= i < q.len() && (#[trigger] w[a]).executes() is Some
                ==> w[a].executes() != (#[trigger] q[i]).dispatches()
        &&& forall|i: int|
            0 <= i < q.len() && (#[trigger] q[i]).dispatches() is Some ==> {
                let h = q[i].dispatches()->0;
                h < self.jobs().len() && self.jobs()[h as int].running
            }
        &&& forall|a: int|
            0 <= a < w.len() && (#[trigger] w[a]).executes() is Some ==> {
                let h = w[a].executes()->0;
                self.is_shut_down() || (h < self.jobs().len() && self.jobs()[h as int].running)
            }
    }

    /// Before shutdown no shutdown message is queued; after it the queue holds
    /// exactly one for each thread that has yet to stop, and nothing else.
    pub open spec fn shutdown_consistent(&self) -> bool {
        &&& self.polling_stopped() ==> self.polling_attached()
        &&& !self.is_shut_down() ==> forall|i: int|
            0 <= i < self.queue().len() ==> !(#[trigger] self.queue()[i] is Shutdown)
        &&& self.is_shut_down() ==> {
            &&& self.jobs().len() == 0
            &&& self.queue().len() == self.pending_stops()
            &&& forall|i: int| 0 <= i < self.queue().len() ==> #[trigger] self.queue()[i] is Shutdown
        }
        &&& !self.is_shut_down() ==> !self.polling_stopped()
    }

    /// Some queued message dispatches the periodic job `h`.
    pub open spec fn queued_for(&self, h: usize) -> bool {
        exists|i: int| 0 <= i < self.queue().len() && (#[trigger] self.queue()[i]).dispatches() == Some(h)
    }

    /// Some worker executes the periodic job `h`.
    pub open spec fn executing(&self, h: usize) -> bool {
        exists|a: int| 0 <= a < self.workers().len() && (#[trigger] self.workers()[a]).executes() == Some(h)
    }

    /// A job marked running is queued or executing: no dispatch is lost.
    pub open spec fn no_lost_dispatch(&self) -> bool {
        forall|h: int|
            0 <= h < self.jobs().len() && (#[trigger] self.jobs()[h]).running ==> self.queued_for(h as usize)
                || self.executing(h as usize)
    }

    pub open spec fn wf(&self) -> bool {
        &&& self.counters_agree()
        &&& self.single_holder()
        &&& self.shutdown_consistent()
        &&& self.no_lost_dispatch()
    }

    pub fn new() -> (r: Self)
        ensures
            r.wf(),
            r.queue().len() == 0,
            r.jobs().len() == 0,
            r.workers().len() == 0,
            !r.polling_attached(),
            !r.is_shut_down(),
    {
        let r = Self {
            queue: VecDeque::new(),
            jobs: Vec::new(),
            capacity: Capacity::new(),
            workers: Vec::new(),
            polling_attached: false,
            polling_stopped: false,
            shut_down: false,
        };
        proof {
            assert(r.busy_count() == 0);
            assert(r.live_count() == 0);
            assert(r.queued_dispatches() == 0);
        }
        r
    }

    /// Everything but the queue is as in `pre`.
    pub open spec fn same_but_queue(&self, pre: &Self) -> bool {
        &&& self.jobs() == pre.jobs()
        &&& self.workers() == pre.workers()
        &&& self.capacity() == pre.capacity()
        &&& self.polling_attached() == pre.polling_attached()
        &&& self.polling_stopped() == pre.polling_stopped()
        &&& self.is_shut_down() == pre.is_shut_down()
    }

    /// `post` is `pre` after `job` was submitted.
    pub open spec fn submitted(pre: Self, post: Self, job: J) -> bool {
        &&& post.same_but_queue(&pre)
        &&& post.queue() == if pre.is_shut_down() {
            pre.queue()
        } else {
            pre.queue().push(Message::NewJob(job))
        }
    }

    /// A worker thread joins the pool; it starts idle and is known by the
    /// returned index.
    pub fn register_worker(&mut self) -> (id: usize)
        requires
            old(self).wf(),
            !old(self).is_shut_down(),
            old(self).workers().len() < usize::MAX,
        ensures
            final(self).wf(),
            id == old(self).workers().len(),
            final(self).workers() == old(self).workers().push(Phase::Idle),
            final(self).capacity().spec_total_workers() == old(self).capacity().spec_total_workers() + 1,
            final(self).capacity().spec_in_flight() == old(self).capacity().spec_in_flight(),
            final(self).capacity().spec_reserved() == old(self).capacity().spec_reserved(),
            final(self).queue() == old(self).queue(),
            final(self).jobs() == old(self).jobs(),
            final(self).polling_attached() == old(self).polling_attached(),
            final(self).polling_stopped() == old(self).polling_stopped(),
            !final(self).is_shut_down(),
    {
        proof {
            lemma_count_le_len(self.workers@, |p: Phase| is_live(p));
            lemma_count_push(self.workers@, Phase::Idle, |p: Phase| is_live(p));
            lemma_count_push(self.workers@, Phase::Idle, |p: Phase| is_busy(p));
        }
        let id = self.workers.len();
        self.workers.push(Phase::Idle);
        self.capacity.register_worker();
        proof {
            let w = self.workers@;
            assert(w[id as int] == Phase::Idle);
            assert forall|a: int| 0 <= a < id implies #[trigger] w[a] == old(self).workers@[a] by {}
            lemma_holders_kept(*old(self), *self);
        }
        id
    }

    /// Queues a one-shot job.  After shutdown the job is dropped unrun.
    pub fn submit(&mut self, job: J)
        requires
            old(self).wf(),
        ensures
            final(self).wf(),
            Self::submitted(*old(self), *final(self), job),
    {
        if !self.shut_down {
            proof {
                lemma_count_push(self.queue@, Message::NewJob(job), |m: Message<J>| is_dispatch(m));
            }
            self.queue.push_back(Message::NewJob(job));
            proof {
                let q = self.queue@;
                let n = old(self).queue@.len() as int;
                assert(q[n] == Message::<J>::NewJob(job));
                assert forall|i: int| 0 <= i < n implies #[trigger] q[i] == old(self).queue@[i] by {}
                lemma_holders_kept(*old(self), *self);
            }
        }
    }

    /// Marks the scheduler thread as started.  True exactly on the first call
    /// before shutdown: the caller then starts the thread.
    pub fn start_polling(&mut self) -> (r: bool)
        requires
            old(self).wf(),
        ensures
            final(self).wf(),
            r == (!old(self).polling_attached() && !old(self).is_shut_down()),
            final(self).polling_attached() == (old(self).polling_attached() || r),
            final(self).queue() == old(self).queue(),
            final(self).jobs() == old(self).jobs(),
            final(self).workers() == old(self).workers(),
            final(self).capacity() == old(self).capacity(),
            final(self).polling_stopped() == old(self).polling_stopped(),
            final(self).is_shut_down() == old(self).is_shut_down(),
    {
        if !self.polling_attached && !self.shut_down {
            self.polling_attached = true;
            proof {
                lemma_holders_kept(*old(self), *self);
            }
            true
        } else {
            false
        }
    }

    /// Registers a periodic job that becomes due `timeout` after `now`, and
    /// returns its handle.  A zero timeout is refused, as is any job after
    /// shutdown.
    pub fn attach_job(&mut self, timeout: u64, now: u64) -> (r: Result<usize, Error>)
        requires
            old(self).wf(),
        ensures
            final(self).wf(),
            r is Ok <==> (!old(self).is_shut_down() && timeout > 0),
            r is Ok ==> {
                &&& r->Ok_0 == old(self).jobs().len()
                &&& final(self).jobs() == old(self).jobs().push(
                    PollingJob { timeout, last_t: now, waiting: true, running: false },
                )
            },
            r is Err ==> {
                &&& final(self).jobs() == old(self).jobs()
                &&& r->Err_0.spec_code() == if old(self).is_shut_down() {
                    Code::PoolShutDown
                } else {
                    Code::ConfigurationInvalid
                }
            },
            final(self).queue() == old(self).queue(),
            final(self).workers() == old(self).workers(),
            final(self).capacity() == old(self).capacity(),
            final(self).polling_attached() == old(self).polling_attached(),
            final(self).polling_stopped() == old(self).polling_stopped(),
            final(self).is_shut_down() == old(self).is_shut_down(),
    {
        if self.shut_down {
            return Err(Error::new(Code::PoolShutDown, "the pool has been shut down".to_string()));
        }
        if timeout == 0 {
            return Err(
                Error::new(Code::ConfigurationInvalid, "a periodic job needs a timeout above zero".to_string()),
            );
        }
        let h = self.jobs.len();
        self.jobs.push(PollingJob::new(true, timeout, now));
        proof {
            assert forall|k: int| 0 <= k < h implies #[trigger] self.jobs@[k] == old(self).jobs@[k] by {}
            lemma_holders_kept(*old(self), *self);
        }
        Ok(h)
    }

    /// Worker `w`, idle, takes the head of the queue, if there is one, and
    /// learns what to do.  A dispatched periodic job is stamped as started at
    /// `now`.
    pub fn worker_next(&mut self, w: usize, now: u64) -> (r: Option<Task<J>>)
        requires
            old(self).wf(),
            w < old(self).workers().len(),
            old(self).workers()[w as int] == Phase::Idle,
        ensures
            final(self).wf(),
            final(self).polling_attached() == old(self).polling_attached(),
            final(self).polling_stopped() == old(self).polling_stopped(),
            final(self).is_shut_down() == old(self).is_shut_down(),
            final(self).capacity().spec_reserved() + (if r matches Some(Task::RunPeriodic(_)) { 1int } else { 0int })
                == old(self).capacity().spec_reserved(),
            old(self).queue().len() == 0 ==> r is None && *final(self) == *old(self),
            old(self).queue().len() > 0 ==> {
                &&& final(self).queue() == old(self).queue().drop_first()
                &&& match old(self).queue()[0] {
                    Message::Shutdown => {
                        &&& r == Some(Task::<J>::Stop)
                        &&& final(self).workers() == old(self).workers().update(w as int, Phase::Stopped)
                        &&& final(self).jobs() == old(self).jobs()
                        &&& final(self).capacity().spec_total_workers() + 1
                            == old(self).capacity().spec_total_workers()
                        &&& final(self).capacity().spec_in_flight() == old(self).capacity().spec_in_flight()
                    },
                    Message::NewJob(j) => {
                        &&& r == Some(Task::Run(j))
                        &&& final(self).workers() == old(self).workers().update(w as int, Phase::OneShot)
                        &&& final(self).jobs() == old(self).jobs()
                        &&& final(self).capacity().spec_total_workers()
                            == old(self).capacity().spec_total_workers()
                        &&& final(self).capacity().spec_in_flight() == old(self).capacity().spec_in_flight() + 1
                    },
                    Message::NewPollingJob(h) => {
                        &&& r == Some(Task::<J>::RunPeriodic(h))
                        &&& final(self).workers() == old(self).workers().update(w as int, Phase::Periodic(h))
                        &&& h < old(self).jobs().len()
                        &&& final(self).jobs() == old(self).jobs().update(
                            h as int,
                            PollingJob { last_t: now, ..old(self).jobs()[h as int] },
                        )
                        &&& final(self).capacity().spec_total_workers()
                            == old(self).capacity().spec_total_workers()
                        &&& final(self).capacity().spec_in_flight() == old(self).capacity().spec_in_flight() + 1
                    },
                }
            },
    {
        if self.queue.len() == 0 {
            return None;
        }
        // Busy workers are fewer than all workers, whose number fits in a usize.
        let worker_count = self.workers.len();
        proof {
            assert(self.workers@.len() == worker_count as int);
            lemma_count_drop_first(self.queue@, |m: Message<J>| is_dispatch(m));
            lemma_count_update(self.workers@, w as int, Phase::Stopped, |p: Phase| is_live(p));
            lemma_count_update(self.workers@, w as int, Phase::Stopped, |p: Phase| is_busy(p));
            lemma_count_update(self.workers@, w as int, Phase::OneShot, |p: Phase| is_live(p));
            lemma_count_update(self.workers@, w as int, Phase::OneShot, |p: Phase| is_busy(p));
            lemma_count_le_len(self.workers@.update(w as int, Phase::OneShot), |p: Phase| is_busy(p));
            assert(self.queue@[0] is Shutdown ==> self.shut_down);
        }
        let ghost q0 = self.queue@;
        let m = self.queue.pop_front();
        proof {
            assert forall|i: int| 0 <= i < self.queue@.len() implies #[trigger] self.queue@[i] == q0[i + 1] by {}
        }
        match m {
            Some(Message::Shutdown) => {
                self.workers.set(w, Phase::Stopped);
                self.capacity.deregister_worker();
                proof {
                    assert forall|i: int| 0 <= i < self.queue@.len() implies #[trigger] self.queue@[i] is Shutdown by {
                        assert(q0[i + 1] is Shutdown);
                    }
                    lemma_holders_after_take(*old(self), *self, w as int);
                }
                Some(Task::Stop)
            },
            Some(Message::NewJob(j)) => {
                self.workers.set(w, Phase::OneShot);
                self.capacity.acquire();
                proof {
                    lemma_holders_after_take(*old(self), *self, w as int);
                }
                Some(Task::Run(j))
            },
            Some(Message::NewPollingJob(h)) => {
                proof {
                    lemma_count_update(self.workers@, w as int, Phase::Periodic(h), |p: Phase| is_live(p));
                    lemma_count_update(self.workers@, w as int, Phase::Periodic(h), |p: Phase| is_busy(p));
                    lemma_count_le_len(self.workers@.update(w as int, Phase::Periodic(h)), |p: Phase| is_busy(p));
                    assert(q0[0].dispatches() == Some(h));
                }
                let cur = self.jobs[h];
                self.jobs.set(h, PollingJob { timeout: cur.timeout, last_t: now, waiting: cur.waiting, running: cur.running });
                self.workers.set(w, Phase::Periodic(h));
                self.capacity.claim();
                proof {
                    let wk = self.workers@;
                    let q = self.queue@;
                    assert forall|a: int, b: int|
                        0 <= a < wk.len() && 0 <= b < wk.len() && a != b && (#[trigger] wk[a]).executes() is Some
                        implies wk[a].executes() != (#[trigger] wk[b]).executes() by {
                        if a == w as int {
                            assert(old(self).workers@[b].executes() != q0[0].dispatches());
                        } else if b == w as int {
                            assert(old(self).workers@[a].executes() != q0[0].dispatches());
                        }
                    }
                    assert forall|a: int, i: int|
                        0 <= a < wk.len() && 0 <= i < q.len() && (#[trigger] wk[a]).executes() is Some
                        implies wk[a].executes() != (#[trigger] q[i]).dispatches() by {
                        assert(q[i] == q0[i + 1]);
                        if a == w as int {
                            if q0[i + 1].dispatches() is Some {
                                assert(q0[0].dispatches() != q0[i + 1].dispatches());
                            }
                        }
                    }
                    lemma_holders_after_take(*old(self), *self, w as int);
                }
                Some(Task::RunPeriodic(h))
            },
            None => None,
        }
    }

    /// Worker `w` has finished its job: it becomes idle, a periodic job may
    /// be dispatched again, and a reported error becomes an event.
    pub fn worker_done(&mut self, w: usize, outcome: Option<Error>) -> (r: Option<Event>)
        requires
            old(self).wf(),
            w < old(self).workers().len(),
            is_busy(old(self).workers()[w as int]),
        ensures
            final(self).wf(),
            final(self).workers() == old(self).workers().update(w as int, Phase::Idle),
            final(self).queue() == old(self).queue(),
            final(self).jobs() == match old(self).workers()[w as int] {
                Phase::Periodic(h) => if h < old(self).jobs().len() {
                    old(self).jobs().update(h as int, PollingJob { running: false, ..old(self).jobs()[h as int] })
                } else {
                    old(self).jobs()
                },
                _ => old(self).jobs(),
            },
            final(self).capacity().spec_total_workers() == old(self).capacity().spec_total_workers(),
            final(self).capacity().spec_in_flight() + 1 == old(self).capacity().spec_in_flight(),
            final(self).capacity().spec_reserved() == old(self).capacity().spec_reserved(),
            final(self).polling_attached() == old(self).polling_attached(),
            final(self).polling_stopped() == old(self).polling_stopped(),
            final(self).is_shut_down() == old(self).is_shut_down(),
            outcome is None ==> r is None,
            outcome is Some ==> r == Some(Event::Error(outcome->Some_0)),
    {
        proof {
            lemma_count_update(self.workers@, w as int, Phase::Idle, |p: Phase| is_live(p));
            lemma_count_update(self.workers@, w as int, Phase::Idle, |p: Phase| is_busy(p));
        }
        let p = self.workers[w];
        let ghost w0 = self.workers@;
        if let Phase::Periodic(h) = p {
            if h < self.jobs.len() {
                let cur = self.jobs[h];
                self.jobs.set(h, PollingJob { timeout: cur.timeout, last_t: cur.last_t, waiting: cur.waiting, running: false });
                proof {
                    let q = self.queue@;
                    assert forall|i: int| 0 <= i < q.len() && (#[trigger] q[i]).dispatches() is Some
                        implies q[i].dispatches()->0 != h by {
                        assert(w0[w as int].executes() != q[i].dispatches());
                    }
                    assert forall|a: int| 0 <= a < w0.len() && a != w && (#[trigger] w0[a]).executes() is Some
                        implies w0[a].executes()->0 != h by {
                        assert(w0[w as int].executes() != w0[a].executes());
                    }
                }
            }
        }
        self.workers.set(w, Phase::Idle);
        self.capacity.release();
        proof {
            lemma_holders_after_done(*old(self), *self, w as int);
        }
        match outcome {
            Some(e) => Some(Event::Error(e)),
            None => None,
        }
    }

    /// Number of messages in the queue.
    pub fn queue_len(&self) -> (r: usize)
        ensures
            r == self.queue().len(),
    {
        self.queue.len()
    }

    /// Number of periodic jobs in the registry.
    pub fn job_count(&self) -> (r: usize)
        ensures
            r == self.jobs().len(),
    {
        self.jobs.len()
    }

    /// The scheduling record of the periodic job `h`.
    pub fn job_at(&self, h: usize) -> (r: Option<PollingJob>)
        ensures
            h < self.jobs().len() ==> r == Some(self.jobs()[h as int]),
            h >= self.jobs().len() ==> r is None,
    {
        if h < self.jobs.len() {
            Some(self.jobs[h])
        } else {
            None
        }
    }

    /// What worker `w` is doing.
    pub fn phase(&self, w: usize) -> (r: Option<Phase>)
        ensures
            w < self.workers().len() ==> r == Some(self.workers()[w as int]),
            w >= self.workers().len() ==> r is None,
    {
        if w < self.workers.len() {
            Some(self.workers[w])
        } else {
            None
        }
    }

    /// The capacity counters.
    pub fn counters(&self) -> (r: &Capacity)
        ensures
            *r == self.capacity(),
    {
        &self.capacity
    }

    pub fn shut_down(&self) -> (r: bool)
        ensures
            r == self.is_shut_down(),
    {
        self.shut_down
    }

    /// How many more dispatches admission control lets through now.
    pub open spec fn admissible(&self) -> int {
        let free = self.capacity().spec_total_workers() as int - self.capacity().spec_in_flight() as int
            - self.capacity().spec_reserved() as int;
        if free > 0 {
            free
        } else {
            0
        }
    }

    /// Drops the periodic jobs and every queued message, then queues one
    /// shutdown message for each thread still running: each live worker and
    /// the scheduler, if it runs.  A second call changes nothing.
    pub fn shutdown(&mut self)
        requires
            old(self).wf(),
        ensures
            final(self).wf(),
            final(self).is_shut_down(),
            old(self).is_shut_down() ==> *final(self) == *old(self),
            !old(self).is_shut_down() ==> {
                &&& final(self).jobs().len() == 0
                &&& final(self).queue() == Seq::new(old(self).pending_stops(), |i: int| Message::<J>::Shutdown)
                &&& final(self).workers() == old(self).workers()
                &&& final(self).capacity().same_workers(&old(self).capacity())
                &&& final(self).capacity().spec_reserved() == 0
                &&& final(self).polling_attached() == old(self).polling_attached()
                &&& final(self).polling_stopped() == old(self).polling_stopped()
            },
    {
        if self.shut_down {
            return;
        }
        self.jobs.clear();
        self.queue.clear();
        self.capacity.clear_reservations();
        let n = self.capacity.total_workers();
        let mut i: usize = 0;
        while i < n
            invariant
                i <= n,
                n == old(self).live_count(),
                self.queue@ == Seq::new(i as nat, |k: int| Message::<J>::Shutdown),
                self.jobs@.len() == 0,
                self.workers@ == old(self).workers@,
                self.capacity.same_workers(&old(self).capacity),
                self.capacity.spec_reserved() == 0,
                self.polling_attached == old(self).polling_attached,
                self.polling_stopped == old(self).polling_stopped,
                !self.shut_down,
            decreases n - i,
        {
            self.queue.push_back(Message::Shutdown);
            i = i + 1;
            assert(self.queue@ =~= Seq::new(i as nat, |k: int| Message::<J>::Shutdown));
        }
        if self.polling_attached && !self.polling_stopped {
            self.queue.push_back(Message::Shutdown);
            assert(self.queue@ =~= Seq::new((n + 1) as nat, |k: int| Message::<J>::Shutdown));
        }
        self.shut_down = true;
        proof {
            assert(self.queue@ =~= Seq::new(old(self).pending_stops(), |i: int| Message::<J>::Shutdown));
            lemma_count_none(self.queue@, |m: Message<J>| is_dispatch(m));
        }
    }

    /// One scheduler tick at time `now`.  If the head of the queue is a
    /// shutdown message the scheduler takes it and is told to stop.
    /// Otherwise every due periodic job, in registry order, is admitted while
    /// a slot is free: it is marked running and a dispatch message is queued.
    /// Each due job that finds no free slot yields an `AdmissionExhausted`
    /// event instead and stays due for the next tick.
    pub fn poll(&mut self, now: u64) -> (r: Tick)
        requires
            old(self).wf(),
            old(self).polling_alive(),
        ensures
            final(self).wf(),
            r.stop == old(self).is_shut_down(),
            final(self).workers() == old(self).workers(),
            final(self).capacity().same_workers(&old(self).capacity()),
            final(self).polling_attached() == old(self).polling_attached(),
            final(self).is_shut_down() == old(self).is_shut_down(),
            r.stop ==> {
                &&& final(self).queue() == old(self).queue().drop_first()
                &&& final(self).polling_stopped()
                &&& final(self).jobs() == old(self).jobs()
                &&& final(self).capacity() == old(self).capacity()
                &&& r.dispatched@.len() == 0
                &&& r.events@.len() == 0
            },
            !r.stop ==> {
                let due = due_handles(old(self).jobs(), now);
                let n = r.dispatched@.len();
                &&& !final(self).polling_stopped()
                &&& n == if due.len() < old(self).admissible() { due.len() as int } else { old(self).admissible() }
                &&& r.dispatched@ == due.take(n as int)
                &&& r.events@.len() + n == due.len()
                &&& forall|i: int|
                    0 <= i < r.events@.len() ==> (#[trigger] r.events@[i]).is_error_with(Code::AdmissionExhausted)
                &&& final(self).queue() == old(self).queue() + r.dispatched@.map_values(
                    |h: usize| Message::<J>::NewPollingJob(h),
                )
                &&& final(self).jobs().len() == old(self).jobs().len()
                &&& forall|k: int|
                    0 <= k < old(self).jobs().len() ==> #[trigger] final(self).jobs()[k] == if r.dispatched@.contains(
                        k as usize,
                    ) {
                        PollingJob { running: true, ..old(self).jobs()[k] }
                    } else {
                        old(self).jobs()[k]
                    }
                &&& final(self).capacity().spec_reserved() == old(self).capacity().spec_reserved() + n
            },
    {
        if self.shut_down {
            proof {
                assert(self.queue@.len() > 0);
                lemma_count_drop_first(self.queue@, |m: Message<J>| is_dispatch(m));
                lemma_count_none(self.queue@, |m: Message<J>| is_dispatch(m));
            }
            let ghost q0 = self.queue@;
            let _ = self.queue.pop_front();
            self.polling_stopped = true;
            proof {
                assert forall|i: int| 0 <= i < self.queue@.len() implies #[trigger] self.queue@[i] is Shutdown by {
                    assert(self.queue@[i] == q0[i + 1]);
                }
            }
            return Tick { stop: true, dispatched: Vec::new(), events: Vec::new() };
        }
        let ghost jobs0 = self.jobs@;
        let ghost q0 = self.queue@;
        let ghost cap0 = self.capacity;
        let ghost room = old(self).admissible();
        let mut dispatched: Vec<usize> = Vec::new();
        let mut events: Vec<Event> = Vec::new();
        let mut h: usize = 0;
        while h < self.jobs.len()
            invariant
                self.wf(),
                !self.shut_down,
                self.polling_attached == old(self).polling_attached,
                !self.polling_stopped,
                self.workers@ == old(self).workers@,
                self.capacity.same_workers(&cap0),
                self.capacity.spec_reserved() == cap0.spec_reserved() + dispatched@.len(),
                room == old(self).admissible(),
                cap0 == old(self).capacity,
                jobs0 == old(self).jobs@,
                q0 == old(self).queue@,
                h <= self.jobs@.len(),
                self.jobs@.len() == jobs0.len(),
                forall|k: int| h <= k < jobs0.len() ==> #[trigger] self.jobs@[k] == jobs0[k],
                forall|k: int|
                    0 <= k < h ==> #[trigger] self.jobs@[k] == if dispatched@.contains(k as usize) {
                        PollingJob { running: true, ..jobs0[k] }
                    } else {
                        jobs0[k]
                    },
                forall|i: int| 0 <= i < dispatched@.len() ==> #[trigger] dispatched@[i] < h,
                dispatched@.len() == if due_upto(jobs0, now, h as int).len() < room {
                    due_upto(jobs0, now, h as int).len() as int
                } else {
                    room
                },
                dispatched@ == due_upto(jobs0, now, h as int).take(dispatched@.len() as int),
                events@.len() + dispatched@.len() == due_upto(jobs0, now, h as int).len(),
                forall|i: int| 0 <= i < events@.len() ==> (#[trigger] events@[i]).is_error_with(Code::AdmissionExhausted),
                self.queue@ == q0 + dispatched@.map_values(|x: usize| Message::<J>::NewPollingJob(x)),
            decreases self.jobs@.len() - h,
        {
            let ghost due_h = due_upto(jobs0, now, h as int);
            proof {
                lemma_due_upto_len(jobs0, now, h as int);
            }
            if self.jobs[h].is_due(now) {
                assert(due_upto(jobs0, now, h + 1) == due_h.push(h));
                if self.capacity.try_reserve() {
                    let ghost s0 = *self;
                    proof {
                        lemma_count_push(self.queue@, Message::NewPollingJob(h), |m: Message<J>| is_dispatch(m));
                    }
                    self.queue.push_back(Message::NewPollingJob(h));
                    let cur = self.jobs[h];
                    self.jobs.set(h, PollingJob { timeout: cur.timeout, last_t: cur.last_t, waiting: cur.waiting, running: true });
                    let ghost d0 = dispatched@;
                    dispatched.push(h);
                    proof {
                        lemma_holders_after_dispatch(s0, *self, h);
                        let q = self.queue@;
                        let nq = s0.queue@.len() as int;
                        assert(q[nq] == Message::<J>::NewPollingJob(h));
                        assert forall|i: int| 0 <= i < nq implies #[trigger] q[i] == s0.queue@[i] by {}
                        // No message or worker held the job, since it was not running.
                        assert forall|i: int| 0 <= i < nq && (#[trigger] q[i]).dispatches() is Some
                            implies q[i].dispatches()->0 != h by {
                            assert(s0.queue@[i].dispatches() is Some);
                        }
                        let wk = self.workers@;
                        assert forall|a: int| 0 <= a < wk.len() && (#[trigger] wk[a]).executes() is Some
                            implies wk[a].executes()->0 != h by {
                            assert(s0.workers@[a].executes() is Some);
                        }
                        assert(dispatched@ =~= due_upto(jobs0, now, h + 1).take(dispatched@.len() as int));
                        assert(self.queue@ =~= q0 + dispatched@.map_values(|x: usize| Message::<J>::NewPollingJob(x)));
                        assert forall|k: int| 0 <= k < h + 1 implies #[trigger] self.jobs@[k] == if dispatched@.contains(k as usize) {
                            PollingJob { running: true, ..jobs0[k] }
                        } else {
                            jobs0[k]
                        } by {
                            if k < h {
                                assert(dispatched@.contains(k as usize) == d0.contains(k as usize)) by {
                                    if d0.contains(k as usize) {
                                        let j = choose|j: int| 0 <= j < d0.len() && d0[j] == k as usize;
                                        assert(dispatched@[j] == k as usize);
                                    }
                                    if dispatched@.contains(k as usize) {
                                        let j = choose|j: int| 0 <= j < dispatched@.len() && dispatched@[j] == k as usize;
                                        assert(j < d0.len());
                                        assert(d0[j] == k as usize);
                                    }
                                }
                            } else {
                                assert(dispatched@[d0.len() as int] == h);
                            }
                        }
                    }
                } else {
                    events.push(Event::Error(Error::new(
                        Code::AdmissionExhausted,
                        "a periodic job is due but no worker is free to take it".to_string(),
                    )));
                    proof {
                        assert(dispatched@ =~= due_upto(jobs0, now, h + 1).take(dispatched@.len() as int));
                    }
                }
            } else {
                assert(due_upto(jobs0, now, h + 1) == due_h);
            }
            h = h + 1;
        }
        Tick { stop: false, dispatched, events }
    }
}

} // verus!
