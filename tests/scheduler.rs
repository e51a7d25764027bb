use kool::error::Code;
use kool::event::Event;
use kool::scheduler::plan_sleep;
use kool::state::{AsyncState, Phase, Task};

fn error_code(e: &Event) -> Option<Code> {
    match e {
        Event::Error(err) => Some(err.code()),
        _ => None,
    }
}

fn pool(workers: usize) -> AsyncState<u32> {
    let mut s: AsyncState<u32> = AsyncState::new();
    for i in 0..workers {
        assert_eq!(s.register_worker(), i);
    }
    s
}

/// Runs the pool in simulated milliseconds from `0` to `end`: finished jobs
/// complete, the scheduler ticks, then idle workers take work.  Each periodic
/// job runs for `run_ms`.  Returns how often each job was dispatched.
fn simulate(s: &mut AsyncState<u32>, workers: usize, run_ms: u64, end: u64) -> Vec<usize> {
    let mut busy_until: Vec<Option<u64>> = vec![None; workers];
    let mut dispatches = vec![0usize; s.job_count()];
    for t in 0..=end {
        for w in 0..workers {
            if busy_until[w] == Some(t) {
                assert!(s.worker_done(w, None).is_none());
                busy_until[w] = None;
            }
        }
        let tick = s.poll(t);
        assert!(!tick.stop);
        for h in tick.dispatched.iter() {
            dispatches[*h] += 1;
        }
        for w in 0..workers {
            if busy_until[w].is_none() {
                if let Some(Task::RunPeriodic(h)) = s.worker_next(w, t) {
                    busy_until[w] = Some(t + run_ms);
                    for other in 0..workers {
                        if other != w {
                            assert_ne!(s.phase(other), Some(Phase::Periodic(h)));
                        }
                    }
                }
            }
        }
        let c = s.counters();
        assert!(c.in_flight() <= c.total_workers());
    }
    dispatches
}

#[test]
fn busy_periodic_job_is_not_dispatched_again() {
    let mut s = pool(2);
    assert!(s.start_polling());
    assert_eq!(s.attach_job(50, 0).unwrap(), 0);
    let dispatches = simulate(&mut s, 2, 200, 500);
    // Started at 51, 251 and 451: each run blocks re-dispatch until it ends,
    // where a dispatch every 50 ms would have made about ten.
    assert_eq!(dispatches, vec![3]);
}

#[test]
fn second_due_job_is_refused_then_retried() {
    let mut s = pool(1);
    assert!(s.start_polling());
    assert_eq!(s.attach_job(10, 0).unwrap(), 0);
    assert_eq!(s.attach_job(10, 0).unwrap(), 1);

    let tick = s.poll(10);
    assert!(tick.dispatched.is_empty());
    assert!(tick.events.is_empty());

    let tick = s.poll(11);
    assert_eq!(tick.dispatched, vec![0]);
    assert_eq!(tick.events.len(), 1);
    assert_eq!(error_code(&tick.events[0]), Some(Code::AdmissionExhausted));

    assert!(matches!(s.worker_next(0, 11), Some(Task::RunPeriodic(0))));
    let tick = s.poll(12);
    assert!(tick.dispatched.is_empty());
    assert_eq!(tick.events.len(), 1);

    assert!(s.worker_done(0, None).is_none());
    let tick = s.poll(13);
    assert_eq!(tick.dispatched, vec![1]);
    assert!(tick.events.is_empty());
    assert!(matches!(s.worker_next(0, 13), Some(Task::RunPeriodic(1))));
}

#[test]
fn one_shot_jobs_run_in_submission_order() {
    let mut s = pool(1);
    s.submit(1);
    s.submit(2);
    assert!(matches!(s.worker_next(0, 0), Some(Task::Run(1))));
    assert_eq!(s.counters().in_flight(), 1);
    assert!(s.worker_done(0, None).is_none());
    assert!(matches!(s.worker_next(0, 0), Some(Task::Run(2))));
    assert!(s.worker_done(0, None).is_none());
    assert!(s.worker_next(0, 0).is_none());
}

#[test]
fn shutdown_drops_pending_jobs_and_stops_every_thread() {
    let mut s = pool(2);
    assert!(s.start_polling());
    assert!(!s.start_polling());
    s.attach_job(5, 0).unwrap();
    s.submit(7);
    s.submit(8);
    s.shutdown();
    assert!(s.shut_down());
    assert_eq!(s.job_count(), 0);
    assert_eq!(s.queue_len(), 3);
    assert_eq!(s.counters().reserved(), 0);

    s.submit(9);
    assert_eq!(s.queue_len(), 3);
    let refused = s.attach_job(5, 0).unwrap_err();
    assert_eq!(refused.code(), Code::PoolShutDown);
    assert!(!s.start_polling());

    assert!(matches!(s.worker_next(0, 1), Some(Task::Stop)));
    let tick = s.poll(1);
    assert!(tick.stop);
    assert!(matches!(s.worker_next(1, 1), Some(Task::Stop)));
    assert_eq!(s.queue_len(), 0);
    assert_eq!(s.counters().total_workers(), 0);
    assert_eq!(s.phase(0), Some(Phase::Stopped));

    s.shutdown();
    assert_eq!(s.queue_len(), 0);
}

#[test]
fn shutdown_waits_for_busy_worker() {
    let mut s = pool(1);
    s.submit(1);
    assert!(matches!(s.worker_next(0, 0), Some(Task::Run(1))));
    s.shutdown();
    assert_eq!(s.queue_len(), 1);
    assert!(s.worker_done(0, None).is_none());
    assert!(matches!(s.worker_next(0, 0), Some(Task::Stop)));
}

#[test]
fn attach_refuses_zero_timeout() {
    let mut s = pool(1);
    let e = s.attach_job(0, 0).unwrap_err();
    assert_eq!(e.code(), Code::ConfigurationInvalid);
    assert_eq!(s.job_count(), 0);
}

#[test]
fn worker_stamps_start_and_clears_running() {
    let mut s = pool(1);
    assert!(s.start_polling());
    s.attach_job(3, 1).unwrap();
    assert!(s.poll(4).dispatched.is_empty());
    assert_eq!(s.poll(5).dispatched, vec![0]);
    let job = s.job_at(0).unwrap();
    assert!(job.running);
    assert_eq!(job.last_t, 1);
    assert_eq!(s.counters().reserved(), 1);
    assert!(matches!(s.worker_next(0, 6), Some(Task::RunPeriodic(0))));
    assert_eq!(s.job_at(0).unwrap().last_t, 6);
    assert_eq!(s.counters().reserved(), 0);
    assert_eq!(s.counters().in_flight(), 1);
    assert!(s.poll(100).dispatched.is_empty());
    let failure = kool::error::Error::new(Code::UnableToWrite, String::from("disk full"));
    let ev = s.worker_done(0, Some(failure)).unwrap();
    assert_eq!(error_code(&ev), Some(Code::UnableToWrite));
    assert!(!s.job_at(0).unwrap().running);
    assert_eq!(s.counters().in_flight(), 0);
    assert!(s.job_at(1).is_none());
}

#[test]
fn one_shot_jobs_bypass_admission() {
    let mut s = pool(1);
    assert!(s.start_polling());
    s.attach_job(1, 0).unwrap();
    assert_eq!(s.poll(2).dispatched, vec![0]);
    s.submit(5);
    assert!(matches!(s.worker_next(0, 2), Some(Task::RunPeriodic(0))));
    assert!(s.worker_done(0, None).is_none());
    assert!(matches!(s.worker_next(0, 2), Some(Task::Run(5))));
}

#[test]
fn tick_budget() {
    let (sleep, overrun) = plan_sleep(10, 3);
    assert_eq!(sleep, 7);
    assert!(overrun.is_none());
    let (sleep, overrun) = plan_sleep(10, 10);
    assert_eq!(sleep, 0);
    assert!(overrun.is_none());
    let (sleep, overrun) = plan_sleep(10, 12);
    assert_eq!(sleep, 0);
    assert_eq!(error_code(&overrun.unwrap()), Some(Code::TickBudgetExceeded));
}
