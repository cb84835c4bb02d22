//! The queue of a blocking worker pool.
//!
//! Jobs are handed out in the order in which they came. A worker exits only
//! when the pool was shut down and nothing is queued, so that a submitted job is
//! never lost: a lost job would be a descriptor that never completes. A pool
//! without workers hands each job back, to be run by its submitter.

use crate::text::{chars_of, parse_usize, trim};
use std::collections::VecDeque;
use vstd::prelude::*;

verus! {

/// What a worker is to do.
pub enum WorkerStep<J> {
    /// Run this job, and ask again.
    Run(J),
    /// Exit: the pool was shut down and nothing is queued.
    Exit,
    /// Sleep until something is submitted or the pool is shut down, and ask again.
    Wait,
}

/// The state under the lock of a pool.
pub struct PoolState<J> {
    pub jobs: VecDeque<J>,
    pub shutdown: bool,
}

impl<J> PoolState<J> {
    /// A pool with nothing queued.
    pub fn new() -> (p: PoolState<J>)
        ensures
            p.jobs@ == Seq::<J>::empty(),
            !p.shutdown,
    {
        PoolState { jobs: VecDeque::new(), shutdown: false }
    }

    /// Shuts the pool down, for all workers to be woken.
    pub fn shut_down(&mut self)
        ensures
            final(self).jobs == old(self).jobs,
            final(self).shutdown,
    {
        self.shutdown = true;
    }

    /// What a worker does next: the queue is drained before a shutdown is looked
    /// at.
    pub fn worker_loop(&mut self) -> (step: WorkerStep<J>)
        ensures
            final(self).shutdown == old(self).shutdown,
            (step, final(self).jobs@) == asked(old(self).jobs@, old(self).shutdown),
    {
        match self.jobs.pop_front() {
            Some(job) => {
                assert(self.jobs@ =~= old(self).jobs@.drop_first());
                WorkerStep::Run(job)
            },
            None => if self.shutdown {
                WorkerStep::Exit
            } else {
                WorkerStep::Wait
            },
        }
    }
}

/// A pool of this many workers.
pub struct WorkerPool<J> {
    pub state: PoolState<J>,
    pub workers: usize,
}

impl<J> WorkerPool<J> {
    /// A pool of `workers` workers, with nothing queued. None is a valid number.
    pub fn new(workers: usize) -> (p: WorkerPool<J>)
        ensures
            p.workers == workers,
            p.state.jobs@ == Seq::<J>::empty(),
            !p.state.shutdown,
    {
        WorkerPool { state: PoolState::new(), workers }
    }

    /// Queues `job`, for one worker to be woken; without workers, hands it back to
    /// be run by the caller.
    pub fn submit(&mut self, job: J) -> (inline: Option<J>)
        ensures
            final(self).workers == old(self).workers,
            final(self).state.shutdown == old(self).state.shutdown,
            old(self).workers == 0 ==> inline == Some(job) && final(self).state.jobs@ == old(
                self,
            ).state.jobs@,
            old(self).workers > 0 ==> inline is None && final(self).state.jobs@ == old(
                self,
            ).state.jobs@.push(job),
    {
        if self.workers == 0 {
            Some(job)
        } else {
            self.state.jobs.push_back(job);
            None
        }
    }
}

/// What a worker that asks is to do, and what is queued then.
pub open spec fn asked<J>(jobs: Seq<J>, shutdown: bool) -> (WorkerStep<J>, Seq<J>) {
    if jobs.len() > 0 {
        (WorkerStep::Run(jobs[0]), jobs.drop_first())
    } else if shutdown {
        (WorkerStep::Exit, jobs)
    } else {
        (WorkerStep::Wait, jobs)
    }
}

/// How many workers to run, from the configured value:
/// - unset, or 0: none, requests run where they are popped;
/// - a number: that many;
/// - anything else: as many as there are processors, but at least 4 and at most
///   16.
pub open spec fn workers_of(val: Option<Seq<char>>, cpus: usize) -> usize {
    match val {
        None => 0,
        Some(s) => match crate::text::written_number(crate::text::trimmed(s)) {
            Some(n) if n <= usize::MAX => n as usize,
            _ => if cpus < 4 {
                4
            } else if cpus > 16 {
                16
            } else {
                cpus
            },
        },
    }
}

/// How many workers to run, from the configured value and the number of
/// processors.
pub fn parse_workers(val: Option<&str>, cpus: usize) -> (n: usize)
    ensures
        n == workers_of(
            match val {
                None => None,
                Some(s) => Some(s@),
            },
            cpus,
        ),
{
    match val {
        None => 0,
        Some(s) => {
            let chars = chars_of(s);
            let (from, to) = trim(&chars);
            match parse_usize(&chars, from, to) {
                Some(n) => n,
                None => if cpus < 4 {
                    4
                } else if cpus > 16 {
                    16
                } else {
                    cpus
                },
            }
        },
    }
}

/// The reply to a job that panicked is one of no bytes: a job never loses its
/// request.
pub fn contained(bytes: Option<u32>) -> (n: u32)
    ensures
        n == match bytes {
            Some(b) => b,
            None => 0,
        },
{
    match bytes {
        Some(b) => b,
        None => 0,
    }
}

// ---------------------------------------------------------------------------
// Runs
// ---------------------------------------------------------------------------

/// What happens to a pool with workers.
pub enum PoolEvent<J> {
    /// A job is submitted.
    Submit(J),
    /// A worker asks what to do.
    Ask,
    /// The pool is shut down.
    Shutdown,
}

/// A pool after some events: what was submitted, what was handed out, what is
/// queued, whether it was shut down, and the answer to the last worker that
/// asked.
pub struct PoolRun<J> {
    pub submitted: Seq<J>,
    pub handed: Seq<J>,
    pub queued: Seq<J>,
    pub shutdown: bool,
    pub exited: bool,
}

/// The pool after these events.
pub open spec fn pool_run<J>(events: Seq<PoolEvent<J>>) -> PoolRun<J>
    decreases events.len(),
{
    if events.len() == 0 {
        PoolRun {
            submitted: Seq::empty(),
            handed: Seq::empty(),
            queued: Seq::empty(),
            shutdown: false,
            exited: false,
        }
    } else {
        let p = pool_run(events.drop_last());
        match events.last() {
            PoolEvent::Submit(j) => PoolRun {
                submitted: p.submitted.push(j),
                queued: p.queued.push(j),
                exited: false,
                ..p
            },
            PoolEvent::Shutdown => PoolRun { shutdown: true, exited: false, ..p },
            PoolEvent::Ask => {
                let (step, queued) = asked(p.queued, p.shutdown);
                match step {
                    WorkerStep::Run(j) => PoolRun {
                        handed: p.handed.push(j),
                        queued,
                        exited: false,
                        ..p
                    },
                    WorkerStep::Exit => PoolRun { queued, exited: true, ..p },
                    WorkerStep::Wait => PoolRun { queued, exited: false, ..p },
                }
            },
        }
    }
}

/// No job is lost or reordered: what was handed out, followed by what is queued,
/// is what was submitted.
pub proof fn law_jobs_are_handed_out_in_order<J>(events: Seq<PoolEvent<J>>)
    ensures
        pool_run(events).handed + pool_run(events).queued == pool_run(events).submitted,
    decreases events.len(),
{
    let q = pool_run(events);
    if events.len() == 0 {
        assert(q.handed + q.queued =~= q.submitted);
    } else {
        law_jobs_are_handed_out_in_order(events.drop_last());
        let p = pool_run(events.drop_last());
        match events.last() {
            PoolEvent::Submit(j) => {
                assert(q.handed + q.queued =~= (p.handed + p.queued).push(j));
            },
            PoolEvent::Shutdown => {},
            PoolEvent::Ask => {
                assert(q.handed + q.queued =~= p.handed + p.queued);
            },
        }
    }
}

/// A worker exits only from a pool that was shut down, and only once every job
/// that was submitted has been handed out.
pub proof fn law_shutdown_drains_the_queue<J>(events: Seq<PoolEvent<J>>)
    requires
        pool_run(events).exited,
    ensures
        pool_run(events).shutdown,
        pool_run(events).handed == pool_run(events).submitted,
{
    law_jobs_are_handed_out_in_order(events);
    let q = pool_run(events);
    assert(q.handed + q.queued =~= q.handed);
}

// ---------------------------------------------------------------------------
// Calls
// ---------------------------------------------------------------------------

/// A worker that asks gets the job that came first, which leaves the queue, the others
/// in their order; with nothing queued it exits exactly if the pool was shut down.
pub proof fn law_worker_gets_the_oldest_job<J>(p: &mut PoolState<J>, step: WorkerStep<J>)
    requires
        call_ensures(PoolState::<J>::worker_loop, (p,), step),
    ensures
        final(p).shutdown == old(p).shutdown,
        old(p).jobs@.len() > 0 ==> step == WorkerStep::Run(old(p).jobs@[0]) && old(p).jobs@
            == seq![old(p).jobs@[0]] + final(p).jobs@,
        old(p).jobs@.len() == 0 ==> final(p).jobs@.len() == 0,
        old(p).jobs@.len() == 0 && old(p).shutdown ==> step is Exit,
        old(p).jobs@.len() == 0 && !old(p).shutdown ==> step is Wait,
{
    if p.jobs@.len() > 0 {
        assert(p.jobs@ =~= seq![p.jobs@[0]] + p.jobs@.drop_first());
    }
}

/// A job that is submitted to a pool with workers is the last to be handed out: it
/// stands behind all that are queued, and the first to ask gets the job that stands in
/// front. Without workers it comes back, and nothing is queued.
pub proof fn law_submitted_job_is_queued_behind_the_others<J>(
    p: &mut WorkerPool<J>,
    job: J,
    inline: Option<J>,
    q: &mut PoolState<J>,
    step: WorkerStep<J>,
)
    requires
        call_ensures(WorkerPool::<J>::submit, (p, job), inline),
        *q == final(p).state,
        call_ensures(PoolState::<J>::worker_loop, (q,), step),
    ensures
        final(p).workers == old(p).workers,
        old(p).workers == 0 ==> inline == Some(job) && final(p).state.jobs@ == old(p).state.jobs@,
        old(p).workers > 0 ==> {
            &&& inline is None
            &&& final(p).state.jobs@ == old(p).state.jobs@ + seq![job]
            &&& old(p).state.jobs@.len() == 0 ==> step == WorkerStep::Run(job)
            &&& old(p).state.jobs@.len() > 0 ==> step == WorkerStep::Run(old(p).state.jobs@[0])
        },
{
    if p.workers > 0 {
        assert(p.state.jobs@.push(job) =~= p.state.jobs@ + seq![job]);
    }
}

/// A pool starts with the workers that were asked for, with nothing queued, and runs
/// until it is shut down; that keeps what is queued.
pub proof fn law_pool_starts_empty<J>(
    n: usize,
    p: WorkerPool<J>,
    s: PoolState<J>,
    q: &mut PoolState<J>,
    u: (),
)
    requires
        call_ensures(WorkerPool::<J>::new, (n,), p),
        call_ensures(PoolState::<J>::new, (), s),
        call_ensures(PoolState::<J>::shut_down, (q,), u),
    ensures
        p.workers == n && p.state.jobs@.len() == 0 && !p.state.shutdown,
        s.jobs@.len() == 0 && !s.shutdown,
        final(q).shutdown && final(q).jobs@ == old(q).jobs@,
{
}

/// Without a setting there are no workers.
pub proof fn law_no_setting_is_no_workers(val: Option<&str>, cpus: usize, n: usize)
    requires
        call_ensures(parse_workers, (val, cpus), n),
        val is None,
    ensures
        n == 0,
{
}

/// A setting is read as a number, with white space around it or not; where it is none
/// that fits, there are as many workers as processors, but never under four or over
/// sixteen.
pub proof fn law_setting_is_the_number_of_workers(
    val: &str,
    cpus: usize,
    n: usize,
    chars: &Vec<char>,
    cut: (usize, usize),
    r: Option<usize>,
)
    requires
        call_ensures(parse_workers, (Some(val), cpus), n),
        chars@ == val@,
        call_ensures(crate::text::trim, (chars,), cut),
        call_ensures(crate::text::parse_usize, (chars, cut.0, cut.1), r),
    ensures
        r is Some ==> n == r->0,
        r is None ==> 4 <= n <= 16,
        r is None && 4 <= cpus <= 16 ==> n == cpus,
        r is None && cpus < 4 ==> n == 4,
        r is None && cpus > 16 ==> n == 16,
{
}

/// A job that ran is answered with the bytes that it wrote, and one that panicked with
/// none.
pub proof fn law_every_job_is_answered(bytes: Option<u32>, n: u32)
    requires
        call_ensures(contained, (bytes,), n),
    ensures
        bytes is Some ==> n == bytes->0,
        bytes is None ==> n == 0,
{
}

} // verus!
