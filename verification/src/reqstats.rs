//! Where the time of a request goes: counters for the stages of the request
//! path.
//!
//! The stages are the drain that popped work (`pop`), the request itself on the
//! dispatcher (`inline`) or on a pool thread (`pool`), the hops there
//! (`pool_wait`) and back (`done_hop`), the completion on the queue (`complete`)
//! and the interrupt alone (`deliver`). Nothing is recorded, and the clock is not
//! read, unless the counters are enabled.

use crate::clock::{micros_since, millis_since, moment};
use std::time::Instant;
use vstd::prelude::*;

verus! {

/// Give a summary at most every this many completed requests ...
pub const STATS_EVERY: u64 = 4096;

/// ... or this often by the clock, so that a stalled run still reports.
pub const STATS_EVERY_MS: u64 = 500;

/// `a + b`, modulo 2^64.
pub open spec fn wrapped(a: u64, b: u64) -> u64 {
    if a + b > u64::MAX {
        (a + b - 0x1_0000_0000_0000_0000) as u64
    } else {
        (a + b) as u64
    }
}

/// The larger one.
pub open spec fn larger(a: u64, b: u64) -> u64 {
    if a < b {
        b
    } else {
        a
    }
}

/// One timed stage: total microseconds, samples, worst sample.
#[derive(Clone, Copy, Debug, PartialEq, Eq, Structural)]
pub struct StageStat {
    pub sum_us: u64,
    pub count: u64,
    pub max_us: u64,
}

impl StageStat {
    /// The stage after a sample of `us` microseconds.
    pub open spec fn recorded(self, us: u64) -> StageStat {
        StageStat {
            sum_us: wrapped(self.sum_us, us),
            count: wrapped(self.count, 1),
            max_us: larger(self.max_us, us),
        }
    }

    /// The mean sample; 0 without samples.
    pub open spec fn mean(self) -> u64 {
        if self.count == 0 {
            0
        } else {
            self.sum_us / self.count
        }
    }

    /// A stage that never ran.
    pub fn new() -> (s: StageStat)
        ensures
            s == (StageStat { sum_us: 0, count: 0, max_us: 0 }),
    {
        StageStat { sum_us: 0, count: 0, max_us: 0 }
    }

    /// Takes a sample of `us` microseconds.
    pub fn record_us(&mut self, us: u64)
        ensures
            *final(self) == old(self).recorded(us),
    {
        self.sum_us = self.sum_us.wrapping_add(us);
        self.count = self.count.wrapping_add(1);
        if self.max_us < us {
            self.max_us = us;
        }
    }

    /// How many samples were taken.
    pub fn count_now(&self) -> (n: u64)
        ensures
            n == self.count,
    {
        self.count
    }

    /// The mean sample, in microseconds; 0 without samples.
    pub fn mean_us(&self) -> (n: u64)
        ensures
            n == self.mean(),
    {
        if self.count == 0 {
            0
        } else {
            self.sum_us / self.count
        }
    }

    /// The worst sample, in microseconds.
    pub fn max(&self) -> (n: u64)
        ensures
            n == self.max_us,
    {
        self.max_us
    }
}

impl Default for StageStat {
    fn default() -> (s: StageStat)
        ensures
            s == (StageStat { sum_us: 0, count: 0, max_us: 0 }),
    {
        StageStat::new()
    }
}

/// The stages of the request path.
#[derive(Clone, Copy, Debug, PartialEq, Eq, Structural)]
pub enum Stage {
    Pop,
    Inline,
    Pool,
    PoolWait,
    DoneHop,
    Complete,
    Deliver,
}

/// The counters of all stages.
#[derive(Clone, Copy, Debug, PartialEq, Eq, Structural)]
pub struct Stages {
    pub pop: StageStat,
    pub inline: StageStat,
    pub pool: StageStat,
    pub pool_wait: StageStat,
    pub done_hop: StageStat,
    pub complete: StageStat,
    pub deliver: StageStat,
    /// The requests of all batches that were popped.
    pub batch_items: u64,
    /// The largest batch.
    pub batch_max: u64,
    /// The batches of exactly one request.
    pub lone_batches: u64,
    /// When a summary was last due by the clock, in milliseconds since the start.
    pub last_emit_ms: u64,
}

impl Stages {
    /// The counters after a sample of `us` microseconds of `stage`.
    pub open spec fn recorded(self, stage: Stage, us: u64) -> Stages {
        match stage {
            Stage::Pop => Stages { pop: self.pop.recorded(us), ..self },
            Stage::Inline => Stages { inline: self.inline.recorded(us), ..self },
            Stage::Pool => Stages { pool: self.pool.recorded(us), ..self },
            Stage::PoolWait => Stages { pool_wait: self.pool_wait.recorded(us), ..self },
            Stage::DoneHop => Stages { done_hop: self.done_hop.recorded(us), ..self },
            Stage::Complete => Stages { complete: self.complete.recorded(us), ..self },
            Stage::Deliver => Stages { deliver: self.deliver.recorded(us), ..self },
        }
    }

    /// The counters after a batch of `items` requests was popped.
    pub open spec fn batched(self, items: u64) -> Stages {
        Stages {
            batch_items: wrapped(self.batch_items, items),
            batch_max: larger(self.batch_max, items),
            lone_batches: if items == 1 {
                wrapped(self.lone_batches, 1)
            } else {
                self.lone_batches
            },
            ..self
        }
    }

    /// A summary is due by the clock, `elapsed_ms` after the start.
    pub open spec fn due_by_time(self, elapsed_ms: u64) -> bool {
        elapsed_ms - self.last_emit_ms >= STATS_EVERY_MS
    }

    /// The counters after it was asked whether a summary is due.
    pub open spec fn asked(self, elapsed_ms: u64) -> Stages {
        if self.due_by_time(elapsed_ms) {
            Stages { last_emit_ms: elapsed_ms, ..self }
        } else {
            self
        }
    }

    /// A summary is due.
    pub open spec fn due(self, elapsed_ms: u64) -> bool {
        self.complete.count % STATS_EVERY == 0 || self.due_by_time(elapsed_ms)
    }

    /// Counters at zero.
    pub fn new() -> (s: Stages)
        ensures
            s == zero_stages(),
    {
        Stages {
            pop: StageStat::new(),
            inline: StageStat::new(),
            pool: StageStat::new(),
            pool_wait: StageStat::new(),
            done_hop: StageStat::new(),
            complete: StageStat::new(),
            deliver: StageStat::new(),
            batch_items: 0,
            batch_max: 0,
            lone_batches: 0,
            last_emit_ms: 0,
        }
    }

    /// Takes a sample of `us` microseconds of `stage`.
    pub fn record(&mut self, stage: Stage, us: u64)
        ensures
            *final(self) == old(self).recorded(stage, us),
    {
        match stage {
            Stage::Pop => self.pop.record_us(us),
            Stage::Inline => self.inline.record_us(us),
            Stage::Pool => self.pool.record_us(us),
            Stage::PoolWait => self.pool_wait.record_us(us),
            Stage::DoneHop => self.done_hop.record_us(us),
            Stage::Complete => self.complete.record_us(us),
            Stage::Deliver => self.deliver.record_us(us),
        }
    }

    /// Counts a batch of `items` requests.
    pub fn batch(&mut self, items: u64)
        ensures
            *final(self) == old(self).batched(items),
    {
        self.batch_items = self.batch_items.wrapping_add(items);
        if self.batch_max < items {
            self.batch_max = items;
        }
        if items == 1 {
            self.lone_batches = self.lone_batches.wrapping_add(1);
        }
    }

    /// Whether a summary is due, by completed requests or by the clock,
    /// `elapsed_ms` after the start.
    pub fn maybe_emit(&mut self, elapsed_ms: u64) -> (due: bool)
        ensures
            due == old(self).due(elapsed_ms),
            *final(self) == old(self).asked(elapsed_ms),
    {
        let by_ops = self.complete.count % STATS_EVERY == 0;
        let by_time = elapsed_ms.saturating_sub(self.last_emit_ms) >= STATS_EVERY_MS;
        if by_time {
            self.last_emit_ms = elapsed_ms;
        }
        by_ops || by_time
    }

    /// What a summary of these counters says.
    pub fn emit(&self) -> (s: ReqSummary)
        ensures
            s == summary_of(*self),
    {
        ReqSummary {
            ops: self.complete.count_now(),
            batches: self.pop.count_now(),
            batch_items: self.batch_items,
            batch_max: self.batch_max,
            lone_batches: self.lone_batches,
            pop_mean_us: self.pop.mean_us(),
            inline_n: self.inline.count_now(),
            inline_mean_us: self.inline.mean_us(),
            inline_max_us: self.inline.max(),
            pool_n: self.pool.count_now(),
            pool_mean_us: self.pool.mean_us(),
            pool_max_us: self.pool.max(),
            pool_wait_mean_us: self.pool_wait.mean_us(),
            pool_wait_max_us: self.pool_wait.max(),
            done_hop_mean_us: self.done_hop.mean_us(),
            done_hop_max_us: self.done_hop.max(),
            complete_mean_us: self.complete.mean_us(),
            complete_max_us: self.complete.max(),
            delivers: self.deliver.count_now(),
            deliver_mean_us: self.deliver.mean_us(),
            deliver_max_us: self.deliver.max(),
        }
    }
}

/// Counters at zero.
pub open spec fn zero_stages() -> Stages {
    let z = StageStat { sum_us: 0, count: 0, max_us: 0 };
    Stages {
        pop: z,
        inline: z,
        pool: z,
        pool_wait: z,
        done_hop: z,
        complete: z,
        deliver: z,
        batch_items: 0,
        batch_max: 0,
        lone_batches: 0,
        last_emit_ms: 0,
    }
}

/// What a summary says.
#[derive(Clone, Copy, Debug, PartialEq, Eq, Structural)]
pub struct ReqSummary {
    pub ops: u64,
    pub batches: u64,
    pub batch_items: u64,
    pub batch_max: u64,
    pub lone_batches: u64,
    pub pop_mean_us: u64,
    pub inline_n: u64,
    pub inline_mean_us: u64,
    pub inline_max_us: u64,
    pub pool_n: u64,
    pub pool_mean_us: u64,
    pub pool_max_us: u64,
    pub pool_wait_mean_us: u64,
    pub pool_wait_max_us: u64,
    pub done_hop_mean_us: u64,
    pub done_hop_max_us: u64,
    pub complete_mean_us: u64,
    pub complete_max_us: u64,
    pub delivers: u64,
    pub deliver_mean_us: u64,
    pub deliver_max_us: u64,
}

/// The summary of these counters.
pub open spec fn summary_of(s: Stages) -> ReqSummary {
    ReqSummary {
        ops: s.complete.count,
        batches: s.pop.count,
        batch_items: s.batch_items,
        batch_max: s.batch_max,
        lone_batches: s.lone_batches,
        pop_mean_us: s.pop.mean(),
        inline_n: s.inline.count,
        inline_mean_us: s.inline.mean(),
        inline_max_us: s.inline.max_us,
        pool_n: s.pool.count,
        pool_mean_us: s.pool.mean(),
        pool_max_us: s.pool.max_us,
        pool_wait_mean_us: s.pool_wait.mean(),
        pool_wait_max_us: s.pool_wait.max_us,
        done_hop_mean_us: s.done_hop.mean(),
        done_hop_max_us: s.done_hop.max_us,
        complete_mean_us: s.complete.mean(),
        complete_max_us: s.complete.max_us,
        delivers: s.deliver.count,
        deliver_mean_us: s.deliver.mean(),
        deliver_max_us: s.deliver.max_us,
    }
}

/// The counters of the request path.
pub struct ReqStats {
    /// Whether anything is recorded.
    pub enabled: bool,
    pub stages: Stages,
    /// The base of the clock for summaries.
    pub start: Instant,
}

/// `after` is `before` with a sample of `stage` taken, of the time measured from
/// `t0` on; without `t0`, or where nothing is recorded, nothing changes.
pub open spec fn sampled(
    before: ReqStats,
    after: ReqStats,
    stage: Stage,
    t0: Option<Instant>,
) -> bool {
    if before.enabled && t0 is Some {
        &&& after.enabled == before.enabled
        &&& after.start == before.start
        &&& exists|us: u64|
            crate::clock::micros_from(t0->0, us) && after.stages
                == #[trigger] before.stages.recorded(stage, us)
    } else {
        after == before
    }
}

/// A completion that took `us` microseconds, `ms` milliseconds after the start,
/// leaves `after`, and gives the summary `r`.
pub open spec fn completed(
    before: Stages,
    us: u64,
    ms: u64,
    after: Stages,
    r: Option<ReqSummary>,
) -> bool {
    let done = before.recorded(Stage::Complete, us);
    &&& after == done.asked(ms)
    &&& r == if done.due(ms) {
        Some(summary_of(done))
    } else {
        None
    }
}

impl ReqStats {
    /// Counters at zero, recorded or not.
    pub fn new(enabled: bool) -> (s: ReqStats)
        ensures
            s.enabled == enabled,
            s.stages == zero_stages(),
            crate::clock::was_now(s.start),
    {
        ReqStats { enabled, stages: Stages::new(), start: moment() }
    }

    /// Starts a timer; `None` when nothing is recorded, and the clock is not read
    /// then.
    pub fn now(&self) -> (t: Option<Instant>)
        ensures
            t is Some <==> self.enabled,
            t matches Some(i) ==> crate::clock::was_now(i),
    {
        if self.enabled {
            Some(moment())
        } else {
            None
        }
    }

    fn rec(&mut self, stage: Stage, t0: Option<Instant>)
        ensures
            sampled(*old(self), *final(self), stage, t0),
    {
        if !self.enabled {
            return ;
        }
        match t0 {
            None => {},
            Some(t) => {
                let us: u64 = micros_since(&t);
                self.stages.record(stage, us);
            },
        }
    }

    /// A drain that popped `items` requests.
    pub fn rec_pop(&mut self, t0: Option<Instant>, items: usize)
        ensures
            !old(self).enabled ==> *final(self) == *old(self),
            sampled(
                ReqStats {
                    stages: if old(self).enabled && t0 is Some {
                        old(self).stages.batched(items as u64)
                    } else {
                        old(self).stages
                    },
                    ..*old(self)
                },
                *final(self),
                Stage::Pop,
                t0,
            ),
    {
        if self.enabled && t0.is_some() {
            self.stages.batch(items as u64);
        }
        self.rec(Stage::Pop, t0);
    }

    /// A request on the dispatcher.
    pub fn rec_inline(&mut self, t0: Option<Instant>)
        ensures
            !old(self).enabled ==> *final(self) == *old(self),
            sampled(*old(self), *final(self), Stage::Inline, t0),
    {
        self.rec(Stage::Inline, t0);
    }

    /// A request on a pool thread.
    pub fn rec_pool(&mut self, t0: Option<Instant>)
        ensures
            !old(self).enabled ==> *final(self) == *old(self),
            sampled(*old(self), *final(self), Stage::Pool, t0),
    {
        self.rec(Stage::Pool, t0);
    }

    /// From the submission of a request to its start on a pool thread.
    pub fn rec_pool_wait(&mut self, t0: Option<Instant>)
        ensures
            !old(self).enabled ==> *final(self) == *old(self),
            sampled(*old(self), *final(self), Stage::PoolWait, t0),
    {
        self.rec(Stage::PoolWait, t0);
    }

    /// From the end of a request on the pool to its completion.
    pub fn rec_done_hop(&mut self, t0: Option<Instant>)
        ensures
            !old(self).enabled ==> *final(self) == *old(self),
            sampled(*old(self), *final(self), Stage::DoneHop, t0),
    {
        self.rec(Stage::DoneHop, t0);
    }

    /// A completion on the queue, which also drives the periodic summary: gives
    /// it, where one is due.
    pub fn rec_complete(&mut self, t0: Option<Instant>) -> (r: Option<ReqSummary>)
        ensures
            final(self).enabled == old(self).enabled,
            final(self).start == old(self).start,
            !old(self).enabled || t0 is None ==> *final(self) == *old(self) && r is None,
            old(self).enabled && t0 is Some ==> exists|us: u64, ms: u64|
                crate::clock::micros_from(t0->0, us) && crate::clock::millis_from(
                    old(self).start,
                    ms,
                ) && #[trigger] completed(old(self).stages, us, ms, final(self).stages, r),
    {
        self.rec(Stage::Complete, t0);
        if self.enabled && t0.is_some() {
            let ghost done = self.stages;
            let ms: u64 = millis_since(&self.start);
            let due = self.stages.maybe_emit(ms);
            let r = if due {
                Some(self.stages.emit())
            } else {
                None
            };
            proof {
                let us = choose|us: u64|
                    crate::clock::micros_from(t0->0, us) && done
                        == #[trigger] old(self).stages.recorded(Stage::Complete, us);
                assert(completed(old(self).stages, us, ms, self.stages, r));
            }
            return r;
        }
        None
    }

    /// One interrupt.
    pub fn rec_deliver(&mut self, t0: Option<Instant>)
        ensures
            !old(self).enabled ==> *final(self) == *old(self),
            sampled(*old(self), *final(self), Stage::Deliver, t0),
    {
        self.rec(Stage::Deliver, t0);
    }

    /// The last summary, where counters are recorded.
    pub fn emit_final(&self) -> (r: Option<ReqSummary>)
        ensures
            r == if self.enabled {
                Some(summary_of(self.stages))
            } else {
                None
            },
    {
        if self.enabled {
            Some(self.stages.emit())
        } else {
            None
        }
    }
}

/// The stage after these samples.
pub open spec fn after_samples(samples: Seq<u64>) -> StageStat
    decreases samples.len(),
{
    if samples.len() == 0 {
        StageStat { sum_us: 0, count: 0, max_us: 0 }
    } else {
        after_samples(samples.drop_last()).recorded(samples.last())
    }
}

/// The sum of these samples.
pub open spec fn sum_of(samples: Seq<u64>) -> nat
    decreases samples.len(),
{
    if samples.len() == 0 {
        0
    } else {
        sum_of(samples.drop_last()) + samples.last() as nat
    }
}

/// As long as the total fits, a stage gives the number of its samples, their mean
/// (rounded down), and the largest of them.
pub proof fn law_stage_gives_count_mean_and_max(samples: Seq<u64>)
    requires
        sum_of(samples) <= u64::MAX,
        samples.len() <= u64::MAX,
    ensures
        after_samples(samples).count == samples.len(),
        samples.len() > 0 ==> after_samples(samples).mean() == sum_of(samples) / samples.len(),
        samples.len() == 0 ==> after_samples(samples).mean() == 0,
        forall|i: int|
            0 <= i < samples.len() ==> #[trigger] samples[i] <= after_samples(samples).max_us,
        samples.len() > 0 ==> samples.contains(after_samples(samples).max_us),
{
    lemma_samples(samples);
}

proof fn lemma_samples(samples: Seq<u64>)
    requires
        sum_of(samples) <= u64::MAX,
        samples.len() <= u64::MAX,
    ensures
        after_samples(samples).count == samples.len(),
        after_samples(samples).sum_us == sum_of(samples),
        forall|i: int|
            0 <= i < samples.len() ==> #[trigger] samples[i] <= after_samples(samples).max_us,
        samples.len() > 0 ==> samples.contains(after_samples(samples).max_us),
        samples.len() == 0 ==> after_samples(samples).max_us == 0,
    decreases samples.len(),
{
    if samples.len() > 0 {
        let t = samples.drop_last();
        lemma_samples(t);
        let m = after_samples(samples).max_us;
        assert forall|i: int| 0 <= i < samples.len() implies #[trigger] samples[i] <= m by {
            if i < t.len() {
                assert(t[i] == samples[i]);
            }
        }
        if m == samples.last() {
            assert(samples[samples.len() - 1] == m);
        } else {
            assert(t.len() > 0);
            let k = choose|k: int| 0 <= k < t.len() && t[k] == m;
            assert(samples[k] == m);
        }
    }
}

// ---------------------------------------------------------------------------
// Calls
// ---------------------------------------------------------------------------

/// A sample adds its microseconds and itself, modulo 2^64, and is the worst one if no
/// sample before it was worse. The mean is the sum by the number, rounded down.
pub proof fn law_sample_is_counted(
    s: &mut StageStat,
    us: u64,
    u: (),
    t: &StageStat,
    n: u64,
    mean: u64,
    max: u64,
    fresh: StageStat,
    other: StageStat,
)
    requires
        call_ensures(StageStat::record_us, (s, us), u),
        *t == *final(s),
        call_ensures(StageStat::count_now, (t,), n),
        call_ensures(StageStat::mean_us, (t,), mean),
        call_ensures(StageStat::max, (t,), max),
        call_ensures(StageStat::new, (), fresh),
        call_ensures(StageStat::default, (), other),
    ensures
        final(s).sum_us == (old(s).sum_us + us) % 0x1_0000_0000_0000_0000,
        n == (old(s).count + 1) % 0x1_0000_0000_0000_0000,
        max >= us && max >= old(s).max_us && (max == us || max == old(s).max_us),
        n > 0 ==> mean == final(s).sum_us / n,
        n == 0 ==> mean == 0,
        fresh.sum_us == 0 && fresh.count == 0 && fresh.max_us == 0 && other == fresh,
{
}

/// The counters start at zero.
pub proof fn law_counters_start_at_zero(s: Stages, enabled: bool, r: ReqStats)
    requires
        call_ensures(Stages::new, (), s),
        call_ensures(ReqStats::new, (enabled,), r),
    ensures
        r.stages == s && r.enabled == enabled,
        s.pop.count == 0 && s.pop.sum_us == 0 && s.pop.max_us == 0,
        s.inline == s.pop && s.pool == s.pop && s.pool_wait == s.pop,
        s.done_hop == s.pop && s.complete == s.pop && s.deliver == s.pop,
        s.batch_items == 0 && s.batch_max == 0 && s.lone_batches == 0 && s.last_emit_ms == 0,
{
}

/// A batch adds its requests, is the largest if none before it was larger, and counts
/// as a lone one exactly if it is of one request. No stage is touched.
pub proof fn law_batch_is_counted(s: &mut Stages, items: u64, u: ())
    requires
        call_ensures(Stages::batch, (s, items), u),
    ensures
        final(s).batch_items == (old(s).batch_items + items) % 0x1_0000_0000_0000_0000,
        final(s).batch_max >= items && final(s).batch_max >= old(s).batch_max,
        final(s).batch_max == items || final(s).batch_max == old(s).batch_max,
        items == 1 ==> final(s).lone_batches == (old(s).lone_batches + 1)
            % 0x1_0000_0000_0000_0000,
        items != 1 ==> final(s).lone_batches == old(s).lone_batches,
        final(s).pop == old(s).pop && final(s).inline == old(s).inline,
        final(s).pool == old(s).pool && final(s).pool_wait == old(s).pool_wait,
        final(s).done_hop == old(s).done_hop && final(s).complete == old(s).complete,
        final(s).deliver == old(s).deliver && final(s).last_emit_ms == old(s).last_emit_ms,
{
}

/// A sample is taken of the stage that it is named for, and of no other.
pub proof fn law_sample_is_of_its_stage(s: &mut Stages, stage: Stage, us: u64, u: ())
    requires
        call_ensures(Stages::record, (s, stage, us), u),
    ensures
        stage != Stage::Pop ==> final(s).pop == old(s).pop,
        stage != Stage::Inline ==> final(s).inline == old(s).inline,
        stage != Stage::Pool ==> final(s).pool == old(s).pool,
        stage != Stage::PoolWait ==> final(s).pool_wait == old(s).pool_wait,
        stage != Stage::DoneHop ==> final(s).done_hop == old(s).done_hop,
        stage != Stage::Complete ==> final(s).complete == old(s).complete,
        stage != Stage::Deliver ==> final(s).deliver == old(s).deliver,
        stage == Stage::Pop ==> took(old(s).pop, final(s).pop, us),
        stage == Stage::Inline ==> took(old(s).inline, final(s).inline, us),
        stage == Stage::Pool ==> took(old(s).pool, final(s).pool, us),
        stage == Stage::PoolWait ==> took(old(s).pool_wait, final(s).pool_wait, us),
        stage == Stage::DoneHop ==> took(old(s).done_hop, final(s).done_hop, us),
        stage == Stage::Complete ==> took(old(s).complete, final(s).complete, us),
        stage == Stage::Deliver ==> took(old(s).deliver, final(s).deliver, us),
        final(s).batch_items == old(s).batch_items && final(s).batch_max == old(s).batch_max,
        final(s).lone_batches == old(s).lone_batches && final(s).last_emit_ms
            == old(s).last_emit_ms,
{
}

/// `after` is what `record_us` leaves of `before`, for a sample of `us`.
pub open spec fn took(before: StageStat, after: StageStat, us: u64) -> bool {
    &&& after.sum_us == (before.sum_us + us) % 0x1_0000_0000_0000_0000
    &&& after.count == (before.count + 1) % 0x1_0000_0000_0000_0000
    &&& after.max_us >= us && after.max_us >= before.max_us
    &&& after.max_us == us || after.max_us == before.max_us
}

/// A summary is due whenever a multiple of 4096 requests was completed, and when the
/// last one that was due by the clock was 500 milliseconds ago or more; only the latter
/// starts the clock again.
pub proof fn law_summary_is_due(s: &mut Stages, ms: u64, due: bool)
    requires
        call_ensures(Stages::maybe_emit, (s, ms), due),
    ensures
        due <==> old(s).complete.count % 4096 == 0 || ms >= old(s).last_emit_ms + 500,
        ms >= old(s).last_emit_ms + 500 ==> final(s).last_emit_ms == ms,
        ms < old(s).last_emit_ms + 500 ==> final(s).last_emit_ms == old(s).last_emit_ms,
        final(s).pop == old(s).pop && final(s).inline == old(s).inline,
        final(s).pool == old(s).pool && final(s).pool_wait == old(s).pool_wait,
        final(s).done_hop == old(s).done_hop && final(s).complete == old(s).complete,
        final(s).deliver == old(s).deliver && final(s).batch_items == old(s).batch_items,
        final(s).batch_max == old(s).batch_max && final(s).lone_batches == old(s).lone_batches,
{
}

/// A summary tells of each stage what the stage itself gives.
pub proof fn law_summary_tells_each_stage(
    s: &Stages,
    r: ReqSummary,
    stage: &StageStat,
    n: u64,
    mean: u64,
    max: u64,
)
    requires
        call_ensures(Stages::emit, (s,), r),
        call_ensures(StageStat::count_now, (stage,), n),
        call_ensures(StageStat::mean_us, (stage,), mean),
        call_ensures(StageStat::max, (stage,), max),
    ensures
        r.batch_items == s.batch_items && r.batch_max == s.batch_max && r.lone_batches
            == s.lone_batches,
        *stage == s.pop ==> r.batches == n && r.pop_mean_us == mean,
        *stage == s.inline ==> r.inline_n == n && r.inline_mean_us == mean && r.inline_max_us == max,
        *stage == s.pool ==> r.pool_n == n && r.pool_mean_us == mean && r.pool_max_us == max,
        *stage == s.pool_wait ==> r.pool_wait_mean_us == mean && r.pool_wait_max_us == max,
        *stage == s.done_hop ==> r.done_hop_mean_us == mean && r.done_hop_max_us == max,
        *stage == s.complete ==> r.ops == n && r.complete_mean_us == mean && r.complete_max_us
            == max,
        *stage == s.deliver ==> r.delivers == n && r.deliver_mean_us == mean && r.deliver_max_us
            == max,
{
}

/// A timer is started exactly where counters are recorded.
pub proof fn law_clock_is_read_only_where_recorded(s: &ReqStats, t: Option<Instant>)
    requires
        call_ensures(ReqStats::now, (s,), t),
    ensures
        t is Some <==> s.enabled,
{
}

/// Where nothing is recorded, or no timer was started, nothing changes, and nothing is
/// told.
pub proof fn law_disabled_counters_stay(
    s: &mut ReqStats,
    t0: Option<Instant>,
    u: (),
    c: &mut ReqStats,
    r: Option<ReqSummary>,
    items: usize,
    p: &mut ReqStats,
    e: &ReqStats,
    last: Option<ReqSummary>,
)
    requires
        !s.enabled || t0 is None,
        *c == *s && *p == *s && *e == *s,
        call_ensures(ReqStats::rec_inline, (s, t0), u) || call_ensures(
            ReqStats::rec_pool,
            (s, t0),
            u,
        ) || call_ensures(ReqStats::rec_pool_wait, (s, t0), u) || call_ensures(
            ReqStats::rec_done_hop,
            (s, t0),
            u,
        ) || call_ensures(ReqStats::rec_deliver, (s, t0), u),
        call_ensures(ReqStats::rec_complete, (c, t0), r),
        call_ensures(ReqStats::rec_pop, (p, t0, items), u),
        call_ensures(ReqStats::emit_final, (e,), last),
    ensures
        *final(s) == *old(s) && *final(c) == *old(c) && *final(p) == *old(p),
        r is None,
        last is Some <==> old(s).enabled,
{
}

/// A completion is one sample more of its stage, and of no other; the summary that it
/// gives, where one is due, tells of the counters with it.
pub proof fn law_completion_is_counted(
    s: &mut ReqStats,
    t0: Option<Instant>,
    r: Option<ReqSummary>,
)
    requires
        s.enabled && t0 is Some,
        call_ensures(ReqStats::rec_complete, (s, t0), r),
    ensures
        final(s).stages.complete.count == (old(s).stages.complete.count + 1)
            % 0x1_0000_0000_0000_0000,
        final(s).stages.complete.max_us >= old(s).stages.complete.max_us,
        final(s).stages.pop == old(s).stages.pop && final(s).stages.inline == old(s).stages.inline,
        final(s).stages.pool == old(s).stages.pool && final(s).stages.pool_wait
            == old(s).stages.pool_wait,
        final(s).stages.done_hop == old(s).stages.done_hop && final(s).stages.deliver
            == old(s).stages.deliver,
        final(s).stages.batch_items == old(s).stages.batch_items,
        final(s).stages.complete.count % 4096 == 0 ==> r is Some,
        r matches Some(m) ==> m.ops == final(s).stages.complete.count && m.batches
            == final(s).stages.pop.count && m.pool_n == final(s).stages.pool.count && m.inline_n
            == final(s).stages.inline.count && m.delivers == final(s).stages.deliver.count,
        final(s).enabled && final(s).start == old(s).start,
{
}

/// A request on the dispatcher is one sample more of that stage, and of no other.
pub proof fn law_inline_is_sampled(s: &mut ReqStats, t0: Option<Instant>, u: ())
    requires
        s.enabled && t0 is Some,
        call_ensures(ReqStats::rec_inline, (s, t0), u),
    ensures
        final(s).stages.inline.count == (old(s).stages.inline.count + 1)
            % 0x1_0000_0000_0000_0000,
        final(s).stages.inline.max_us >= old(s).stages.inline.max_us,
        exists|us: u64|
            crate::clock::micros_from(t0->0, us) && #[trigger] took(
                old(s).stages.inline,
                final(s).stages.inline,
                us,
            ),
        final(s).stages.pop == old(s).stages.pop,
        final(s).stages.pool == old(s).stages.pool,
        final(s).stages.pool_wait == old(s).stages.pool_wait,
        final(s).stages.done_hop == old(s).stages.done_hop,
        final(s).stages.complete == old(s).stages.complete,
        final(s).stages.deliver == old(s).stages.deliver,
        final(s).stages.batch_items == old(s).stages.batch_items && final(s).stages.batch_max
            == old(s).stages.batch_max && final(s).stages.lone_batches
            == old(s).stages.lone_batches,
        final(s).stages.last_emit_ms == old(s).stages.last_emit_ms,
        final(s).enabled && final(s).start == old(s).start,
{
    let us = choose|us: u64|
        crate::clock::micros_from(t0->0, us) && final(s).stages == #[trigger] s.stages.recorded(
            Stage::Inline,
            us,
        );
    assert(took(s.stages.inline, final(s).stages.inline, us));
}

/// A request on the pool is one sample more of that stage, and of no other.
pub proof fn law_pool_is_sampled(s: &mut ReqStats, t0: Option<Instant>, u: ())
    requires
        s.enabled && t0 is Some,
        call_ensures(ReqStats::rec_pool, (s, t0), u),
    ensures
        final(s).stages.pool.count == (old(s).stages.pool.count + 1)
            % 0x1_0000_0000_0000_0000,
        final(s).stages.pool.max_us >= old(s).stages.pool.max_us,
        exists|us: u64|
            crate::clock::micros_from(t0->0, us) && #[trigger] took(
                old(s).stages.pool,
                final(s).stages.pool,
                us,
            ),
        final(s).stages.pop == old(s).stages.pop,
        final(s).stages.inline == old(s).stages.inline,
        final(s).stages.pool_wait == old(s).stages.pool_wait,
        final(s).stages.done_hop == old(s).stages.done_hop,
        final(s).stages.complete == old(s).stages.complete,
        final(s).stages.deliver == old(s).stages.deliver,
        final(s).stages.batch_items == old(s).stages.batch_items && final(s).stages.batch_max
            == old(s).stages.batch_max && final(s).stages.lone_batches
            == old(s).stages.lone_batches,
        final(s).stages.last_emit_ms == old(s).stages.last_emit_ms,
        final(s).enabled && final(s).start == old(s).start,
{
    let us = choose|us: u64|
        crate::clock::micros_from(t0->0, us) && final(s).stages == #[trigger] s.stages.recorded(
            Stage::Pool,
            us,
        );
    assert(took(s.stages.pool, final(s).stages.pool, us));
}

/// A hop to the pool is one sample more of that stage, and of no other.
pub proof fn law_pool_wait_is_sampled(s: &mut ReqStats, t0: Option<Instant>, u: ())
    requires
        s.enabled && t0 is Some,
        call_ensures(ReqStats::rec_pool_wait, (s, t0), u),
    ensures
        final(s).stages.pool_wait.count == (old(s).stages.pool_wait.count + 1)
            % 0x1_0000_0000_0000_0000,
        final(s).stages.pool_wait.max_us >= old(s).stages.pool_wait.max_us,
        exists|us: u64|
            crate::clock::micros_from(t0->0, us) && #[trigger] took(
                old(s).stages.pool_wait,
                final(s).stages.pool_wait,
                us,
            ),
        final(s).stages.pop == old(s).stages.pop,
        final(s).stages.inline == old(s).stages.inline,
        final(s).stages.pool == old(s).stages.pool,
        final(s).stages.done_hop == old(s).stages.done_hop,
        final(s).stages.complete == old(s).stages.complete,
        final(s).stages.deliver == old(s).stages.deliver,
        final(s).stages.batch_items == old(s).stages.batch_items && final(s).stages.batch_max
            == old(s).stages.batch_max && final(s).stages.lone_batches
            == old(s).stages.lone_batches,
        final(s).stages.last_emit_ms == old(s).stages.last_emit_ms,
        final(s).enabled && final(s).start == old(s).start,
{
    let us = choose|us: u64|
        crate::clock::micros_from(t0->0, us) && final(s).stages == #[trigger] s.stages.recorded(
            Stage::PoolWait,
            us,
        );
    assert(took(s.stages.pool_wait, final(s).stages.pool_wait, us));
}

/// A hop back from the pool is one sample more of that stage, and of no other.
pub proof fn law_done_hop_is_sampled(s: &mut ReqStats, t0: Option<Instant>, u: ())
    requires
        s.enabled && t0 is Some,
        call_ensures(ReqStats::rec_done_hop, (s, t0), u),
    ensures
        final(s).stages.done_hop.count == (old(s).stages.done_hop.count + 1)
            % 0x1_0000_0000_0000_0000,
        final(s).stages.done_hop.max_us >= old(s).stages.done_hop.max_us,
        exists|us: u64|
            crate::clock::micros_from(t0->0, us) && #[trigger] took(
                old(s).stages.done_hop,
                final(s).stages.done_hop,
                us,
            ),
        final(s).stages.pop == old(s).stages.pop,
        final(s).stages.inline == old(s).stages.inline,
        final(s).stages.pool == old(s).stages.pool,
        final(s).stages.pool_wait == old(s).stages.pool_wait,
        final(s).stages.complete == old(s).stages.complete,
        final(s).stages.deliver == old(s).stages.deliver,
        final(s).stages.batch_items == old(s).stages.batch_items && final(s).stages.batch_max
            == old(s).stages.batch_max && final(s).stages.lone_batches
            == old(s).stages.lone_batches,
        final(s).stages.last_emit_ms == old(s).stages.last_emit_ms,
        final(s).enabled && final(s).start == old(s).start,
{
    let us = choose|us: u64|
        crate::clock::micros_from(t0->0, us) && final(s).stages == #[trigger] s.stages.recorded(
            Stage::DoneHop,
            us,
        );
    assert(took(s.stages.done_hop, final(s).stages.done_hop, us));
}

/// An interrupt is one sample more of that stage, and of no other.
pub proof fn law_deliver_is_sampled(s: &mut ReqStats, t0: Option<Instant>, u: ())
    requires
        s.enabled && t0 is Some,
        call_ensures(ReqStats::rec_deliver, (s, t0), u),
    ensures
        final(s).stages.deliver.count == (old(s).stages.deliver.count + 1)
            % 0x1_0000_0000_0000_0000,
        final(s).stages.deliver.max_us >= old(s).stages.deliver.max_us,
        exists|us: u64|
            crate::clock::micros_from(t0->0, us) && #[trigger] took(
                old(s).stages.deliver,
                final(s).stages.deliver,
                us,
            ),
        final(s).stages.pop == old(s).stages.pop,
        final(s).stages.inline == old(s).stages.inline,
        final(s).stages.pool == old(s).stages.pool,
        final(s).stages.pool_wait == old(s).stages.pool_wait,
        final(s).stages.done_hop == old(s).stages.done_hop,
        final(s).stages.complete == old(s).stages.complete,
        final(s).stages.batch_items == old(s).stages.batch_items && final(s).stages.batch_max
            == old(s).stages.batch_max && final(s).stages.lone_batches
            == old(s).stages.lone_batches,
        final(s).stages.last_emit_ms == old(s).stages.last_emit_ms,
        final(s).enabled && final(s).start == old(s).start,
{
    let us = choose|us: u64|
        crate::clock::micros_from(t0->0, us) && final(s).stages == #[trigger] s.stages.recorded(
            Stage::Deliver,
            us,
        );
    assert(took(s.stages.deliver, final(s).stages.deliver, us));
}

/// A drain is one sample more of that stage, and of no other, and its batch is counted.
pub proof fn law_pop_is_sampled(s: &mut ReqStats, t0: Option<Instant>, items: usize, u: ())
    requires
        s.enabled && t0 is Some,
        call_ensures(ReqStats::rec_pop, (s, t0, items), u),
    ensures
        final(s).stages.pop.count == (old(s).stages.pop.count + 1)
            % 0x1_0000_0000_0000_0000,
        final(s).stages.pop.max_us >= old(s).stages.pop.max_us,
        exists|us: u64|
            crate::clock::micros_from(t0->0, us) && #[trigger] took(
                old(s).stages.pop,
                final(s).stages.pop,
                us,
            ),
        final(s).stages.inline == old(s).stages.inline,
        final(s).stages.pool == old(s).stages.pool,
        final(s).stages.pool_wait == old(s).stages.pool_wait,
        final(s).stages.done_hop == old(s).stages.done_hop,
        final(s).stages.complete == old(s).stages.complete,
        final(s).stages.deliver == old(s).stages.deliver,
        final(s).stages.batch_items == (old(s).stages.batch_items + items)
            % 0x1_0000_0000_0000_0000,
        final(s).stages.batch_max >= items && final(s).stages.batch_max
            >= old(s).stages.batch_max,
        final(s).stages.batch_max == items || final(s).stages.batch_max
            == old(s).stages.batch_max,
        items == 1 ==> final(s).stages.lone_batches == (old(s).stages.lone_batches + 1)
            % 0x1_0000_0000_0000_0000,
        items != 1 ==> final(s).stages.lone_batches == old(s).stages.lone_batches,
        final(s).stages.last_emit_ms == old(s).stages.last_emit_ms,
        final(s).enabled && final(s).start == old(s).start,
{
    let us = choose|us: u64|
        crate::clock::micros_from(t0->0, us) && final(s).stages == #[trigger] s.stages.batched(items as u64).recorded(
            Stage::Pop,
            us,
        );
    assert(took(s.stages.pop, final(s).stages.pop, us));
}

/// The summary of a completion, and the last one, are those of the counters as they
/// stand then.
pub proof fn law_summaries_are_of_the_counters(
    s: &mut ReqStats,
    t0: Option<Instant>,
    r: Option<ReqSummary>,
    t: &Stages,
    m: ReqSummary,
    e: &ReqStats,
    last: Option<ReqSummary>,
    stages: &Stages,
    n: ReqSummary,
)
    requires
        call_ensures(ReqStats::rec_complete, (s, t0), r),
        *t == final(s).stages,
        call_ensures(Stages::emit, (t,), m),
        call_ensures(ReqStats::emit_final, (e,), last),
        *stages == e.stages,
        call_ensures(Stages::emit, (stages,), n),
    ensures
        r is Some ==> r == Some(m),
        e.enabled ==> last == Some(n),
        !e.enabled ==> last is None,
{
}

} // verus!
