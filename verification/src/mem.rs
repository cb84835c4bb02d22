//! The aperture cache behind guest memory.
//!
//! Guest memory is reached through *apertures*: mappings of page-aligned guest
//! physical ranges into this process. A range is mapped when it is first
//! touched and the mapping is reused on later hits. The cache is split into
//! [`SHARDS`] shards, routed by guest page number, and each shard drops its
//! least recently used mapping when it is full or when the host reports that
//! its aperture quota is exhausted.
//!
//! Mapping a range is a host call, so it is not made here: a request that needs
//! one says so ([`Acquire::Create`], [`Access::Create`]), and the outcome of the
//! call is handed back.

use vstd::prelude::*;
use crate::handle::{Device, DeviceHandle, DeviceSlots};
use crate::hresult::{hresult_code, with_hresult, HRESULT};

verus! {

/// The guest page size.
pub const PAGE: u64 = 4096;

/// `HRESULT_FROM_WIN32(ERROR_NOT_ENOUGH_QUOTA)`: the aperture quota is exhausted
/// for the moment, so a mapping has to go before another can be made.
pub const ERROR_NOT_ENOUGH_QUOTA: u32 = 0x8007_0718;

/// The most apertures that the whole cache holds.
pub const MAX_ENTRIES: usize = 1024;

/// The number of shards.
pub const SHARDS: usize = 16;

/// The most apertures that one shard holds.
pub const PER_SHARD_MAX: usize = MAX_ENTRIES / SHARDS;

// ---------------------------------------------------------------------------
// Counters
// ---------------------------------------------------------------------------

/// The counters that move by one.
#[derive(Clone, Copy, Debug, PartialEq, Eq, Structural)]
pub enum Counter {
    Ops,
    Hits,
    Creates,
    Evicts,
    QuotaRetries,
    CreateFails,
    BadRange,
    NotBound,
}

/// Counters of the aperture cache. The failure kinds are split, so that a
/// stalled run tells which seam broke.
#[derive(Clone, Copy, Debug, PartialEq, Eq, Structural)]
pub struct Stats {
    /// Whether anything is recorded. When it is not, no counter moves.
    pub enabled: bool,
    pub ops: u64,
    pub hits: u64,
    pub creates: u64,
    pub evicts: u64,
    pub quota_retries: u64,
    pub create_fails: u64,
    pub bad_range: u64,
    pub not_bound: u64,
    pub live: usize,
    pub peak_live: usize,
    /// The largest span mapped, in bytes.
    pub max_span: u64,
}

/// One more, starting over after the largest value.
pub open spec fn bumped(n: u64) -> u64 {
    if n == u64::MAX {
        0
    } else {
        (n + 1) as u64
    }
}

impl Stats {
    /// These counters after `counter` has moved.
    pub open spec fn counted(self, counter: Counter) -> Stats {
        if !self.enabled {
            self
        } else {
            match counter {
                Counter::Ops => Stats { ops: bumped(self.ops), ..self },
                Counter::Hits => Stats { hits: bumped(self.hits), ..self },
                Counter::Creates => Stats { creates: bumped(self.creates), ..self },
                Counter::Evicts => Stats { evicts: bumped(self.evicts), ..self },
                Counter::QuotaRetries => Stats {
                    quota_retries: bumped(self.quota_retries),
                    ..self
                },
                Counter::CreateFails => Stats {
                    create_fails: bumped(self.create_fails),
                    ..self
                },
                Counter::BadRange => Stats { bad_range: bumped(self.bad_range), ..self },
                Counter::NotBound => Stats { not_bound: bumped(self.not_bound), ..self },
            }
        }
    }

    /// These counters after one aperture has come to life.
    pub open spec fn live_more(self) -> Stats {
        if !self.enabled {
            self
        } else {
            Stats {
                live: (self.live + 1) as usize,
                peak_live: if self.live + 1 > self.peak_live {
                    (self.live + 1) as usize
                } else {
                    self.peak_live
                },
                ..self
            }
        }
    }

    /// These counters after one aperture has left the cache.
    pub open spec fn live_less(self) -> Stats {
        if !self.enabled {
            self
        } else {
            Stats {
                live: if self.live == 0 {
                    usize::MAX
                } else {
                    (self.live - 1) as usize
                },
                ..self
            }
        }
    }

    /// These counters after an eviction.
    pub open spec fn evicted(self) -> Stats {
        self.counted(Counter::Evicts).live_less()
    }

    /// These counters after a span of `len` bytes has been mapped and cached.
    pub open spec fn mapped(self, len: u64) -> Stats {
        let s = self.counted(Counter::Creates);
        let t = if s.enabled && len > s.max_span {
            Stats { max_span: len, ..s }
        } else {
            s
        };
        t.live_more()
    }

    /// Whether one more aperture can be counted.
    pub open spec fn has_room(self) -> bool {
        self.enabled ==> self.live < usize::MAX
    }

    /// Counters at zero, recorded or not.
    pub fn new(enabled: bool) -> (stats: Stats)
        ensures
            stats == (Stats {
                enabled,
                ops: 0,
                hits: 0,
                creates: 0,
                evicts: 0,
                quota_retries: 0,
                create_fails: 0,
                bad_range: 0,
                not_bound: 0,
                live: 0,
                peak_live: 0,
                max_span: 0,
            }),
    {
        Stats {
            enabled,
            ops: 0,
            hits: 0,
            creates: 0,
            evicts: 0,
            quota_retries: 0,
            create_fails: 0,
            bad_range: 0,
            not_bound: 0,
            live: 0,
            peak_live: 0,
            max_span: 0,
        }
    }

    /// Moves `counter`, if counters are recorded at all.
    pub fn count(&mut self, counter: Counter)
        ensures
            *final(self) == old(self).counted(counter),
    {
        if self.enabled {
            match counter {
                Counter::Ops => self.ops = self.ops.wrapping_add(1),
                Counter::Hits => self.hits = self.hits.wrapping_add(1),
                Counter::Creates => self.creates = self.creates.wrapping_add(1),
                Counter::Evicts => self.evicts = self.evicts.wrapping_add(1),
                Counter::QuotaRetries => self.quota_retries = self.quota_retries.wrapping_add(1),
                Counter::CreateFails => self.create_fails = self.create_fails.wrapping_add(1),
                Counter::BadRange => self.bad_range = self.bad_range.wrapping_add(1),
                Counter::NotBound => self.not_bound = self.not_bound.wrapping_add(1),
            }
        }
    }

    /// One aperture was cached: the live count and its high-water mark move.
    pub fn inc_live(&mut self)
        requires
            old(self).has_room(),
        ensures
            *final(self) == old(self).live_more(),
    {
        if self.enabled {
            self.live = self.live + 1;
            if self.live > self.peak_live {
                self.peak_live = self.live;
            }
        }
    }

    /// One aperture left the cache.
    pub fn dec_live(&mut self)
        ensures
            *final(self) == old(self).live_less(),
    {
        if self.enabled {
            self.live = self.live.wrapping_sub(1);
        }
    }
}

// ---------------------------------------------------------------------------
// One shard
// ---------------------------------------------------------------------------

/// One cached aperture and the page range that it maps.
pub struct CachedEntry<A> {
    pub base: u64,
    pub len: u64,
    pub ap: A,
}

/// Entry `i` maps the range `(base, len)`.
pub open spec fn maps_range<A>(s: Seq<CachedEntry<A>>, i: int, base: u64, len: u64) -> bool {
    0 <= i < s.len() && s[i].base == base && s[i].len == len
}

/// Some entry maps the range `(base, len)`.
pub open spec fn holds<A>(s: Seq<CachedEntry<A>>, base: u64, len: u64) -> bool {
    exists|i: int| maps_range(s, i, base, len)
}

/// Where the entry that maps `(base, len)` stands.
pub open spec fn place<A>(s: Seq<CachedEntry<A>>, base: u64, len: u64) -> int {
    choose|i: int| maps_range(s, i, base, len)
}

/// No range is cached twice.
pub open spec fn distinct_ranges<A>(s: Seq<CachedEntry<A>>) -> bool {
    forall|i: int, j: int|
        0 <= i < j < s.len() ==> !(#[trigger] s[i].base == #[trigger] s[j].base && s[i].len
            == s[j].len)
}

/// The entries after the one that maps `(base, len)` was used: it is the most
/// recent one now, the others keep their order.
pub open spec fn touched<A>(s: Seq<CachedEntry<A>>, base: u64, len: u64) -> Seq<CachedEntry<A>> {
    let i = place(s, base, len);
    s.remove(i).push(s[i])
}

/// The entries after the least recently used one left, if there is one.
pub open spec fn without_oldest<A>(s: Seq<CachedEntry<A>>) -> Seq<CachedEntry<A>> {
    if s.len() == 0 {
        s
    } else {
        s.drop_first()
    }
}

/// The entries after `n` evictions.
pub open spec fn without_oldest_n<A>(s: Seq<CachedEntry<A>>, n: nat) -> Seq<CachedEntry<A>> {
    if n >= s.len() {
        Seq::empty()
    } else {
        s.subrange(n as int, s.len() as int)
    }
}

/// The most bytes that one aperture maps: the host call counts them in 32 bits.
pub const APERTURE_MAX: u64 = 0xffff_ffff;

/// A range that has to be mapped before the access can go on.
#[derive(Clone, Copy, Debug, PartialEq, Eq, Structural)]
pub struct ApertureRequest {
    pub base: u64,
    pub len: u64,
    /// How many entries have made room for it so far, on exhausted quota.
    pub evictions: usize,
}

impl ApertureRequest {
    /// The byte count that the host call takes: the whole range.
    pub fn byte_count(&self) -> (n: u32)
        requires
            self.len <= APERTURE_MAX,
        ensures
            n == self.len,
    {
        self.len as u32
    }
}

/// What a shard answers to a request for an aperture.
pub enum Acquire<A> {
    /// The aperture.
    Ready(A),
    /// Map this range, and hand the outcome to [`Shard::created`].
    Create(ApertureRequest),
    /// The host call failed for good, with this code.
    Failed(HRESULT),
}

/// One slice of the cache: its entries, least recently used first.
pub struct Shard<A> {
    cache: Vec<CachedEntry<A>>,
}

impl<A> View for Shard<A> {
    type V = Seq<CachedEntry<A>>;

    closed spec fn view(&self) -> Seq<CachedEntry<A>> {
        self.cache@
    }
}

impl<A> Shard<A> {
    /// No range is cached twice, and the cap is kept.
    pub open spec fn wf(&self) -> bool {
        &&& distinct_ranges(self@)
        &&& self@.len() <= PER_SHARD_MAX
    }

    /// `request` waits for its host call: its range is not cached, there is room
    /// for it, and the retries stay within their bound.
    pub open spec fn awaits(&self, request: ApertureRequest) -> bool {
        &&& !holds(self@, request.base, request.len)
        &&& self@.len() < PER_SHARD_MAX
        &&& request.evictions <= PER_SHARD_MAX
    }

    /// An empty shard.
    pub fn new() -> (shard: Shard<A>)
        ensures
            shard.wf(),
            shard@ == Seq::<CachedEntry<A>>::empty(),
    {
        Shard { cache: Vec::new() }
    }

    /// How many apertures are cached.
    pub fn len(&self) -> (n: usize)
        ensures
            n == self@.len(),
    {
        self.cache.len()
    }

    /// Where the range stands in the recency order, if it is cached.
    fn find(&self, base: u64, len: u64) -> (r: Option<usize>)
        ensures
            match r {
                Some(i) => maps_range(self@, i as int, base, len),
                None => !holds(self@, base, len),
            },
    {
        let mut i: usize = 0;
        while i < self.cache.len()
            invariant
                i <= self.cache@.len(),
                forall|j: int| 0 <= j < i ==> !maps_range(self.cache@, j, base, len),
            decreases self.cache@.len() - i,
        {
            let e = &self.cache[i];
            if e.base == base && e.len == len {
                return Some(i);
            }
            i = i + 1;
        }
        None
    }

    /// Whether the range `key` is cached.
    pub fn contains_key(&self, key: (u64, u64)) -> (b: bool)
        ensures
            b == holds(self@, key.0, key.1),
    {
        match self.find(key.0, key.1) {
            Some(_) => true,
            None => false,
        }
    }

    /// Drops the least recently used entry.
    pub fn evict_one(&mut self, stats: &mut Stats)
        requires
            old(self).wf(),
        ensures
            final(self).wf(),
            final(self)@ == without_oldest(old(self)@),
            *final(stats) == if old(self)@.len() == 0 {
                *old(stats)
            } else {
                old(stats).evicted()
            },
    {
        if self.cache.len() > 0 {
            self.cache.remove(0);
            stats.count(Counter::Evicts);
            stats.dec_live();
            assert(self@ =~= old(self)@.drop_first());
        }
    }

    /// The host's answer to a [`Acquire::Create`]: a mapping is cached as the most
    /// recent entry; on exhausted quota the oldest entry makes room and the call
    /// is to be made again, at most [`PER_SHARD_MAX`] times; any other failure, or
    /// exhausted quota with nothing left to drop, ends the request.
    pub fn created(
        &mut self,
        request: ApertureRequest,
        outcome: Result<A, HRESULT>,
        stats: &mut Stats,
    ) -> (r: Acquire<A>) where A: Clone
        requires
            old(self).wf(),
            old(self).awaits(request),
            old(stats).has_room(),
        ensures
            final(self).wf(),
            match outcome {
                Ok(ap) => {
                    &&& r matches Acquire::Ready(a) && cloned(ap, a)
                    &&& final(self)@ == old(self)@.push(
                        CachedEntry { base: request.base, len: request.len, ap },
                    )
                    &&& *final(stats) == old(stats).mapped(request.len)
                },
                Err(hr) => if gives_up(old(self)@, request, hr) {
                    &&& r == Acquire::<A>::Failed(hr)
                    &&& final(self)@ == old(self)@
                    &&& *final(stats) == old(stats).counted(Counter::CreateFails)
                } else {
                    &&& r == Acquire::<A>::Create(
                        ApertureRequest { evictions: (request.evictions + 1) as usize, ..request },
                    )
                    &&& final(self)@ == without_oldest(old(self)@)
                    &&& final(self).awaits(r->Create_0)
                    &&& *final(stats) == old(stats).counted(Counter::QuotaRetries).evicted()
                },
            },
    {
        match outcome {
            Ok(ap) => {
                let a = ap.clone();
                self.cache.push(CachedEntry { base: request.base, len: request.len, ap });
                proof {
                    let s = old(self)@;
                    assert forall|i: int, j: int|
                        0 <= i < j < self@.len() implies !(#[trigger] self@[i].base
                        == #[trigger] self@[j].base && self@[i].len == self@[j].len) by {
                        if j == s.len() {
                            assert(!maps_range(s, i, request.base, request.len));
                        }
                    }
                }
                stats.count(Counter::Creates);
                if stats.enabled && request.len > stats.max_span {
                    stats.max_span = request.len;
                }
                stats.inc_live();
                Acquire::Ready(a)
            },
            Err(hr) => {
                if hresult_code(hr) != ERROR_NOT_ENOUGH_QUOTA || self.cache.len() == 0
                    || request.evictions >= PER_SHARD_MAX {
                    stats.count(Counter::CreateFails);
                    Acquire::Failed(hr)
                } else {
                    stats.count(Counter::QuotaRetries);
                    self.evict_one(stats);
                    let next = ApertureRequest {
                        base: request.base,
                        len: request.len,
                        evictions: request.evictions + 1,
                    };
                    proof {
                        let s = old(self)@;
                        assert forall|i: int| !maps_range(self@, i, request.base, request.len) by {
                            assert(!maps_range(s, i + 1, request.base, request.len));
                        }
                    }
                    Acquire::Create(next)
                }
            },
        }
    }
}

/// The entries after these answers to the request, and how it ended, if it has.
pub open spec fn answered<A>(
    s: Seq<CachedEntry<A>>,
    request: ApertureRequest,
    answers: Seq<Result<A, HRESULT>>,
) -> (Seq<CachedEntry<A>>, Option<Result<A, HRESULT>>)
    decreases answers.len(),
{
    if answers.len() == 0 {
        (s, None)
    } else {
        match answers[0] {
            Ok(ap) => (
                s.push(CachedEntry { base: request.base, len: request.len, ap }),
                Some(Ok(ap)),
            ),
            Err(hr) => if gives_up(s, request, hr) {
                (s, Some(Err(hr)))
            } else {
                answered(
                    without_oldest(s),
                    ApertureRequest { evictions: (request.evictions + 1) as usize, ..request },
                    answers.drop_first(),
                )
            },
        }
    }
}

/// The entries after a request for the range `(base, len)` that the host gives these
/// answers to, and how it ended, if it has.
pub open spec fn acquired<A>(
    s: Seq<CachedEntry<A>>,
    base: u64,
    len: u64,
    answers: Seq<Result<A, HRESULT>>,
) -> (Seq<CachedEntry<A>>, Option<Result<A, HRESULT>>) {
    if holds(s, base, len) {
        (touched(s, base, len), Some(Ok(s[place(s, base, len)].ap)))
    } else {
        let room = if s.len() >= PER_SHARD_MAX {
            without_oldest(s)
        } else {
            s
        };
        answered(room, ApertureRequest { base, len, evictions: 0 }, answers)
    }
}

/// A failed host call ends the request: the code is not exhausted quota, nothing
/// is left to drop, or the retries have reached their bound.
pub open spec fn gives_up<A>(s: Seq<CachedEntry<A>>, request: ApertureRequest, hr: HRESULT) -> bool {
    ||| crate::hresult::code_of(hr) != ERROR_NOT_ENOUGH_QUOTA
    ||| s.len() == 0
    ||| request.evictions >= PER_SHARD_MAX
}

impl<A: Clone> Shard<A> {
    /// Makes the entry at `i` the most recent one and hands its aperture out.
    fn touch(&mut self, i: usize) -> (a: A)
        requires
            old(self).wf(),
            i < old(self)@.len(),
        ensures
            final(self).wf(),
            final(self)@ == old(self)@.remove(i as int).push(old(self)@[i as int]),
            cloned(old(self)@[i as int].ap, a),
    {
        let e = self.cache.remove(i);
        let a = e.ap.clone();
        self.cache.push(e);
        a
    }

    /// The hit path: the entry becomes the most recent one and its aperture is
    /// handed out.
    pub fn lookup(&mut self, key: (u64, u64)) -> (r: Option<A>)
        requires
            old(self).wf(),
        ensures
            final(self).wf(),
            holds(old(self)@, key.0, key.1) ==> {
                &&& r matches Some(a) && cloned(
                    old(self)@[place(old(self)@, key.0, key.1)].ap,
                    a,
                )
                &&& final(self)@ == touched(old(self)@, key.0, key.1)
            },
            !holds(old(self)@, key.0, key.1) ==> {
                &&& r is None
                &&& final(self)@ == old(self)@
            },
    {
        match self.find(key.0, key.1) {
            None => None,
            Some(i) => {
                proof {
                    lemma_place(self@, i as int, key.0, key.1);
                }
                Some(self.touch(i))
            },
        }
    }

    /// The miss path, up to the host call: a range that was cached meanwhile is
    /// adopted; otherwise a full shard drops its oldest entry and the range is to
    /// be mapped.
    pub fn get_or_create(&mut self, base: u64, len: u64, stats: &mut Stats) -> (r: Acquire<A>)
        requires
            old(self).wf(),
        ensures
            final(self).wf(),
            holds(old(self)@, base, len) ==> {
                &&& r matches Acquire::Ready(a) && cloned(
                    old(self)@[place(old(self)@, base, len)].ap,
                    a,
                )
                &&& final(self)@ == touched(old(self)@, base, len)
                &&& *final(stats) == old(stats).counted(Counter::Hits)
            },
            !holds(old(self)@, base, len) ==> {
                &&& r == Acquire::<A>::Create(ApertureRequest { base, len, evictions: 0 })
                &&& final(self).awaits(r->Create_0)
                &&& if old(self)@.len() >= PER_SHARD_MAX {
                    &&& final(self)@ == without_oldest(old(self)@)
                    &&& *final(stats) == old(stats).evicted()
                } else {
                    &&& final(self)@ == old(self)@
                    &&& *final(stats) == *old(stats)
                }
            },
    {
        match self.find(base, len) {
            Some(i) => {
                proof {
                    lemma_place(self@, i as int, base, len);
                }
                let a = self.touch(i);
                stats.count(Counter::Hits);
                Acquire::Ready(a)
            },
            None => {
                let ghost s = self@;
                if self.cache.len() >= PER_SHARD_MAX {
                    self.evict_one(stats);
                    proof {
                        assert forall|i: int| !maps_range(self@, i, base, len) by {
                            assert(!maps_range(s, i + 1, base, len));
                        }
                    }
                }
                Acquire::Create(ApertureRequest { base, len, evictions: 0 })
            },
        }
    }

    /// The miss path from start to end, when the host gives these answers, one for
    /// each call that is made; with too few of them it ends at the call that waits.
    pub fn get_or_create_with(
        &mut self,
        base: u64,
        len: u64,
        answers: Vec<Result<A, HRESULT>>,
        stats: &mut Stats,
    ) -> (r: Acquire<A>)
        requires
            old(self).wf(),
            old(stats).enabled ==> old(self)@.len() <= old(stats).live < usize::MAX,
        ensures
            final(self).wf(),
            ({
                let (s, end) = acquired(old(self)@, base, len, answers@);
                &&& final(self)@ == s
                &&& match end {
                    Some(Ok(ap)) => r matches Acquire::Ready(a) && cloned(ap, a),
                    Some(Err(hr)) => r == Acquire::<A>::Failed(hr),
                    None => r matches Acquire::Create(q) && q.base == base && q.len == len,
                }
            }),
    {
        let ghost (s, end) = acquired(self@, base, len, answers@);
        let mut left = answers;
        let mut r = self.get_or_create(base, len, stats);
        while left.len() > 0
            invariant
                self.wf(),
                stats.enabled ==> self@.len() <= stats.live < usize::MAX || !(r is Create),
                match r {
                    Acquire::Ready(a) => {
                        &&& self@ == s
                        &&& end matches Some(Ok(ap)) && cloned(ap, a)
                    },
                    Acquire::Failed(hr) => self@ == s && end == Some(Err::<A, HRESULT>(hr)),
                    Acquire::Create(q) => {
                        &&& self.awaits(q)
                        &&& q.base == base && q.len == len
                        &&& answered(self@, q, left@) == (s, end)
                    },
                },
            decreases left@.len(),
        {
            let ghost before = left@;
            let answer = left.remove(0);
            assert(left@ =~= before.drop_first());
            match r {
                Acquire::Create(q) => {
                    r = self.created(q, answer, stats);
                },
                over => {
                    r = over;
                },
            }
        }
        r
    }

    /// Caches `value` under `key` as the most recent entry, as the miss path does
    /// once the host call has succeeded. A full shard drops its oldest entry first,
    /// and a range that is still cached gives its place up to the new value.
    pub fn insert(&mut self, key: (u64, u64), value: A, stats: &mut Stats)
        requires
            old(self).wf(),
        ensures
            final(self).wf(),
            ({
                let full = old(self)@.len() >= PER_SHARD_MAX;
                let s = if full {
                    without_oldest(old(self)@)
                } else {
                    old(self)@
                };
                let rest = if holds(s, key.0, key.1) {
                    s.remove(place(s, key.0, key.1))
                } else {
                    s
                };
                &&& final(self)@ == rest.push(CachedEntry { base: key.0, len: key.1, ap: value })
                &&& *final(stats) == if full {
                    old(stats).evicted()
                } else {
                    *old(stats)
                }
            }),
    {
        if self.cache.len() >= PER_SHARD_MAX {
            self.evict_one(stats);
        }
        let ghost s = self@;
        match self.find(key.0, key.1) {
            Some(i) => {
                proof {
                    lemma_place(self@, i as int, key.0, key.1);
                }
                self.cache.remove(i);
                proof {
                    assert(distinct_ranges(self@));
                    assert forall|j: int| !maps_range(self@, j, key.0, key.1) by {
                        let k = if j < i {
                            j
                        } else {
                            j + 1
                        };
                        if maps_range(self@, j, key.0, key.1) {
                            lemma_place(s, k, key.0, key.1);
                        }
                    }
                }
            },
            None => {},
        }
        assert(!holds(self@, key.0, key.1));
        let ghost rest = self@;
        self.cache.push(CachedEntry { base: key.0, len: key.1, ap: value });
        proof {
            assert forall|i: int, j: int|
                0 <= i < j < self@.len() implies !(#[trigger] self@[i].base
                == #[trigger] self@[j].base && self@[i].len == self@[j].len) by {
                if j == rest.len() {
                    assert(!maps_range(rest, i, key.0, key.1));
                }
            }
        }
    }
}

/// With no range cached twice, an entry's place is where its range is found.
proof fn lemma_place<A>(s: Seq<CachedEntry<A>>, i: int, base: u64, len: u64)
    requires
        distinct_ranges(s),
        maps_range(s, i, base, len),
    ensures
        place(s, base, len) == i,
        holds(s, base, len),
{
    let p = place(s, base, len);
    assert(maps_range(s, p, base, len));
    if p < i {
        assert(s[p].base == s[i].base);
    } else if i < p {
        assert(s[i].base == s[p].base);
    }
}

// ---------------------------------------------------------------------------
// Guest memory
// ---------------------------------------------------------------------------

/// Base of the guest's high memory: RAM that does not fit below the 32-bit MMIO
/// hole is remapped to start here.
pub const HIGH_RAM_BASE: u64 = 0x1_0000_0000;

/// Print a summary at most every this many accesses ...
pub const STATS_EVERY: u64 = 4096;

/// ... or this many milliseconds, whichever comes first.
pub const STATS_EVERY_MS: u64 = 500;

/// The ceiling on guest physical addresses for a guest with `ram_size` bytes:
/// high RAM ends below `HIGH_RAM_BASE + ram_size`, wherever the host splits it.
pub fn ram_size_to_max_gpa(ram_size: u64) -> (max: u64)
    ensures
        max == max_gpa(ram_size),
{
    HIGH_RAM_BASE.saturating_add(ram_size)
}

/// `HIGH_RAM_BASE + ram_size`, or the largest address where that does not fit.
pub open spec fn max_gpa(ram_size: u64) -> int {
    if HIGH_RAM_BASE + ram_size > u64::MAX {
        u64::MAX as int
    } else {
        HIGH_RAM_BASE + ram_size
    }
}

/// Why an access to guest memory was denied.
#[derive(Clone, Copy, Debug, PartialEq, Eq, Structural)]
pub enum AccessError {
    /// The device handle is not bound yet.
    NotBound,
    /// The range overflows the address space, exceeds guest RAM, or touches more
    /// pages than one aperture maps.
    BadRange,
    /// `HdvCreateGuestMemoryAperture` failed.
    ApertureFailed(HRESULT),
}

/// The text of an [`AccessError`].
pub open spec fn access_error_text(e: AccessError) -> Seq<char> {
    match e {
        AccessError::NotBound => "HDV device handle not bound yet"@,
        AccessError::BadRange => "guest access range overflows or exceeds guest RAM"@,
        AccessError::ApertureFailed(hr) => "HdvCreateGuestMemoryAperture failed: HRESULT "@
            + crate::hresult::hresult_text(hr),
    }
}

impl AccessError {
    /// What to tell about it.
    pub fn message(&self) -> (s: String)
        ensures
            s@ == access_error_text(*self),
    {
        match self {
            AccessError::NotBound => "HDV device handle not bound yet".to_owned(),
            AccessError::BadRange => "guest access range overflows or exceeds guest RAM".to_owned(),
            AccessError::ApertureFailed(hr) => with_hresult(
                "HdvCreateGuestMemoryAperture failed: HRESULT ",
                *hr,
            ),
        }
    }
}

/// The pages that an access touches.
#[derive(Clone, Copy, Debug, PartialEq, Eq, Structural)]
pub struct AccessPlan {
    /// The first page.
    pub base: u64,
    /// The bytes to map, from `base`.
    pub span: u64,
    /// Where the access starts, from `base`.
    pub offset: u64,
}

/// `n` rounded up to whole pages.
pub open spec fn whole_pages(n: int) -> int {
    (n + PAGE - 1) / (PAGE as int) * PAGE
}

/// The pages that `[addr, addr + len)` touches, below `max_address`.
pub open spec fn planned(max_address: u64, addr: u64, len: int) -> AccessPlan {
    let base = addr - addr % PAGE;
    let pages = whole_pages(addr + len - base);
    AccessPlan {
        base: base as u64,
        span: if pages <= max_address - base {
            pages as u64
        } else {
            (max_address - base) as u64
        },
        offset: (addr % PAGE) as u64,
    }
}

/// `[addr, addr + len)` can be served: it ends within guest RAM, and one aperture
/// maps its pages.
pub open spec fn reachable(max_address: u64, addr: u64, len: int) -> bool {
    addr + len <= max_address && planned(max_address, addr, len).span <= APERTURE_MAX
}

/// The page-aligned range that serves an access: from the page of its first byte
/// to the end of the page of its last one, clamped to guest RAM. An access that
/// does not end within guest RAM has none, nor has one whose pages one aperture
/// does not map.
pub fn plan_access(max_address: u64, addr: u64, len: usize) -> (r: Result<AccessPlan, AccessError>)
    ensures
        r == if reachable(max_address, addr, len as int) {
            Ok(planned(max_address, addr, len as int))
        } else {
            Err::<AccessPlan, AccessError>(AccessError::BadRange)
        },
{
    let end: u64 = match addr.checked_add(len as u64) {
        None => return Err(AccessError::BadRange),
        Some(end) => end,
    };
    if end > max_address {
        return Err(AccessError::BadRange);
    }
    let base: u64 = (addr / PAGE) * PAGE;
    let need: u64 = end - base;
    let pages: u64 = need / PAGE + if need % PAGE == 0 {
        0
    } else {
        1
    };
    let limit: u64 = max_address - base;
    let span: u64 = if pages <= limit / PAGE {
        pages * PAGE
    } else {
        limit
    };
    if span > APERTURE_MAX {
        return Err(AccessError::BadRange);
    }
    Ok(AccessPlan { base, span, offset: addr - base })
}

/// The shard that owns the page-aligned `base`.
pub open spec fn shard_of(base: u64) -> int {
    (base / PAGE) as int % SHARDS as int
}

/// The index of the shard that owns the page-aligned `base`: consecutive pages
/// go to consecutive shards.
pub fn shard_index(base: u64) -> (i: usize)
    ensures
        i == shard_of(base),
        i < SHARDS,
{
    ((base / PAGE) % 16) as usize
}

/// A mapping that an access waits for.
#[derive(Clone, Copy, Debug, PartialEq, Eq, Structural)]
pub struct AccessRequest {
    /// The device on which the host call is made.
    pub device: Device,
    /// Where the access starts, from the base of the aperture.
    pub offset: u64,
    /// The range to map.
    pub aperture: ApertureRequest,
}

/// What guest memory answers to an access.
pub enum Access<A> {
    /// The bytes stand at `offset` in the aperture.
    Mapped { ap: A, offset: u64 },
    /// Map this range, and hand the outcome to [`HdvApertureMem::mapping_created`].
    Create(AccessRequest),
    /// The access cannot be made.
    Denied(AccessError),
}

/// How many apertures these shards hold together.
pub open spec fn total<A>(shards: Seq<Shard<A>>) -> nat
    decreases shards.len(),
{
    if shards.len() == 0 {
        0
    } else {
        total(shards.drop_last()) + shards.last()@.len()
    }
}

/// Guest memory behind an on-demand cache of apertures.
pub struct HdvApertureMem<A> {
    /// The handle of the device, which is bound after the guest memory is made.
    pub handle: DeviceHandle,
    /// The ceiling on guest physical addresses.
    pub max_address: u64,
    pub shards: Vec<Shard<A>>,
    pub stats: Stats,
    /// When a summary was last due by the clock, in milliseconds since the start.
    pub last_emit_ms: u64,
}

impl<A> HdvApertureMem<A> {
    /// Every shard keeps its invariant, and the live counter, where counters are
    /// recorded, is the number of cached apertures.
    pub open spec fn wf(&self) -> bool {
        &&& self.shards@.len() == SHARDS
        &&& forall|i: int| 0 <= i < SHARDS ==> (#[trigger] self.shards@[i]).wf()
        &&& self.stats.enabled ==> self.stats.live == total(self.shards@)
    }

    /// The entries of the shard that owns `base`.
    pub open spec fn owner(&self, base: u64) -> Seq<CachedEntry<A>> {
        self.shards@[shard_of(base)]@
    }

    /// `self` is `before`, but for the entries `s` of the shard that owns `base`
    /// and for the counters `stats`.
    pub open spec fn steps(&self, before: Self, base: u64, s: Seq<CachedEntry<A>>, stats: Stats) -> bool {
        &&& self.handle == before.handle
        &&& self.max_address == before.max_address
        &&& self.last_emit_ms == before.last_emit_ms
        &&& self.stats == stats
        &&& self.shards@.len() == before.shards@.len()
        &&& self.owner(base) == s
        &&& forall|i: int|
            0 <= i < SHARDS && i != shard_of(base) ==> (#[trigger] self.shards@[i])@
                == before.shards@[i]@
    }

    /// `request` waits for its host call, which can map its range as a whole.
    pub open spec fn awaits(&self, request: AccessRequest) -> bool {
        &&& self.shards@[shard_of(request.aperture.base)].awaits(request.aperture)
        &&& request.aperture.len <= APERTURE_MAX
    }

    /// Guest memory for a guest with `ram_size` bytes of RAM, nothing mapped yet,
    /// reached through the device behind `handle`.
    pub fn new(handle: DeviceHandle, ram_size: u64, stats_enabled: bool) -> (mem: HdvApertureMem<A>)
        ensures
            mem.wf(),
            mem.handle == handle,
            mem.max_address == max_gpa(ram_size),
            forall|i: int|
                0 <= i < SHARDS ==> (#[trigger] mem.shards@[i])@ == Seq::<
                    CachedEntry<A>,
                >::empty(),
            mem.stats.enabled == stats_enabled,
            mem.stats == (Stats {
                enabled: stats_enabled,
                ops: 0,
                hits: 0,
                creates: 0,
                evicts: 0,
                quota_retries: 0,
                create_fails: 0,
                bad_range: 0,
                not_bound: 0,
                live: 0,
                peak_live: 0,
                max_span: 0,
            }),
            mem.last_emit_ms == 0,
    {
        let mut shards: Vec<Shard<A>> = Vec::new();
        let mut i: usize = 0;
        while i < SHARDS
            invariant
                i <= SHARDS,
                shards@.len() == i,
                forall|j: int|
                    0 <= j < i ==> (#[trigger] shards@[j]).wf() && shards@[j]@.len() == 0,
                total(shards@) == 0,
            decreases SHARDS - i,
        {
            let ghost before = shards@;
            shards.push(Shard::new());
            assert(shards@.drop_last() =~= before);
            i = i + 1;
        }
        HdvApertureMem {
            handle,
            max_address: ram_size_to_max_gpa(ram_size),
            shards,
            stats: Stats::new(stats_enabled),
            last_emit_ms: 0,
        }
    }

    /// Counts an access and says whether a summary of the counters is due, by the
    /// number of accesses or by the clock. `elapsed_ms` is the time since the
    /// start.
    pub fn maybe_emit_stats(&mut self, elapsed_ms: u64) -> (due: bool)
        requires
            old(self).wf(),
        ensures
            final(self).wf(),
            final(self).handle == old(self).handle,
            final(self).max_address == old(self).max_address,
            final(self).shards == old(self).shards,
            final(self).stats == old(self).stats.counted(Counter::Ops),
            ({
                let on = old(self).stats.enabled;
                let by_ops = old(self).stats.ops % STATS_EVERY == STATS_EVERY - 1;
                let by_time = elapsed_ms - old(self).last_emit_ms >= STATS_EVERY_MS;
                &&& due == (on && (by_ops || by_time))
                &&& final(self).last_emit_ms == if on && by_time {
                    elapsed_ms
                } else {
                    old(self).last_emit_ms
                }
            }),
    {
        if !self.stats.enabled {
            return false;
        }
        let n: u64 = self.stats.ops;
        self.stats.count(Counter::Ops);
        let by_ops = n % STATS_EVERY == STATS_EVERY - 1;
        let by_time = elapsed_ms.saturating_sub(self.last_emit_ms) >= STATS_EVERY_MS;
        if by_time {
            self.last_emit_ms = elapsed_ms;
        }
        by_ops || by_time
    }

    /// The counters to report when guest memory goes away, where they are recorded.
    pub fn final_stats(&self) -> (r: Option<Stats>)
        ensures
            r == if self.stats.enabled {
                Some(self.stats)
            } else {
                None
            },
    {
        if self.stats.enabled {
            Some(self.stats)
        } else {
            None
        }
    }
}

proof fn lemma_total_step<A>(before: Seq<Shard<A>>, after: Seq<Shard<A>>, k: int)
    requires
        before.len() == after.len(),
        0 <= k < before.len(),
        forall|i: int|
            0 <= i < before.len() && i != k ==> (#[trigger] after[i])@ == before[i]@,
    ensures
        total(after) - total(before) == after[k]@.len() - before[k]@.len(),
    decreases before.len(),
{
    let n = before.len() - 1;
    if k == n {
        lemma_total_same(before.drop_last(), after.drop_last());
    } else {
        assert(after[n]@ == before[n]@);
        lemma_total_step(before.drop_last(), after.drop_last(), k);
    }
}

proof fn lemma_total_same<A>(before: Seq<Shard<A>>, after: Seq<Shard<A>>)
    requires
        before.len() == after.len(),
        forall|i: int| 0 <= i < before.len() ==> (#[trigger] after[i])@ == before[i]@,
    ensures
        total(after) == total(before),
    decreases before.len(),
{
    if before.len() > 0 {
        let n = before.len() - 1;
        assert(after[n]@ == before[n]@);
        lemma_total_same(before.drop_last(), after.drop_last());
    }
}

proof fn lemma_total_bound<A>(shards: Seq<Shard<A>>)
    requires
        forall|i: int| 0 <= i < shards.len() ==> (#[trigger] shards[i]).wf(),
    ensures
        total(shards) <= shards.len() * PER_SHARD_MAX,
    decreases shards.len(),
{
    if shards.len() > 0 {
        assert(shards[shards.len() - 1].wf());
        lemma_total_bound(shards.drop_last());
    }
}

impl<A: Clone> HdvApertureMem<A> {
    /// Starts an access to guest physical `[addr, addr + len)`. The range is
    /// served by one aperture covering its pages: a cached one, or one that the
    /// host has to make on the device.
    pub fn with_mapping(&mut self, slots: &DeviceSlots, addr: u64, len: usize) -> (r: Access<A>)
        requires
            old(self).wf(),
        ensures
            final(self).wf(),
            old(self).handle.bound(slots@) is None ==> {
                &&& r == Access::<A>::Denied(AccessError::NotBound)
                &&& final(self).steps(
                    *old(self),
                    0,
                    old(self).owner(0),
                    old(self).stats.counted(Counter::NotBound),
                )
            },
            old(self).handle.bound(slots@) is Some && !reachable(
                old(self).max_address,
                addr,
                len as int,
            ) ==> {
                &&& r == Access::<A>::Denied(AccessError::BadRange)
                &&& final(self).steps(
                    *old(self),
                    0,
                    old(self).owner(0),
                    old(self).stats.counted(Counter::BadRange),
                )
            },
            old(self).handle.bound(slots@) is Some && reachable(
                old(self).max_address,
                addr,
                len as int,
            ) ==> {
                let plan = planned(old(self).max_address, addr, len as int);
                let s = old(self).owner(plan.base);
                if holds(s, plan.base, plan.span) {
                    &&& r matches Access::Mapped { ap, offset } && offset == plan.offset && cloned(
                        s[place(s, plan.base, plan.span)].ap,
                        ap,
                    )
                    &&& final(self).steps(
                        *old(self),
                        plan.base,
                        touched(s, plan.base, plan.span),
                        old(self).stats.counted(Counter::Hits),
                    )
                } else {
                    &&& r == Access::<A>::Create(
                        AccessRequest {
                            device: old(self).handle.bound(slots@)->0,
                            offset: plan.offset,
                            aperture: ApertureRequest {
                                base: plan.base,
                                len: plan.span,
                                evictions: 0,
                            },
                        },
                    )
                    &&& final(self).awaits(r->Create_0)
                    &&& if s.len() >= PER_SHARD_MAX {
                        final(self).steps(
                            *old(self),
                            plan.base,
                            without_oldest(s),
                            old(self).stats.evicted(),
                        )
                    } else {
                        final(self).steps(*old(self), plan.base, s, old(self).stats)
                    }
                }
            },
    {
        let device = match self.handle.get(slots) {
            None => {
                self.stats.count(Counter::NotBound);
                return Access::Denied(AccessError::NotBound);
            },
            Some(device) => device,
        };
        let plan = match plan_access(self.max_address, addr, len) {
            Err(e) => {
                self.stats.count(Counter::BadRange);
                return Access::Denied(e);
            },
            Ok(plan) => plan,
        };
        let i = shard_index(plan.base);
        let ghost before = self.shards@;
        match self.shards[i].lookup((plan.base, plan.span)) {
            Some(ap) => {
                self.stats.count(Counter::Hits);
                proof {
                    lemma_total_step(before, self.shards@, i as int);
                }
                Access::Mapped { ap, offset: plan.offset }
            },
            None => {
                let ghost mid = self.shards@;
                proof {
                    lemma_total_same(before, mid);
                }
                let r = self.shards[i].get_or_create(plan.base, plan.span, &mut self.stats);
                proof {
                    lemma_total_step(mid, self.shards@, i as int);
                }
                match r {
                    Acquire::Ready(ap) => Access::Mapped { ap, offset: plan.offset },
                    Acquire::Create(aperture) => Access::Create(
                        AccessRequest { device, offset: plan.offset, aperture },
                    ),
                    Acquire::Failed(hr) => Access::Denied(AccessError::ApertureFailed(hr)),
                }
            },
        }
    }

    /// The host's answer to an [`Access::Create`].
    pub fn mapping_created(
        &mut self,
        request: AccessRequest,
        outcome: Result<A, HRESULT>,
    ) -> (r: Access<A>)
        requires
            old(self).wf(),
            old(self).awaits(request),
        ensures
            final(self).wf(),
            ({
                let a = request.aperture;
                let s = old(self).owner(a.base);
                match outcome {
                    Ok(made) => {
                        &&& r matches Access::Mapped { ap, offset } && offset == request.offset
                            && cloned(made, ap)
                        &&& final(self).steps(
                            *old(self),
                            a.base,
                            s.push(CachedEntry { base: a.base, len: a.len, ap: made }),
                            old(self).stats.mapped(a.len),
                        )
                    },
                    Err(hr) => if gives_up(s, a, hr) {
                        &&& r == Access::<A>::Denied(AccessError::ApertureFailed(hr))
                        &&& final(self).steps(
                            *old(self),
                            a.base,
                            s,
                            old(self).stats.counted(Counter::CreateFails),
                        )
                    } else {
                        &&& r == Access::<A>::Create(
                            AccessRequest {
                                device: request.device,
                                offset: request.offset,
                                aperture: ApertureRequest {
                                    evictions: (a.evictions + 1) as usize,
                                    ..a
                                },
                            },
                        )
                        &&& final(self).awaits(r->Create_0)
                        &&& final(self).steps(
                            *old(self),
                            a.base,
                            without_oldest(s),
                            old(self).stats.counted(Counter::QuotaRetries).evicted(),
                        )
                    },
                }
            }),
    {
        let i = shard_index(request.aperture.base);
        let ghost before = self.shards@;
        proof {
            lemma_total_bound(before);
        }
        let r = self.shards[i].created(request.aperture, outcome, &mut self.stats);
        proof {
            lemma_total_step(before, self.shards@, i as int);
        }
        match r {
            Acquire::Ready(ap) => Access::Mapped { ap, offset: request.offset },
            Acquire::Create(aperture) => Access::Create(
                AccessRequest { device: request.device, offset: request.offset, aperture },
            ),
            Acquire::Failed(hr) => Access::Denied(AccessError::ApertureFailed(hr)),
        }
    }
}

// ---------------------------------------------------------------------------
// Laws
// ---------------------------------------------------------------------------

/// The aperture planned for an access covers it: the access lies within
/// `[base, base + span)`, which starts on a page and stays below the ceiling, and
/// which the host call maps as a whole.
pub proof fn law_access_lies_in_its_aperture(max_address: u64, addr: u64, len: usize)
    requires
        reachable(max_address, addr, len as int),
    ensures
        ({
            let plan = planned(max_address, addr, len as int);
            &&& plan.base % PAGE == 0
            &&& plan.base + plan.offset == addr
            &&& plan.offset + len <= plan.span
            &&& plan.base + plan.span <= max_address
            &&& plan.span <= APERTURE_MAX
        }),
{
}

/// The cache as a whole never holds more than [`MAX_ENTRIES`] apertures.
pub proof fn law_cache_is_bounded<A>(mem: HdvApertureMem<A>)
    requires
        mem.wf(),
    ensures
        total(mem.shards@) <= MAX_ENTRIES,
{
    lemma_total_bound(mem.shards@);
}

/// A range that was just mapped hits, and yields the mapping that was made.
pub proof fn law_mapped_range_hits<A>(s: Seq<CachedEntry<A>>, entry: CachedEntry<A>)
    requires
        distinct_ranges(s),
        !holds(s, entry.base, entry.len),
    ensures
        holds(s.push(entry), entry.base, entry.len),
        s.push(entry)[place(s.push(entry), entry.base, entry.len)].ap == entry.ap,
{
    let t = s.push(entry);
    assert(maps_range(t, s.len() as int, entry.base, entry.len));
    let p = place(t, entry.base, entry.len);
    assert(maps_range(t, p, entry.base, entry.len));
    if p < s.len() {
        assert(maps_range(s, p, entry.base, entry.len));
    }
}

/// A request for a range keeps the cap, whatever the host answers. A cached range is
/// handed out without a host call, and no entry comes or goes. What a request is
/// given is cached for its range then, as the most recent entry.
pub proof fn law_request_keeps_the_cap_and_caches_what_it_gives<A>(
    s: Seq<CachedEntry<A>>,
    base: u64,
    len: u64,
    answers: Seq<Result<A, HRESULT>>,
)
    requires
        distinct_ranges(s),
        s.len() <= PER_SHARD_MAX,
    ensures
        ({
            let (t, end) = acquired(s, base, len, answers);
            &&& t.len() <= PER_SHARD_MAX
            &&& holds(s, base, len) ==> {
                &&& acquired(s, base, len, answers) == acquired(s, base, len, Seq::empty())
                &&& end == Some(Ok::<A, HRESULT>(s[place(s, base, len)].ap))
                &&& t.to_multiset() == s.to_multiset()
            }
            &&& end matches Some(Ok(ap)) ==> {
                &&& t.len() > 0
                &&& t.last() == (CachedEntry { base, len, ap })
            }
        }),
{
    if holds(s, base, len) {
        let i = place(s, base, len);
        assert(maps_range(s, i, base, len));
        broadcast use vstd::seq_lib::group_to_multiset_ensures;

        assert(s.remove(i).push(s[i]).to_multiset() =~= s.to_multiset());
    } else {
        let room = if s.len() >= PER_SHARD_MAX {
            without_oldest(s)
        } else {
            s
        };
        lemma_answered(room, ApertureRequest { base, len, evictions: 0 }, answers);
    }
}

proof fn lemma_answered<A>(
    s: Seq<CachedEntry<A>>,
    request: ApertureRequest,
    answers: Seq<Result<A, HRESULT>>,
)
    requires
        s.len() < PER_SHARD_MAX,
    ensures
        ({
            let (t, end) = answered(s, request, answers);
            &&& t.len() <= PER_SHARD_MAX
            &&& end matches Some(Ok(ap)) ==> t.len() > 0 && t.last() == (CachedEntry {
                base: request.base,
                len: request.len,
                ap,
            })
        }),
    decreases answers.len(),
{
    if answers.len() > 0 {
        match answers[0] {
            Ok(_) => {},
            Err(hr) => if !gives_up(s, request, hr) {
                lemma_answered(
                    without_oldest(s),
                    ApertureRequest { evictions: (request.evictions + 1) as usize, ..request },
                    answers.drop_first(),
                );
            },
        }
    }
}

/// A hit changes no mapping: the same ranges stay cached, with the same
/// apertures.
pub proof fn law_hit_keeps_every_mapping<A>(
    s: Seq<CachedEntry<A>>,
    base: u64,
    len: u64,
    other_base: u64,
    other_len: u64,
)
    requires
        distinct_ranges(s),
        holds(s, base, len),
    ensures
        holds(s, other_base, other_len) <==> holds(touched(s, base, len), other_base, other_len),
        holds(s, other_base, other_len) ==> s[place(s, other_base, other_len)].ap == touched(
            s,
            base,
            len,
        )[place(touched(s, base, len), other_base, other_len)].ap,
{
    let i = place(s, base, len);
    let t = touched(s, base, len);
    assert(maps_range(s, i, base, len));
    assert(distinct_ranges(t));
    if holds(s, other_base, other_len) {
        let p = place(s, other_base, other_len);
        assert(maps_range(s, p, other_base, other_len));
        let q = if p < i {
            p
        } else if p == i {
            t.len() - 1
        } else {
            p - 1
        };
        lemma_place(t, q, other_base, other_len);
    }
    if holds(t, other_base, other_len) {
        let q = place(t, other_base, other_len);
        assert(maps_range(t, q, other_base, other_len));
        let p = if q == t.len() - 1 {
            i
        } else if q < i {
            q
        } else {
            q + 1
        };
        assert(maps_range(s, p, other_base, other_len));
    }
}

/// Eviction takes the entry that was used longest ago: one that was used last
/// stays through as many evictions as there are other entries, and is the only
/// one left then.
pub proof fn law_used_entry_is_evicted_last<A>(
    s: Seq<CachedEntry<A>>,
    base: u64,
    len: u64,
    n: nat,
)
    requires
        distinct_ranges(s),
        holds(s, base, len),
        n < s.len(),
    ensures
        holds(without_oldest_n(touched(s, base, len), n), base, len),
        n == s.len() - 1 ==> without_oldest_n(touched(s, base, len), n) == seq![
            s[place(s, base, len)],
        ],
{
    let t = touched(s, base, len);
    let i = place(s, base, len);
    assert(maps_range(s, i, base, len));
    let u = without_oldest_n(t, n);
    assert(maps_range(u, u.len() - 1, base, len));
    assert(n == s.len() - 1 ==> u =~= seq![s[i]]);
}

/// The entries and the request after `n` answers of exhausted quota in a row, or
/// `None` where the request has ended before that.
pub open spec fn after_refusals<A>(
    s: Seq<CachedEntry<A>>,
    request: ApertureRequest,
    hr: HRESULT,
    n: nat,
) -> Option<(Seq<CachedEntry<A>>, ApertureRequest)>
    decreases n,
{
    if n == 0 {
        Some((s, request))
    } else if gives_up(s, request, hr) {
        None
    } else {
        after_refusals(
            without_oldest(s),
            ApertureRequest { evictions: (request.evictions + 1) as usize, ..request },
            hr,
            (n - 1) as nat,
        )
    }
}

/// Exhausted quota drops one entry, the oldest, for each retry, and the retries
/// end: after as many as the shard had entries, or [`PER_SHARD_MAX`], whichever
/// is less.
pub proof fn law_quota_retries_drop_the_oldest_and_end<A>(
    s: Seq<CachedEntry<A>>,
    request: ApertureRequest,
    hr: HRESULT,
    n: nat,
)
    requires
        crate::hresult::code_of(hr) == ERROR_NOT_ENOUGH_QUOTA,
        request.evictions <= PER_SHARD_MAX,
    ensures
        after_refusals(s, request, hr, n) == if n <= s.len() && request.evictions + n
            <= PER_SHARD_MAX {
            Some(
                (
                    without_oldest_n(s, n),
                    ApertureRequest { evictions: (request.evictions + n) as usize, ..request },
                ),
            )
        } else {
            None
        },
    decreases n,
{
    if n == 0 {
        assert(without_oldest_n(s, 0) =~= s);
    } else if !gives_up(s, request, hr) {
        let next = ApertureRequest { evictions: (request.evictions + 1) as usize, ..request };
        law_quota_retries_drop_the_oldest_and_end(without_oldest(s), next, hr, (n - 1) as nat);
        if n <= s.len() {
            assert(without_oldest_n(without_oldest(s), (n - 1) as nat) =~= without_oldest_n(s, n));
        }
    }
}

/// Consecutive pages go to consecutive shards, round and round.
pub proof fn law_consecutive_pages_spread(base: u64)
    requires
        base + PAGE <= u64::MAX,
    ensures
        shard_of((base + PAGE) as u64) == (shard_of(base) + 1) % (SHARDS as int),
{
    let page: int = base as int / 4096;
    assert((base + 4096) / 4096 == page + 1);
    assert((page + 1) % 16 == (page % 16 + 1) % 16);
}

/// The ceiling admits all guest RAM, wherever the host splits it: the `low` bytes
/// below the hole, and the rest, which is remapped above [`HIGH_RAM_BASE`].
pub proof fn law_ceiling_admits_all_ram(ram_size: u64, low: u64)
    requires
        low <= ram_size,
        low <= HIGH_RAM_BASE,
        HIGH_RAM_BASE + (ram_size - low) <= u64::MAX,
    ensures
        low <= max_gpa(ram_size),
        HIGH_RAM_BASE + (ram_size - low) <= max_gpa(ram_size),
{
}

/// Every access that ends within guest RAM is planned, wherever it lies, if the pages
/// that it touches, as far as they lie within guest RAM, are less than 2^32 bytes:
/// from the page of its first byte to the end of the page of its last one. Any other
/// access is refused.
pub proof fn law_every_access_within_ram_is_planned(
    max_address: u64,
    addr: u64,
    len: usize,
    r: Result<AccessPlan, AccessError>,
)
    requires
        call_ensures(plan_access, (max_address, addr, len), r),
    ensures
        ({
            let first = addr / 4096 * 4096;
            let pages_end = (addr + len + 4095) / 4096 * 4096;
            let end = if pages_end <= max_address {
                pages_end
            } else {
                max_address as int
            };
            &&& addr + len <= max_address && end - first <= 0xffff_ffff ==> {
                &&& r matches Ok(plan)
                &&& plan.base == first
                &&& plan.base + plan.span == end
                &&& plan.base + plan.offset == addr
            }
            &&& addr + len > max_address || end - first > 0xffff_ffff ==> r
                == Err::<AccessPlan, AccessError>(AccessError::BadRange)
        }),
{
}

/// What is asked of the host for an access, or handed out from the cache, serves that
/// access: the aperture starts at its page and reaches over its last byte, the offset
/// leads to its first byte, and the call is made on the device of the handle. An
/// access within guest RAM is never denied by the library itself.
pub proof fn law_access_is_served_where_it_lies<A: Clone>(
    mem: &mut HdvApertureMem<A>,
    slots: &DeviceSlots,
    addr: u64,
    len: usize,
    r: Access<A>,
)
    requires
        call_ensures(HdvApertureMem::<A>::with_mapping, (mem, slots, addr, len), r),
        mem.wf(),
    ensures
        old(mem).handle.slot >= slots@.len() || slots@[old(mem).handle.slot as int] == 0 ==> r
            == Access::<A>::Denied(AccessError::NotBound),
        old(mem).handle.slot < slots@.len() && slots@[old(mem).handle.slot as int] != 0 ==> {
            &&& addr + len > old(mem).max_address ==> r == Access::<A>::Denied(AccessError::BadRange)
            &&& addr + len <= old(mem).max_address && len <= 0xffff_0000 ==> !(r is Denied)
            &&& r matches Access::Create(q) ==> {
                &&& q.device.0 == slots@[old(mem).handle.slot as int]
                &&& q.aperture.base % 4096 == 0
                &&& q.aperture.base <= addr
                &&& q.aperture.base + q.offset == addr
                &&& addr < q.aperture.base + 4096
                &&& addr + len <= q.aperture.base + q.aperture.len
                &&& q.aperture.base + q.aperture.len <= old(mem).max_address
                &&& q.aperture.len <= 0xffff_ffff
                &&& q.aperture.evictions == 0
            }
            &&& r matches Access::Mapped { offset, .. } ==> offset == addr % 4096
        },
{
    assert(0 <= shard_of(0) < SHARDS);
}

/// The bytes that the host call is told are the whole range.
pub proof fn law_host_call_counts_the_whole_range(q: ApertureRequest, n: u32)
    requires
        call_ensures(ApertureRequest::byte_count, (&q,), n),
        q.len <= 0xffff_ffff,
    ensures
        n == q.len,
{
}

/// The ceiling leaves room for all RAM above 4 GiB, where the host may put it, and
/// saturates.
pub proof fn law_ceiling_is_ram_above_four_gib(ram_size: u64, max: u64)
    requires
        call_ensures(ram_size_to_max_gpa, (ram_size,), max),
    ensures
        ram_size + 0x1_0000_0000 <= u64::MAX ==> max == ram_size + 0x1_0000_0000,
        ram_size + 0x1_0000_0000 > u64::MAX ==> max == u64::MAX,
{
}

/// A page belongs to the shard of its page number, of which there are sixteen.
pub proof fn law_shard_is_the_page_number_modulo_sixteen(base: u64, i: usize)
    requires
        call_ensures(shard_index, (base,), i),
    ensures
        i == base / 4096 % 16,
{
}

/// A shard holds 64 apertures at most, and the cache 1024.
pub proof fn law_capacities()
    ensures
        PER_SHARD_MAX == 64,
        SHARDS == 16,
        MAX_ENTRIES == 1024,
        PAGE == 4096,
        APERTURE_MAX == 0xffff_ffff,
        ERROR_NOT_ENOUGH_QUOTA == 0x8007_0718,
        HIGH_RAM_BASE == 0x1_0000_0000,
{
}

/// Of the eight counters, only `c` has moved, by one, modulo 2^64.
pub open spec fn only_moved(before: Stats, after: Stats, c: Counter) -> bool {
    &&& after.ops == (before.ops + (if c == Counter::Ops {
        1int
    } else {
        0
    })) % 0x1_0000_0000_0000_0000
    &&& after.hits == (before.hits + (if c == Counter::Hits {
        1int
    } else {
        0
    })) % 0x1_0000_0000_0000_0000
    &&& after.creates == (before.creates + (if c == Counter::Creates {
        1int
    } else {
        0
    })) % 0x1_0000_0000_0000_0000
    &&& after.evicts == (before.evicts + (if c == Counter::Evicts {
        1int
    } else {
        0
    })) % 0x1_0000_0000_0000_0000
    &&& after.quota_retries == (before.quota_retries + (if c == Counter::QuotaRetries {
        1int
    } else {
        0
    })) % 0x1_0000_0000_0000_0000
    &&& after.create_fails == (before.create_fails + (if c == Counter::CreateFails {
        1int
    } else {
        0
    })) % 0x1_0000_0000_0000_0000
    &&& after.bad_range == (before.bad_range + (if c == Counter::BadRange {
        1int
    } else {
        0
    })) % 0x1_0000_0000_0000_0000
    &&& after.not_bound == (before.not_bound + (if c == Counter::NotBound {
        1int
    } else {
        0
    })) % 0x1_0000_0000_0000_0000
}

/// A counter moves alone, and only where counters are recorded; they start at zero.
pub proof fn law_counter_moves_alone(s: &mut Stats, c: Counter, u: (), enabled: bool, fresh: Stats)
    requires
        call_ensures(Stats::count, (s, c), u),
        call_ensures(Stats::new, (enabled,), fresh),
    ensures
        !old(s).enabled ==> *final(s) == *old(s),
        old(s).enabled ==> only_moved(*old(s), *final(s), c),
        final(s).live == old(s).live && final(s).peak_live == old(s).peak_live,
        final(s).max_span == old(s).max_span && final(s).enabled == old(s).enabled,
        fresh.enabled == enabled && fresh.ops == 0 && fresh.hits == 0 && fresh.creates == 0,
        fresh.evicts == 0 && fresh.quota_retries == 0 && fresh.create_fails == 0,
        fresh.bad_range == 0 && fresh.not_bound == 0,
        fresh.live == 0 && fresh.peak_live == 0 && fresh.max_span == 0,
{
}

/// The live count goes up and down by one, and its peak never goes down: it is the
/// largest that the count has been. One aperture more and one less leave the count as
/// it was.
pub proof fn law_peak_follows_the_live_count(
    s: &mut Stats,
    u: (),
    t: &mut Stats,
    v: (),
)
    requires
        s.has_room(),
        call_ensures(Stats::inc_live, (s,), u),
        *t == *final(s),
        call_ensures(Stats::dec_live, (t,), v),
    ensures
        old(s).enabled ==> {
            &&& final(s).live == old(s).live + 1
            &&& final(s).peak_live >= final(s).live && final(s).peak_live >= old(s).peak_live
            &&& final(s).peak_live == final(s).live || final(s).peak_live == old(s).peak_live
            &&& final(t).live == old(s).live && final(t).peak_live == final(s).peak_live
        },
        !old(s).enabled ==> *final(s) == *old(s) && *final(t) == *old(s),
        final(t).ops == old(s).ops && final(t).hits == old(s).hits && final(t).creates
            == old(s).creates && final(t).evicts == old(s).evicts && final(t).max_span
            == old(s).max_span,
{
}

/// A summary is due at each 4096th access, and when the last one that was due by the
/// clock was 500 milliseconds ago or more. The access is counted, and nothing else
/// changes. Without counters nothing is ever due.
pub proof fn law_memory_summary_is_due<A>(
    mem: &mut HdvApertureMem<A>,
    ms: u64,
    due: bool,
    end: &HdvApertureMem<A>,
    last: Option<Stats>,
)
    requires
        mem.wf(),
        call_ensures(HdvApertureMem::<A>::maybe_emit_stats, (mem, ms), due),
        call_ensures(HdvApertureMem::<A>::final_stats, (end,), last),
    ensures
        due <==> old(mem).stats.enabled && ((old(mem).stats.ops + 1) % 4096 == 0 || ms
            >= old(mem).last_emit_ms + 500),
        old(mem).stats.enabled && ms >= old(mem).last_emit_ms + 500 ==> final(mem).last_emit_ms
            == ms,
        !old(mem).stats.enabled || ms < old(mem).last_emit_ms + 500 ==> final(mem).last_emit_ms
            == old(mem).last_emit_ms,
        old(mem).stats.enabled ==> only_moved(old(mem).stats, final(mem).stats, Counter::Ops),
        !old(mem).stats.enabled ==> final(mem).stats == old(mem).stats,
        final(mem).shards == old(mem).shards && final(mem).handle == old(mem).handle,
        final(mem).max_address == old(mem).max_address,
        last is Some <==> end.stats.enabled,
        last matches Some(s) ==> s == end.stats,
{
}

/// An eviction takes the entry that stands first, and leaves the others in their order.
pub proof fn law_eviction_takes_the_first_entry<A>(s: &mut Shard<A>, stats: &mut Stats, u: ())
    requires
        s.wf(),
        call_ensures(Shard::<A>::evict_one, (s, stats), u),
    ensures
        old(s)@.len() > 0 ==> old(s)@ == seq![old(s)@[0]] + final(s)@,
        old(s)@.len() == 0 ==> final(s)@.len() == 0 && *final(stats) == *old(stats),
        old(s)@.len() > 0 && old(stats).enabled ==> only_moved(
            *old(stats),
            *final(stats),
            Counter::Evicts,
        ) && (old(stats).live > 0 ==> final(stats).live == old(stats).live - 1),
        !old(stats).enabled ==> *final(stats) == *old(stats),
{
    if s@.len() > 0 {
        assert(s@ =~= seq![s@[0]] + s@.drop_first());
    }
}

/// A lookup finds an entry exactly by both its base and its length. What it finds
/// becomes the most recent entry, the others in their order; what it does not find
/// changes nothing. `contains_key` tells the same, and `len` how many there are.
pub proof fn law_lookup_finds_the_range<A: Clone>(
    s: &mut Shard<A>,
    key: (u64, u64),
    r: Option<A>,
    t: &Shard<A>,
    b: bool,
    n: usize,
    i: int,
)
    requires
        s.wf(),
        call_ensures(Shard::<A>::lookup, (s, key), r),
        *t == *s,
        call_ensures(Shard::<A>::contains_key, (t, key), b),
        call_ensures(Shard::<A>::len, (t,), n),
    ensures
        0 <= i < old(s)@.len() && old(s)@[i].base == key.0 && old(s)@[i].len == key.1 ==> {
            &&& r matches Some(a) && cloned(old(s)@[i].ap, a)
            &&& final(s)@ == old(s)@.remove(i).push(old(s)@[i])
            &&& b
        },
        (forall|j: int|
            0 <= j < old(s)@.len() ==> (#[trigger] old(s)@[j]).base != key.0 || old(s)@[j].len
                != key.1) ==> r is None && final(s)@ == old(s)@ && !b,
        n == old(s)@.len(),
{
    if 0 <= i < s@.len() && s@[i].base == key.0 && s@[i].len == key.1 {
        assert(maps_range(s@, i, key.0, key.1));
        lemma_place(s@, i, key.0, key.1);
    }
    if holds(s@, key.0, key.1) {
        let p = place(s@, key.0, key.1);
        assert(maps_range(s@, p, key.0, key.1));
        assert(s@[p].base == key.0 && s@[p].len == key.1);
    }
}

/// A request for a range that is cached gives its aperture, makes it the most recent
/// entry and counts a hit. Any other asks for the whole range to be mapped, and a shard
/// of 64 entries drops its first for it.
pub proof fn law_miss_makes_room_for_one<A: Clone>(
    s: &mut Shard<A>,
    base: u64,
    len: u64,
    stats: &mut Stats,
    r: Acquire<A>,
    i: int,
)
    requires
        s.wf(),
        call_ensures(Shard::<A>::get_or_create, (s, base, len, stats), r),
    ensures
        0 <= i < old(s)@.len() && old(s)@[i].base == base && old(s)@[i].len == len ==> {
            &&& r matches Acquire::Ready(a) && cloned(old(s)@[i].ap, a)
            &&& final(s)@ == old(s)@.remove(i).push(old(s)@[i])
            &&& old(stats).enabled ==> only_moved(*old(stats), *final(stats), Counter::Hits)
        },
        (forall|j: int|
            0 <= j < old(s)@.len() ==> (#[trigger] old(s)@[j]).base != base || old(s)@[j].len
                != len) ==> {
            &&& r matches Acquire::Create(q) && q.base == base && q.len == len && q.evictions == 0
            &&& old(s)@.len() < 64 ==> final(s)@ == old(s)@ && *final(stats) == *old(stats)
            &&& old(s)@.len() == 64 ==> old(s)@ == seq![old(s)@[0]] + final(s)@
            &&& old(s)@.len() == 64 && old(stats).enabled ==> only_moved(
                *old(stats),
                *final(stats),
                Counter::Evicts,
            )
        },
        !old(stats).enabled ==> *final(stats) == *old(stats),
{
    if 0 <= i < s@.len() && s@[i].base == base && s@[i].len == len {
        assert(maps_range(s@, i, base, len));
        lemma_place(s@, i, base, len);
    }
    if holds(s@, base, len) {
        let p = place(s@, base, len);
        assert(maps_range(s@, p, base, len));
        assert(s@[p].base == base && s@[p].len == len);
    } else if s@.len() == 64 {
        assert(s@ =~= seq![s@[0]] + s@.drop_first());
    }
}

/// A mapping that the host made is handed out, and cached for its range as the most
/// recent entry, behind all others. Where the quota is exhausted (0x80070718) and there
/// is an entry to drop, the first one goes, and the same range is asked for again. Any
/// other failure is told as it came, and no entry goes.
pub proof fn law_host_answer_is_taken<A: Clone>(
    s: &mut Shard<A>,
    q: ApertureRequest,
    outcome: Result<A, HRESULT>,
    stats: &mut Stats,
    r: Acquire<A>,
)
    requires
        s.wf(),
        s.awaits(q),
        stats.has_room(),
        call_ensures(Shard::<A>::created, (s, q, outcome, stats), r),
    ensures
        outcome matches Ok(ap) ==> {
            &&& r matches Acquire::Ready(a) && cloned(ap, a)
            &&& final(s)@.len() == old(s)@.len() + 1
            &&& final(s)@.drop_last() == old(s)@
            &&& final(s)@.last().base == q.base && final(s)@.last().len == q.len
            &&& final(s)@.last().ap == ap
            &&& old(stats).enabled ==> {
                &&& only_moved(*old(stats), *final(stats), Counter::Creates)
                &&& final(stats).live == old(stats).live + 1
                &&& final(stats).max_span >= q.len && final(stats).max_span >= old(stats).max_span
                &&& final(stats).max_span == q.len || final(stats).max_span == old(stats).max_span
            }
        },
        outcome matches Err(hr) ==> {
            let retry = hr + 0x1_0000_0000 == 0x8007_0718 && old(s)@.len() > 0 && q.evictions < 64;
            &&& retry ==> {
                &&& r matches Acquire::Create(n) && n.base == q.base && n.len == q.len
                    && n.evictions == q.evictions + 1
                &&& old(s)@ == seq![old(s)@[0]] + final(s)@
                &&& old(stats).enabled ==> final(stats).quota_retries == (
                old(stats).quota_retries + 1) % 0x1_0000_0000_0000_0000 && final(stats).evicts == (
                old(stats).evicts + 1) % 0x1_0000_0000_0000_0000 && final(stats).create_fails
                    == old(stats).create_fails
            }
            &&& !retry ==> {
                &&& r == Acquire::<A>::Failed(hr)
                &&& final(s)@ == old(s)@
                &&& old(stats).enabled ==> only_moved(
                    *old(stats),
                    *final(stats),
                    Counter::CreateFails,
                ) && final(stats).live == old(stats).live
            }
        },
        !old(stats).enabled ==> *final(stats) == *old(stats),
{
    if outcome is Ok {
        assert(final(s)@.drop_last() =~= s@);
    } else if s@.len() > 0 {
        assert(s@ =~= seq![s@[0]] + s@.drop_first());
    }
}

/// Refusals for want of quota drop an entry each.
proof fn lemma_refusals<A>(
    s: Seq<CachedEntry<A>>,
    q: ApertureRequest,
    answers: Seq<Result<A, HRESULT>>,
    n: nat,
)
    requires
        n <= s.len(),
        q.evictions + n <= 64,
        n <= answers.len(),
        forall|i: int|
            0 <= i < n ==> ((#[trigger] answers[i]) matches Err(hr) && hr + 0x1_0000_0000
                == 0x8007_0718),
    ensures
        answered(s, q, answers) == answered(
            s.skip(n as int),
            ApertureRequest { evictions: (q.evictions + n) as usize, ..q },
            answers.skip(n as int),
        ),
    decreases n,
{
    if n == 0 {
        assert(s.skip(0) =~= s && answers.skip(0) =~= answers);
    } else {
        let t = answers.drop_first();
        let next = ApertureRequest { evictions: (q.evictions + 1) as usize, ..q };
        assert(answers[0] is Err);
        assert(!gives_up(s, q, answers[0]->Err_0));
        assert forall|i: int| 0 <= i < n - 1 implies ((#[trigger] t[i]) matches Err(hr) && hr
            + 0x1_0000_0000 == 0x8007_0718) by {
            assert(t[i] == answers[i + 1]);
        }
        lemma_refusals(without_oldest(s), next, t, (n - 1) as nat);
        assert(without_oldest(s).skip(n - 1) =~= s.skip(n as int));
        assert(t.skip(n - 1) =~= answers.skip(n as int));
    }
}

/// A request for a range that is not cached, from start to end: `n` refusals for want
/// of quota drop the `n` entries that were used longest ago, and then the answer
/// decides. A mapping is cached behind the entries that are left. Another failure is
/// told, and so is one more refusal when nothing is left to drop. With no answer left
/// the range is still asked for.
pub proof fn law_request_ends_as_the_host_answers<A: Clone>(
    s: &mut Shard<A>,
    base: u64,
    len: u64,
    answers: Vec<Result<A, HRESULT>>,
    stats: &mut Stats,
    r: Acquire<A>,
    n: nat,
    room: Seq<CachedEntry<A>>,
)
    requires
        s.wf(),
        stats.enabled ==> s@.len() <= stats.live < usize::MAX,
        call_ensures(Shard::<A>::get_or_create_with, (s, base, len, answers, stats), r),
        forall|j: int|
            0 <= j < s@.len() ==> (#[trigger] s@[j]).base != base || s@[j].len != len,
        room == if s@.len() == 64 {
            s@.subrange(1, 64)
        } else {
            s@
        },
        n <= room.len(),
        n <= answers@.len(),
        forall|i: int|
            0 <= i < n ==> ((#[trigger] answers@[i]) matches Err(hr) && hr + 0x1_0000_0000
                == 0x8007_0718),
    ensures
        n == answers@.len() ==> (r matches Acquire::Create(q) && q.base == base && q.len == len)
            && final(s)@ == room.skip(n as int),
        n < answers@.len() ==> match answers@[n as int] {
            Ok(ap) => {
                &&& r matches Acquire::Ready(a) && cloned(ap, a)
                &&& final(s)@ == room.skip(n as int) + seq![CachedEntry { base, len, ap }]
            },
            Err(hr) => hr + 0x1_0000_0000 != 0x8007_0718 || n == room.len() ==> {
                &&& r == Acquire::<A>::Failed(hr)
                &&& final(s)@ == room.skip(n as int)
            },
        },
{
    if holds(s@, base, len) {
        let p = place(s@, base, len);
        assert(maps_range(s@, p, base, len));
        assert(s@[p].base == base && s@[p].len == len);
    }
    if s@.len() == 64 {
        assert(s@.drop_first() =~= s@.subrange(1, 64));
    }
    let q = ApertureRequest { base, len, evictions: 0 };
    lemma_refusals(room, q, answers@, n);
    if n < answers@.len() {
        assert(answers@.skip(n as int)[0] == answers@[n as int]);
        if answers@[n as int] is Ok {
            let e = CachedEntry { base, len, ap: answers@[n as int]->Ok_0 };
            assert(room.skip(n as int).push(e) =~= room.skip(n as int) + seq![e]);
        }
    }
}

/// A range that is cached is given, whatever the host would answer.
pub proof fn law_cached_range_needs_no_host<A: Clone>(
    s: &mut Shard<A>,
    i: int,
    answers: Vec<Result<A, HRESULT>>,
    stats: &mut Stats,
    r: Acquire<A>,
    base: u64,
    len: u64,
)
    requires
        s.wf(),
        stats.enabled ==> s@.len() <= stats.live < usize::MAX,
        0 <= i < s@.len(),
        s@[i].base == base && s@[i].len == len,
        call_ensures(Shard::<A>::get_or_create_with, (s, base, len, answers, stats), r),
    ensures
        r matches Acquire::Ready(a) && cloned(old(s)@[i].ap, a),
        final(s)@ == old(s)@.remove(i).push(old(s)@[i]),
{
    assert(maps_range(s@, i, base, len));
    lemma_place(s@, i, base, len);
}

/// What is inserted is the most recent entry, and the only one for its range. A shard
/// of 64 entries drops its first for it; every other entry of another range stays, in
/// its order.
pub proof fn law_inserted_entry_is_the_most_recent<A: Clone>(
    s: &mut Shard<A>,
    key: (u64, u64),
    value: A,
    stats: &mut Stats,
    u: (),
    room: Seq<CachedEntry<A>>,
    i: int,
)
    requires
        s.wf(),
        call_ensures(Shard::<A>::insert, (s, key, value, stats), u),
        room == if s@.len() == 64 {
            s@.subrange(1, 64)
        } else {
            s@
        },
    ensures
        final(s)@.len() > 0,
        final(s)@.last().base == key.0 && final(s)@.last().len == key.1 && final(s)@.last().ap
            == value,
        0 <= i < room.len() && room[i].base == key.0 && room[i].len == key.1 ==> final(
            s)@.drop_last() == room.remove(i),
        (forall|j: int|
            0 <= j < room.len() ==> (#[trigger] room[j]).base != key.0 || room[j].len != key.1)
            ==> final(s)@.drop_last() == room,
        old(s)@.len() < 64 || !old(stats).enabled ==> *final(stats) == *old(stats),
        old(s)@.len() == 64 && old(stats).enabled ==> only_moved(
            *old(stats),
            *final(stats),
            Counter::Evicts,
        ),
{
    if s@.len() == 64 {
        assert(s@.drop_first() =~= s@.subrange(1, 64));
    }
    assert(distinct_ranges(room));
    if 0 <= i < room.len() && room[i].base == key.0 && room[i].len == key.1 {
        assert(maps_range(room, i, key.0, key.1));
        lemma_place(room, i, key.0, key.1);
        assert(final(s)@.drop_last() =~= room.remove(i));
    }
    if holds(room, key.0, key.1) {
        let p = place(room, key.0, key.1);
        assert(maps_range(room, p, key.0, key.1));
        assert(room[p].base == key.0 && room[p].len == key.1);
    } else {
        assert(final(s)@.drop_last() =~= room);
    }
}

/// Guest memory starts with nothing mapped, behind the handle, with its ceiling 4 GiB
/// above the size of the RAM.
pub proof fn law_memory_starts_unmapped<A>(
    handle: DeviceHandle,
    ram: u64,
    on: bool,
    mem: HdvApertureMem<A>,
    shard: Shard<A>,
)
    requires
        call_ensures(HdvApertureMem::<A>::new, (handle, ram, on), mem),
        call_ensures(Shard::<A>::new, (), shard),
    ensures
        mem.handle == handle && mem.stats.enabled == on && mem.last_emit_ms == 0,
        ram + 0x1_0000_0000 <= u64::MAX ==> mem.max_address == ram + 0x1_0000_0000,
        ram + 0x1_0000_0000 > u64::MAX ==> mem.max_address == u64::MAX,
        mem.shards@.len() == 16,
        forall|i: int| 0 <= i < 16 ==> (#[trigger] mem.shards@[i])@.len() == 0,
        shard@.len() == 0,
        mem.stats.live == 0 && mem.stats.ops == 0 && mem.stats.creates == 0,
{
}

/// An access looks only into the shard of its first page: there, an entry of exactly
/// its pages serves it, and becomes the most recent one. All other shards stay, and so
/// do the handle and the ceiling. An access that is denied touches no shard, and counts
/// by why it was denied.
pub proof fn law_access_uses_the_shard_of_its_page<A: Clone>(
    mem: &mut HdvApertureMem<A>,
    slots: &DeviceSlots,
    addr: u64,
    len: usize,
    r: Access<A>,
    i: int,
    end: int,
)
    requires
        call_ensures(HdvApertureMem::<A>::with_mapping, (mem, slots, addr, len), r),
        mem.wf(),
        end == if (addr + len + 4095) / 4096 * 4096 <= mem.max_address {
            (addr + len + 4095) / 4096 * 4096
        } else {
            mem.max_address as int
        },
    ensures
        final(mem).handle == old(mem).handle && final(mem).max_address == old(mem).max_address,
        final(mem).last_emit_ms == old(mem).last_emit_ms,
        forall|k: int|
            0 <= k < 16 && k != addr / 4096 % 16 ==> (#[trigger] final(mem).shards@[k])@
                == old(mem).shards@[k]@,
        ({
            let s = old(mem).shards@[addr as int / 4096 % 16]@;
            let t = final(mem).shards@[addr as int / 4096 % 16]@;
            let bound = old(mem).handle.slot < slots@.len() && slots@[old(mem).handle.slot as int]
                != 0;
            let ok = bound && addr + len <= old(mem).max_address && end - addr / 4096 * 4096
                <= 0xffff_ffff;
            &&& !ok ==> t == s
            &&& old(mem).stats.enabled && !bound ==> only_moved(
                old(mem).stats,
                final(mem).stats,
                Counter::NotBound,
            )
            &&& old(mem).stats.enabled && bound && !ok ==> only_moved(
                old(mem).stats,
                final(mem).stats,
                Counter::BadRange,
            )
            &&& ok && 0 <= i < s.len() && s[i].base == addr / 4096 * 4096 && s[i].base + s[i].len
                == end ==> {
                &&& r matches Access::Mapped { ap, offset } && offset == addr % 4096 && cloned(
                    s[i].ap,
                    ap,
                )
                &&& t == s.remove(i).push(s[i])
                &&& old(mem).stats.enabled ==> only_moved(
                    old(mem).stats,
                    final(mem).stats,
                    Counter::Hits,
                )
            }
            &&& ok && (forall|j: int|
                0 <= j < s.len() ==> (#[trigger] s[j]).base != addr / 4096 * 4096 || s[j].base
                    + s[j].len != end) ==> {
                &&& r is Create
                &&& s.len() < 64 ==> t == s && final(mem).stats == old(mem).stats
                &&& s.len() == 64 ==> s == seq![s[0]] + t
                &&& s.len() == 64 && old(mem).stats.enabled ==> only_moved(
                    old(mem).stats,
                    final(mem).stats,
                    Counter::Evicts,
                )
            }
            &&& !old(mem).stats.enabled ==> final(mem).stats == old(mem).stats
        }),
{
    let p = planned(mem.max_address, addr, len as int);
    let s = mem.owner(p.base);
    assert(0 <= shard_of(0) < SHARDS);
    if addr + len <= mem.max_address {
        assert(p.base == addr / 4096 * 4096);
        assert(p.base / 4096 == addr / 4096);
        assert(shard_of(p.base) == addr as int / 4096 % 16);
        assert(p.base + p.span == end);
        if 0 <= i < s.len() && s[i].base == addr / 4096 * 4096 && s[i].base + s[i].len == end {
            assert(maps_range(s, i, p.base, p.span));
            assert(mem.shards@[shard_of(p.base)].wf());
            lemma_place(s, i, p.base, p.span);
        }
        if holds(s, p.base, p.span) {
            let q = place(s, p.base, p.span);
            assert(maps_range(s, q, p.base, p.span));
            assert(s[q].base == addr / 4096 * 4096 && s[q].base + s[q].len == end);
        } else if s.len() == 64 {
            assert(s =~= seq![s[0]] + s.drop_first());
        } else {
            assert(mem.shards@[shard_of(p.base)].wf());
        }
    } else {
        assert(0 <= addr as int / 4096 % 16 < 16);
    }
}

/// The host's answer for an access goes to the shard of its page alone. A mapping
/// serves the access at the offset that was planned; exhausted quota asks again on the
/// same device, for the same bytes, as long as there is an entry to drop; any other
/// failure is told with its code.
pub proof fn law_mapping_goes_to_the_shard_of_its_page<A: Clone>(
    mem: &mut HdvApertureMem<A>,
    q: AccessRequest,
    outcome: Result<A, HRESULT>,
    r: Access<A>,
)
    requires
        call_ensures(HdvApertureMem::<A>::mapping_created, (mem, q, outcome), r),
        mem.wf(),
        mem.awaits(q),
    ensures
        final(mem).handle == old(mem).handle && final(mem).max_address == old(mem).max_address,
        forall|k: int|
            0 <= k < 16 && k != q.aperture.base / 4096 % 16 ==> (#[trigger] final(mem).shards@[k])@
                == old(mem).shards@[k]@,
        ({
            let s = old(mem).shards@[q.aperture.base as int / 4096 % 16]@;
            let t = final(mem).shards@[q.aperture.base as int / 4096 % 16]@;
            match outcome {
                Ok(made) => {
                    &&& r matches Access::Mapped { ap, offset } && offset == q.offset && cloned(
                        made,
                        ap,
                    )
                    &&& t == s + seq![
                        CachedEntry { base: q.aperture.base, len: q.aperture.len, ap: made },
                    ]
                    &&& old(mem).stats.enabled ==> only_moved(
                        old(mem).stats,
                        final(mem).stats,
                        Counter::Creates,
                    ) && final(mem).stats.live == old(mem).stats.live + 1
                },
                Err(hr) => {
                    let retry = hr + 0x1_0000_0000 == 0x8007_0718 && s.len() > 0
                        && q.aperture.evictions < 64;
                    &&& retry ==> {
                        &&& r matches Access::Create(n) && n.device == q.device && n.offset
                            == q.offset && n.aperture.base == q.aperture.base && n.aperture.len
                            == q.aperture.len && n.aperture.evictions == q.aperture.evictions + 1
                        &&& s == seq![s[0]] + t
                    }
                    &&& !retry ==> {
                        &&& r == Access::<A>::Denied(AccessError::ApertureFailed(hr))
                        &&& t == s
                        &&& old(mem).stats.enabled ==> only_moved(
                            old(mem).stats,
                            final(mem).stats,
                            Counter::CreateFails,
                        )
                    }
                },
            }
        }),
{
    let a = q.aperture;
    let s = mem.owner(a.base);
    assert(shard_of(a.base) == a.base as int / 4096 % 16);
    match outcome {
        Ok(made) => {
            let e = CachedEntry { base: a.base, len: a.len, ap: made };
            assert(s.push(e) =~= s + seq![e]);
            lemma_total_bound(mem.shards@);
        },
        Err(_) => {
            if s.len() > 0 {
                assert(s =~= seq![s[0]] + s.drop_first());
            }
        },
    }
}

/// What is told of a denied access.
pub proof fn law_denials_are_told(e: &AccessError, s: String, hr: HRESULT, t: String)
    requires
        call_ensures(AccessError::message, (e,), s),
        call_ensures(
            with_hresult,
            ("HdvCreateGuestMemoryAperture failed: HRESULT ", hr),
            t,
        ),
    ensures
        *e == AccessError::NotBound ==> s@ == "HDV device handle not bound yet"@,
        *e == AccessError::BadRange ==> s@ == "guest access range overflows or exceeds guest RAM"@,
        *e == AccessError::ApertureFailed(hr) ==> s@ == t@,
{
}

/// One aperture less than none wraps around; the peak stays.
pub proof fn law_live_count_wraps_around(s: &mut Stats, u: ())
    requires
        call_ensures(Stats::dec_live, (s,), u),
    ensures
        old(s).enabled && old(s).live > 0 ==> final(s).live == old(s).live - 1,
        old(s).enabled && old(s).live == 0 ==> final(s).live == usize::MAX,
        !old(s).enabled ==> final(s).live == old(s).live,
        final(s).peak_live == old(s).peak_live && final(s).max_span == old(s).max_span,
        final(s).evicts == old(s).evicts && final(s).enabled == old(s).enabled,
{
}

} // verus!
