//! Interrupts: what is delivered, and what is delivered again.
//!
//! A completion interrupt can be lost when the device reads a stale
//! suppression flag. So every distinct interrupt that was ever delivered is
//! logged, and the re-arm net delivers all of them again at each tick. A guest
//! takes a spurious interrupt for a look at the used ring.

use crate::clock::{millis_since, moment};
use crate::handle::{Device, DeviceHandle, DeviceSlots};
use std::time::Instant;
use vstd::prelude::*;

verus! {

/// The tick of the re-arm net while interrupts flow, in milliseconds.
pub const REARM_TICK_MS: u64 = 5;

/// Its tick when the device is quiet.
pub const REARM_IDLE_TICK_MS: u64 = 50;

/// How long after a delivery the device still counts as busy, in milliseconds.
pub const REARM_WINDOW_MS: u64 = 100;

/// How long the re-arm net sleeps, when the last delivery was `idle_ms` ago: the
/// tick is tight while interrupts flow, and backed off when the device is quiet.
pub fn rearm_tick_ms(idle_ms: u64) -> (ms: u64)
    ensures
        ms == tick_after(idle_ms),
{
    if idle_ms < REARM_WINDOW_MS {
        REARM_TICK_MS
    } else {
        REARM_IDLE_TICK_MS
    }
}

/// The tick of the re-arm net, when the last delivery was `idle_ms` ago.
pub open spec fn tick_after(idle_ms: u64) -> u64 {
    if idle_ms < REARM_WINDOW_MS {
        REARM_TICK_MS
    } else {
        REARM_IDLE_TICK_MS
    }
}

/// The distinct interrupts delivered so far, and when the last one was.
pub struct InterruptLog {
    /// Distinct `(address, data)` pairs, in the order of their first delivery.
    pub pairs: Vec<(u64, u32)>,
    /// The base of the clock.
    pub start: Instant,
    /// When the last delivery was, in milliseconds since the start.
    pub last_activity_ms: Option<u64>,
}

/// `pairs` after `(address, data)` was delivered.
pub open spec fn logged(pairs: Seq<(u64, u32)>, address: u64, data: u32) -> Seq<(u64, u32)> {
    if pairs.contains((address, data)) {
        pairs
    } else {
        pairs.push((address, data))
    }
}

/// The milliseconds since the last activity, `now` after the start; without any
/// activity, as long as can be.
pub open spec fn idle(last: Option<u64>, now_ms: u64) -> u64 {
    match last {
        None => u64::MAX,
        Some(last) => if now_ms < last {
            0
        } else {
            (now_ms - last) as u64
        },
    }
}

impl InterruptLog {
    /// No pair is logged twice.
    pub open spec fn wf(&self) -> bool {
        self.pairs@.no_duplicates()
    }

    /// A log of nothing.
    pub fn new() -> (log: InterruptLog)
        ensures
            log.wf(),
            log.pairs@ == Seq::<(u64, u32)>::empty(),
            log.last_activity_ms is None,
            crate::clock::was_now(log.start),
    {
        InterruptLog { pairs: Vec::new(), start: moment(), last_activity_ms: None }
    }

    /// Logs a delivery, `now_ms` after the start.
    pub fn record_at(&mut self, address: u64, data: u32, now_ms: u64)
        requires
            old(self).wf(),
        ensures
            final(self).wf(),
            final(self).pairs@ == logged(old(self).pairs@, address, data),
            final(self).start == old(self).start,
            final(self).last_activity_ms == Some(now_ms),
    {
        let mut seen = false;
        let mut i: usize = 0;
        while i < self.pairs.len() && !seen
            invariant
                i <= self.pairs@.len(),
                self.pairs == old(self).pairs,
                self.start == old(self).start,
                seen ==> self.pairs@.contains((address, data)),
                !seen ==> forall|j: int|
                    0 <= j < i ==> self.pairs@[j] != (address, data),
            decreases self.pairs@.len() - i + if seen {
                0int
            } else {
                1int
            },
        {
            let p = self.pairs[i];
            if p.0 == address && p.1 == data {
                assert(self.pairs@[i as int] == (address, data));
                seen = true;
            } else {
                i = i + 1;
            }
        }
        if !seen {
            self.pairs.push((address, data));
        }
        self.last_activity_ms = Some(now_ms);
    }

    /// Logs a delivery: remembers a pair that was not seen before, and takes the
    /// time.
    pub fn record(&mut self, address: u64, data: u32)
        requires
            old(self).wf(),
        ensures
            final(self).wf(),
            final(self).pairs@ == logged(old(self).pairs@, address, data),
            final(self).start == old(self).start,
            final(self).last_activity_ms matches Some(ms) && crate::clock::millis_from(
                old(self).start,
                ms,
            ),
    {
        let ms: u64 = millis_since(&self.start);
        self.record_at(address, data, ms);
    }

    /// Copies the pairs into `buf`, in place of what it held.
    pub fn snapshot_into(&self, buf: &mut Vec<(u64, u32)>)
        ensures
            final(buf)@ == self.pairs@,
    {
        buf.clear();
        let mut i: usize = 0;
        while i < self.pairs.len()
            invariant
                i <= self.pairs@.len(),
                buf@ == self.pairs@.take(i as int),
            decreases self.pairs@.len() - i,
        {
            buf.push(self.pairs[i]);
            assert(self.pairs@.take(i + 1) =~= self.pairs@.take(i as int).push(
                self.pairs@[i as int],
            ));
            i = i + 1;
        }
        assert(self.pairs@.take(i as int) =~= self.pairs@);
    }

    /// The milliseconds since the last delivery, `now_ms` after the start;
    /// `u64::MAX` if nothing was ever delivered.
    pub fn idle_at(&self, now_ms: u64) -> (ms: u64)
        ensures
            ms == idle(self.last_activity_ms, now_ms),
    {
        match self.last_activity_ms {
            None => u64::MAX,
            Some(last) => now_ms.saturating_sub(last),
        }
    }

    /// The milliseconds since the last delivery; `u64::MAX` if nothing was ever
    /// delivered.
    pub fn idle_ms(&self) -> (ms: u64)
        ensures
            self.last_activity_ms is None ==> ms == u64::MAX,
            exists|now_ms: u64|
                crate::clock::millis_from(self.start, now_ms) && ms == #[trigger] idle(
                    self.last_activity_ms,
                    now_ms,
                ),
    {
        let now: u64 = millis_since(&self.start);
        self.idle_at(now)
    }
}

/// An interrupt to inject through a device.
#[derive(Clone, Copy, Debug, PartialEq, Eq, Structural)]
pub struct Delivery {
    pub device: Device,
    pub address: u64,
    pub data: u32,
}

/// Takes the interrupts of the transport to the device.
pub struct HdvSignalMsi {
    pub handle: DeviceHandle,
    pub seen: InterruptLog,
}

impl HdvSignalMsi {
    /// A target over this handle and this log.
    pub fn new(handle: DeviceHandle, seen: InterruptLog) -> (t: HdvSignalMsi)
        ensures
            t.handle == handle,
            t.seen == seen,
    {
        HdvSignalMsi { handle, seen }
    }

    /// The interrupt to inject for `(address, data)`, which is logged; without a
    /// device the interrupt is dropped.
    pub fn signal_msi(&mut self, slots: &DeviceSlots, address: u64, data: u32) -> (r: Option<
        Delivery,
    >)
        requires
            old(self).seen.wf(),
        ensures
            final(self).seen.wf(),
            final(self).handle == old(self).handle,
            match old(self).handle.bound(slots@) {
                Some(device) => {
                    &&& r == Some(Delivery { device, address, data })
                    &&& final(self).seen.pairs@ == logged(old(self).seen.pairs@, address, data)
                    &&& final(self).seen.start == old(self).seen.start
                    &&& final(self).seen.last_activity_ms matches Some(ms)
                        && crate::clock::millis_from(old(self).seen.start, ms)
                },
                None => {
                    &&& r is None
                    &&& final(self).seen == old(self).seen
                },
            },
    {
        match self.handle.get(slots) {
            Some(device) => {
                self.seen.record(address, data);
                Some(Delivery { device, address, data })
            },
            None => None,
        }
    }

    /// What the re-arm net injects at a tick: every interrupt in the log, once the
    /// device is bound.
    pub fn rearm(&self, slots: &DeviceSlots) -> (r: Vec<Delivery>)
        ensures
            r@ == match self.handle.bound(slots@) {
                Some(device) => rearmed(self.seen.pairs@, device),
                None => Seq::<Delivery>::empty(),
            },
    {
        let mut r: Vec<Delivery> = Vec::new();
        match self.handle.get(slots) {
            None => {},
            Some(device) => {
                let mut i: usize = 0;
                while i < self.seen.pairs.len()
                    invariant
                        i <= self.seen.pairs@.len(),
                        r@ == rearmed(self.seen.pairs@, device).take(i as int),
                    decreases self.seen.pairs@.len() - i,
                {
                    let p = self.seen.pairs[i];
                    r.push(Delivery { device, address: p.0, data: p.1 });
                    i = i + 1;
                    assert(r@ =~= rearmed(self.seen.pairs@, device).take(i as int));
                }
                assert(rearmed(self.seen.pairs@, device).take(i as int) =~= rearmed(
                    self.seen.pairs@,
                    device,
                ));
            },
        }
        r
    }
}

/// The logged pairs, as deliveries through `device`.
pub open spec fn rearmed(pairs: Seq<(u64, u32)>, device: Device) -> Seq<Delivery> {
    Seq::new(
        pairs.len(),
        |i: int| Delivery { device, address: pairs[i].0, data: pairs[i].1 },
    )
}

/// The log after these deliveries.
pub open spec fn log_of(deliveries: Seq<(u64, u32)>) -> Seq<(u64, u32)>
    decreases deliveries.len(),
{
    if deliveries.len() == 0 {
        Seq::empty()
    } else {
        let d = deliveries.last();
        logged(log_of(deliveries.drop_last()), d.0, d.1)
    }
}

/// The log holds exactly what was delivered, each once, so that a tick of the
/// re-arm net delivers each interrupt that was ever delivered exactly once more.
pub proof fn law_log_holds_each_delivery_once(deliveries: Seq<(u64, u32)>)
    ensures
        log_of(deliveries).no_duplicates(),
        forall|p: (u64, u32)| log_of(deliveries).contains(p) <==> deliveries.contains(p),
    decreases deliveries.len(),
{
    if deliveries.len() > 0 {
        let t = deliveries.drop_last();
        let d = deliveries.last();
        law_log_holds_each_delivery_once(t);
        let l = log_of(t);
        let m = log_of(deliveries);
        assert forall|p: (u64, u32)| m.contains(p) <==> deliveries.contains(p) by {
            if m.contains(p) {
                let i = choose|i: int| 0 <= i < m.len() && m[i] == p;
                if i < l.len() {
                    assert(l[i] == p);
                    assert(t.contains(p));
                    let k = choose|k: int| 0 <= k < t.len() && t[k] == p;
                    assert(deliveries[k] == p);
                } else {
                    assert(deliveries[deliveries.len() - 1] == p);
                }
            }
            if deliveries.contains(p) {
                let k = choose|k: int| 0 <= k < deliveries.len() && deliveries[k] == p;
                if k < t.len() {
                    assert(t[k] == p);
                    assert(t.contains(p));
                    assert(l.contains(p));
                    let i = choose|i: int| 0 <= i < l.len() && l[i] == p;
                    assert(m[i] == p);
                } else if !l.contains(d) {
                    assert(m[m.len() - 1] == d);
                }
            }
        }
    }
}

/// A delivery never reorders the log: what was logged before stays in front.
pub proof fn law_log_keeps_first_order(deliveries: Seq<(u64, u32)>, more: Seq<(u64, u32)>)
    ensures
        log_of(deliveries).is_prefix_of(log_of(deliveries + more)),
    decreases more.len(),
{
    if more.len() == 0 {
        assert(deliveries + more =~= deliveries);
    } else {
        assert((deliveries + more).drop_last() =~= deliveries + more.drop_last());
        law_log_keeps_first_order(deliveries, more.drop_last());
    }
}

/// The net is never slower than its tight tick within the window after a delivery,
/// backs off after it, and stays backed off where nothing was ever delivered.
pub proof fn law_tick_follows_activity(last: Option<u64>, now_ms: u64)
    ensures
        last matches Some(ms) && now_ms < ms + REARM_WINDOW_MS ==> tick_after(idle(last, now_ms))
            == REARM_TICK_MS,
        last matches Some(ms) && now_ms >= ms + REARM_WINDOW_MS ==> tick_after(idle(last, now_ms))
            == REARM_IDLE_TICK_MS,
        last is None ==> tick_after(idle(last, now_ms)) == REARM_IDLE_TICK_MS,
        REARM_TICK_MS < REARM_IDLE_TICK_MS,
{
}

// ---------------------------------------------------------------------------
// Calls
// ---------------------------------------------------------------------------

/// The net ticks every 5 milliseconds for 100 milliseconds after a delivery, and every
/// 50 from then on, or where nothing was ever delivered.
pub proof fn law_net_is_tight_after_a_delivery(log: &InterruptLog, now_ms: u64, idle: u64, ms: u64)
    requires
        call_ensures(InterruptLog::idle_at, (log, now_ms), idle),
        call_ensures(rearm_tick_ms, (idle,), ms),
    ensures
        log.last_activity_ms matches Some(last) ==> {
            &&& now_ms < last + 100 ==> ms == 5
            &&& now_ms >= last + 100 ==> ms == 50
            &&& now_ms >= last ==> idle == now_ms - last
            &&& now_ms < last ==> idle == 0
        },
        log.last_activity_ms is None ==> ms == 50 && idle == u64::MAX,
{
}

/// A delivery is in the log from then on, once, with everything that was in it before,
/// in the same place; nothing else comes in. The time of the last delivery is that of
/// this one.
pub proof fn law_delivery_is_logged_once(
    log: &mut InterruptLog,
    address: u64,
    data: u32,
    now_ms: u64,
    u: (),
)
    requires
        log.wf(),
        call_ensures(InterruptLog::record_at, (log, address, data, now_ms), u),
    ensures
        forall|i: int|
            0 <= i < old(log).pairs@.len() ==> #[trigger] final(log).pairs@[i]
                == old(log).pairs@[i],
        forall|i: int, j: int|
            0 <= i < j < final(log).pairs@.len() ==> #[trigger] final(log).pairs@[i]
                != #[trigger] final(log).pairs@[j],
        exists|i: int|
            0 <= i < final(log).pairs@.len() && #[trigger] final(log).pairs@[i] == (address, data),
        final(log).pairs@.len() <= old(log).pairs@.len() + 1,
        (exists|i: int|
            0 <= i < old(log).pairs@.len() && #[trigger] old(log).pairs@[i] == (address, data))
            ==> final(log).pairs@.len() == old(log).pairs@.len(),
        final(log).last_activity_ms == Some(now_ms),
{
    let p = (address, data);
    if log.pairs@.contains(p) {
        let i = choose|i: int| 0 <= i < log.pairs@.len() && log.pairs@[i] == p;
        assert(final(log).pairs@[i] == p);
    } else {
        assert(final(log).pairs@[log.pairs@.len() as int] == p);
    }
}

/// An interrupt goes out through the device that is bound, as it came, and is logged;
/// without a device it is dropped, and the log stays.
pub proof fn law_interrupt_goes_out_as_it_came(
    t: &mut HdvSignalMsi,
    slots: &DeviceSlots,
    address: u64,
    data: u32,
    h: &DeviceHandle,
    dev: Option<Device>,
    r: Option<Delivery>,
)
    requires
        t.seen.wf(),
        call_ensures(HdvSignalMsi::signal_msi, (t, slots, address, data), r),
        *h == t.handle,
        call_ensures(DeviceHandle::get, (h, slots), dev),
    ensures
        r is Some <==> dev is Some,
        r matches Some(d) ==> Some(d.device) == dev && d.address == address && d.data == data,
        final(t).handle == old(t).handle,
        r is Some ==> final(t).seen.pairs@.contains((address, data)),
        r is Some ==> final(t).seen.last_activity_ms is Some,
        r is None ==> final(t).seen == old(t).seen,
        forall|i: int|
            0 <= i < old(t).seen.pairs@.len() ==> #[trigger] final(t).seen.pairs@[i]
                == old(t).seen.pairs@[i],
{
    let p = (address, data);
    if dev is Some && !t.seen.pairs@.contains(p) {
        assert(final(t).seen.pairs@[t.seen.pairs@.len() as int] == p);
    }
}

/// A tick delivers every interrupt of the log again, in the order of the log, through
/// the device that is bound; without one it delivers nothing. A snapshot holds what the
/// log does.
pub proof fn law_tick_delivers_the_whole_log(
    t: &HdvSignalMsi,
    slots: &DeviceSlots,
    h: &DeviceHandle,
    dev: Option<Device>,
    r: Vec<Delivery>,
    buf: &mut Vec<(u64, u32)>,
    log: &InterruptLog,
    u: (),
)
    requires
        call_ensures(HdvSignalMsi::rearm, (t, slots), r),
        *h == t.handle,
        call_ensures(DeviceHandle::get, (h, slots), dev),
        *log == t.seen,
        call_ensures(InterruptLog::snapshot_into, (log, buf), u),
    ensures
        dev is None ==> r@.len() == 0,
        dev is Some ==> r@.len() == t.seen.pairs@.len(),
        forall|i: int|
            0 <= i < r@.len() ==> Some((#[trigger] r@[i]).device) == dev && r@[i].address
                == t.seen.pairs@[i].0 && r@[i].data == t.seen.pairs@[i].1,
        final(buf)@ == t.seen.pairs@,
{
}

/// A log starts with nothing delivered.
pub proof fn law_log_starts_empty(log: InterruptLog)
    requires
        call_ensures(InterruptLog::new, (), log),
    ensures
        log.pairs@.len() == 0 && log.last_activity_ms is None,
{
}

/// A log where nothing was ever delivered has been idle for as long as can be.
pub proof fn law_log_without_deliveries_is_idle(log: &InterruptLog, ms: u64)
    requires
        call_ensures(InterruptLog::idle_ms, (log,), ms),
    ensures
        log.last_activity_ms is None ==> ms == u64::MAX,
        log.last_activity_ms matches Some(last) ==> exists|now: u64|
            crate::clock::millis_from(log.start, now) && ms == #[trigger] crate::interrupt::idle(
                Some(last),
                now,
            ),
{
}

} // verus!
