//! The virtio-fs device as the transport sees it: its config space, its traits
//! and its queues.

use crate::text::push_decimal;
use vstd::prelude::*;
use vstd::string::*;

verus! {

/// The bytes of config space that hold the tag.
pub const TAG_LEN: usize = 36;

/// The bytes of config space: the tag, and the number of request queues.
pub const CONFIG_LEN: usize = 40;

/// The traits of the device.
#[derive(Clone, Copy, Debug, PartialEq, Eq, Structural)]
pub struct OffloadTraits {
    pub ring_event_idx: bool,
    pub ring_indirect_desc: bool,
    pub ring_packed: bool,
    pub max_queues: u16,
    pub device_register_length: u32,
    pub shared_memory_id: u8,
    pub shared_memory_size: u64,
}

/// The config space for a tag: its bytes, as far as they fit, zeroes up to
/// [`TAG_LEN`], and the number of request queues, 1, as a little-endian word.
pub open spec fn config_space(tag: Seq<u8>) -> Seq<u8> {
    Seq::new(
        CONFIG_LEN as nat,
        |i: int|
            if i < TAG_LEN {
                if i < tag.len() {
                    tag[i]
                } else {
                    0
                }
            } else if i == TAG_LEN {
                1
            } else {
                0
            },
    )
}

/// The little-endian word in `bytes` at `offset`, or 0 where it does not lie in it
/// whole.
pub open spec fn word_at(bytes: Seq<u8>, offset: int) -> int {
    if offset + 4 <= bytes.len() {
        bytes[offset] + bytes[offset + 1] * 0x100 + bytes[offset + 2] * 0x1_0000 + bytes[offset + 3]
            * 0x100_0000
    } else {
        0
    }
}

/// A virtio-fs device whose requests are dispatched by a worker pool. `T` is a
/// started queue: whatever stops it and gives it back.
pub struct OffloadVirtioFsDevice<T> {
    pub task_name: String,
    pub config: Vec<u8>,
    pub queues: Vec<Option<T>>,
}

/// What is in slot `idx`: an index past the end is an empty slot.
pub open spec fn slot<T>(queues: Seq<Option<T>>, idx: int) -> Option<T> {
    if idx < queues.len() {
        queues[idx]
    } else {
        None
    }
}

/// The queues that are started, in the order of their slots.
pub open spec fn started<T>(queues: Seq<Option<T>>) -> Seq<T>
    decreases queues.len(),
{
    if queues.len() == 0 {
        Seq::empty()
    } else {
        match queues.last() {
            Some(t) => started(queues.drop_last()).push(t),
            None => started(queues.drop_last()),
        }
    }
}

impl<T> OffloadVirtioFsDevice<T> {
    /// The config space is complete.
    pub open spec fn wf(&self) -> bool {
        self.config@.len() == CONFIG_LEN
    }

    /// A device with this tag, and no queue started. A tag that is too long is cut
    /// off.
    pub fn new(tag: &str) -> (d: OffloadVirtioFsDevice<T>)
        ensures
            d.wf(),
            d.task_name@ == "virtiofs-offload-"@ + tag@,
            d.config@ == config_space(tag.spec_bytes()),
            d.queues@ == Seq::<Option<T>>::empty(),
    {
        let bytes = tag.as_bytes();
        let mut config: Vec<u8> = Vec::new();
        let mut i: usize = 0;
        while i < CONFIG_LEN
            invariant
                i <= CONFIG_LEN,
                bytes@ == tag.spec_bytes(),
                config@ =~= config_space(bytes@).take(i as int),
            decreases CONFIG_LEN - i,
        {
            let b: u8 = if i < TAG_LEN {
                if i < bytes.len() {
                    bytes[i]
                } else {
                    0
                }
            } else if i == TAG_LEN {
                1
            } else {
                0
            };
            config.push(b);
            i = i + 1;
        }
        assert(config@ =~= config_space(bytes@));
        OffloadVirtioFsDevice {
            task_name: "virtiofs-offload-".to_owned().concat(tag),
            config,
            queues: Vec::new(),
        }
    }

    /// The traits: a request queue beside the one for high priority, and no shared
    /// memory.
    pub fn traits(&self) -> (t: OffloadTraits)
        ensures
            t == (OffloadTraits {
                ring_event_idx: true,
                ring_indirect_desc: true,
                ring_packed: true,
                max_queues: 2,
                device_register_length: CONFIG_LEN as u32,
                shared_memory_id: 0,
                shared_memory_size: 0,
            }),
    {
        OffloadTraits {
            ring_event_idx: true,
            ring_indirect_desc: true,
            ring_packed: true,
            max_queues: 2,
            device_register_length: CONFIG_LEN as u32,
            shared_memory_id: 0,
            shared_memory_size: 0,
        }
    }

    /// The word of config space at `offset`; 0 where it does not lie in it whole.
    pub fn read_registers_u32(&self, offset: u16) -> (v: u32)
        requires
            self.wf(),
        ensures
            v == word_at(self.config@, offset as int),
    {
        let o: usize = offset as usize;
        if o + 4 <= self.config.len() {
            self.config[o] as u32 + self.config[o + 1] as u32 * 0x100 + self.config[o + 2] as u32
                * 0x1_0000 + self.config[o + 3] as u32 * 0x100_0000
        } else {
            0
        }
    }

    /// The name of the task of queue `idx`.
    pub fn queue_task_name(&self, idx: u16) -> (s: String)
        ensures
            s@ == self.task_name@ + "-q"@ + crate::text::decimal(idx as nat),
    {
        let mut s = self.task_name.clone();
        s.append("-q");
        push_decimal(&mut s, idx as u64);
        s
    }

    /// Puts a started queue into its slot, and gives what was there.
    pub fn start_queue(&mut self, idx: u16, worker: T) -> (before: Option<T>)
        ensures
            final(self).task_name == old(self).task_name,
            final(self).config == old(self).config,
            before == slot(old(self).queues@, idx as int),
            slot(final(self).queues@, idx as int) == Some(worker),
            forall|i: int|
                0 <= i && i != idx ==> #[trigger] slot(final(self).queues@, i) == slot(
                    old(self).queues@,
                    i,
                ),
    {
        let i: usize = idx as usize;
        while self.queues.len() <= i
            invariant
                self.task_name == old(self).task_name,
                self.config == old(self).config,
                forall|j: int|
                    0 <= j ==> #[trigger] slot(self.queues@, j) == slot(old(self).queues@, j),
            decreases i + 1 - self.queues@.len(),
        {
            let ghost q = self.queues@;
            self.queues.push(None);
            assert forall|j: int| 0 <= j implies #[trigger] slot(self.queues@, j) == slot(
                old(self).queues@,
                j,
            ) by {
                assert(slot(q, j) == slot(old(self).queues@, j));
            }
        }
        let ghost q = self.queues@;
        let mut new: Option<T> = Some(worker);
        std::mem::swap(&mut new, &mut self.queues[i]);
        assert forall|j: int| 0 <= j && j != idx implies #[trigger] slot(self.queues@, j) == slot(
            old(self).queues@,
            j,
        ) by {
            assert(slot(q, j) == slot(old(self).queues@, j));
        }
        assert(slot(q, i as int) == slot(old(self).queues@, i as int));
        new
    }

    /// Takes the queue out of its slot, to be stopped. One that was never started,
    /// or was stopped before, gives nothing.
    pub fn stop_queue(&mut self, idx: u16) -> (worker: Option<T>)
        ensures
            final(self).task_name == old(self).task_name,
            final(self).config == old(self).config,
            worker == slot(old(self).queues@, idx as int),
            slot(final(self).queues@, idx as int) is None,
            forall|i: int|
                0 <= i && i != idx ==> #[trigger] slot(final(self).queues@, i) == slot(
                    old(self).queues@,
                    i,
                ),
    {
        let i: usize = idx as usize;
        if i < self.queues.len() {
            let mut new: Option<T> = None;
            std::mem::swap(&mut new, &mut self.queues[i]);
            new
        } else {
            None
        }
    }

    /// Takes all queues that are still started, to be stopped in this order.
    pub fn reset(&mut self) -> (workers: Vec<T>)
        ensures
            final(self).task_name == old(self).task_name,
            final(self).config == old(self).config,
            workers@ == started(old(self).queues@),
            final(self).queues@.len() == old(self).queues@.len(),
            forall|i: int|
                0 <= i < old(self).queues@.len() ==> (#[trigger] final(self).queues@[i]) is None,
    {
        let n: usize = self.queues.len();
        let mut workers: Vec<T> = Vec::new();
        let mut i: usize = 0;
        let ghost q = self.queues@;
        assert(q.take(0) =~= Seq::<Option<T>>::empty());
        while i < n
            invariant
                i <= n,
                n == self.queues@.len(),
                n == q.len(),
                q == old(self).queues@,
                self.task_name == old(self).task_name,
                self.config == old(self).config,
                workers@ == started(q.take(i as int)),
                forall|j: int| 0 <= j < i ==> (#[trigger] self.queues@[j]) is None,
                forall|j: int| i <= j < n ==> #[trigger] self.queues@[j] == q[j],
            decreases n - i,
        {
            let mut slot: Option<T> = None;
            std::mem::swap(&mut slot, &mut self.queues[i]);
            assert(q.take(i + 1).drop_last() =~= q.take(i as int));
            match slot {
                Some(t) => workers.push(t),
                None => {},
            }
            i = i + 1;
        }
        assert(q.take(n as int) =~= q);
        workers
    }
}

/// What a request came to: the bytes of its reply, and whether the guest sent
/// something that is no request.
#[derive(Clone, Copy, Debug, PartialEq, Eq, Structural)]
pub struct DispatchOutcome {
    pub bytes: u32,
    pub corrupt: bool,
}

/// The outcome of a request: one that could not be parsed has no reply, for want
/// of an id, and is reported as corruption; another has the reply that was sent.
pub fn dispatch_one(parsed: bool, sent: u32) -> (o: DispatchOutcome)
    ensures
        o == if parsed {
            DispatchOutcome { bytes: sent, corrupt: false }
        } else {
            DispatchOutcome { bytes: 0, corrupt: true }
        },
{
    if parsed {
        DispatchOutcome { bytes: sent, corrupt: false }
    } else {
        DispatchOutcome { bytes: 0, corrupt: true }
    }
}

/// The last word of every config space is the number of request queues, 1, and
/// nothing can be read past it.
pub proof fn law_config_space_ends_in_one_request_queue(tag: Seq<u8>, offset: int)
    requires
        0 <= offset,
    ensures
        word_at(config_space(tag), TAG_LEN as int) == 1,
        offset > TAG_LEN ==> word_at(config_space(tag), offset) == 0,
{
}

/// The guest reads the bytes of config space in their order, the least significant
/// one first; past the end it reads 0.
pub proof fn law_word_holds_the_bytes_in_order<T>(d: OffloadVirtioFsDevice<T>, offset: u16, v: u32)
    requires
        call_ensures(OffloadVirtioFsDevice::<T>::read_registers_u32, (&d, offset), v),
        d.config@.len() == 40,
    ensures
        offset + 4 <= 40 ==> {
            &&& v % 0x100 == d.config@[offset as int]
            &&& v / 0x100 % 0x100 == d.config@[offset + 1]
            &&& v / 0x1_0000 % 0x100 == d.config@[offset + 2]
            &&& v / 0x100_0000 == d.config@[offset + 3]
        },
        offset + 4 > 40 ==> v == 0,
{
}

/// The guest reads the tag back byte for byte: byte `i` of it stands in the word at
/// `i - i % 4`, followed by zeroes up to the 36th byte, and then by the number of
/// request queues, which is 1. A longer tag is cut off there.
pub proof fn law_guest_reads_the_tag_back<T>(
    tag: &str,
    d: OffloadVirtioFsDevice<T>,
    offset: u16,
    v: u32,
)
    requires
        call_ensures(OffloadVirtioFsDevice::<T>::new, (tag,), d),
        call_ensures(OffloadVirtioFsDevice::<T>::read_registers_u32, (&d, offset), v),
    ensures
        ({
            let byte = |i: int|
                if i < tag.spec_bytes().len() {
                    tag.spec_bytes()[i] as int
                } else {
                    0int
                };
            &&& offset <= 32 ==> {
                &&& v % 0x100 == byte(offset as int)
                &&& v / 0x100 % 0x100 == byte(offset + 1)
                &&& v / 0x1_0000 % 0x100 == byte(offset + 2)
                &&& v / 0x100_0000 == byte(offset + 3)
            }
            &&& offset == 36 ==> v == 1
            &&& offset > 36 ==> v == 0
        }),
{
    law_word_holds_the_bytes_in_order(d, offset, v);
}

/// A device has no queue started, and is named after its tag; so are its queues, by
/// their number in decimal.
pub proof fn law_device_and_queues_are_named_after_the_tag<T>(
    tag: &str,
    d: OffloadVirtioFsDevice<T>,
    idx: u16,
    name: String,
)
    requires
        call_ensures(OffloadVirtioFsDevice::<T>::new, (tag,), d),
        call_ensures(OffloadVirtioFsDevice::<T>::queue_task_name, (&d, idx), name),
    ensures
        d.queues@.len() == 0,
        name@ == "virtiofs-offload-"@ + tag@ + "-q"@ + crate::text::decimal(idx as nat),
{
}

/// The device offers event indices, indirect descriptors and packed rings, two
/// queues, forty bytes of config space, and no shared memory.
pub proof fn law_traits_of_the_device<T>(d: OffloadVirtioFsDevice<T>, t: OffloadTraits)
    requires
        call_ensures(OffloadVirtioFsDevice::<T>::traits, (&d,), t),
    ensures
        t.ring_event_idx && t.ring_indirect_desc && t.ring_packed,
        t.max_queues == 2,
        t.device_register_length == 40,
        t.shared_memory_size == 0 && t.shared_memory_id == 0,
{
}

/// A queue that was started is what stopping it gives, once; the queues of other
/// numbers stay what they were.
pub proof fn law_stop_gives_what_was_started<T>(
    d: &mut OffloadVirtioFsDevice<T>,
    e: &mut OffloadVirtioFsDevice<T>,
    f: &mut OffloadVirtioFsDevice<T>,
    idx: u16,
    other: u16,
    worker: T,
    before: Option<T>,
    first: Option<T>,
    second: Option<T>,
)
    requires
        call_ensures(OffloadVirtioFsDevice::<T>::start_queue, (d, idx, worker), before),
        *e == *final(d),
        call_ensures(OffloadVirtioFsDevice::<T>::stop_queue, (e, idx), first),
        *f == *final(e),
        call_ensures(OffloadVirtioFsDevice::<T>::stop_queue, (f, other), second),
    ensures
        first == Some(worker),
        other == idx ==> second is None,
        other != idx ==> second == if other < old(d).queues@.len() {
            old(d).queues@[other as int]
        } else {
            None
        },
{
    assert(slot(e.queues@, other as int) == slot(final(d).queues@, other as int));
    assert(slot(f.queues@, other as int) == slot(final(e).queues@, other as int));
    if other != idx {
        assert(slot(final(d).queues@, other as int) == slot(d.queues@, other as int));
        assert(slot(final(e).queues@, other as int) == slot(e.queues@, other as int));
    }
}

/// A reset gives every queue that was started, and leaves none.
pub proof fn law_reset_gives_every_started_queue<T>(
    d: &mut OffloadVirtioFsDevice<T>,
    workers: Vec<T>,
    i: int,
)
    requires
        call_ensures(OffloadVirtioFsDevice::<T>::reset, (d,), workers),
        0 <= i < d.queues@.len(),
    ensures
        old(d).queues@[i] matches Some(t) ==> workers@.contains(t),
        final(d).queues@.len() == old(d).queues@.len() && final(d).queues@[i] is None,
        workers@.len() <= old(d).queues@.len(),
        (forall|j: int| 0 <= j < old(d).queues@.len() ==> old(d).queues@[j] is Some) ==> workers@
            == old(d).queues@.map_values(|q: Option<T>| q->0),
{
    lemma_started(d.queues@, i);
    assert(final(d).queues@[i] is None);
}

proof fn lemma_started<T>(queues: Seq<Option<T>>, i: int)
    requires
        0 <= i < queues.len(),
    ensures
        queues[i] matches Some(t) ==> started(queues).contains(t),
        started(queues).len() <= queues.len(),
        (forall|j: int| 0 <= j < queues.len() ==> queues[j] is Some) ==> started(queues)
            == queues.map_values(|q: Option<T>| q->0),
    decreases queues.len(),
{
    let t = queues.drop_last();
    let s = started(queues);
    if queues.len() > 1 {
        lemma_started(t, if i < t.len() {
            i
        } else {
            0
        });
    } else {
        assert(t =~= Seq::<Option<T>>::empty());
        assert(started(t) =~= Seq::<T>::empty());
    }
    if queues[i] is Some {
        if i < t.len() {
            let k = choose|k: int| 0 <= k < started(t).len() && started(t)[k] == queues[i]->0;
            assert(s[k] == queues[i]->0);
        } else {
            assert(s[s.len() - 1] == queues[i]->0);
        }
    }
    if forall|j: int| 0 <= j < queues.len() ==> queues[j] is Some {
        assert forall|j: int| 0 <= j < t.len() implies t[j] is Some by {
            assert(queues[j] is Some);
        }
        assert(s =~= queues.map_values(|q: Option<T>| q->0));
    }
}

/// A request that was parsed is answered with what was sent for it; one that was not
/// is answered with nothing, and is the only kind that is corruption.
pub proof fn law_only_unparsed_requests_are_corruption(parsed: bool, sent: u32, o: DispatchOutcome)
    requires
        call_ensures(dispatch_one, (parsed, sent), o),
    ensures
        o.corrupt == !parsed,
        parsed ==> o.bytes == sent,
        !parsed ==> o.bytes == 0,
{
}

proof fn lemma_started_filter<T>(queues: Seq<Option<T>>)
    ensures
        started(queues) == queues.filter(|q: Option<T>| q is Some).map_values(
            |q: Option<T>| q->0,
        ),
    decreases queues.len(),
{
    reveal(Seq::filter);
    if queues.len() > 0 {
        lemma_started_filter(queues.drop_last());
    }
    assert(started(queues) =~= queues.filter(|q: Option<T>| q is Some).map_values(
        |q: Option<T>| q->0,
    ));
}

/// A reset gives the queues that were started, and no others, in the order of their
/// numbers. The name and the config space stay.
pub proof fn law_reset_keeps_the_order_of_queues<T>(
    d: &mut OffloadVirtioFsDevice<T>,
    workers: Vec<T>,
)
    requires
        call_ensures(OffloadVirtioFsDevice::<T>::reset, (d,), workers),
    ensures
        workers@ == old(d).queues@.filter(|q: Option<T>| q is Some).map_values(
            |q: Option<T>| q->0,
        ),
        final(d).config@ == old(d).config@ && final(d).task_name@ == old(d).task_name@,
{
    lemma_started_filter(d.queues@);
}

/// Starting a queue gives what was in its place, which was nothing for a number that was
/// never used. Neither starting nor stopping touches the name or the config space.
pub proof fn law_started_queue_takes_its_place<T>(
    d: &mut OffloadVirtioFsDevice<T>,
    idx: u16,
    worker: T,
    before: Option<T>,
    e: &mut OffloadVirtioFsDevice<T>,
    stopped: Option<T>,
)
    requires
        call_ensures(OffloadVirtioFsDevice::<T>::start_queue, (d, idx, worker), before),
        call_ensures(OffloadVirtioFsDevice::<T>::stop_queue, (e, idx), stopped),
    ensures
        idx < old(d).queues@.len() ==> before == old(d).queues@[idx as int],
        idx >= old(d).queues@.len() ==> before is None,
        idx < final(d).queues@.len() && final(d).queues@[idx as int] == Some(worker),
        final(d).config@ == old(d).config@ && final(d).task_name@ == old(d).task_name@,
        idx < old(e).queues@.len() ==> stopped == old(e).queues@[idx as int],
        idx >= old(e).queues@.len() ==> stopped is None,
        final(e).config@ == old(e).config@ && final(e).task_name@ == old(e).task_name@,
{
}

} // verus!
