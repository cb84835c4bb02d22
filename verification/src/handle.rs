//! The HDV device handle, which is known only after the device was created.
//!
//! The objects that need the handle are built before the device, each over a clone
//! of the same [`DeviceHandle`]. A handle names a slot in [`DeviceSlots`], and a
//! clone names the same slot: what is published through one is seen through all.

use vstd::prelude::*;

verus! {

/// HDV's opaque handle of a device.
#[derive(Clone, Copy, Debug, PartialEq, Eq, Structural)]
pub struct Device(pub usize);

/// The slots that handles name.
pub struct DeviceSlots {
    /// What was published in each slot, 0 while there is nothing.
    raw: Vec<usize>,
}

impl View for DeviceSlots {
    type V = Seq<usize>;

    closed spec fn view(&self) -> Seq<usize> {
        self.raw@
    }
}

impl DeviceSlots {
    /// No slot yet.
    pub fn new() -> (s: DeviceSlots)
        ensures
            s@ == Seq::<usize>::empty(),
    {
        DeviceSlots { raw: Vec::new() }
    }
}

impl Default for DeviceSlots {
    fn default() -> (s: DeviceSlots)
        ensures
            s@ == Seq::<usize>::empty(),
    {
        DeviceSlots::new()
    }
}

/// A shareable name of a slot for the device handle. Clones name the same slot.
#[derive(Clone, Copy, Debug, PartialEq, Eq, Structural)]
pub struct DeviceHandle {
    /// Which slot.
    pub slot: usize,
}

impl DeviceHandle {
    /// The handle names one of these slots.
    pub open spec fn is_of(self, slots: Seq<usize>) -> bool {
        self.slot < slots.len()
    }

    /// What was published in the slot that the handle names.
    pub open spec fn bound(self, slots: Seq<usize>) -> Option<Device> {
        if self.slot >= slots.len() || slots[self.slot as int] == 0 {
            None
        } else {
            Some(Device(slots[self.slot as int]))
        }
    }

    /// A handle of a new slot, which is empty. What the other handles give stays.
    pub fn new(slots: &mut DeviceSlots) -> (h: DeviceHandle)
        ensures
            final(slots)@ == old(slots)@.push(0),
            h.is_of(final(slots)@),
            !h.is_of(old(slots)@),
            h.bound(final(slots)@) is None,
            forall|c: DeviceHandle| #[trigger]
                c.bound(final(slots)@) == c.bound(old(slots)@),
    {
        let slot: usize = slots.raw.len();
        slots.raw.push(0);
        DeviceHandle { slot }
    }

    /// Publishes the handle of the device, for this handle and its clones. A null
    /// handle leaves the slot empty.
    pub fn set(&self, slots: &mut DeviceSlots, device: Device)
        requires
            self.is_of(old(slots)@),
        ensures
            final(slots)@ == old(slots)@.update(self.slot as int, device.0),
            device.0 != 0 ==> self.bound(final(slots)@) == Some(device),
            device.0 == 0 ==> self.bound(final(slots)@) is None,
    {
        slots.raw.set(self.slot, device.0);
    }

    /// The handle that was published, or `None` while there is none.
    pub fn get(&self, slots: &DeviceSlots) -> (r: Option<Device>)
        ensures
            r == self.bound(slots@),
    {
        if self.slot >= slots.raw.len() || slots.raw[self.slot] == 0 {
            None
        } else {
            Some(Device(slots.raw[self.slot]))
        }
    }
}

/// All clones of a handle see the device that is published through one of them,
/// whether they were made before or after, and no other handle does: it gives what
/// it gave before.
pub proof fn law_clones_see_the_same_device(
    slots: Seq<usize>,
    h: DeviceHandle,
    device: Device,
    c: DeviceHandle,
)
    requires
        h.is_of(slots),
        device.0 != 0,
    ensures
        ({
            let after = slots.update(h.slot as int, device.0);
            &&& c == h ==> c.bound(after) == Some(device)
            &&& c != h ==> c.bound(after) == c.bound(slots)
        }),
{
}

/// What is published through a handle is what every clone of it gives then; a null
/// handle is as nothing. Every other handle gives what it gave before.
pub proof fn law_published_device_is_seen(
    slots: &mut DeviceSlots,
    h: &DeviceHandle,
    device: Device,
    u: (),
    c: &DeviceHandle,
    before: &DeviceSlots,
    after: &DeviceSlots,
    x: Option<Device>,
    y: Option<Device>,
)
    requires
        h.is_of(slots@),
        call_ensures(DeviceHandle::set, (h, slots, device), u),
        *before == *slots,
        *after == *final(slots),
        call_ensures(DeviceHandle::get, (c, before), x),
        call_ensures(DeviceHandle::get, (c, after), y),
    ensures
        c.slot == h.slot && device.0 != 0 ==> y == Some(device),
        c.slot == h.slot && device.0 == 0 ==> y is None,
        c.slot != h.slot ==> y == x,
{
}

/// A new handle gives nothing, is none of those that there were, and can be published
/// through; what those give stays.
pub proof fn law_new_handle_is_unbound(
    slots: &mut DeviceSlots,
    h: DeviceHandle,
    c: &DeviceHandle,
    before: &DeviceSlots,
    after: &DeviceSlots,
    n: &DeviceHandle,
    x: Option<Device>,
    y: Option<Device>,
    z: Option<Device>,
)
    requires
        call_ensures(DeviceHandle::new, (slots,), h),
        *before == *slots,
        *after == *final(slots),
        *n == h,
        call_ensures(DeviceHandle::get, (c, before), x),
        call_ensures(DeviceHandle::get, (c, after), y),
        call_ensures(DeviceHandle::get, (n, after), z),
    ensures
        z is None,
        y == x,
        h.slot == old(slots)@.len(),
        final(slots)@.len() == old(slots)@.len() + 1,
{
}

} // verus!
