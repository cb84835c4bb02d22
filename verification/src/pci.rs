//! A PCI device over HDV: what it reports, how HDV's callbacks reach it, and how
//! it comes to be on a device host.

use crate::handle::Device;
use crate::hdv::{DeviceHost, Error};
use crate::hresult::HRESULT;
use crate::sys::{E_FAIL, GUID, HDV_DEVICE_TYPE, HDV_PCI_PNP_ID, HVFS_DEVICE_CLASS_ID,
    HVFS_DEVICE_INSTANCE_ID, S_OK};
use std::sync::Arc;
use vstd::prelude::*;

verus! {

/// The identity of a device, and what each base address register gives to a
/// sizing probe: 0 for one that is absent.
#[derive(Clone, Copy, Debug)]
pub struct PciDetails {
    pub vendor_id: u16,
    pub device_id: u16,
    pub revision_id: u8,
    pub prog_if: u8,
    pub sub_class: u8,
    pub base_class: u8,
    pub sub_vendor_id: u16,
    pub sub_system_id: u16,
    pub probed_bars: [u32; 6],
}

/// The behaviour that HDV drives.
pub trait PciOps: Send + Sync {
    /// The identity and the sizes of the base address registers.
    fn details(&self) -> PciDetails;

    /// The dword of config space at `offset`.
    fn read_config(&self, offset: u32) -> u32;

    /// Writes the dword of config space at `offset`.
    fn write_config(&self, offset: u32, value: u32);

    /// Reads from a base address register; zeroes, unless the device says
    /// otherwise.
    fn read_bar(&self, bar: u8, offset: u64, data: &mut [u8])
        ensures
            final(data)@.len() == old(data)@.len(),
        default_ensures
            forall|i: int| 0 <= i < old(data)@.len() ==> final(data)@[i] == 0,
    {
        crate::transport::fill(data, 0);
    }

    /// Writes to a base address register; ignored, unless the device says
    /// otherwise.
    fn write_bar(&self, bar: u8, offset: u64, data: &[u8]) {
    }

    /// Takes configuration strings; ignored, unless the device says otherwise.
    fn set_configuration(&self, values: &[Vec<u16>]) {
    }

    /// Brings the device online; succeeds, unless the device says otherwise.
    fn start(&self) -> (ok: bool)
        default_ensures
            ok,
    {
        true
    }

    /// Takes the device offline.
    fn stop(&self) {
    }
}

// ---------------------------------------------------------------------------
// Callbacks
// ---------------------------------------------------------------------------

/// What a callback returns to HDV: a panic of its body (`None`) becomes a failure,
/// and never crosses the boundary.
pub fn guard_hr(outcome: Option<HRESULT>) -> (hr: HRESULT)
    ensures
        hr == match outcome {
            Some(hr) => hr,
            None => E_FAIL,
        },
{
    match outcome {
        Some(hr) => hr,
        None => E_FAIL,
    }
}

/// The answer to `Start`, from what the device said.
pub fn start_status(started: bool) -> (hr: HRESULT)
    ensures
        hr == if started {
            S_OK
        } else {
            E_FAIL
        },
{
    if started {
        S_OK
    } else {
        E_FAIL
    }
}

/// The `Start` callback.
pub fn on_start<O: PciOps>(ops: &O) -> (hr: HRESULT)
    ensures
        hr == S_OK || hr == E_FAIL,
        exists|started: bool| #[trigger] call_ensures(O::start, (ops,), started) && hr == if started {
            S_OK
        } else {
            E_FAIL
        },
{
    start_status(ops.start())
}

/// The identity as HDV takes it.
pub open spec fn pnp_id_of(d: PciDetails) -> HDV_PCI_PNP_ID {
    HDV_PCI_PNP_ID {
        VendorID: d.vendor_id,
        DeviceID: d.device_id,
        RevisionID: d.revision_id,
        ProgIf: d.prog_if,
        SubClass: d.sub_class,
        BaseClass: d.base_class,
        SubVendorID: d.sub_vendor_id,
        SubSystemID: d.sub_system_id,
    }
}

/// What `GetDetails` reports: the identity, and the sizes of as many base address
/// registers as there is room for.
pub struct DetailsReply {
    pub pnp_id: HDV_PCI_PNP_ID,
    pub probed_bars: Vec<u32>,
}

/// The report of these details, with room for `count` registers.
pub fn details_reply(d: &PciDetails, count: u32) -> (r: DetailsReply)
    ensures
        r.pnp_id == pnp_id_of(*d),
        r.probed_bars@ == d.probed_bars@.take(
            if count < 6 {
                count as int
            } else {
                6
            },
        ),
{
    let n: usize = if count < 6 {
        count as usize
    } else {
        6
    };
    let mut bars: Vec<u32> = Vec::new();
    let mut i: usize = 0;
    while i < n
        invariant
            i <= n <= 6,
            bars@ == d.probed_bars@.take(i as int),
        decreases n - i,
    {
        bars.push(d.probed_bars[i]);
        assert(d.probed_bars@.take(i + 1) =~= d.probed_bars@.take(i as int).push(
            d.probed_bars@[i as int],
        ));
        i = i + 1;
    }
    DetailsReply {
        pnp_id: HDV_PCI_PNP_ID {
            VendorID: d.vendor_id,
            DeviceID: d.device_id,
            RevisionID: d.revision_id,
            ProgIf: d.prog_if,
            SubClass: d.sub_class,
            BaseClass: d.base_class,
            SubVendorID: d.sub_vendor_id,
            SubSystemID: d.sub_system_id,
        },
        probed_bars: bars,
    }
}

/// The `GetDetails` callback: the report of what the device says of itself.
pub fn on_get_details<O: PciOps>(ops: &O, count: u32) -> (r: DetailsReply)
    ensures
        exists|d: PciDetails| #[trigger] call_ensures(O::details, (ops,), d) && {
            &&& r.pnp_id == pnp_id_of(d)
            &&& r.probed_bars@ == d.probed_bars@.take(
                if count < 6 {
                    count as int
                } else {
                    6
                },
            )
        },
{
    let d = ops.details();
    details_reply(&d, count)
}

/// Whether an intercepted access reaches the device: it has a buffer, and bytes.
pub fn access_reaches_device(has_buffer: bool, length: u64) -> (b: bool)
    ensures
        b == (has_buffer && length > 0),
{
    has_buffer && length > 0
}

// ---------------------------------------------------------------------------
// A device on a host
// ---------------------------------------------------------------------------

/// The call of `HdvCreateDeviceInstance` that makes a device.
pub struct DeviceRequest {
    pub host: Arc<DeviceHost>,
    pub device_type: HDV_DEVICE_TYPE,
    pub class_id: GUID,
    pub instance_id: GUID,
}

/// A PCI device attached to a guest. Devices share the one device host that HDV
/// allows a VM, and the host goes away with the last of them.
pub struct PciDevice {
    host: Arc<DeviceHost>,
    device: Device,
}

impl PciDevice {
    /// The device host.
    pub closed spec fn on(&self) -> DeviceHost {
        *self.host
    }

    /// The handle of the device.
    pub closed spec fn handle(&self) -> Device {
        self.device
    }

    /// A device on `host` with the well-known instance and class.
    pub fn create(host: DeviceHost) -> (r: DeviceRequest)
        ensures
            *r.host == host,
            r.device_type == HDV_DEVICE_TYPE::Pci,
            r.class_id == HVFS_DEVICE_CLASS_ID(),
            r.instance_id == HVFS_DEVICE_INSTANCE_ID(),
    {
        Self::create_with_instance(host, &HVFS_DEVICE_INSTANCE_ID())
    }

    /// A device on `host` with an instance of its own and the well-known class.
    pub fn create_with_instance(host: DeviceHost, instance_id: &GUID) -> (r: DeviceRequest)
        ensures
            *r.host == host,
            r.device_type == HDV_DEVICE_TYPE::Pci,
            r.class_id == HVFS_DEVICE_CLASS_ID(),
            r.instance_id == *instance_id,
    {
        Self::create_shared(Arc::new(host), &HVFS_DEVICE_CLASS_ID(), instance_id)
    }

    /// A device on a shared host, with a class and an instance of its own.
    pub fn create_shared(host: Arc<DeviceHost>, class_id: &GUID, instance_id: &GUID) -> (r:
        DeviceRequest)
        ensures
            r.host == host,
            r.device_type == HDV_DEVICE_TYPE::Pci,
            r.class_id == *class_id,
            r.instance_id == *instance_id,
    {
        DeviceRequest {
            host,
            device_type: HDV_DEVICE_TYPE::Pci,
            class_id: *class_id,
            instance_id: *instance_id,
        }
    }

    /// The handle of the device.
    pub fn device(&self) -> (d: Device)
        ensures
            d == self.handle(),
    {
        self.device
    }

    /// The device host.
    pub fn host(&self) -> (h: &DeviceHost)
        ensures
            *h == self.on(),
    {
        &self.host
    }

    /// A new reference to the shared device host, for another device on it.
    pub fn host_arc(&self) -> (h: Arc<DeviceHost>)
        ensures
            *h == self.on(),
    {
        self.host.clone()
    }
}

impl DeviceRequest {
    /// The device, from what the call gave: its result code, and the handle.
    pub fn created(self, code: HRESULT, device: Device) -> (r: Result<PciDevice, Error>)
        ensures
            code < 0 ==> r == Err::<PciDevice, Error>(Error::Hdv(code)),
            code >= 0 ==> (r matches Ok(p) && p.on() == *self.host && p.handle() == device),
    {
        if code < 0 {
            return Err(Error::Hdv(code));
        }
        Ok(PciDevice { host: self.host, device })
    }
}

// ---------------------------------------------------------------------------
// Laws
// ---------------------------------------------------------------------------

/// HDV is told success (0) exactly where the device started, and an unspecified
/// failure (0x80004005) otherwise, as it is for a callback that panicked. Any other
/// code is passed on.
pub proof fn law_failures_are_told_as_codes(
    started: bool,
    status: HRESULT,
    outcome: Option<HRESULT>,
    guarded: HRESULT,
)
    requires
        call_ensures(start_status, (started,), status),
        call_ensures(guard_hr, (outcome,), guarded),
    ensures
        started ==> status == 0,
        !started ==> status + 0x1_0000_0000 == 0x8000_4005,
        outcome matches Some(hr) ==> guarded == hr,
        outcome is None ==> guarded + 0x1_0000_0000 == 0x8000_4005,
{
}

/// A device that always starts, or never does, is reported so.
pub proof fn law_start_asks_the_device<O: PciOps>(ops: &O, hr: HRESULT, b: bool)
    requires
        call_ensures(on_start::<O>, (ops,), hr),
        forall|started: bool| #[trigger] call_ensures(O::start, (ops,), started) ==> started == b,
    ensures
        b <==> hr == 0,
        !b <==> hr + 0x1_0000_0000 == 0x8000_4005,
{
}

/// Each part of the identity is reported in its own place, and each register under its
/// own number, as many as there is room for and never over six.
pub proof fn law_details_are_reported_in_place(d: &PciDetails, count: u32, r: DetailsReply)
    requires
        call_ensures(details_reply, (d, count), r),
    ensures
        r.pnp_id.VendorID == d.vendor_id,
        r.pnp_id.DeviceID == d.device_id,
        r.pnp_id.RevisionID == d.revision_id,
        r.pnp_id.ProgIf == d.prog_if,
        r.pnp_id.SubClass == d.sub_class,
        r.pnp_id.BaseClass == d.base_class,
        r.pnp_id.SubVendorID == d.sub_vendor_id,
        r.pnp_id.SubSystemID == d.sub_system_id,
        count <= 6 ==> r.probed_bars@.len() == count,
        count > 6 ==> r.probed_bars@.len() == 6,
        forall|i: int|
            0 <= i < r.probed_bars@.len() ==> #[trigger] r.probed_bars@[i] == d.probed_bars@[i],
{
}

/// The callback reports what the device says of itself.
pub proof fn law_details_are_those_of_the_device<O: PciOps>(
    ops: &O,
    d: PciDetails,
    count: u32,
    r: DetailsReply,
)
    requires
        call_ensures(on_get_details::<O>, (ops, count), r),
        forall|e: PciDetails| #[trigger] call_ensures(O::details, (ops,), e) ==> e == d,
    ensures
        r.pnp_id.VendorID == d.vendor_id && r.pnp_id.DeviceID == d.device_id,
        r.pnp_id.RevisionID == d.revision_id && r.pnp_id.ProgIf == d.prog_if,
        r.pnp_id.SubClass == d.sub_class && r.pnp_id.BaseClass == d.base_class,
        r.pnp_id.SubVendorID == d.sub_vendor_id && r.pnp_id.SubSystemID == d.sub_system_id,
        count <= 6 ==> r.probed_bars@.len() == count,
        count > 6 ==> r.probed_bars@.len() == 6,
        forall|i: int|
            0 <= i < r.probed_bars@.len() ==> #[trigger] r.probed_bars@[i] == d.probed_bars@[i],
{
}

/// An access of no bytes, or without a buffer, is dropped; every other reaches the
/// device.
pub proof fn law_only_empty_accesses_are_dropped(has_buffer: bool, length: u64, b: bool)
    requires
        call_ensures(access_reaches_device, (has_buffer, length), b),
    ensures
        !b <==> !has_buffer || length == 0,
{
}

/// A device that is asked for and made is on the host that it was asked for on, under
/// the handle that HDV gave; a failing code makes none, and is told. All three ways to
/// ask name a PCI device.
pub proof fn law_device_is_made_where_it_was_asked_for(
    host: DeviceHost,
    shared: Arc<DeviceHost>,
    class_id: &GUID,
    instance_id: &GUID,
    lone: DeviceRequest,
    own: DeviceRequest,
    any: DeviceRequest,
    code: HRESULT,
    device: Device,
    r: Result<PciDevice, Error>,
    p: &PciDevice,
    d: Device,
    h: &DeviceHost,
    a: Arc<DeviceHost>,
)
    requires
        call_ensures(PciDevice::create, (host,), lone),
        call_ensures(PciDevice::create_with_instance, (host, instance_id), own),
        call_ensures(PciDevice::create_shared, (shared, class_id, instance_id), any),
        call_ensures(DeviceRequest::created, (any, code, device), r),
        r is Ok ==> *p == r->Ok_0,
        call_ensures(PciDevice::device, (p,), d),
        call_ensures(PciDevice::host, (p,), h),
        call_ensures(PciDevice::host_arc, (p,), a),
    ensures
        *lone.host == host && lone.device_type == HDV_DEVICE_TYPE::Pci,
        lone.class_id == crate::sys::lone_guid(1) && lone.instance_id == crate::sys::lone_guid(2),
        *own.host == host && own.device_type == HDV_DEVICE_TYPE::Pci,
        own.class_id == crate::sys::lone_guid(1) && own.instance_id == *instance_id,
        *any.host == *shared && any.device_type == HDV_DEVICE_TYPE::Pci,
        any.class_id == *class_id && any.instance_id == *instance_id,
        r is Ok <==> code >= 0,
        r matches Err(e) ==> e == Error::Hdv(code),
        r is Ok ==> d == device && *h == *shared && *a == *shared,
{
    crate::sys::law_identifiers_of_the_library();
}

} // verus!
