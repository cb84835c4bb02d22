//! Attaching a virtio-fs device to a guest, step by step.
//!
//! The file system backend is opened and the transport built before the device
//! exists; then the internal bases are programmed and HDV is asked for the
//! device. Its handle is published as soon as there is one, and only then may
//! interrupts be delivered again by the re-arm net.

use crate::handle::{Device, DeviceHandle, DeviceSlots};
use crate::hdv::{DeviceHost, Error};
use crate::hresult::HRESULT;
use crate::mem::ram_size_to_max_gpa;
use crate::pci::{DeviceRequest, PciDevice};
use crate::sys::{GUID, HVFS_DEVICE_CLASS_ID, HVFS_DEVICE_INSTANCE_ID};
use crate::transport::{program_internal_bars, ConfigWrite};
use std::sync::Arc;
use vstd::prelude::*;
use vstd::string::*;

verus! {

/// Why a device was not attached.
pub enum AttachError {
    /// The host directory could not be opened.
    Fs(String),
    /// The virtio PCI transport could not be built.
    Transport(String),
    /// HDV did not make the device.
    Hdv(Error),
}

/// How an [`AttachError`] is written; `hdv` is how an error of HDV is.
pub open spec fn attach_error_text(e: AttachError, hdv: Seq<char>) -> Seq<char> {
    match e {
        AttachError::Fs(s) => "virtio-fs backend: "@ + s@,
        AttachError::Transport(s) => "virtio PCI transport: "@ + s@,
        AttachError::Hdv(_) => "HDV: "@ + hdv,
    }
}

impl AttachError {
    /// What to tell about it; `hdv` is how an error of HDV is written.
    pub fn message(&self, hdv: &str) -> (s: String)
        ensures
            s@ == attach_error_text(*self, hdv@),
    {
        match self {
            AttachError::Fs(e) => "virtio-fs backend: ".to_owned().concat(e.as_str()),
            AttachError::Transport(e) => "virtio PCI transport: ".to_owned().concat(e.as_str()),
            AttachError::Hdv(_) => "HDV: ".to_owned().concat(hdv),
        }
    }
}

/// A device that is attached.
pub struct VirtioHdvDevice {
    pub pci: PciDevice,
    /// The handle, as the guest memory and the interrupts reach it.
    pub handle: DeviceHandle,
}

impl VirtioHdvDevice {
    /// Attaches a device with the well-known class and instance to a host of its
    /// own: the host's directory `workspace`, which the guest mounts by `tag`, for a
    /// guest with `guest_mem_size` bytes of RAM.
    pub fn attach(host: DeviceHost, workspace: &str, tag: &str, guest_mem_size: u64) -> (r: (
        Attach,
        AttachAction,
    ))
        ensures
            *r.0.host == host,
            r.0.opens(
                workspace@,
                tag@,
                guest_mem_size,
                HVFS_DEVICE_CLASS_ID(),
                HVFS_DEVICE_INSTANCE_ID(),
            ),
            r.1 matches AttachAction::OpenFs { workspace: w } && w@ == workspace@,
    {
        Self::attach_with_instance(
            host,
            workspace,
            tag,
            guest_mem_size,
            &HVFS_DEVICE_INSTANCE_ID(),
        )
    }

    /// Attaches a device with the well-known class to a host of its own.
    pub fn attach_with_instance(
        host: DeviceHost,
        workspace: &str,
        tag: &str,
        guest_mem_size: u64,
        instance_id: &GUID,
    ) -> (r: (Attach, AttachAction))
        ensures
            *r.0.host == host,
            r.0.opens(workspace@, tag@, guest_mem_size, HVFS_DEVICE_CLASS_ID(), *instance_id),
            r.1 matches AttachAction::OpenFs { workspace: w } && w@ == workspace@,
    {
        Self::attach_shared(
            Arc::new(host),
            workspace,
            tag,
            guest_mem_size,
            &HVFS_DEVICE_CLASS_ID(),
            instance_id,
        )
    }

    /// Attaches a device to a shared host.
    pub fn attach_shared(
        host: Arc<DeviceHost>,
        workspace: &str,
        tag: &str,
        guest_mem_size: u64,
        class_id: &GUID,
        instance_id: &GUID,
    ) -> (r: (Attach, AttachAction))
        ensures
            r.0.host == host,
            r.0.opens(workspace@, tag@, guest_mem_size, *class_id, *instance_id),
            r.1 matches AttachAction::OpenFs { workspace: w } && w@ == workspace@,
    {
        (
            Attach {
                host,
                workspace: workspace.to_owned(),
                tag: tag.to_owned(),
                max_address: ram_size_to_max_gpa(guest_mem_size),
                class_id: *class_id,
                instance_id: *instance_id,
                stage: AttachStage::OpeningFs,
            },
            AttachAction::OpenFs { workspace: workspace.to_owned() },
        )
    }

    /// The handle of the device.
    pub fn device(&self) -> (d: Device)
        ensures
            d == self.pci.handle(),
    {
        self.pci.device()
    }
}

/// What to do next.
pub enum AttachAction {
    /// Open this directory of the host, and hand the outcome to
    /// [`Attach::fs_opened`].
    OpenFs { workspace: String },
    /// Build the transport over it, for a share that the guest mounts by `tag`, with
    /// guest memory up to `max_address`, and hand the outcome to
    /// [`Attach::transport_built`].
    BuildTransport { tag: String, max_address: u64 },
    /// Program these config registers, and ask HDV for this device; hand what it
    /// gives to [`Attach::created`].
    Create { bars: [ConfigWrite; 4], request: DeviceRequest },
    /// There is no device.
    Failed(AttachError),
}

/// How far an attach has come.
#[derive(Clone, Copy, Debug, PartialEq, Eq, Structural)]
pub enum AttachStage {
    OpeningFs,
    BuildingTransport,
    Creating,
    Over,
}

/// An attach that is being made.
pub struct Attach {
    pub host: Arc<DeviceHost>,
    pub workspace: String,
    pub tag: String,
    /// Where the guest's memory ends.
    pub max_address: u64,
    pub class_id: GUID,
    pub instance_id: GUID,
    pub stage: AttachStage,
}

impl Attach {
    /// `self` is an attach of these, at its start.
    pub open spec fn opens(
        &self,
        workspace: Seq<char>,
        tag: Seq<char>,
        guest_mem_size: u64,
        class_id: GUID,
        instance_id: GUID,
    ) -> bool {
        &&& self.workspace@ == workspace
        &&& self.tag@ == tag
        &&& self.max_address == crate::mem::max_gpa(guest_mem_size)
        &&& self.class_id == class_id
        &&& self.instance_id == instance_id
        &&& self.stage == AttachStage::OpeningFs
    }

    /// `self` is `before` at another stage.
    pub open spec fn moved(&self, before: Attach, stage: AttachStage) -> bool {
        &&& self.host == before.host
        &&& self.workspace == before.workspace
        &&& self.tag == before.tag
        &&& self.max_address == before.max_address
        &&& self.class_id == before.class_id
        &&& self.instance_id == before.instance_id
        &&& self.stage == stage
    }

    /// Whether the host directory was opened; an error comes with its text.
    pub fn fs_opened(&mut self, outcome: Result<(), String>) -> (a: AttachAction)
        requires
            old(self).stage == AttachStage::OpeningFs,
        ensures
            match outcome {
                Ok(()) => {
                    &&& final(self).moved(*old(self), AttachStage::BuildingTransport)
                    &&& a matches AttachAction::BuildTransport { tag, max_address } && tag@
                        == old(self).tag@ && max_address == old(self).max_address
                },
                Err(e) => {
                    &&& final(self).moved(*old(self), AttachStage::Over)
                    &&& a == AttachAction::Failed(AttachError::Fs(e))
                },
            },
    {
        match outcome {
            Ok(()) => {
                self.stage = AttachStage::BuildingTransport;
                AttachAction::BuildTransport {
                    tag: self.tag.as_str().to_owned(),
                    max_address: self.max_address,
                }
            },
            Err(e) => {
                self.stage = AttachStage::Over;
                AttachAction::Failed(AttachError::Fs(e))
            },
        }
    }

    /// Whether the transport was built; an error comes with its text.
    pub fn transport_built(&mut self, outcome: Result<(), String>) -> (a: AttachAction)
        requires
            old(self).stage == AttachStage::BuildingTransport,
        ensures
            match outcome {
                Ok(()) => {
                    &&& final(self).moved(*old(self), AttachStage::Creating)
                    &&& a matches AttachAction::Create { bars, request } && {
                        &&& bars@ == crate::transport::internal_bar_writes()
                        &&& request.host == old(self).host
                        &&& request.device_type == crate::sys::HDV_DEVICE_TYPE::Pci
                        &&& request.class_id == old(self).class_id
                        &&& request.instance_id == old(self).instance_id
                    }
                },
                Err(e) => {
                    &&& final(self).moved(*old(self), AttachStage::Over)
                    &&& a == AttachAction::Failed(AttachError::Transport(e))
                },
            },
    {
        match outcome {
            Ok(()) => {
                self.stage = AttachStage::Creating;
                let request = PciDevice::create_shared(
                    self.host.clone(),
                    &self.class_id,
                    &self.instance_id,
                );
                AttachAction::Create { bars: program_internal_bars(), request }
            },
            Err(e) => {
                self.stage = AttachStage::Over;
                AttachAction::Failed(AttachError::Transport(e))
            },
        }
    }

    /// What HDV gave for the request: its result code, and the device, which is
    /// published through `handle`. Only once this has succeeded may the re-arm net
    /// start.
    pub fn created(
        &mut self,
        request: DeviceRequest,
        code: HRESULT,
        device: Device,
        handle: DeviceHandle,
        slots: &mut DeviceSlots,
    ) -> (r: Result<VirtioHdvDevice, AttachError>)
        requires
            old(self).stage == AttachStage::Creating,
            handle.is_of(old(slots)@),
        ensures
            final(self).moved(*old(self), AttachStage::Over),
            code < 0 ==> {
                &&& r == Err::<VirtioHdvDevice, AttachError>(AttachError::Hdv(Error::Hdv(code)))
                &&& final(slots)@ == old(slots)@
            },
            code >= 0 ==> {
                &&& final(slots)@ == old(slots)@.update(handle.slot as int, device.0)
                &&& r matches Ok(v) && v.pci.handle() == device && v.pci.on() == *request.host
                    && v.handle == handle
            },
    {
        self.stage = AttachStage::Over;
        match request.created(code, device) {
            Err(e) => Err(AttachError::Hdv(e)),
            Ok(pci) => {
                handle.set(slots, pci.device());
                Ok(VirtioHdvDevice { pci, handle })
            },
        }
    }
}

// ---------------------------------------------------------------------------
// Laws
// ---------------------------------------------------------------------------

/// An attach starts by opening the directory, and keeps what it was asked for. Guest
/// memory ends 4 GiB above the size of the RAM. A lone device has the identifiers of
/// the library.
pub proof fn law_attach_keeps_what_it_was_asked_for(
    host: DeviceHost,
    shared: Arc<DeviceHost>,
    workspace: &str,
    tag: &str,
    ram: u64,
    class_id: &GUID,
    instance_id: &GUID,
    lone: (Attach, AttachAction),
    own: (Attach, AttachAction),
    any: (Attach, AttachAction),
)
    requires
        call_ensures(VirtioHdvDevice::attach, (host, workspace, tag, ram), lone),
        call_ensures(
            VirtioHdvDevice::attach_with_instance,
            (host, workspace, tag, ram, instance_id),
            own,
        ),
        call_ensures(
            VirtioHdvDevice::attach_shared,
            (shared, workspace, tag, ram, class_id, instance_id),
            any,
        ),
    ensures
        *lone.0.host == host && *own.0.host == host && any.0.host == shared,
        lone.0.class_id == crate::sys::lone_guid(1),
        own.0.class_id == crate::sys::lone_guid(1),
        any.0.class_id == *class_id,
        lone.0.instance_id == crate::sys::lone_guid(2),
        own.0.instance_id == *instance_id && any.0.instance_id == *instance_id,
        lone.0.tag@ == tag@ && own.0.tag@ == tag@ && any.0.tag@ == tag@,
        lone.0.workspace@ == workspace@ && own.0.workspace@ == workspace@ && any.0.workspace@
            == workspace@,
        ram + 0x1_0000_0000 <= u64::MAX ==> any.0.max_address == ram + 0x1_0000_0000,
        ram + 0x1_0000_0000 > u64::MAX ==> any.0.max_address == u64::MAX,
        lone.0.max_address == any.0.max_address && own.0.max_address == any.0.max_address,
        lone.1 matches AttachAction::OpenFs { workspace: w } && w@ == workspace@,
        own.1 matches AttachAction::OpenFs { workspace: w } && w@ == workspace@,
        any.1 matches AttachAction::OpenFs { workspace: w } && w@ == workspace@,
        any.0.stage == AttachStage::OpeningFs,
{
    crate::sys::law_identifiers_of_the_library();
}

/// The transport is built only over a directory that was opened, for the tag and the
/// memory that were asked for; otherwise the attach fails, with the text that came.
pub proof fn law_transport_is_built_over_an_open_directory(
    t: &mut Attach,
    outcome: Result<(), String>,
    a: AttachAction,
)
    requires
        t.stage == AttachStage::OpeningFs,
        call_ensures(Attach::fs_opened, (t, outcome), a),
    ensures
        outcome is Ok <==> a is BuildTransport,
        outcome is Ok ==> (a matches AttachAction::BuildTransport { tag, max_address } && tag@
            == old(t).tag@ && max_address == old(t).max_address),
        outcome is Ok ==> final(t).stage == AttachStage::BuildingTransport,
        outcome matches Err(e) ==> a == AttachAction::Failed(AttachError::Fs(e)) && final(t).stage
            == AttachStage::Over,
        final(t).host == old(t).host && final(t).class_id == old(t).class_id && final(t).instance_id
            == old(t).instance_id && final(t).tag == old(t).tag && final(t).max_address
            == old(t).max_address,
{
}

/// The device is asked for only once the transport stands, on the host and under the
/// identifiers that were asked for, with the bases of registers 0 and 2 programmed;
/// otherwise the attach fails, with the text that came.
pub proof fn law_device_is_asked_for_over_a_transport(
    t: &mut Attach,
    outcome: Result<(), String>,
    a: AttachAction,
)
    requires
        t.stage == AttachStage::BuildingTransport,
        call_ensures(Attach::transport_built, (t, outcome), a),
    ensures
        outcome is Ok <==> a is Create,
        outcome is Ok ==> (a matches AttachAction::Create { bars, request } && {
            &&& request.host == old(t).host
            &&& request.device_type == crate::sys::HDV_DEVICE_TYPE::Pci
            &&& request.class_id == old(t).class_id
            &&& request.instance_id == old(t).instance_id
            &&& bars@[0].offset == 0x10 && bars@[0].value == 0
            &&& bars@[1].offset == 0x14 && bars@[1].value == 1
            &&& bars@[2].offset == 0x18 && bars@[2].value == 0x1000
            &&& bars@[3].offset == 0x1c && bars@[3].value == 1
        }),
        outcome is Ok ==> final(t).stage == AttachStage::Creating,
        outcome matches Err(e) ==> a == AttachAction::Failed(AttachError::Transport(e)) && final(
            t).stage == AttachStage::Over,
        final(t).host == old(t).host && final(t).class_id == old(t).class_id && final(t).instance_id
            == old(t).instance_id && final(t).tag == old(t).tag && final(t).max_address
            == old(t).max_address,
{
}

/// A device that HDV made is seen through the handle, and through no other; one that it
/// refused is published nowhere, and its code is told.
pub proof fn law_device_is_published_exactly_if_it_was_made(
    t: &mut Attach,
    request: DeviceRequest,
    code: HRESULT,
    device: Device,
    handle: DeviceHandle,
    slots: &mut DeviceSlots,
    r: Result<VirtioHdvDevice, AttachError>,
    c: &DeviceHandle,
    before: &DeviceSlots,
    after: &DeviceSlots,
    x: Option<Device>,
    y: Option<Device>,
    v: &VirtioHdvDevice,
    d: Device,
)
    requires
        t.stage == AttachStage::Creating,
        handle.is_of(slots@),
        call_ensures(Attach::created, (t, request, code, device, handle, slots), r),
        *before == *slots,
        *after == *final(slots),
        call_ensures(DeviceHandle::get, (c, before), x),
        call_ensures(DeviceHandle::get, (c, after), y),
        r is Ok ==> *v == r->Ok_0,
        call_ensures(VirtioHdvDevice::device, (v,), d),
    ensures
        r is Ok <==> code >= 0,
        r matches Err(e) ==> e == AttachError::Hdv(Error::Hdv(code)),
        r is Ok && c.slot == handle.slot && device.0 != 0 ==> y == Some(device),
        r is Ok && c.slot == handle.slot && device.0 == 0 ==> y is None,
        r is Err || c.slot != handle.slot ==> y == x,
        r matches Ok(v) ==> v.handle == handle && v.pci.on() == *request.host,
        r is Ok ==> d == device,
        final(t).stage == AttachStage::Over,
{
}

/// An error is told behind the step that it comes from.
pub proof fn law_error_names_its_step(e: &AttachError, hdv: &str, s: String)
    requires
        call_ensures(AttachError::message, (e, hdv), s),
    ensures
        *e matches AttachError::Fs(t) ==> s@ == "virtio-fs backend: "@ + t@,
        *e matches AttachError::Transport(t) ==> s@ == "virtio PCI transport: "@ + t@,
        *e is Hdv ==> s@ == "HDV: "@ + hdv@,
{
}

} // verus!
