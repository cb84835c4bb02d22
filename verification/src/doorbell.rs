//! Queue kicks through doorbells.
//!
//! A doorbell lets the host's kernel take the guest's notify write and signal
//! the queue's event. It is registered with HDV, or, where HDV denies that,
//! through the VM worker process. Where both refuse, the transport keeps to the
//! intercepted write, which is slower. A doorbell is removed by the route by
//! which it was registered, with the values that it was registered with.
//!
//! `C` is a connection to the worker process: it outlives the device, which the
//! worker can no longer find once it is being removed.

use crate::handle::{Device, DeviceHandle, DeviceSlots};
use crate::hdv::Error;
use crate::hresult::HRESULT;
use crate::sys::{GUID, HDV_DOORBELL_FLAG_TRIGGER_ANY_VALUE, HDV_DOORBELL_FLAG_TRIGGER_SIZE_ANY,
    HDV_DOORBELL_FLAG_TRIGGER_SIZE_BYTE, HDV_DOORBELL_FLAG_TRIGGER_SIZE_DWORD,
    HDV_DOORBELL_FLAG_TRIGGER_SIZE_QWORD, HDV_DOORBELL_FLAG_TRIGGER_SIZE_WORD,
    HDV_PCI_BAR_SELECTOR};
use crate::text::same_text;
use crate::transport::{BAR0_BASE, BAR2_BASE, BAR_SPAN};
use crate::vmworker::Doorbell;
use vstd::prelude::*;

verus! {

/// Whether doorbells are registered at all, from the configured value: they are,
/// unless it is `0`, `false` or `off`.
pub open spec fn enabled_by(val: Option<Seq<char>>) -> bool {
    match val {
        None => true,
        Some(s) => s != "0"@ && s != "false"@ && s != "off"@,
    }
}

/// Whether doorbells are registered at all, from the configured value.
pub fn enabled(val: Option<&str>) -> (b: bool)
    ensures
        b == enabled_by(
            match val {
                None => None,
                Some(s) => Some(s@),
            },
        ),
{
    match val {
        None => true,
        Some(s) => !same_text(s, "0") && !same_text(s, "false") && !same_text(s, "off"),
    }
}

/// The register and the offset of an address within the internal bases.
pub open spec fn translated(guest_address: u64) -> Option<(HDV_PCI_BAR_SELECTOR, u64)> {
    if BAR0_BASE <= guest_address < BAR0_BASE + BAR_SPAN {
        Some((HDV_PCI_BAR_SELECTOR::Bar0, (guest_address - BAR0_BASE) as u64))
    } else if BAR2_BASE <= guest_address < BAR2_BASE + BAR_SPAN {
        Some((HDV_PCI_BAR_SELECTOR::Bar2, (guest_address - BAR2_BASE) as u64))
    } else {
        None
    }
}

/// The register and the offset that HDV takes for a doorbell at the transport's
/// internal address.
pub fn bar_and_offset(guest_address: u64) -> (r: Option<(HDV_PCI_BAR_SELECTOR, u64)>)
    ensures
        r == translated(guest_address),
{
    if BAR0_BASE <= guest_address && guest_address < BAR0_BASE + BAR_SPAN {
        Some((HDV_PCI_BAR_SELECTOR::Bar0, guest_address - BAR0_BASE))
    } else if BAR2_BASE <= guest_address && guest_address < BAR2_BASE + BAR_SPAN {
        Some((HDV_PCI_BAR_SELECTOR::Bar2, guest_address - BAR2_BASE))
    } else {
        None
    }
}

/// The flag for writes of `length` bytes; sizes that have none are not told apart.
pub open spec fn size_flag_of(length: Option<u32>) -> u64 {
    if length == Some(1u32) {
        HDV_DOORBELL_FLAG_TRIGGER_SIZE_BYTE
    } else if length == Some(2u32) {
        HDV_DOORBELL_FLAG_TRIGGER_SIZE_WORD
    } else if length == Some(4u32) {
        HDV_DOORBELL_FLAG_TRIGGER_SIZE_DWORD
    } else if length == Some(8u32) {
        HDV_DOORBELL_FLAG_TRIGGER_SIZE_QWORD
    } else {
        HDV_DOORBELL_FLAG_TRIGGER_SIZE_ANY
    }
}

/// The flag for writes of `length` bytes.
pub fn size_flag(length: Option<u32>) -> (f: u64)
    ensures
        f == size_flag_of(length),
{
    match length {
        Some(n) => if n == 1 {
            HDV_DOORBELL_FLAG_TRIGGER_SIZE_BYTE
        } else if n == 2 {
            HDV_DOORBELL_FLAG_TRIGGER_SIZE_WORD
        } else if n == 4 {
            HDV_DOORBELL_FLAG_TRIGGER_SIZE_DWORD
        } else if n == 8 {
            HDV_DOORBELL_FLAG_TRIGGER_SIZE_QWORD
        } else {
            HDV_DOORBELL_FLAG_TRIGGER_SIZE_ANY
        },
        None => HDV_DOORBELL_FLAG_TRIGGER_SIZE_ANY,
    }
}

/// The doorbell at a register and offset, for a value (or any) and a size.
pub open spec fn doorbell_of(
    bar: HDV_PCI_BAR_SELECTOR,
    offset: u64,
    value: Option<u64>,
    length: Option<u32>,
) -> Doorbell {
    Doorbell {
        bar,
        offset,
        trigger_value: match value {
            Some(v) => v,
            None => 0,
        },
        flags: match value {
            Some(_) => size_flag_of(length),
            None => (size_flag_of(length) + HDV_DOORBELL_FLAG_TRIGGER_ANY_VALUE) as u64,
        },
    }
}

/// Why there is no doorbell.
#[derive(Clone, Copy, Debug, PartialEq, Eq, Structural)]
pub enum DoorbellError {
    /// Doorbells are switched off.
    Disabled,
    /// The address is outside the internal bases.
    BadAddress,
    /// The device handle is not bound yet.
    NotBound,
    /// Both routes refused; this is the error of the last one that was tried.
    Refused(Error),
}

/// By which route a doorbell was registered.
pub enum Route<C> {
    /// With HDV, on the device behind the handle.
    Hdv(DeviceHandle),
    /// Through the worker process.
    Worker(C),
}

/// A registered doorbell.
pub struct DoorbellGuard<C> {
    pub route: Route<C>,
    pub doorbell: Doorbell,
    /// The event that it signals, which has to live until the doorbell is removed.
    pub event: usize,
}

/// A call that removes a doorbell.
pub enum Unregister<C> {
    /// With HDV, on this device.
    Hdv { device: Device, doorbell: Doorbell },
    /// Through this connection.
    Worker { conn: C, doorbell: Doorbell },
    /// None: the device is gone.
    Nothing,
}

impl<C> DoorbellGuard<C> {
    /// The call that removes this doorbell, by the route by which it was
    /// registered.
    pub fn unregister(self, slots: &DeviceSlots) -> (u: Unregister<C>)
        ensures
            u == match self.route {
                Route::Worker(conn) => Unregister::Worker { conn, doorbell: self.doorbell },
                Route::Hdv(handle) => match handle.bound(slots@) {
                    Some(device) => Unregister::Hdv { device, doorbell: self.doorbell },
                    None => Unregister::Nothing,
                },
            },
    {
        match self.route {
            Route::Worker(conn) => Unregister::Worker { conn, doorbell: self.doorbell },
            Route::Hdv(handle) => match handle.get(slots) {
                Some(device) => Unregister::Hdv { device, doorbell: self.doorbell },
                None => Unregister::Nothing,
            },
        }
    }
}

/// The way to the worker process: connected when it is first needed, and kept.
pub struct WorkerLink<C> {
    pub runtime_id: GUID,
    pub instance_id: GUID,
    pub conn: Option<C>,
}

/// What a link answers to one who needs the connection.
pub enum LinkStep<C> {
    /// The connection.
    Ready(C),
    /// Connect to this device of this VM, and hand the outcome to
    /// [`WorkerLink::connected`].
    Connect { runtime_id: GUID, instance_id: GUID },
}

impl<C: Clone> WorkerLink<C> {
    /// The connection that is kept, or what to connect to.
    pub fn connect(&self) -> (s: LinkStep<C>)
        ensures
            match self.conn {
                Some(c) => s matches LinkStep::Ready(d) && cloned(c, d),
                None => s == (LinkStep::<C>::Connect {
                    runtime_id: self.runtime_id,
                    instance_id: self.instance_id,
                }),
            },
    {
        match &self.conn {
            Some(c) => LinkStep::Ready(c.clone()),
            None => LinkStep::Connect {
                runtime_id: self.runtime_id,
                instance_id: self.instance_id,
            },
        }
    }

    /// The outcome of a connect: a connection is kept; after a failure the next
    /// one who needs it connects again.
    pub fn connected(&mut self, outcome: Option<C>) -> (r: Option<C>)
        ensures
            final(self).runtime_id == old(self).runtime_id,
            final(self).instance_id == old(self).instance_id,
            match outcome {
                Some(c) => final(self).conn == Some(c) && (r matches Some(d) && cloned(c, d)),
                None => final(self).conn == old(self).conn && r is None,
            },
    {
        match outcome {
            Some(c) => {
                let d = c.clone();
                self.conn = Some(c);
                Some(d)
            },
            None => None,
        }
    }
}

/// What to do next for a registration.
pub enum RegisterStep<C> {
    /// Register with HDV, and hand the result code to
    /// [`HdvDoorbells::hdv_answered`].
    Hdv { device: Device, doorbell: Doorbell, event: usize },
    /// Connect to the worker process, and hand the outcome to
    /// [`HdvDoorbells::worker_connected`].
    Connect {
        runtime_id: GUID,
        instance_id: GUID,
        doorbell: Doorbell,
        event: usize,
        refusal: Error,
    },
    /// Register through the worker process, and hand the result code to
    /// [`HdvDoorbells::worker_answered`].
    Worker { conn: C, doorbell: Doorbell, event: usize },
    /// The doorbell is registered.
    Registered(DoorbellGuard<C>),
    /// There is no doorbell.
    Failed(DoorbellError),
}

/// The doorbells of a device.
pub struct HdvDoorbells<C> {
    pub handle: DeviceHandle,
    pub worker: Option<WorkerLink<C>>,
}

/// How a registration starts; `device` is what the handle gives.
pub open spec fn registration<C>(
    on: bool,
    device: Option<Device>,
    guest_address: u64,
    value: Option<u64>,
    length: Option<u32>,
    event: usize,
) -> RegisterStep<C> {
    if !on {
        RegisterStep::Failed(DoorbellError::Disabled)
    } else {
        match translated(guest_address) {
            None => RegisterStep::Failed(DoorbellError::BadAddress),
            Some((bar, offset)) => match device {
                None => RegisterStep::Failed(DoorbellError::NotBound),
                Some(device) => RegisterStep::Hdv {
                    device,
                    doorbell: doorbell_of(bar, offset, value, length),
                    event,
                },
            },
        }
    }
}

impl<C: Clone> HdvDoorbells<C> {
    /// The doorbells of the device behind `handle`. `worker` names the VM and the
    /// device, where the caller owns the compute system and wants the route through
    /// the worker process.
    pub fn new(handle: DeviceHandle, worker: Option<(GUID, GUID)>) -> (d: HdvDoorbells<C>)
        ensures
            d.handle == handle,
            match worker {
                None => d.worker is None,
                Some((runtime_id, instance_id)) => d.worker == Some(
                    WorkerLink::<C> { runtime_id, instance_id, conn: None },
                ),
            },
    {
        HdvDoorbells {
            handle,
            worker: match worker {
                None => None,
                Some((runtime_id, instance_id)) => Some(
                    WorkerLink { runtime_id, instance_id, conn: None },
                ),
            },
        }
    }

    /// Starts the registration of a doorbell at the transport's internal address
    /// `guest_address`, for writes of `value` (or any) and of `length` bytes (or
    /// any), which is to signal `event`.
    pub fn register_doorbell(
        &self,
        slots: &DeviceSlots,
        on: bool,
        guest_address: u64,
        value: Option<u64>,
        length: Option<u32>,
        event: usize,
    ) -> (s: RegisterStep<C>)
        ensures
            s == registration::<C>(
                on,
                self.handle.bound(slots@),
                guest_address,
                value,
                length,
                event,
            ),
    {
        if !on {
            return RegisterStep::Failed(DoorbellError::Disabled);
        }
        let (bar, offset) = match bar_and_offset(guest_address) {
            None => return RegisterStep::Failed(DoorbellError::BadAddress),
            Some(p) => p,
        };
        let device = match self.handle.get(slots) {
            None => return RegisterStep::Failed(DoorbellError::NotBound),
            Some(d) => d,
        };
        let size: u64 = size_flag(length);
        let flags: u64 = match value {
            Some(_) => size,
            None => size | HDV_DOORBELL_FLAG_TRIGGER_ANY_VALUE,
        };
        assert(size <= 4 ==> size | 0x8000_0000u64 == size + 0x8000_0000u64) by (bit_vector);
        let trigger_value: u64 = match value {
            Some(v) => v,
            None => 0,
        };
        RegisterStep::Hdv {
            device,
            doorbell: Doorbell { bar, offset, trigger_value, flags },
            event,
        }
    }

    /// HDV's answer: registered, or on to the worker process, where there is a way
    /// to it.
    pub fn hdv_answered(&self, doorbell: Doorbell, event: usize, code: HRESULT) -> (s: RegisterStep<
        C,
    >)
        ensures
            if code >= 0 {
                s == RegisterStep::Registered(
                    DoorbellGuard::<C> { route: Route::Hdv(self.handle), doorbell, event },
                )
            } else {
                match self.worker {
                    None => s == RegisterStep::<C>::Failed(
                        DoorbellError::Refused(Error::Hdv(code)),
                    ),
                    Some(link) => match link.conn {
                        Some(c) => s matches RegisterStep::Worker { conn, doorbell: d, event: e }
                            && cloned(c, conn) && d == doorbell && e == event,
                        None => s == (RegisterStep::<C>::Connect {
                            runtime_id: link.runtime_id,
                            instance_id: link.instance_id,
                            doorbell,
                            event,
                            refusal: Error::Hdv(code),
                        }),
                    },
                }
            },
    {
        if code >= 0 {
            return RegisterStep::Registered(
                DoorbellGuard { route: Route::Hdv(self.handle), doorbell, event },
            );
        }
        match &self.worker {
            None => RegisterStep::Failed(DoorbellError::Refused(Error::Hdv(code))),
            Some(link) => match link.connect() {
                LinkStep::Ready(conn) => RegisterStep::Worker { conn, doorbell, event },
                LinkStep::Connect { runtime_id, instance_id } => RegisterStep::Connect {
                    runtime_id,
                    instance_id,
                    doorbell,
                    event,
                    refusal: Error::Hdv(code),
                },
            },
        }
    }

    /// The outcome of connecting to the worker process. Without a connection the
    /// registration fails with HDV's refusal.
    pub fn worker_connected(
        &mut self,
        doorbell: Doorbell,
        event: usize,
        refusal: Error,
        outcome: Option<C>,
    ) -> (s: RegisterStep<C>)
        ensures
            final(self).handle == old(self).handle,
            match (old(self).worker, outcome) {
                (Some(link), Some(c)) => {
                    &&& final(self).worker == Some(WorkerLink { conn: Some(c), ..link })
                    &&& s matches RegisterStep::Worker { conn, doorbell: d, event: e } && cloned(
                        c,
                        conn,
                    ) && d == doorbell && e == event
                },
                _ => {
                    &&& final(self).worker == old(self).worker
                    &&& s == RegisterStep::<C>::Failed(DoorbellError::Refused(refusal))
                },
            },
    {
        let mut worker: Option<WorkerLink<C>> = None;
        std::mem::swap(&mut worker, &mut self.worker);
        match worker {
            None => RegisterStep::Failed(DoorbellError::Refused(refusal)),
            Some(mut link) => {
                let conn = link.connected(outcome);
                self.worker = Some(link);
                match conn {
                    Some(conn) => RegisterStep::Worker { conn, doorbell, event },
                    None => RegisterStep::Failed(DoorbellError::Refused(refusal)),
                }
            },
        }
    }

    /// The worker process's answer.
    pub fn worker_answered(&self, conn: C, doorbell: Doorbell, event: usize, code: HRESULT) -> (s:
        RegisterStep<C>)
        ensures
            s == if code >= 0 {
                RegisterStep::Registered(
                    DoorbellGuard { route: Route::Worker(conn), doorbell, event },
                )
            } else {
                RegisterStep::Failed(DoorbellError::Refused(Error::Hdv(code)))
            },
    {
        if code >= 0 {
            RegisterStep::Registered(
                    DoorbellGuard { route: Route::Worker(conn), doorbell, event },
                )
        } else {
            RegisterStep::Failed(DoorbellError::Refused(Error::Hdv(code)))
        }
    }
}

impl<C: Clone> HdvDoorbells<C> {
    /// The connection that a registration gets, when connecting gives `outcome`:
    /// the one that is kept, or the new one.
    pub open spec fn gets(&self, outcome: Option<C>) -> Option<C> {
        match self.worker {
            Some(link) => if link.conn is Some {
                link.conn
            } else {
                outcome
            },
            None => None,
        }
    }

    /// The way to the worker process after a registration that went on to it, or
    /// did not, when connecting gives `outcome`: the first connection is kept.
    pub open spec fn kept(&self, asked: bool, outcome: Option<C>) -> Option<WorkerLink<C>> {
        match self.worker {
            Some(link) => if asked && link.conn is None {
                Some(WorkerLink { conn: outcome, ..link })
            } else {
                Some(link)
            },
            None => None,
        }
    }

    /// A registration from start to end, when HDV answers `hdv`, connecting to the
    /// worker process gives `outcome`, and the worker process answers `worker`, as
    /// far as they are asked.
    pub fn register_with(
        &mut self,
        slots: &DeviceSlots,
        on: bool,
        guest_address: u64,
        value: Option<u64>,
        length: Option<u32>,
        event: usize,
        hdv: HRESULT,
        outcome: Option<C>,
        worker: HRESULT,
    ) -> (r: Result<DoorbellGuard<C>, DoorbellError>)
        ensures
            final(self).handle == old(self).handle,
            final(self).worker == old(self).kept(
                registration::<C>(
                    on,
                    old(self).handle.bound(slots@),
                    guest_address,
                    value,
                    length,
                    event,
                ) is Hdv && hdv < 0,
                outcome,
            ),
            match registered(
                registration::<C>(
                    on,
                    old(self).handle.bound(slots@),
                    guest_address,
                    value,
                    length,
                    event,
                ),
                old(self).handle,
                old(self).worker is Some,
                hdv,
                old(self).gets(outcome),
                worker,
            ) {
                Err(e) => r == Err::<DoorbellGuard<C>, DoorbellError>(e),
                Ok(g) => r matches Ok(h) && h.doorbell == g.doorbell && h.event == g.event
                    && match g.route {
                    Route::Hdv(on) => h.route == Route::<C>::Hdv(on),
                    Route::Worker(c) => h.route matches Route::Worker(d) && cloned(c, d),
                },
            },
    {
        let mut step = self.register_doorbell(slots, on, guest_address, value, length, event);
        match step {
            RegisterStep::Hdv { device: _, doorbell, event } => {
                step = self.hdv_answered(doorbell, event, hdv);
            },
            RegisterStep::Failed(e) => return Err(e),
            _ => return Err(DoorbellError::NotBound),
        }
        match step {
            RegisterStep::Connect { runtime_id: _, instance_id: _, doorbell, event, refusal } => {
                step = self.worker_connected(doorbell, event, refusal, outcome);
            },
            s => {
                step = s;
            },
        }
        match step {
            RegisterStep::Worker { conn, doorbell, event } => {
                step = self.worker_answered(conn, doorbell, event, worker);
            },
            s => {
                step = s;
            },
        }
        match step {
            RegisterStep::Registered(g) => Ok(g),
            RegisterStep::Failed(e) => Err(e),
            _ => Err(DoorbellError::NotBound),
        }
    }
}

/// The text of a [`DoorbellError`] that no route gave.
pub open spec fn doorbell_error_text(e: DoorbellError) -> Option<Seq<char>> {
    match e {
        DoorbellError::Disabled => Some("doorbells disabled (VIRTIO_HDV_DOORBELL=0)"@),
        DoorbellError::BadAddress => Some("doorbell address outside the internal BAR windows"@),
        DoorbellError::NotBound => Some("HDV device not bound yet"@),
        DoorbellError::Refused(_) => None,
    }
}

impl DoorbellError {
    /// What to tell about an error that no route gave.
    pub fn message(&self) -> (r: Option<String>)
        ensures
            match r {
                Some(s) => doorbell_error_text(*self) == Some(s@),
                None => doorbell_error_text(*self) is None,
            },
    {
        match self {
            DoorbellError::Disabled => Some("doorbells disabled (VIRTIO_HDV_DOORBELL=0)".to_owned()),
            DoorbellError::BadAddress => Some(
                "doorbell address outside the internal BAR windows".to_owned(),
            ),
            DoorbellError::NotBound => Some("HDV device not bound yet".to_owned()),
            DoorbellError::Refused(_) => None,
        }
    }
}

// ---------------------------------------------------------------------------
// Laws
// ---------------------------------------------------------------------------

/// The translation of an address is exact: the register's internal base and the
/// offset make up the address again, and every offset within a register that the
/// device uses is reached.
pub proof fn law_translation_is_exact(guest_address: u64, bar: HDV_PCI_BAR_SELECTOR, offset: u64)
    ensures
        translated(guest_address) == Some((bar, offset)) <==> {
            &&& crate::transport::internal_base(bar.index()) matches Some(base)
            &&& offset < BAR_SPAN
            &&& base + offset == guest_address
        },
{
}

/// A registration as a whole, on the device behind `handle`: how it ends when HDV
/// answers `hdv`, the worker process connects as `conn`, or not, and answers
/// `worker`.
pub open spec fn registered<C>(
    first: RegisterStep<C>,
    handle: DeviceHandle,
    has_worker: bool,
    hdv: HRESULT,
    conn: Option<C>,
    worker: HRESULT,
) -> Result<DoorbellGuard<C>, DoorbellError> {
    match first {
        RegisterStep::Hdv { doorbell, event, .. } => if hdv >= 0 {
            Ok(DoorbellGuard { route: Route::Hdv(handle), doorbell, event })
        } else if !has_worker || conn is None {
            Err(DoorbellError::Refused(Error::Hdv(hdv)))
        } else if worker >= 0 {
            Ok(DoorbellGuard { route: Route::Worker(conn->0), doorbell, event })
        } else {
            Err(DoorbellError::Refused(Error::Hdv(worker)))
        },
        RegisterStep::Failed(e) => Err(e),
        _ => Err(DoorbellError::NotBound),
    }
}

/// The call that removes what was registered names the same doorbell that was
/// handed to the call that registered it, with the event that the guard keeps until
/// then, and goes by the same route: the device of the same handle where HDV took
/// it, and the same connection where the worker process took it.
pub proof fn law_unregister_mirrors_register<C>(
    slots: Seq<usize>,
    handle: DeviceHandle,
    guest_address: u64,
    value: Option<u64>,
    length: Option<u32>,
    event: usize,
    has_worker: bool,
    hdv: HRESULT,
    conn: Option<C>,
    worker: HRESULT,
)
    ensures
        ({
            let first = registration::<C>(
                true,
                handle.bound(slots),
                guest_address,
                value,
                length,
                event,
            );
            let end = registered(first, handle, has_worker, hdv, conn, worker);
            end matches Ok(guard) ==> {
                &&& first matches RegisterStep::Hdv { device, doorbell, event: e } && guard.doorbell
                    == doorbell && guard.event == e && e == event && handle.bound(slots) == Some(
                    device,
                )
                &&& guard.route is Hdv <==> hdv >= 0
                &&& guard.route matches Route::Hdv(h) ==> h == handle
                &&& guard.route matches Route::Worker(c) ==> conn == Some(c) && worker >= 0
            }
        }),
{
}

/// Doorbells are on, unless the setting is `0`, `false` or `off`, letter for letter.
pub proof fn law_doorbells_are_on_unless_switched_off(val: Option<&str>, b: bool)
    requires
        call_ensures(enabled, (val,), b),
    ensures
        val is None ==> b,
        val matches Some(s) ==> (b <==> s@ != seq!['0'] && s@ != seq!['f', 'a', 'l', 's', 'e']
            && s@ != seq!['o', 'f', 'f']),
{
    reveal_strlit("0");
    reveal_strlit("false");
    reveal_strlit("off");
    assert("0"@ =~= seq!['0']);
    assert("false"@ =~= seq!['f', 'a', 'l', 's', 'e']);
    assert("off"@ =~= seq!['o', 'f', 'f']);
}

/// Register 0 has the 4 KiB from 4 GiB on, and register 2 the 4 KiB behind them. An
/// address in neither has no register.
pub proof fn law_address_names_its_register(
    addr: u64,
    r: Option<(HDV_PCI_BAR_SELECTOR, u64)>,
)
    requires
        call_ensures(bar_and_offset, (addr,), r),
    ensures
        r is Some <==> 0x1_0000_0000 <= addr < 0x1_0000_2000,
        r matches Some((bar, offset)) ==> {
            &&& offset == addr % 0x1000
            &&& addr < 0x1_0000_1000 ==> bar == HDV_PCI_BAR_SELECTOR::Bar0
            &&& addr >= 0x1_0000_1000 ==> bar == HDV_PCI_BAR_SELECTOR::Bar2
        },
{
}

/// Writes of one, two, four and eight bytes have the flags 1 to 4, and any other size
/// has none.
pub proof fn law_sizes_have_their_flags(length: Option<u32>, f: u64)
    requires
        call_ensures(size_flag, (length,), f),
    ensures
        f == 1 <==> length == Some(1u32),
        f == 2 <==> length == Some(2u32),
        f == 3 <==> length == Some(4u32),
        f == 4 <==> length == Some(8u32),
        f == 0 || 1 <= f <= 4,
{
}

/// A registration is started exactly where doorbells are on, the address is within the
/// registers and the device is bound, and otherwise the first of the three that is
/// missing is told. It names the device, the register and the offset, the value that is
/// waited for, or any (0x80000000), the size and the event.
pub proof fn law_registration_names_the_write<C: Clone>(
    d: &HdvDoorbells<C>,
    slots: &DeviceSlots,
    on: bool,
    addr: u64,
    value: Option<u64>,
    length: Option<u32>,
    event: usize,
    s: RegisterStep<C>,
    h: &DeviceHandle,
    dev: Option<Device>,
    flag: u64,
)
    requires
        call_ensures(
            HdvDoorbells::<C>::register_doorbell,
            (d, slots, on, addr, value, length, event),
            s,
        ),
        *h == d.handle,
        call_ensures(DeviceHandle::get, (h, slots), dev),
        call_ensures(size_flag, (length,), flag),
    ensures
        ({
            let within = 0x1_0000_0000 <= addr < 0x1_0000_2000;
            &&& s is Hdv <==> on && within && dev is Some
            &&& !on ==> s == RegisterStep::<C>::Failed(DoorbellError::Disabled)
            &&& on && !within ==> s == RegisterStep::<C>::Failed(DoorbellError::BadAddress)
            &&& on && within && dev is None ==> s == RegisterStep::<C>::Failed(
                DoorbellError::NotBound,
            )
        }),
        s matches RegisterStep::Hdv { device, doorbell, event: e } ==> {
            &&& dev == Some(device) && e == event
            &&& doorbell.offset == addr % 0x1000
            &&& addr < 0x1_0000_1000 ==> doorbell.bar == HDV_PCI_BAR_SELECTOR::Bar0
            &&& addr >= 0x1_0000_1000 ==> doorbell.bar == HDV_PCI_BAR_SELECTOR::Bar2
            &&& value matches Some(v) ==> doorbell.trigger_value == v && doorbell.flags == flag
            &&& value is None ==> doorbell.trigger_value == 0 && doorbell.flags == flag
                + 0x8000_0000
        },
{
}

/// A registration as a whole: HDV is asked first, and what it takes is registered with
/// it, on the handle of the device. What it refuses goes to the worker process, where
/// there is a way to it and a connection. The last refusal is told.
pub proof fn law_registration_falls_back_to_the_worker<C: Clone>(
    d: &mut HdvDoorbells<C>,
    slots: &DeviceSlots,
    addr: u64,
    value: Option<u64>,
    length: Option<u32>,
    event: usize,
    hdv: HRESULT,
    outcome: Option<C>,
    worker: HRESULT,
    r: Result<DoorbellGuard<C>, DoorbellError>,
    h: &DeviceHandle,
    dev: Option<Device>,
    flag: u64,
)
    requires
        call_ensures(
            HdvDoorbells::<C>::register_with,
            (d, slots, true, addr, value, length, event, hdv, outcome, worker),
            r,
        ),
        *h == d.handle,
        call_ensures(DeviceHandle::get, (h, slots), dev),
        call_ensures(size_flag, (length,), flag),
        dev is Some,
        0x1_0000_0000 <= addr < 0x1_0000_2000,
    ensures
        ({
            let kept = old(d).worker is Some && old(d).worker->0.conn is Some;
            let reached = old(d).worker is Some && (kept || outcome is Some);
            &&& r is Ok <==> hdv >= 0 || (reached && worker >= 0)
            &&& r matches Ok(g) ==> {
                &&& g.route is Hdv <==> hdv >= 0
                &&& g.route matches Route::Hdv(on) ==> on == old(d).handle
                &&& g.route matches Route::Worker(c) ==> cloned(
                    if kept {
                        old(d).worker->0.conn->0
                    } else {
                        outcome->0
                    },
                    c,
                )
                &&& g.event == event && g.doorbell.offset == addr % 0x1000
                &&& addr < 0x1_0000_1000 ==> g.doorbell.bar == HDV_PCI_BAR_SELECTOR::Bar0
                &&& addr >= 0x1_0000_1000 ==> g.doorbell.bar == HDV_PCI_BAR_SELECTOR::Bar2
                &&& value matches Some(v) ==> g.doorbell.trigger_value == v && g.doorbell.flags
                    == flag
                &&& value is None ==> g.doorbell.trigger_value == 0 && g.doorbell.flags == flag
                    + 0x8000_0000
            }
            &&& hdv < 0 && !reached ==> r == Err::<DoorbellGuard<C>, DoorbellError>(
                DoorbellError::Refused(Error::Hdv(hdv)),
            )
            &&& hdv < 0 && reached && worker < 0 ==> r == Err::<DoorbellGuard<C>, DoorbellError>(
                DoorbellError::Refused(Error::Hdv(worker)),
            )
            &&& hdv >= 0 || kept ==> final(d).worker == old(d).worker
            &&& hdv < 0 && !kept && old(d).worker is Some ==> (final(d).worker matches Some(link)
                && link.conn == outcome && link.runtime_id == old(d).worker->0.runtime_id
                && link.instance_id == old(d).worker->0.instance_id)
            &&& final(d).handle == old(d).handle
        }),
{
}

/// Step by step: what HDV takes is registered on the handle; what it refuses goes to
/// the connection that is kept, or to one that is to be made, to the device and the VM
/// that were named; without a way to the worker process it fails.
pub proof fn law_refusal_goes_to_the_worker<C: Clone>(
    d: &HdvDoorbells<C>,
    doorbell: Doorbell,
    event: usize,
    code: HRESULT,
    s: RegisterStep<C>,
)
    requires
        call_ensures(HdvDoorbells::<C>::hdv_answered, (d, doorbell, event, code), s),
    ensures
        code >= 0 <==> s is Registered,
        s matches RegisterStep::Registered(g) ==> g.doorbell == doorbell && g.event == event
            && g.route == Route::<C>::Hdv(d.handle),
        code < 0 && d.worker is None ==> s == RegisterStep::<C>::Failed(
            DoorbellError::Refused(Error::Hdv(code)),
        ),
        code < 0 && d.worker is Some && d.worker->0.conn is None ==> s == (
        RegisterStep::<C>::Connect {
            runtime_id: d.worker->0.runtime_id,
            instance_id: d.worker->0.instance_id,
            doorbell,
            event,
            refusal: Error::Hdv(code),
        }),
        code < 0 && d.worker is Some && d.worker->0.conn is Some ==> (s matches RegisterStep::Worker {
            conn,
            doorbell: e,
            event: v,
        } && cloned(d.worker->0.conn->0, conn) && e == doorbell && v == event),
{
}

/// A connection that was made is kept, and used; without one the registration fails
/// with what HDV said. What the worker process takes is registered through the
/// connection, and what it refuses is told.
pub proof fn law_worker_takes_or_refuses<C: Clone>(
    d: &mut HdvDoorbells<C>,
    doorbell: Doorbell,
    event: usize,
    refusal: Error,
    outcome: Option<C>,
    s: RegisterStep<C>,
    e: &HdvDoorbells<C>,
    conn: C,
    code: HRESULT,
    t: RegisterStep<C>,
)
    requires
        call_ensures(
            HdvDoorbells::<C>::worker_connected,
            (d, doorbell, event, refusal, outcome),
            s,
        ),
        call_ensures(HdvDoorbells::<C>::worker_answered, (e, conn, doorbell, event, code), t),
    ensures
        s is Worker <==> old(d).worker is Some && outcome is Some,
        s matches RegisterStep::Worker { conn: c, doorbell: b, event: v } ==> {
            &&& cloned(outcome->0, c) && b == doorbell && v == event
            &&& final(d).worker matches Some(link) && link.conn == outcome
        },
        !(s is Worker) ==> s == RegisterStep::<C>::Failed(DoorbellError::Refused(refusal))
            && final(d).worker == old(d).worker,
        code >= 0 ==> (t matches RegisterStep::Registered(g) && g.doorbell == doorbell && g.event
            == event && g.route == Route::Worker(conn)),
        code < 0 ==> t == RegisterStep::<C>::Failed(DoorbellError::Refused(Error::Hdv(code))),
{
}

/// A doorbell is removed by the route by which it was registered, whatever there is
/// besides: on the device behind the handle, which may be gone, or through the
/// connection.
pub proof fn law_doorbell_is_removed_where_it_was_registered<C>(
    g: DoorbellGuard<C>,
    slots: &DeviceSlots,
    u: Unregister<C>,
    h: &DeviceHandle,
    dev: Option<Device>,
)
    requires
        call_ensures(DoorbellGuard::<C>::unregister, (g, slots), u),
        call_ensures(DeviceHandle::get, (h, slots), dev),
        g.route matches Route::Hdv(on) ==> on == *h,
    ensures
        g.route matches Route::Worker(c) ==> u == (Unregister::Worker {
            conn: c,
            doorbell: g.doorbell,
        }),
        g.route is Hdv && dev is Some ==> u == (Unregister::<C>::Hdv {
            device: dev->0,
            doorbell: g.doorbell,
        }),
        g.route is Hdv && dev is None ==> u is Nothing,
{
}

/// A connection is made once: until one is kept, the device and the VM are told to
/// connect to; from then on the one that is kept is given. A failure leaves things as
/// they were.
pub proof fn law_connection_is_made_once<C: Clone>(
    handle: DeviceHandle,
    worker: Option<(GUID, GUID)>,
    fresh: HdvDoorbells<C>,
    l: &mut WorkerLink<C>,
    outcome: Option<C>,
    r: Option<C>,
    after: &WorkerLink<C>,
    s: LinkStep<C>,
)
    requires
        call_ensures(HdvDoorbells::<C>::new, (handle, worker), fresh),
        call_ensures(WorkerLink::<C>::connected, (l, outcome), r),
        *after == *final(l),
        call_ensures(WorkerLink::<C>::connect, (after,), s),
    ensures
        fresh.handle == handle,
        fresh.worker is Some <==> worker is Some,
        worker matches Some((vm, device)) ==> fresh.worker->0.conn is None
            && fresh.worker->0.runtime_id == vm && fresh.worker->0.instance_id == device,
        r is Some <==> outcome is Some,
        outcome is Some ==> cloned(outcome->0, r->0) && (s matches LinkStep::Ready(c) && cloned(
            outcome->0,
            c,
        )),
        outcome is None ==> after.conn == old(l).conn,
        after.conn is None ==> s == (LinkStep::<C>::Connect {
            runtime_id: old(l).runtime_id,
            instance_id: old(l).instance_id,
        }),
{
}

/// What to tell about an error that no route gave.
pub proof fn law_errors_of_no_route_are_told(e: &DoorbellError, r: Option<String>)
    requires
        call_ensures(DoorbellError::message, (e,), r),
    ensures
        r is None <==> *e is Refused,
        *e is Disabled ==> (r matches Some(s) && s@
            == "doorbells disabled (VIRTIO_HDV_DOORBELL=0)"@),
        *e is BadAddress ==> (r matches Some(s) && s@
            == "doorbell address outside the internal BAR windows"@),
        *e is NotBound ==> (r matches Some(s) && s@ == "HDV device not bound yet"@),
{
}

/// A registration that is not even started leaves things as they were, and tells why.
pub proof fn law_refused_registration_changes_nothing<C: Clone>(
    d: &mut HdvDoorbells<C>,
    slots: &DeviceSlots,
    on: bool,
    addr: u64,
    value: Option<u64>,
    length: Option<u32>,
    event: usize,
    hdv: HRESULT,
    outcome: Option<C>,
    worker: HRESULT,
    r: Result<DoorbellGuard<C>, DoorbellError>,
    h: &DeviceHandle,
    dev: Option<Device>,
)
    requires
        call_ensures(
            HdvDoorbells::<C>::register_with,
            (d, slots, on, addr, value, length, event, hdv, outcome, worker),
            r,
        ),
        *h == d.handle,
        call_ensures(DeviceHandle::get, (h, slots), dev),
        !on || dev is None || addr < 0x1_0000_0000 || addr >= 0x1_0000_2000,
    ensures
        final(d).worker == old(d).worker && final(d).handle == old(d).handle,
        !on ==> r == Err::<DoorbellGuard<C>, DoorbellError>(DoorbellError::Disabled),
        on && (addr < 0x1_0000_0000 || addr >= 0x1_0000_2000) ==> r == Err::<
            DoorbellGuard<C>,
            DoorbellError,
        >(DoorbellError::BadAddress),
        on && 0x1_0000_0000 <= addr < 0x1_0000_2000 ==> r == Err::<
            DoorbellGuard<C>,
            DoorbellError,
        >(DoorbellError::NotBound),
{
}

} // verus!
