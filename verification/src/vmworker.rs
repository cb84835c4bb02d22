//! Doorbells through the VM worker process.
//!
//! Where HDV denies a doorbell, the owner of the compute system can register it
//! with the worker process of the VM:
//!
//! ```text
//! GetVmWorkerProcess(runtime_id, IVmVirtualDeviceAccess)
//!   -> GetDevice(FLEXIO_DEVICE_ID, instance_id)
//!     -> QueryInterface(IVmFiovGuestMemoryFastNotification)
//! ```
//!
//! The calls are made by the owner of the connection, which is told each of them
//! in turn ([`ConnectAction`]), and which interfaces to release at the end.

use crate::hdv::Error;
use crate::hresult::HRESULT;
use crate::sys::{E_NOINTERFACE, FLEXIO_DEVICE_ID, GUID, HDV_PCI_BAR_SELECTOR, HR_MOD_NOT_FOUND,
    IID_IVM_FIOV_GUEST_MEMORY_FAST_NOTIFICATION, IID_IVM_VIRTUAL_DEVICE_ACCESS};
use vstd::prelude::*;

verus! {

/// The fast-notification interface of a FlexibleIov device, in the worker
/// process. Its owner releases it when the device goes away.
#[derive(Clone, Copy, Debug, PartialEq, Eq, Structural)]
pub struct FiovDoorbells {
    /// The interface pointer.
    pub notification: usize,
}

/// A doorbell: the write that triggers it, and how.
#[derive(Clone, Copy, Debug, PartialEq, Eq, Structural)]
pub struct Doorbell {
    pub bar: HDV_PCI_BAR_SELECTOR,
    pub offset: u64,
    pub trigger_value: u64,
    pub flags: u64,
}

/// A call of `RegisterDoorbell` or `UnregisterDoorbell` on the interface `target`.
#[derive(Clone, Copy, Debug, PartialEq, Eq, Structural)]
pub struct DoorbellCall {
    pub target: usize,
    /// The number of the base address register.
    pub bar: u8,
    pub offset: u64,
    pub trigger_value: u64,
    pub flags: u64,
    /// The event that the doorbell signals, where the call arms one.
    pub event: Option<usize>,
}

impl FiovDoorbells {
    /// The call that names this interface, the doorbell and its event.
    pub open spec fn call(self, d: Doorbell, event: Option<usize>) -> DoorbellCall {
        DoorbellCall {
            target: self.notification,
            bar: d.bar.index() as u8,
            offset: d.offset,
            trigger_value: d.trigger_value,
            flags: d.flags,
            event,
        }
    }

    /// Starts a connection to the device `instance_id` of the VM `runtime_id`. The
    /// caller owns the compute system, and the device's slot was added.
    pub fn connect(runtime_id: GUID, instance_id: GUID) -> (r: (Connection, ConnectAction))
        ensures
            r.0.wf(),
            r.0.runtime_id == runtime_id,
            r.0.instance_id == instance_id,
            r.0.stage == Stage::Export,
            r.1 == ConnectAction::ResolveExport,
    {
        (
            Connection { runtime_id, instance_id, stage: Stage::Export, held: Vec::new() },
            ConnectAction::ResolveExport,
        )
    }

    fn doorbell_call(&self, d: Doorbell, event: Option<usize>) -> (c: DoorbellCall)
        ensures
            c == self.call(d, event),
    {
        DoorbellCall {
            target: self.notification,
            bar: d.bar.value(),
            offset: d.offset,
            trigger_value: d.trigger_value,
            flags: d.flags,
            event,
        }
    }

    /// The call that arms a doorbell, which is to signal `event`.
    pub fn register_doorbell(&self, d: Doorbell, event: usize) -> (c: DoorbellCall)
        ensures
            c == self.call(d, Some(event)),
    {
        self.doorbell_call(d, Some(event))
    }

    /// The call that removes a doorbell, with the values that it was armed with.
    pub fn unregister_doorbell(&self, d: Doorbell) -> (c: DoorbellCall)
        ensures
            c == self.call(d, None),
    {
        self.doorbell_call(d, None)
    }
}

/// How far a connection has come.
#[derive(Clone, Copy, Debug, PartialEq, Eq, Structural)]
pub enum Stage {
    /// Is there a `GetVmWorkerProcess` on this host?
    Export,
    /// The worker process is asked for its devices.
    Worker,
    /// The devices are asked for the FlexibleIov device.
    Device,
    /// The device is asked for its doorbells.
    Notification,
    /// Nothing more is asked.
    Over,
}

/// A call to make, or the end of the connection.
pub enum ConnectAction {
    /// Look for `GetVmWorkerProcess`.
    ResolveExport,
    /// Call it.
    GetWorker { runtime_id: GUID, iid: GUID },
    /// Call `GetDevice` on `access`.
    GetDevice { access: usize, category: GUID, instance_id: GUID },
    /// Call `QueryInterface` on `device`.
    QueryNotification { device: usize, iid: GUID },
    /// The connection, or why there is none. `release` are the interfaces that are
    /// to be released now, in this order.
    Finished { result: Result<FiovDoorbells, Error>, release: Vec<usize> },
}

/// What a call gave: a result code and an interface pointer, 0 for null.
#[derive(Clone, Copy, Debug, PartialEq, Eq, Structural)]
pub struct Obtained {
    pub hr: HRESULT,
    pub interface: usize,
}

/// The interface that was obtained: a call that succeeded without one is an error
/// too.
pub open spec fn obtained(o: Obtained) -> Result<usize, Error> {
    if o.hr < 0 {
        Err(Error::Hdv(o.hr))
    } else if o.interface == 0 {
        Err(Error::Hdv(E_NOINTERFACE))
    } else {
        Ok(o.interface)
    }
}

fn accept(o: Obtained) -> (r: Result<usize, Error>)
    ensures
        r == obtained(o),
{
    if o.hr < 0 {
        Err(Error::Hdv(o.hr))
    } else if o.interface == 0 {
        Err(Error::Hdv(E_NOINTERFACE))
    } else {
        Ok(o.interface)
    }
}

/// A connection to the worker process that is being made.
pub struct Connection {
    pub runtime_id: GUID,
    pub instance_id: GUID,
    pub stage: Stage,
    /// The interfaces obtained so far that are to be released, newest first.
    pub held: Vec<usize>,
}

/// `action` ends the connection with `result`, and releases `held`.
pub open spec fn finishes(
    action: ConnectAction,
    result: Result<FiovDoorbells, Error>,
    held: Seq<usize>,
) -> bool {
    action matches ConnectAction::Finished { result: r, release } && r == result && release@ == held
}

impl Connection {
    /// The interfaces held at each stage: none, then the worker's devices, then
    /// the device and those.
    pub open spec fn wf(&self) -> bool {
        self.held@.len() == match self.stage {
            Stage::Export => 0nat,
            Stage::Worker => 0,
            Stage::Device => 1,
            Stage::Notification => 2,
            Stage::Over => 0,
        }
    }

    fn finish(&mut self, result: Result<FiovDoorbells, Error>) -> (a: ConnectAction)
        ensures
            final(self).wf(),
            final(self).runtime_id == old(self).runtime_id,
            final(self).instance_id == old(self).instance_id,
            final(self).stage == Stage::Over,
            finishes(a, result, old(self).held@),
    {
        let mut release: Vec<usize> = Vec::new();
        std::mem::swap(&mut release, &mut self.held);
        self.stage = Stage::Over;
        ConnectAction::Finished { result, release }
    }

    /// Whether the export was found.
    pub fn resolved(&mut self, found: bool) -> (a: ConnectAction)
        requires
            old(self).wf(),
            old(self).stage == Stage::Export,
        ensures
            final(self).wf(),
            final(self).runtime_id == old(self).runtime_id,
            final(self).instance_id == old(self).instance_id,
            !found ==> final(self).stage == Stage::Over && finishes(
                a,
                Err(Error::Hdv(HR_MOD_NOT_FOUND)),
                Seq::empty(),
            ),
            found ==> final(self).stage == Stage::Worker && a == (ConnectAction::GetWorker {
                runtime_id: old(self).runtime_id,
                iid: IID_IVM_VIRTUAL_DEVICE_ACCESS(),
            }),
    {
        if found {
            self.stage = Stage::Worker;
            ConnectAction::GetWorker {
                runtime_id: self.runtime_id,
                iid: IID_IVM_VIRTUAL_DEVICE_ACCESS(),
            }
        } else {
            assert(self.held@ =~= Seq::<usize>::empty());
            self.finish(Err(Error::Hdv(HR_MOD_NOT_FOUND)))
        }
    }

    /// What the call at this stage gave.
    pub fn obtained(&mut self, o: Obtained) -> (a: ConnectAction)
        requires
            old(self).wf(),
            old(self).stage == Stage::Worker || old(self).stage == Stage::Device
                || old(self).stage == Stage::Notification,
        ensures
            final(self).wf(),
            final(self).runtime_id == old(self).runtime_id,
            final(self).instance_id == old(self).instance_id,
            match obtained(o) {
                Err(e) => {
                    &&& final(self).stage == Stage::Over
                    &&& finishes(a, Err(e), old(self).held@)
                },
                Ok(p) => match old(self).stage {
                    Stage::Worker => {
                        &&& final(self).stage == Stage::Device
                        &&& final(self).held@ == seq![p]
                        &&& a == (ConnectAction::GetDevice {
                            access: p,
                            category: FLEXIO_DEVICE_ID(),
                            instance_id: old(self).instance_id,
                        })
                    },
                    Stage::Device => {
                        &&& final(self).stage == Stage::Notification
                        &&& final(self).held@ == seq![p] + old(self).held@
                        &&& a == (ConnectAction::QueryNotification {
                            device: p,
                            iid: IID_IVM_FIOV_GUEST_MEMORY_FAST_NOTIFICATION(),
                        })
                    },
                    _ => {
                        &&& final(self).stage == Stage::Over
                        &&& finishes(a, Ok(FiovDoorbells { notification: p }), old(self).held@)
                    },
                },
            },
    {
        match accept(o) {
            Err(e) => self.finish(Err(e)),
            Ok(p) => match self.stage {
                Stage::Worker => {
                    self.held.insert(0, p);
                    self.stage = Stage::Device;
                    assert(self.held@ =~= seq![p]);
                    ConnectAction::GetDevice {
                        access: p,
                        category: FLEXIO_DEVICE_ID(),
                        instance_id: self.instance_id,
                    }
                },
                Stage::Device => {
                    self.held.insert(0, p);
                    self.stage = Stage::Notification;
                    assert(self.held@ =~= seq![p] + old(self).held@);
                    ConnectAction::QueryNotification {
                        device: p,
                        iid: IID_IVM_FIOV_GUEST_MEMORY_FAST_NOTIFICATION(),
                    }
                },
                _ => self.finish(Ok(FiovDoorbells { notification: p })),
            },
        }
    }
}

/// How a connection ends when its calls give these answers, and what it releases:
/// `export` is whether `GetVmWorkerProcess` was found, and the three others are
/// what the calls gave, as far as they are made.
pub open spec fn connected(
    export: bool,
    worker: Obtained,
    device: Obtained,
    notification: Obtained,
) -> (Result<FiovDoorbells, Error>, Seq<usize>) {
    if !export {
        (Err(Error::Hdv(HR_MOD_NOT_FOUND)), Seq::empty())
    } else {
        match obtained(worker) {
            Err(e) => (Err(e), Seq::empty()),
            Ok(access) => match obtained(device) {
                Err(e) => (Err(e), seq![access]),
                Ok(dev) => match obtained(notification) {
                    Err(e) => (Err(e), seq![dev, access]),
                    Ok(p) => (Ok(FiovDoorbells { notification: p }), seq![dev, access]),
                },
            },
        }
    }
}

/// The connection made with these answers, from start to end.
pub fn connect_with(
    export: bool,
    worker: Obtained,
    device: Obtained,
    notification: Obtained,
    runtime_id: GUID,
    instance_id: GUID,
) -> (r: (Result<FiovDoorbells, Error>, Vec<usize>))
    ensures
        r.0 == connected(export, worker, device, notification).0,
        r.1@ == connected(export, worker, device, notification).1,
{
    let (mut c, _) = FiovDoorbells::connect(runtime_id, instance_id);
    match c.resolved(export) {
        ConnectAction::Finished { result, release } => return (result, release),
        _ => {},
    }
    match c.obtained(worker) {
        ConnectAction::Finished { result, release } => {
            assert(release@ =~= Seq::<usize>::empty());
            return (result, release);
        },
        _ => {},
    }
    match c.obtained(device) {
        ConnectAction::Finished { result, release } => return (result, release),
        _ => {},
    }
    match c.obtained(notification) {
        ConnectAction::Finished { result, release } => {
            assert(release@ =~= connected(export, worker, device, notification).1);
            (result, release)
        },
        _ => (Err(Error::Hdv(E_NOINTERFACE)), Vec::new()),
    }
}

/// A connection releases what it obtained on the way, and nothing else: every
/// interface that a call gave it before the last one, newest first.
pub proof fn law_connection_releases_what_it_holds(
    export: bool,
    worker: Obtained,
    device: Obtained,
    notification: Obtained,
)
    ensures
        ({
            let (result, release) = connected(export, worker, device, notification);
            &&& release.len() > 0 <==> export && obtained(worker) is Ok
            &&& release.len() == 2 <==> export && obtained(worker) is Ok && obtained(device) is Ok
            &&& release.len() <= 2
            &&& release.len() > 0 ==> release.last() == obtained(worker)->Ok_0
            &&& release.len() == 2 ==> release[0] == obtained(device)->Ok_0
            &&& result is Ok ==> release.len() == 2
        }),
{
}

/// A doorbell is armed and removed on the interface that the connection gave, with the
/// same register, offset, value and flags; only the call that arms it names an event.
pub proof fn law_doorbell_is_removed_as_it_was_armed(
    f: &FiovDoorbells,
    d: Doorbell,
    event: usize,
    armed: DoorbellCall,
    removed: DoorbellCall,
    bar: &HDV_PCI_BAR_SELECTOR,
    n: u8,
)
    requires
        call_ensures(FiovDoorbells::register_doorbell, (f, d, event), armed),
        call_ensures(FiovDoorbells::unregister_doorbell, (f, d), removed),
        *bar == d.bar,
        call_ensures(HDV_PCI_BAR_SELECTOR::value, (bar,), n),
    ensures
        armed.target == f.notification && removed.target == f.notification,
        armed.bar == n && removed.bar == n,
        armed.offset == d.offset && removed.offset == d.offset,
        armed.trigger_value == d.trigger_value && removed.trigger_value == d.trigger_value,
        armed.flags == d.flags && removed.flags == d.flags,
        armed.event == Some(event) && removed.event is None,
{
}

/// A connection first looks for the export. Without it there is no connection, for a
/// module that was not found; with it, the worker process of the VM is asked for its
/// devices.
pub proof fn law_connection_starts_with_the_export(
    runtime_id: GUID,
    instance_id: GUID,
    r: (Connection, ConnectAction),
    c: &mut Connection,
    found: bool,
    a: ConnectAction,
)
    requires
        call_ensures(FiovDoorbells::connect, (runtime_id, instance_id), r),
        *c == r.0,
        call_ensures(Connection::resolved, (c, found), a),
    ensures
        r.1 is ResolveExport,
        found ==> a == (ConnectAction::GetWorker {
            runtime_id,
            iid: IID_IVM_VIRTUAL_DEVICE_ACCESS(),
        }),
        !found ==> (a matches ConnectAction::Finished { result, release } && release@.len() == 0
            && (result matches Err(Error::Hdv(code)) && code + 0x1_0000_0000 == 0x8007_007e)),
        final(c).runtime_id == runtime_id && final(c).instance_id == instance_id,
        found ==> final(c).stage == Stage::Worker,
{
}

/// Each call goes to the interface that the one before it gave, for this device of this
/// VM; the last one gives the doorbells. The connection ends at the first call that
/// fails, with its code, or gives no interface (0x80004002). Whatever was obtained on
/// the way, and not handed out, is released, newest first.
pub proof fn law_connection_goes_call_by_call(
    c: &mut Connection,
    o: Obtained,
    a: ConnectAction,
)
    requires
        c.wf(),
        c.stage == Stage::Worker || c.stage == Stage::Device || c.stage == Stage::Notification,
        call_ensures(Connection::obtained, (c, o), a),
    ensures
        o.hr < 0 ==> (a matches ConnectAction::Finished { result, release } && result
            == Err::<FiovDoorbells, Error>(Error::Hdv(o.hr)) && release@ == old(c).held@),
        o.hr >= 0 && o.interface == 0 ==> (a matches ConnectAction::Finished { result, release }
            && release@ == old(c).held@ && (result matches Err(Error::Hdv(code)) && code
            + 0x1_0000_0000 == 0x8000_4002)),
        o.hr >= 0 && o.interface != 0 ==> {
            &&& old(c).stage == Stage::Worker ==> {
                &&& final(c).stage == Stage::Device && final(c).held@ == seq![o.interface]
                &&& a == (ConnectAction::GetDevice {
                    access: o.interface,
                    category: FLEXIO_DEVICE_ID(),
                    instance_id: old(c).instance_id,
                })
            }
            &&& old(c).stage == Stage::Device ==> {
                &&& final(c).stage == Stage::Notification
                &&& final(c).held@ == seq![o.interface] + old(c).held@
                &&& a == (ConnectAction::QueryNotification {
                    device: o.interface,
                    iid: IID_IVM_FIOV_GUEST_MEMORY_FAST_NOTIFICATION(),
                })
            }
            &&& old(c).stage == Stage::Notification ==> {
                &&& a matches ConnectAction::Finished { result, release } && release@
                    == old(c).held@ && (result matches Ok(f) && f.notification
                    == o.interface)
            }
        },
        a is Finished <==> final(c).stage == Stage::Over,
        final(c).runtime_id == old(c).runtime_id && final(c).instance_id == old(c).instance_id,
{
}

/// There is a connection exactly if the export was found and each of the three calls
/// succeeded and gave an interface. It is the one that the last call gave. Otherwise
/// the first failure is told.
pub proof fn law_connected_exactly_if_every_call_gave_an_interface(
    export: bool,
    worker: Obtained,
    device: Obtained,
    notification: Obtained,
    runtime_id: GUID,
    instance_id: GUID,
    r: (Result<FiovDoorbells, Error>, Vec<usize>),
)
    requires
        call_ensures(
            connect_with,
            (export, worker, device, notification, runtime_id, instance_id),
            r,
        ),
    ensures
        r.0 is Ok <==> export && worker.hr >= 0 && worker.interface != 0 && device.hr >= 0
            && device.interface != 0 && notification.hr >= 0 && notification.interface != 0,
        r.0 matches Ok(f) ==> f.notification == notification.interface && r.1@ == seq![
            device.interface,
            worker.interface,
        ],
        !export ==> r.1@.len() == 0 && (r.0 matches Err(Error::Hdv(code)) && code + 0x1_0000_0000
            == 0x8007_007e),
        export && worker.hr < 0 ==> r.1@.len() == 0 && r.0 == Err::<FiovDoorbells, Error>(
            Error::Hdv(worker.hr),
        ),
        export && worker.hr >= 0 && worker.interface == 0 ==> r.1@.len() == 0 && (r.0 matches Err(
            Error::Hdv(code),
        ) && code + 0x1_0000_0000 == 0x8000_4002),
        export && worker.hr >= 0 && worker.interface != 0 && device.hr < 0 ==> r.1@ == seq![
            worker.interface,
        ] && r.0 == Err::<FiovDoorbells, Error>(Error::Hdv(device.hr)),
        export && worker.hr >= 0 && worker.interface != 0 && device.hr >= 0 && device.interface
            == 0 ==> r.1@ == seq![worker.interface] && (r.0 matches Err(Error::Hdv(code)) && code
            + 0x1_0000_0000 == 0x8000_4002),
        export && worker.hr >= 0 && worker.interface != 0 && device.hr >= 0 && device.interface
            != 0 && notification.hr >= 0 && notification.interface == 0 ==> r.1@ == seq![
            device.interface,
            worker.interface,
        ] && (r.0 matches Err(Error::Hdv(code)) && code + 0x1_0000_0000 == 0x8000_4002),
        export && worker.hr >= 0 && worker.interface != 0 && device.hr >= 0 && device.interface
            != 0 && notification.hr < 0 ==> r.1@ == seq![device.interface, worker.interface] && r.0
            == Err::<FiovDoorbells, Error>(Error::Hdv(notification.hr)),
{
}

} // verus!
