//! The host's side of a proxied device host: the COM object that a device host
//! registers itself with.

use crate::hresult::HRESULT;
use crate::sys::{E_NOINTERFACE, E_POINTER, GUID, IID_IUNKNOWN, IID_IVMDEVICEHOSTSUPPORT, S_OK};
use vstd::prelude::*;

verus! {

/// What a query leaves in its out parameter.
#[derive(Clone, Copy, Debug, PartialEq, Eq, Structural)]
pub enum OutPointer {
    /// There is none.
    Untouched,
    /// A null pointer.
    Null,
    /// The object itself.
    This,
}

/// The answer to a query for an interface.
#[derive(Clone, Copy, Debug, PartialEq, Eq, Structural)]
pub struct QueryReply {
    pub hr: HRESULT,
    pub out: OutPointer,
}

/// A call of `HdvProxyDeviceHost`.
#[derive(Clone, Copy, Debug, PartialEq, Eq, Structural)]
pub struct ProxyCall {
    pub system: usize,
    pub pid: u32,
}

/// The state of an `IVmDeviceHostSupport` object.
#[derive(Clone, Copy, Debug, PartialEq, Eq, Structural)]
pub struct DeviceHostSupport {
    pub refcount: u32,
    /// The compute system that device hosts are bound to.
    pub system: usize,
    pub called: bool,
    pub register_hr: HRESULT,
    pub ipc_section: u64,
    pub pid: u32,
}

/// The object has this interface.
pub open spec fn implements(iid: GUID) -> bool {
    iid == IID_IUNKNOWN() || iid == IID_IVMDEVICEHOSTSUPPORT()
}

/// The answer to a query: `has_out` is whether there is an out parameter, and
/// `iid` is `None` for a null pointer.
pub open spec fn queried(has_out: bool, iid: Option<GUID>) -> QueryReply {
    if !has_out {
        QueryReply { hr: E_POINTER, out: OutPointer::Untouched }
    } else {
        match iid {
            None => QueryReply { hr: E_POINTER, out: OutPointer::Null },
            Some(iid) => if implements(iid) {
                QueryReply { hr: S_OK, out: OutPointer::This }
            } else {
                QueryReply { hr: E_NOINTERFACE, out: OutPointer::Null }
            },
        }
    }
}

/// What happens to the references of an object.
pub enum RefEvent {
    /// A reference is handed out, by `AddRef` or by a query.
    Taken,
    /// One is given back.
    Released,
}

/// How many references there are after this event, of `n` before it.
pub open spec fn counted(n: nat, event: RefEvent) -> nat {
    match event {
        RefEvent::Taken => n + 1,
        RefEvent::Released => (n - 1) as nat,
    }
}

impl DeviceHostSupport {
    /// An object bound to `system`, with one reference.
    pub fn new(system: usize) -> (s: DeviceHostSupport)
        ensures
            s == (DeviceHostSupport {
                refcount: 1,
                system,
                called: false,
                register_hr: 0,
                ipc_section: 0,
                pid: 0,
            }),
    {
        DeviceHostSupport {
            refcount: 1,
            system,
            called: false,
            register_hr: 0,
            ipc_section: 0,
            pid: 0,
        }
    }

    /// `QueryInterface`: an interface that is handed out is a new reference.
    pub fn query_interface(&mut self, has_out: bool, iid: Option<GUID>) -> (r: QueryReply)
        requires
            old(self).refcount < u32::MAX,
        ensures
            r == queried(has_out, iid),
            *final(self) == (DeviceHostSupport {
                refcount: if r.out == OutPointer::This {
                    counted(old(self).refcount as nat, RefEvent::Taken) as u32
                } else {
                    old(self).refcount
                },
                ..*old(self)
            }),
    {
        if !has_out {
            return QueryReply { hr: E_POINTER, out: OutPointer::Untouched };
        }
        match iid {
            None => QueryReply { hr: E_POINTER, out: OutPointer::Null },
            Some(iid) => if iid.same(&IID_IUNKNOWN()) || iid.same(&IID_IVMDEVICEHOSTSUPPORT()) {
                self.refcount = self.refcount + 1;
                QueryReply { hr: S_OK, out: OutPointer::This }
            } else {
                QueryReply { hr: E_NOINTERFACE, out: OutPointer::Null }
            },
        }
    }

    /// `AddRef`: one reference more; how many there are.
    pub fn add_ref(&mut self) -> (n: u32)
        requires
            old(self).refcount < u32::MAX,
        ensures
            n == counted(old(self).refcount as nat, RefEvent::Taken),
            *final(self) == (DeviceHostSupport { refcount: n, ..*old(self) }),
    {
        self.refcount = self.refcount + 1;
        self.refcount
    }

    /// `Release`: one reference less; how many are left. At none the object is to
    /// be freed.
    pub fn release(&mut self) -> (n: u32)
        requires
            old(self).refcount > 0,
        ensures
            n == counted(old(self).refcount as nat, RefEvent::Released),
            *final(self) == (DeviceHostSupport { refcount: n, ..*old(self) }),
    {
        self.refcount = self.refcount - 1;
        self.refcount
    }

    /// `RegisterDeviceHost`: the device host of process `pid` is to be proxied to
    /// the compute system, and what that gave handed to
    /// [`DeviceHostSupport::proxied`].
    pub fn register_device_host(&mut self, pid: u32) -> (c: ProxyCall)
        ensures
            c == (ProxyCall { system: old(self).system, pid }),
            *final(self) == (DeviceHostSupport { called: true, pid, ..*old(self) }),
    {
        self.called = true;
        self.pid = pid;
        ProxyCall { system: self.system, pid }
    }

    /// The result code of the proxy call, and the section that it gave, `None` where
    /// there was no place for one. The code is what `RegisterDeviceHost` returns.
    pub fn proxied(&mut self, code: HRESULT, section: Option<u64>) -> (hr: HRESULT)
        ensures
            hr == code,
            *final(self) == (DeviceHostSupport {
                register_hr: code,
                ipc_section: match section {
                    Some(s) if code >= 0 => s,
                    _ => old(self).ipc_section,
                },
                ..*old(self)
            }),
    {
        self.register_hr = code;
        match section {
            Some(s) => if code >= 0 {
                self.ipc_section = s;
            },
            None => {},
        }
        code
    }

    /// Whether a device host has registered.
    pub fn was_registered(&self) -> (b: bool)
        ensures
            b == self.called,
    {
        self.called
    }

    /// The code of the last proxy call.
    pub fn register_hr(&self) -> (hr: HRESULT)
        ensures
            hr == self.register_hr,
    {
        self.register_hr
    }

    /// The section of the last proxy call that succeeded; 0 if there is none.
    pub fn ipc_section(&self) -> (s: u64)
        ensures
            s == self.ipc_section,
    {
        self.ipc_section
    }

    /// The process of the device host.
    pub fn device_host_pid(&self) -> (pid: u32)
        ensures
            pid == self.pid,
    {
        self.pid
    }
}

/// The references after these events, from the first one on, or `None` where one
/// was given back after the object was freed.
pub open spec fn references(events: Seq<RefEvent>) -> Option<nat>
    decreases events.len(),
{
    if events.len() == 0 {
        Some(1)
    } else {
        match references(events.drop_last()) {
            None => None,
            Some(n) => if n == 0 {
                None
            } else {
                Some(counted(n, events.last()))
            },
        }
    }
}

/// How many of these events take a reference.
pub open spec fn taken(events: Seq<RefEvent>) -> nat
    decreases events.len(),
{
    if events.len() == 0 {
        0
    } else {
        taken(events.drop_last()) + if events.last() is Taken {
            1nat
        } else {
            0
        }
    }
}

/// The object lives as long as it is referred to: it has one reference more than
/// were taken and not given back, and it is freed, with none left, exactly when as
/// many were given back as there were, with the first one.
pub proof fn law_object_lives_while_referenced(events: Seq<RefEvent>)
    requires
        references(events) is Some,
    ensures
        references(events)->0 == 1 + taken(events) - (events.len() - taken(events)),
        references(events) == Some(0nat) <==> events.len() - taken(events) == taken(events) + 1,
    decreases events.len(),
{
    if events.len() > 0 {
        law_object_lives_while_referenced(events.drop_last());
    }
}

/// A query gives the object exactly where there is a place for it and the interface is
/// `IUnknown` or that of device host support, and then it is one reference more;
/// otherwise the references stay. Without a place nothing is written; without an
/// interface to look for, or for an unknown one, a null pointer is.
pub proof fn law_query_gives_what_it_counts(
    s: &mut DeviceHostSupport,
    has_out: bool,
    iid: Option<GUID>,
    r: QueryReply,
)
    requires
        s.refcount < u32::MAX,
        call_ensures(DeviceHostSupport::query_interface, (s, has_out, iid), r),
    ensures
        r.out == OutPointer::This <==> has_out && (iid == Some(IID_IUNKNOWN()) || iid == Some(
            IID_IVMDEVICEHOSTSUPPORT(),
        )),
        r.out == OutPointer::Untouched <==> !has_out,
        r.out == OutPointer::This <==> r.hr == 0,
        !has_out || iid is None ==> r.hr + 0x1_0000_0000 == 0x8000_4003,
        has_out && iid is Some && r.out != OutPointer::This ==> r.hr + 0x1_0000_0000
            == 0x8000_4002,
        r.out == OutPointer::This ==> final(s).refcount == old(s).refcount + 1,
        r.out != OutPointer::This ==> final(s).refcount == old(s).refcount,
        final(s).system == old(s).system && final(s).called == old(s).called && final(s).pid
            == old(s).pid && final(s).register_hr == old(s).register_hr && final(s).ipc_section
            == old(s).ipc_section,
{
}

/// A reference that is taken and given back leaves the object as it was; both tell how
/// many there are. The object starts with one, so the first that is given back without
/// another is the last.
pub proof fn law_release_undoes_add_ref(
    system: usize,
    fresh: DeviceHostSupport,
    s: &mut DeviceHostSupport,
    n: u32,
    t: &mut DeviceHostSupport,
    m: u32,
    f: &mut DeviceHostSupport,
    k: u32,
)
    requires
        call_ensures(DeviceHostSupport::new, (system,), fresh),
        *f == fresh,
        call_ensures(DeviceHostSupport::release, (f,), k),
        0 < s.refcount < u32::MAX,
        call_ensures(DeviceHostSupport::add_ref, (s,), n),
        *t == *final(s),
        call_ensures(DeviceHostSupport::release, (t,), m),
    ensures
        n == old(s).refcount + 1 && n == final(s).refcount,
        m == old(s).refcount && *final(t) == *old(s),
        k == 0,
        fresh.refcount == 1 && fresh.system == system && !fresh.called,
        fresh.register_hr == 0 && fresh.ipc_section == 0 && fresh.pid == 0,
{
}

/// A device host that registers is proxied to the compute system of the object, under
/// its own process, and from then on the object tells so, with the code that the call
/// gave, which is also what is answered. The section is that of the last call that
/// succeeded and gave one.
pub proof fn law_registration_is_told(
    s: &mut DeviceHostSupport,
    pid: u32,
    c: ProxyCall,
    t: &mut DeviceHostSupport,
    code: HRESULT,
    section: Option<u64>,
    hr: HRESULT,
    end: &DeviceHostSupport,
    was: bool,
    told: HRESULT,
    sec: u64,
    p: u32,
)
    requires
        call_ensures(DeviceHostSupport::register_device_host, (s, pid), c),
        *t == *final(s),
        call_ensures(DeviceHostSupport::proxied, (t, code, section), hr),
        *end == *final(t),
        call_ensures(DeviceHostSupport::was_registered, (end,), was),
        call_ensures(DeviceHostSupport::register_hr, (end,), told),
        call_ensures(DeviceHostSupport::ipc_section, (end,), sec),
        call_ensures(DeviceHostSupport::device_host_pid, (end,), p),
    ensures
        c.system == old(s).system && c.pid == pid,
        was && p == pid,
        hr == code && told == code,
        code >= 0 && section is Some ==> sec == section->0,
        code < 0 || section is None ==> sec == old(s).ipc_section,
        final(t).refcount == old(s).refcount && final(t).system == old(s).system,
{
}

} // verus!
