//! The vocabulary of the Host Device Virtualization (HDV) API: identifiers,
//! selectors, flags and result codes, with the numbers that stand for them.

use vstd::prelude::*;
use crate::hresult::HRESULT;

verus! {

/// Win32 `GUID`.
#[derive(Clone, Copy, Debug, PartialEq, Eq)]
pub struct GUID {
    pub Data1: u32,
    pub Data2: u16,
    pub Data3: u16,
    pub Data4: [u8; 8],
}

impl GUID {
    /// Whether the two are the same.
    pub fn same(&self, other: &GUID) -> (b: bool)
        ensures
            b == (*self == *other),
    {
        if self.Data1 != other.Data1 || self.Data2 != other.Data2 || self.Data3 != other.Data3 {
            return false;
        }
        let mut i: usize = 0;
        while i < 8
            invariant
                i <= 8,
                forall|j: int| 0 <= j < i ==> self.Data4@[j] == other.Data4@[j],
            decreases 8 - i,
        {
            if self.Data4[i] != other.Data4[i] {
                return false;
            }
            i = i + 1;
        }
        assert(self.Data4 =~= other.Data4);
        true
    }
}

pub const S_OK: HRESULT = 0;

/// A null pointer was given (`0x80004003`).
pub const E_POINTER: HRESULT = -0x7fff_bffd;

/// Unspecified failure (`0x80004005`): also what a callback that panicked gives.
pub const E_FAIL: HRESULT = -0x7fff_bffb;

/// The object has no such interface (`0x80004002`).
pub const E_NOINTERFACE: HRESULT = -0x7fff_bffe;

/// `HRESULT_FROM_WIN32(ERROR_MOD_NOT_FOUND)` (`0x8007007E`).
pub const HR_MOD_NOT_FOUND: HRESULT = -0x7ff8_ff82;

/// `HRESULT_FROM_WIN32(ERROR_NOT_SUPPORTED)` (`0x80070032`).
pub const HRESULT_NOT_SUPPORTED: HRESULT = -0x7ff8_ffce;

/// The kinds of device that HDV knows.
#[derive(Clone, Copy, Debug, PartialEq, Eq, Structural)]
pub enum HDV_DEVICE_TYPE {
    Undefined,
    Pci,
}

impl HDV_DEVICE_TYPE {
    /// The number that stands for it.
    pub fn value(&self) -> (n: i32)
        ensures
            n == match *self {
                HDV_DEVICE_TYPE::Undefined => 0int,
                HDV_DEVICE_TYPE::Pci => 1,
            },
    {
        match self {
            HDV_DEVICE_TYPE::Undefined => 0,
            HDV_DEVICE_TYPE::Pci => 1,
        }
    }
}

/// How a device host is initialized.
#[derive(Clone, Copy, Debug, PartialEq, Eq, Structural)]
pub enum HDV_DEVICE_HOST_FLAGS {
    NoFlags,
    InitializeComSecurity,
}

impl HDV_DEVICE_HOST_FLAGS {
    /// The number that stands for it.
    pub fn value(&self) -> (n: i32)
        ensures
            n == match *self {
                HDV_DEVICE_HOST_FLAGS::NoFlags => 0int,
                HDV_DEVICE_HOST_FLAGS::InitializeComSecurity => 1,
            },
    {
        match self {
            HDV_DEVICE_HOST_FLAGS::NoFlags => 0,
            HDV_DEVICE_HOST_FLAGS::InitializeComSecurity => 1,
        }
    }
}

/// One of the six base address registers.
#[derive(Clone, Copy, Debug, PartialEq, Eq, Structural)]
pub enum HDV_PCI_BAR_SELECTOR {
    Bar0,
    Bar1,
    Bar2,
    Bar3,
    Bar4,
    Bar5,
}

impl HDV_PCI_BAR_SELECTOR {
    /// The number of the register.
    pub open spec fn index(self) -> int {
        match self {
            HDV_PCI_BAR_SELECTOR::Bar0 => 0,
            HDV_PCI_BAR_SELECTOR::Bar1 => 1,
            HDV_PCI_BAR_SELECTOR::Bar2 => 2,
            HDV_PCI_BAR_SELECTOR::Bar3 => 3,
            HDV_PCI_BAR_SELECTOR::Bar4 => 4,
            HDV_PCI_BAR_SELECTOR::Bar5 => 5,
        }
    }

    /// The number that stands for it, to HDV and to the worker process alike.
    pub fn value(&self) -> (n: u8)
        ensures
            n == self.index(),
    {
        match self {
            HDV_PCI_BAR_SELECTOR::Bar0 => 0,
            HDV_PCI_BAR_SELECTOR::Bar1 => 1,
            HDV_PCI_BAR_SELECTOR::Bar2 => 2,
            HDV_PCI_BAR_SELECTOR::Bar3 => 3,
            HDV_PCI_BAR_SELECTOR::Bar4 => 4,
            HDV_PCI_BAR_SELECTOR::Bar5 => 5,
        }
    }

    /// The register that a number stands for, if there is one.
    pub fn from_value(n: i32) -> (r: Option<HDV_PCI_BAR_SELECTOR>)
        ensures
            match r {
                Some(bar) => bar.index() == n,
                None => n < 0 || n >= HDV_PCI_BAR_COUNT,
            },
    {
        if n == 0 {
            Some(HDV_PCI_BAR_SELECTOR::Bar0)
        } else if n == 1 {
            Some(HDV_PCI_BAR_SELECTOR::Bar1)
        } else if n == 2 {
            Some(HDV_PCI_BAR_SELECTOR::Bar2)
        } else if n == 3 {
            Some(HDV_PCI_BAR_SELECTOR::Bar3)
        } else if n == 4 {
            Some(HDV_PCI_BAR_SELECTOR::Bar4)
        } else if n == 5 {
            Some(HDV_PCI_BAR_SELECTOR::Bar5)
        } else {
            None
        }
    }
}

pub const HDV_PCI_BAR_COUNT: u32 = 6;

// The flags of a doorbell: which write sizes trigger it, and whether any value does.
pub const HDV_DOORBELL_FLAG_TRIGGER_SIZE_ANY: u64 = 0;

pub const HDV_DOORBELL_FLAG_TRIGGER_SIZE_BYTE: u64 = 1;

pub const HDV_DOORBELL_FLAG_TRIGGER_SIZE_WORD: u64 = 2;

pub const HDV_DOORBELL_FLAG_TRIGGER_SIZE_DWORD: u64 = 3;

pub const HDV_DOORBELL_FLAG_TRIGGER_SIZE_QWORD: u64 = 4;

pub const HDV_DOORBELL_FLAG_TRIGGER_ANY_VALUE: u64 = 0x8000_0000;

/// The PCI identity that a device reports.
#[derive(Clone, Copy, Debug, PartialEq, Eq, Structural)]
pub struct HDV_PCI_PNP_ID {
    pub VendorID: u16,
    pub DeviceID: u16,
    pub RevisionID: u8,
    pub ProgIf: u8,
    pub SubClass: u8,
    pub BaseClass: u8,
    pub SubVendorID: u16,
    pub SubSystemID: u16,
}

impl Default for HDV_PCI_PNP_ID {
    fn default() -> (id: HDV_PCI_PNP_ID)
        ensures
            id == (HDV_PCI_PNP_ID {
                VendorID: 0,
                DeviceID: 0,
                RevisionID: 0,
                ProgIf: 0,
                SubClass: 0,
                BaseClass: 0,
                SubVendorID: 0,
                SubSystemID: 0,
            }),
    {
        HDV_PCI_PNP_ID {
            VendorID: 0,
            DeviceID: 0,
            RevisionID: 0,
            ProgIf: 0,
            SubClass: 0,
            BaseClass: 0,
            SubVendorID: 0,
            SubSystemID: 0,
        }
    }
}

/// The version of the device interface.
#[derive(Clone, Copy, Debug, PartialEq, Eq, Structural)]
pub enum HDV_PCI_INTERFACE_VERSION {
    Invalid,
    Version1,
}

impl HDV_PCI_INTERFACE_VERSION {
    /// The number that stands for it.
    pub fn value(&self) -> (n: i32)
        ensures
            n == match *self {
                HDV_PCI_INTERFACE_VERSION::Invalid => 0int,
                HDV_PCI_INTERFACE_VERSION::Version1 => 1,
            },
    {
        match self {
            HDV_PCI_INTERFACE_VERSION::Invalid => 0,
            HDV_PCI_INTERFACE_VERSION::Version1 => 1,
        }
    }
}

/// `GENERIC_ALL`: the access that is asked for when a compute system is opened.
pub const GENERIC_ALL: u32 = 0x1000_0000;

/// `IUnknown`.
#[verifier::allow_in_spec]
pub fn IID_IUNKNOWN() -> GUID
    returns
        (GUID {
            Data1: 0x0000_0000,
            Data2: 0x0000,
            Data3: 0x0000,
            Data4: [0xc0, 0x00, 0x00, 0x00, 0x00, 0x00, 0x00, 0x46],
        }),
{
    GUID {
        Data1: 0x0000_0000,
        Data2: 0x0000,
        Data3: 0x0000,
        Data4: [0xc0, 0x00, 0x00, 0x00, 0x00, 0x00, 0x00, 0x46],
    }
}

/// `IVmDeviceHostSupport`, the interface through which a device host registers.
#[verifier::allow_in_spec]
pub fn IID_IVMDEVICEHOSTSUPPORT() -> GUID
    returns
        (GUID {
            Data1: 0xe31a_a49b,
            Data2: 0x0914,
            Data3: 0x465e,
            Data4: [0xb1, 0x45, 0x1b, 0x9b, 0xa1, 0x3e, 0xfb, 0x10],
        }),
{
    GUID {
        Data1: 0xe31a_a49b,
        Data2: 0x0914,
        Data3: 0x465e,
        Data4: [0xb1, 0x45, 0x1b, 0x9b, 0xa1, 0x3e, 0xfb, 0x10],
    }
}

/// `IVmVirtualDeviceAccess`, the worker process's way to its devices.
#[verifier::allow_in_spec]
pub fn IID_IVM_VIRTUAL_DEVICE_ACCESS() -> GUID
    returns
        (GUID {
            Data1: 0x3e57_bd3c,
            Data2: 0x5a5d,
            Data3: 0x4bdc,
            Data4: [0xa0, 0xa6, 0x5b, 0x41, 0x93, 0xd4, 0xb7, 0x19],
        }),
{
    GUID {
        Data1: 0x3e57_bd3c,
        Data2: 0x5a5d,
        Data3: 0x4bdc,
        Data4: [0xa0, 0xa6, 0x5b, 0x41, 0x93, 0xd4, 0xb7, 0x19],
    }
}

/// `IVmFiovGuestMemoryFastNotification`, the doorbells of a FlexibleIov device.
#[verifier::allow_in_spec]
pub fn IID_IVM_FIOV_GUEST_MEMORY_FAST_NOTIFICATION() -> GUID
    returns
        (GUID {
            Data1: 0xf5df_bec1,
            Data2: 0xb9f3,
            Data3: 0x4b26,
            Data4: [0xbf, 0x6f, 0xc2, 0x51, 0x44, 0x8b, 0xcf, 0x7a],
        }),
{
    GUID {
        Data1: 0xf5df_bec1,
        Data2: 0xb9f3,
        Data3: 0x4b26,
        Data4: [0xbf, 0x6f, 0xc2, 0x51, 0x44, 0x8b, 0xcf, 0x7a],
    }
}

/// `IVmFiovGuestMmioMappings`, the section-backed MMIO of a FlexibleIov device.
#[verifier::allow_in_spec]
pub fn IID_IVM_FIOV_GUEST_MMIO_MAPPINGS() -> GUID
    returns
        (GUID {
            Data1: 0x9d41_6457,
            Data2: 0xabbc,
            Data3: 0x46cf,
            Data4: [0x8b, 0x93, 0x90, 0x1c, 0x68, 0xbe, 0xc6, 0x27],
        }),
{
    GUID {
        Data1: 0x9d41_6457,
        Data2: 0xabbc,
        Data3: 0x46cf,
        Data4: [0x8b, 0x93, 0x90, 0x1c, 0x68, 0xbe, 0xc6, 0x27],
    }
}

/// The category of FlexibleIov devices.
#[verifier::allow_in_spec]
pub fn FLEXIO_DEVICE_ID() -> GUID
    returns
        (GUID {
            Data1: 0xa867_9153,
            Data2: 0x843f,
            Data3: 0x467f,
            Data4: [0xad, 0x7e, 0xf4, 0x29, 0x32, 0x8f, 0x75, 0x68],
        }),
{
    GUID {
        Data1: 0xa867_9153,
        Data2: 0x843f,
        Data3: 0x467f,
        Data4: [0xad, 0x7e, 0xf4, 0x29, 0x32, 0x8f, 0x75, 0x68],
    }
}

/// The device class of a lone device: the `EmulatorId` of its FlexibleIov slot.
#[verifier::allow_in_spec]
pub fn HVFS_DEVICE_CLASS_ID() -> GUID
    returns
        (GUID {
            Data1: 0xa7e1_1e40,
            Data2: 0x0001,
            Data3: 0x4a7e,
            Data4: [0x9c, 0x00, 0xa7, 0xe1, 0x00, 0x00, 0x00, 0x01],
        }),
{
    GUID {
        Data1: 0xa7e1_1e40,
        Data2: 0x0001,
        Data3: 0x4a7e,
        Data4: [0x9c, 0x00, 0xa7, 0xe1, 0x00, 0x00, 0x00, 0x01],
    }
}

/// The device instance of a lone device: the key of its FlexibleIov slot.
#[verifier::allow_in_spec]
pub fn HVFS_DEVICE_INSTANCE_ID() -> GUID
    returns
        (GUID {
            Data1: 0xa7e1_1e40,
            Data2: 0x0001,
            Data3: 0x4a7e,
            Data4: [0x9c, 0x00, 0xa7, 0xe1, 0x00, 0x00, 0x00, 0x02],
        }),
{
    GUID {
        Data1: 0xa7e1_1e40,
        Data2: 0x0001,
        Data3: 0x4a7e,
        Data4: [0x9c, 0x00, 0xa7, 0xe1, 0x00, 0x00, 0x00, 0x02],
    }
}

/// The device host, one per process.
#[verifier::allow_in_spec]
pub fn HVFS_DEVICE_HOST_ID() -> GUID
    returns
        (GUID {
            Data1: 0xa7e1_1e40,
            Data2: 0x0001,
            Data3: 0x4a7e,
            Data4: [0x9c, 0x00, 0xa7, 0xe1, 0x00, 0x00, 0x00, 0x03],
        }),
{
    GUID {
        Data1: 0xa7e1_1e40,
        Data2: 0x0001,
        Data3: 0x4a7e,
        Data4: [0x9c, 0x00, 0xa7, 0xe1, 0x00, 0x00, 0x00, 0x03],
    }
}

/// The device class of virtio-fs, which every share has when there may be several: with a class of its own a second device is refused.
#[verifier::allow_in_spec]
pub fn VIRTIO_FS_DEVICE_CLASS_ID() -> GUID
    returns
        (GUID {
            Data1: 0x8722_70e1,
            Data2: 0xa899,
            Data3: 0x4af6,
            Data4: [0xb4, 0x54, 0x71, 0x93, 0x63, 0x44, 0x35, 0xad],
        }),
{
    GUID {
        Data1: 0x8722_70e1,
        Data2: 0xa899,
        Data3: 0x4af6,
        Data4: [0xb4, 0x54, 0x71, 0x93, 0x63, 0x44, 0x35, 0xad],
    }
}

// ---------------------------------------------------------------------------
// Laws
// ---------------------------------------------------------------------------

/// The identifiers of this library: they differ in the last byte alone.
pub open spec fn lone_guid(last: u8) -> GUID {
    GUID {
        Data1: 0xa7e1_1e40,
        Data2: 0x0001,
        Data3: 0x4a7e,
        Data4: [0x9c, 0x00, 0xa7, 0xe1, 0x00, 0x00, 0x00, last],
    }
}

/// The class of a lone device, its instance and the device host are the first, second
/// and third identifier of the library; the class of shares is that of virtio-fs.
pub proof fn law_identifiers_of_the_library()
    ensures
        HVFS_DEVICE_CLASS_ID() == lone_guid(1),
        HVFS_DEVICE_INSTANCE_ID() == lone_guid(2),
        HVFS_DEVICE_HOST_ID() == lone_guid(3),
        VIRTIO_FS_DEVICE_CLASS_ID().Data1 == 0x8722_70e1,
        VIRTIO_FS_DEVICE_CLASS_ID().Data2 == 0xa899,
        VIRTIO_FS_DEVICE_CLASS_ID().Data3 == 0x4af6,
        VIRTIO_FS_DEVICE_CLASS_ID().Data4@ == seq![
            0xb4u8,
            0x54,
            0x71,
            0x93,
            0x63,
            0x44,
            0x35,
            0xad,
        ],
{
    assert(VIRTIO_FS_DEVICE_CLASS_ID().Data4@ =~= seq![
        0xb4u8,
        0x54,
        0x71,
        0x93,
        0x63,
        0x44,
        0x35,
        0xad,
    ]);
}

/// The interfaces and the category that the worker process knows.
pub proof fn law_identifiers_of_the_host()
    ensures
        IID_IUNKNOWN().Data1 == 0 && IID_IUNKNOWN().Data2 == 0 && IID_IUNKNOWN().Data3 == 0,
        IID_IUNKNOWN().Data4@ == seq![0xc0u8, 0, 0, 0, 0, 0, 0, 0x46],
        IID_IVMDEVICEHOSTSUPPORT().Data1 == 0xe31a_a49b,
        IID_IVMDEVICEHOSTSUPPORT().Data2 == 0x0914 && IID_IVMDEVICEHOSTSUPPORT().Data3 == 0x465e,
        IID_IVMDEVICEHOSTSUPPORT().Data4@ == seq![0xb1u8, 0x45, 0x1b, 0x9b, 0xa1, 0x3e, 0xfb, 0x10],
        IID_IVM_VIRTUAL_DEVICE_ACCESS().Data1 == 0x3e57_bd3c,
        IID_IVM_VIRTUAL_DEVICE_ACCESS().Data2 == 0x5a5d,
        IID_IVM_VIRTUAL_DEVICE_ACCESS().Data3 == 0x4bdc,
        IID_IVM_VIRTUAL_DEVICE_ACCESS().Data4@ == seq![
            0xa0u8,
            0xa6,
            0x5b,
            0x41,
            0x93,
            0xd4,
            0xb7,
            0x19,
        ],
        IID_IVM_FIOV_GUEST_MEMORY_FAST_NOTIFICATION().Data1 == 0xf5df_bec1,
        IID_IVM_FIOV_GUEST_MEMORY_FAST_NOTIFICATION().Data2 == 0xb9f3,
        IID_IVM_FIOV_GUEST_MEMORY_FAST_NOTIFICATION().Data3 == 0x4b26,
        IID_IVM_FIOV_GUEST_MEMORY_FAST_NOTIFICATION().Data4@ == seq![
            0xbfu8,
            0x6f,
            0xc2,
            0x51,
            0x44,
            0x8b,
            0xcf,
            0x7a,
        ],
        IID_IVM_FIOV_GUEST_MMIO_MAPPINGS().Data1 == 0x9d41_6457,
        IID_IVM_FIOV_GUEST_MMIO_MAPPINGS().Data2 == 0xabbc,
        IID_IVM_FIOV_GUEST_MMIO_MAPPINGS().Data3 == 0x46cf,
        IID_IVM_FIOV_GUEST_MMIO_MAPPINGS().Data4@ == seq![
            0x8bu8,
            0x93,
            0x90,
            0x1c,
            0x68,
            0xbe,
            0xc6,
            0x27,
        ],
        FLEXIO_DEVICE_ID().Data1 == 0xa867_9153,
        FLEXIO_DEVICE_ID().Data2 == 0x843f && FLEXIO_DEVICE_ID().Data3 == 0x467f,
        FLEXIO_DEVICE_ID().Data4@ == seq![0xadu8, 0x7e, 0xf4, 0x29, 0x32, 0x8f, 0x75, 0x68],
{
    assert(IID_IUNKNOWN().Data4@ =~= seq![0xc0u8, 0, 0, 0, 0, 0, 0, 0x46]);
    assert(IID_IVMDEVICEHOSTSUPPORT().Data4@ =~= seq![
        0xb1u8,
        0x45,
        0x1b,
        0x9b,
        0xa1,
        0x3e,
        0xfb,
        0x10,
    ]);
    assert(IID_IVM_VIRTUAL_DEVICE_ACCESS().Data4@ =~= seq![
        0xa0u8,
        0xa6,
        0x5b,
        0x41,
        0x93,
        0xd4,
        0xb7,
        0x19,
    ]);
    assert(IID_IVM_FIOV_GUEST_MEMORY_FAST_NOTIFICATION().Data4@ =~= seq![
        0xbfu8,
        0x6f,
        0xc2,
        0x51,
        0x44,
        0x8b,
        0xcf,
        0x7a,
    ]);
    assert(IID_IVM_FIOV_GUEST_MMIO_MAPPINGS().Data4@ =~= seq![
        0x8bu8,
        0x93,
        0x90,
        0x1c,
        0x68,
        0xbe,
        0xc6,
        0x27,
    ]);
    assert(FLEXIO_DEVICE_ID().Data4@ =~= seq![0xadu8, 0x7e, 0xf4, 0x29, 0x32, 0x8f, 0x75, 0x68]);
}

/// Two identifiers are the same exactly if each of their parts is.
pub proof fn law_same_compares_every_part(a: &GUID, b: &GUID, r: bool)
    requires
        call_ensures(GUID::same, (a, b), r),
    ensures
        r <==> a.Data1 == b.Data1 && a.Data2 == b.Data2 && a.Data3 == b.Data3 && forall|i: int|
            0 <= i < 8 ==> #[trigger] a.Data4@[i] == b.Data4@[i],
{
    if forall|i: int| 0 <= i < 8 ==> #[trigger] a.Data4@[i] == b.Data4@[i] {
        assert(a.Data4 =~= b.Data4);
    }
}

/// A register and its number stand for each other: there are six, from 0 to 5.
pub proof fn law_registers_are_numbered(
    n: i32,
    r: Option<HDV_PCI_BAR_SELECTOR>,
    bar: &HDV_PCI_BAR_SELECTOR,
    v: u8,
)
    requires
        call_ensures(HDV_PCI_BAR_SELECTOR::from_value, (n,), r),
        call_ensures(HDV_PCI_BAR_SELECTOR::value, (bar,), v),
    ensures
        r is Some <==> 0 <= n <= 5,
        v <= 5,
        r matches Some(b) ==> (b == *bar <==> n == v),
        *bar == HDV_PCI_BAR_SELECTOR::Bar0 ==> v == 0,
        *bar == HDV_PCI_BAR_SELECTOR::Bar1 ==> v == 1,
        *bar == HDV_PCI_BAR_SELECTOR::Bar2 ==> v == 2,
        *bar == HDV_PCI_BAR_SELECTOR::Bar3 ==> v == 3,
        *bar == HDV_PCI_BAR_SELECTOR::Bar4 ==> v == 4,
        *bar == HDV_PCI_BAR_SELECTOR::Bar5 ==> v == 5,
{
}

/// The numbers of the other selectors, and those of the codes, with their 32 bits.
pub proof fn law_numbers_of_the_interface(
    t: &HDV_DEVICE_TYPE,
    f: &HDV_DEVICE_HOST_FLAGS,
    i: &HDV_PCI_INTERFACE_VERSION,
    x: i32,
    y: i32,
    z: i32,
)
    requires
        call_ensures(HDV_DEVICE_TYPE::value, (t,), x),
        call_ensures(HDV_DEVICE_HOST_FLAGS::value, (f,), y),
        call_ensures(HDV_PCI_INTERFACE_VERSION::value, (i,), z),
    ensures
        x == 1 <==> *t == HDV_DEVICE_TYPE::Pci,
        x == 0 <==> *t == HDV_DEVICE_TYPE::Undefined,
        y == 1 <==> *f == HDV_DEVICE_HOST_FLAGS::InitializeComSecurity,
        y == 0 <==> *f == HDV_DEVICE_HOST_FLAGS::NoFlags,
        z == 1 <==> *i == HDV_PCI_INTERFACE_VERSION::Version1,
        z == 0 <==> *i == HDV_PCI_INTERFACE_VERSION::Invalid,
        S_OK == 0,
        E_POINTER + 0x1_0000_0000 == 0x8000_4003,
        E_FAIL + 0x1_0000_0000 == 0x8000_4005,
        E_NOINTERFACE + 0x1_0000_0000 == 0x8000_4002,
        HR_MOD_NOT_FOUND + 0x1_0000_0000 == 0x8007_007e,
        HRESULT_NOT_SUPPORTED + 0x1_0000_0000 == 0x8007_0032,
        GENERIC_ALL == 0x1000_0000,
        HDV_PCI_BAR_COUNT == 6,
{
}

/// A device identity starts with nothing in it.
pub proof fn law_default_identity_is_zero(id: HDV_PCI_PNP_ID)
    requires
        call_ensures(HDV_PCI_PNP_ID::default, (), id),
    ensures
        id.VendorID == 0 && id.DeviceID == 0 && id.RevisionID == 0 && id.ProgIf == 0,
        id.SubClass == 0 && id.BaseClass == 0 && id.SubVendorID == 0 && id.SubSystemID == 0,
{
}

} // verus!
