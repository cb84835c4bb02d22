//! The C ABI: device hosts, shares, and what each call answers.
//!
//! A device host is registered against a compute system; shares ride it, each a
//! virtio-fs device that is one shared directory. Every call answers with a
//! status code, 0 for success and negative for an error, and an error leaves a
//! message for the calling thread.
//!
//! The calls into the platform are made by the caller of this module. An entry
//! point is a chain of steps, each of which takes what the call before it gave,
//! and gives what the next call needs or a [`Refusal`].

use crate::guid::{guid_from_string, guid_to_string};
use crate::hdv::DeviceHost;
use crate::hresult::{with_hresult, HRESULT};
use crate::json::{new_object, object_value, set_field, text_value, value_text};
use crate::sys::{GENERIC_ALL, GUID, HRESULT_NOT_SUPPORTED, HVFS_DEVICE_HOST_ID,
    VIRTIO_FS_DEVICE_CLASS_ID};
use crate::text::chars_of;
use crate::utf16::wide;
use std::sync::Arc;
use vstd::prelude::*;
use vstd::string::*;

verus! {

/// The version of the ABI.
pub const HVFS_ABI_VERSION: u32 = 2;

pub const HVFS_OK: i32 = 0;

/// An argument is malformed.
pub const HVFS_ERR_INVALID_ARG: i32 = -1;

/// This library does not do that.
pub const HVFS_ERR_NOT_IMPLEMENTED: i32 = -2;

/// A panic was caught at the boundary.
pub const HVFS_ERR_PANIC: i32 = -3;

/// The platform failed.
pub const HVFS_ERR_HDV: i32 = -4;

/// The platform refuses what was asked, though it was well formed.
pub const HVFS_ERR_UNSUPPORTED: i32 = -5;

/// The version of the ABI, for the caller to compare with the one that it was
/// built for.
pub fn hvfs_abi_version() -> (v: u32)
    ensures
        v == HVFS_ABI_VERSION,
{
    HVFS_ABI_VERSION
}

// ---------------------------------------------------------------------------
// Errors
// ---------------------------------------------------------------------------

/// What has to be given up when a call is refused.
#[derive(Clone, Copy, Debug, PartialEq, Eq, Structural)]
pub enum Release {
    Nothing,
    /// The compute system that was opened.
    System,
    /// The device that was attached.
    Device,
}

/// What becomes of the out parameter of a call that is refused.
#[derive(Clone, Copy, Debug, PartialEq, Eq, Structural)]
pub enum OutParam {
    /// It is a null pointer, through which nothing is written.
    Untouched,
    /// A null handle is written through it.
    Null,
}

/// What becomes of the out parameter of a call that is refused.
pub open spec fn out_after(out_is_null: bool) -> OutParam {
    if out_is_null {
        OutParam::Untouched
    } else {
        OutParam::Null
    }
}

/// Why a call did not succeed.
pub struct Refusal {
    pub code: i32,
    /// The message for the calling thread.
    pub last_error: String,
    /// The message for the log, where there is one.
    pub log: Option<String>,
    pub release: Release,
    /// What the caller finds behind the out parameter.
    pub out: OutParam,
}

/// How a message reaches the calling thread: as a C string, which cannot hold a
/// null.
pub open spec fn c_text(message: Seq<char>) -> Seq<char> {
    if message.contains('\0') {
        "error"@
    } else {
        message
    }
}

impl Refusal {
    /// The refusal with this code, message and release, and an entry in the log or
    /// not.
    pub open spec fn is(&self, code: i32, message: Seq<char>, logged: bool, release: Release) -> bool {
        &&& self.code == code
        &&& self.last_error@ == c_text(message)
        &&& match self.log {
            Some(l) => logged && l@ == message,
            None => !logged,
        }
        &&& self.release == release
    }

    /// An error: the code is negative, and the log, where it gets a message, gets the
    /// one that the calling thread gets.
    pub open spec fn is_error(&self) -> bool {
        &&& self.code < 0
        &&& self.log matches Some(l) ==> self.last_error@ == c_text(l@)
    }
}

/// The message for the calling thread: `error`, where the message itself cannot be
/// a C string.
pub fn set_last_error(message: &str) -> (s: String)
    ensures
        s@ == c_text(message@),
{
    let chars = chars_of(message);
    let mut i: usize = 0;
    while i < chars.len()
        invariant
            i <= chars@.len(),
            chars@ == message@,
            forall|j: int| 0 <= j < i ==> chars@[j] != '\0',
        decreases chars@.len() - i,
    {
        if chars[i] == '\0' {
            assert(chars@[i as int] == '\0');
            return "error".to_owned();
        }
        i = i + 1;
    }
    message.to_owned()
}

/// A refusal of an argument: the message is for the calling thread alone.
fn refuse(code: i32, message: String) -> (r: Refusal)
    ensures
        r.is(code, message@, false, Release::Nothing),
        r.out == OutParam::Null,
{
    Refusal {
        code,
        last_error: set_last_error(message.as_str()),
        log: None,
        release: Release::Nothing,
        out: OutParam::Null,
    }
}

/// The refusal of a null out parameter.
fn refuse_null_out() -> (r: Refusal)
    ensures
        r.is(HVFS_ERR_INVALID_ARG, "null out parameter"@, false, Release::Nothing),
        r.out == OutParam::Untouched,
{
    let mut r = refuse(HVFS_ERR_INVALID_ARG, "null out parameter".to_owned());
    r.out = OutParam::Untouched;
    r
}

/// A genuine failure: the same message for the calling thread and for the log.
fn fail(code: i32, message: String, release: Release) -> (r: Refusal)
    ensures
        r.is(code, message@, true, release),
        r.out == OutParam::Null,
{
    Refusal {
        code,
        last_error: set_last_error(message.as_str()),
        log: Some(message),
        release,
        out: OutParam::Null,
    }
}

/// What an entry point answers: its code, or, where its body panicked (`None`), a
/// code and a message of its own.
pub struct Guarded {
    pub code: i32,
    pub last_error: Option<String>,
}

/// No panic crosses the boundary: one becomes [`HVFS_ERR_PANIC`].
pub fn guard(outcome: Option<i32>) -> (g: Guarded)
    ensures
        match outcome {
            Some(code) => g.code == code && g.last_error is None,
            None => {
                &&& g.code == HVFS_ERR_PANIC
                &&& g.last_error matches Some(s) && s@ == "panic caught at FFI boundary"@
            },
        },
        g.last_error is Some ==> g.code < 0,
{
    match outcome {
        Some(code) => Guarded { code, last_error: None },
        None => Guarded {
            code: HVFS_ERR_PANIC,
            last_error: Some("panic caught at FFI boundary".to_owned()),
        },
    }
}

// ---------------------------------------------------------------------------
// Arguments
// ---------------------------------------------------------------------------

#[verifier::external_type_specification]
#[verifier::external_body]
pub struct ExUtf8Error(std::str::Utf8Error);

/// `str::from_utf8` gives the string of these bytes, exactly if they are UTF-8.
pub assume_specification[ std::str::from_utf8 ](v: &[u8]) -> (r: Result<&str, std::str::Utf8Error>)
    ensures
        r is Ok <==> vstd::utf8::valid_utf8(v@),
        r is Ok ==> r->Ok_0.spec_bytes() == v@,
;

/// What is wrong with a string argument, if anything: it is null, or not UTF-8.
pub open spec fn arg_fault(arg: Option<Seq<u8>>, what: Seq<char>) -> Option<Seq<char>> {
    match arg {
        None => Some("null argument: "@ + what),
        Some(bytes) => if vstd::utf8::valid_utf8(bytes) {
            None
        } else {
            Some("non-UTF-8 argument: "@ + what)
        },
    }
}

/// The bytes of an argument.
pub open spec fn arg_bytes(arg: Option<&[u8]>) -> Option<Seq<u8>> {
    match arg {
        None => None,
        Some(bytes) => Some(bytes@),
    }
}

/// The text of an argument that has no fault.
pub open spec fn arg_text(arg: Option<Seq<u8>>) -> Seq<char> {
    vstd::utf8::decode_utf8(arg->0)
}

/// The text of a string argument, `None` for a null pointer.
pub fn cstr(arg: Option<&[u8]>, what: &str) -> (r: Result<String, Refusal>)
    ensures
        r matches Err(e) ==> e.is_error() && e.out == OutParam::Null,
        match arg_fault(arg_bytes(arg), what@) {
            Some(m) => r matches Err(e) && e.is(HVFS_ERR_INVALID_ARG, m, false, Release::Nothing),
            None => r matches Ok(s) && s@ == arg_text(arg_bytes(arg)),
        },
{
    match arg {
        None => Err(refuse(HVFS_ERR_INVALID_ARG, "null argument: ".to_owned().concat(what))),
        Some(bytes) => match std::str::from_utf8(bytes) {
            Ok(s) => {
                proof {
                    vstd::utf8::encode_utf8_decode_utf8(s@);
                }
                Ok(s.to_owned())
            },
            Err(_) => Err(
                refuse(HVFS_ERR_INVALID_ARG, "non-UTF-8 argument: ".to_owned().concat(what)),
            ),
        },
    }
}

// ---------------------------------------------------------------------------
// Opening a device host
// ---------------------------------------------------------------------------

/// The configuration of a device host.
#[derive(Clone, Copy, Debug, PartialEq, Eq, Structural)]
pub struct HostConfig {
    /// Guest RAM in MiB, which has to be that of the compute system.
    pub memory_mb: u64,
}

/// A device host, and the shares on it.
pub struct hvfs_host {
    /// The handles of the shares, in the order in which they were added.
    pub shares: Vec<usize>,
    pub host: Arc<DeviceHost>,
    /// The handle of the compute system.
    pub system: usize,
    /// Guest RAM in bytes.
    pub memory_bytes: u64,
}

/// A device host is to be opened: the configuration is to be parsed, and the
/// outcome handed to [`HostOpen::parsed`].
pub struct HostOpen {
    pub id: String,
    pub host_json: String,
}

/// The compute system is to be opened, and what that gave handed to
/// [`OpenSystem::opened`].
pub struct OpenSystem {
    /// The id, as the call takes it.
    pub id: Vec<u16>,
    pub access: u32,
    pub memory_mb: u64,
}

/// The device host is to be registered with the compute system, and the outcome
/// handed to [`RegisterHost::registered`].
pub struct RegisterHost {
    pub system: usize,
    pub host_id: GUID,
    pub memory_bytes: u64,
}

/// What is wrong with the arguments of [`hvfs_host_open`], if anything.
pub open spec fn host_open_fault(
    out_is_null: bool,
    id: Option<Seq<u8>>,
    host_json: Option<Seq<u8>>,
) -> Option<Seq<char>> {
    if out_is_null {
        Some("null out parameter"@)
    } else {
        match arg_fault(id, "hcs_system_id"@) {
            Some(m) => Some(m),
            None => arg_fault(host_json, "host_json"@),
        }
    }
}

/// Guest RAM in bytes, as far as it can be counted.
pub open spec fn mebibytes(mb: u64) -> u64 {
    if mb * 0x10_0000 > u64::MAX {
        u64::MAX
    } else {
        (mb * 0x10_0000) as u64
    }
}

/// Opens a device host for the compute system with this id. The arguments are
/// `None` for null pointers.
pub fn hvfs_host_open(out_is_null: bool, id: Option<&[u8]>, host_json: Option<&[u8]>) -> (r: Result<
    HostOpen,
    Refusal,
>)
    ensures
        r matches Err(e) ==> e.is_error() && e.out == out_after(out_is_null),
        match host_open_fault(out_is_null, arg_bytes(id), arg_bytes(host_json)) {
            Some(m) => r matches Err(e) && e.is(HVFS_ERR_INVALID_ARG, m, false, Release::Nothing),
            None => r matches Ok(h) && h.id@ == arg_text(arg_bytes(id)) && h.host_json@ == arg_text(
                arg_bytes(host_json),
            ),
        },
{
    if out_is_null {
        return Err(refuse_null_out());
    }
    let id = match cstr(id, "hcs_system_id") {
        Ok(s) => s,
        Err(e) => return Err(e),
    };
    let host_json = match cstr(host_json, "host_json") {
        Ok(s) => s,
        Err(e) => return Err(e),
    };
    Ok(HostOpen { id, host_json })
}

impl HostOpen {
    /// The configuration, or the text of the error in it.
    pub fn parsed(self, outcome: Result<HostConfig, String>) -> (r: Result<OpenSystem, Refusal>)
        ensures
            r matches Err(e) ==> e.is_error() && e.out == OutParam::Null,
            match outcome {
                Ok(cfg) => r matches Ok(o) && o.id@ == crate::utf16::encoded(self.id@).push(0)
                    && o.access == GENERIC_ALL && o.memory_mb == cfg.memory_mb,
                Err(e) => r matches Err(f) && f.is(
                    HVFS_ERR_INVALID_ARG,
                    "host_json parse error: "@ + e@,
                    false,
                    Release::Nothing,
                ),
            },
    {
        match outcome {
            Ok(cfg) => Ok(
                OpenSystem {
                    id: wide(self.id.as_str()),
                    access: GENERIC_ALL,
                    memory_mb: cfg.memory_mb,
                },
            ),
            Err(e) => Err(
                refuse(
                    HVFS_ERR_INVALID_ARG,
                    "host_json parse error: ".to_owned().concat(e.as_str()),
                ),
            ),
        }
    }
}

impl OpenSystem {
    /// The result code of opening the system, and its handle.
    pub fn opened(self, hr: HRESULT, system: usize) -> (r: Result<RegisterHost, Refusal>)
        ensures
            r matches Err(e) ==> e.is_error() && e.out == OutParam::Null,
            hr < 0 ==> (r matches Err(e) && e.is(
                HVFS_ERR_HDV,
                "HcsOpenComputeSystem failed: HRESULT "@ + crate::hresult::hresult_text(hr),
                true,
                Release::Nothing,
            )),
            hr >= 0 ==> r == Ok::<RegisterHost, Refusal>(
                RegisterHost {
                    system,
                    host_id: HVFS_DEVICE_HOST_ID(),
                    memory_bytes: mebibytes(self.memory_mb),
                },
            ),
    {
        if hr < 0 {
            return Err(
                fail(
                    HVFS_ERR_HDV,
                    with_hresult("HcsOpenComputeSystem failed: HRESULT ", hr),
                    Release::Nothing,
                ),
            );
        }
        let memory_bytes: u64 = match self.memory_mb.checked_mul(0x10_0000) {
            Some(n) => n,
            None => u64::MAX,
        };
        Ok(RegisterHost { system, host_id: HVFS_DEVICE_HOST_ID(), memory_bytes })
    }
}

impl RegisterHost {
    /// The device host, or the text of the error of registering it. In that case
    /// the system is to be closed again.
    pub fn registered(self, outcome: Result<DeviceHost, String>) -> (r: Result<hvfs_host, Refusal>)
        ensures
            r matches Err(e) ==> e.is_error() && e.out == OutParam::Null,
            match outcome {
                Ok(host) => r matches Ok(h) && h.shares@ == Seq::<usize>::empty() && *h.host == host
                    && h.system == self.system && h.memory_bytes == self.memory_bytes,
                Err(e) => r matches Err(f) && f.is(
                    HVFS_ERR_HDV,
                    "HdvInitializeDeviceHostForProxy failed: "@ + e@,
                    true,
                    Release::System,
                ),
            },
    {
        match outcome {
            Ok(host) => Ok(
                hvfs_host {
                    shares: Vec::new(),
                    host: Arc::new(host),
                    system: self.system,
                    memory_bytes: self.memory_bytes,
                },
            ),
            Err(e) => Err(
                fail(
                    HVFS_ERR_HDV,
                    "HdvInitializeDeviceHostForProxy failed: ".to_owned().concat(e.as_str()),
                    Release::System,
                ),
            ),
        }
    }
}

// ---------------------------------------------------------------------------
// The slot of a device
// ---------------------------------------------------------------------------

/// The request that adds or removes the slot of a device.
pub open spec fn slot_document(
    request_type: Seq<char>,
    instance_id: Seq<char>,
    emulator_id: Seq<char>,
) -> crate::json::Json {
    crate::json::Json::Object(
        map![
            "ResourcePath"@ => crate::json::Json::Text(
                "VirtualMachine/Devices/FlexibleIov/"@ + instance_id,
            ),
            "RequestType"@ => crate::json::Json::Text(request_type),
            "Settings"@ => crate::json::Json::Object(slot_settings(
                emulator_id,
                "ExternalRestricted"@,
            )),
        ],
    )
}

/// The settings of a slot.
pub open spec fn slot_settings(emulator_id: Seq<char>, hosting_model: Seq<char>) -> Map<
    Seq<char>,
    crate::json::Json,
> {
    map![
        "EmulatorId"@ => crate::json::Json::Text(emulator_id),
        "HostingModel"@ => crate::json::Json::Text(hosting_model),
    ]
}

/// The settings of a slot, as a value.
pub(crate) fn slot_settings_value(emulator_id: &str, hosting_model: &str) -> (v: serde_json::Value)
    ensures
        crate::json::json_of(v) == crate::json::Json::Object(
            slot_settings(emulator_id@, hosting_model@),
        ),
{
    let mut m = new_object();
    set_field(&mut m, "EmulatorId", text_value(emulator_id));
    set_field(&mut m, "HostingModel", text_value(hosting_model));
    assert(crate::json::fields_of(m) =~= slot_settings(emulator_id@, hosting_model@));
    object_value(m)
}

/// The request that adds or removes the slot of a device, as a value.
pub fn slot_value(request_type: &str, instance_id: &str, emulator_id: &str) -> (v: serde_json::Value)
    ensures
        crate::json::json_of(v) == slot_document(request_type@, instance_id@, emulator_id@),
{
    let mut m = new_object();
    let path = "VirtualMachine/Devices/FlexibleIov/".to_owned().concat(instance_id);
    set_field(&mut m, "ResourcePath", text_value(path.as_str()));
    set_field(&mut m, "RequestType", text_value(request_type));
    set_field(&mut m, "Settings", slot_settings_value(emulator_id, "ExternalRestricted"));
    assert(crate::json::Json::Object(crate::json::fields_of(m)) =~= slot_document(
        request_type@,
        instance_id@,
        emulator_id@,
    ));
    object_value(m)
}

/// The request that adds (`Add`) or removes (`Remove`) the slot of the device
/// `instance_id`, as text. Both carry the same settings.
pub fn slot_request(request_type: &str, instance_id: &str, emulator_id: &str) -> (s: String)
    ensures
        s@ == crate::json::json_text(slot_document(request_type@, instance_id@, emulator_id@)),
{
    value_text(&slot_value(request_type, instance_id, emulator_id))
}

/// How long the result of a modify request is waited for, in milliseconds.
pub const MODIFY_TIMEOUT_MS: u32 = 30_000;

/// The outcome of a modify request: 0 stands for an operation that could not even
/// be made; otherwise the code of the call counts before the one of its result.
pub fn hcs_modify(op_made: bool, hr: HRESULT, whr: HRESULT) -> (r: Result<(), HRESULT>)
    ensures
        r == modify_outcome(op_made, hr, whr),
{
    if !op_made {
        Err(0)
    } else if hr < 0 {
        Err(hr)
    } else if whr < 0 {
        Err(whr)
    } else {
        Ok(())
    }
}

/// The outcome of a modify request.
pub open spec fn modify_outcome(op_made: bool, hr: HRESULT, whr: HRESULT) -> Result<(), HRESULT> {
    if !op_made {
        Err(0)
    } else if hr < 0 {
        Err(hr)
    } else if whr < 0 {
        Err(whr)
    } else {
        Ok(())
    }
}

// ---------------------------------------------------------------------------
// Adding a share
// ---------------------------------------------------------------------------

/// The configuration of a share.
pub struct ShareConfig {
    /// The mount tag that the guest uses.
    pub tag: String,
    /// The host directory.
    pub path: String,
    /// The device instance, which is the caller's to keep unique.
    pub instance_id: String,
    /// Whether the share is to be read-only, which is not done yet.
    pub ro: bool,
}

/// A share: a virtio-fs device that is one shared directory.
pub struct hvfs_share {
    /// The device instance, in canonical form.
    pub instance_id: String,
    /// The device class, in canonical form.
    pub emulator_id: String,
}

/// A share is to be added: the configuration is to be parsed, and the outcome
/// handed to [`AddShare::parsed`].
pub struct AddShare {
    pub share_json: String,
}

/// A device is to be attached to the host, and the outcome handed to
/// [`AttachShare::attached`].
pub struct AttachShare {
    pub tag: String,
    pub path: String,
    pub class_id: GUID,
    pub instance: GUID,
    pub share: hvfs_share,
}

/// The slot of the device is to be added to the compute system, and the outcome
/// handed to [`AddSlot::modified`].
pub struct AddSlot {
    pub request: String,
    pub share: hvfs_share,
}

/// The message for a read-only share.
pub open spec fn read_only_text() -> Seq<char> {
    "ro:true not supported — the FUSE backend does not yet enforce read-only"@
}

/// What is wrong with the arguments of [`hvfs_add_share`], if anything.
pub open spec fn add_share_fault(
    out_is_null: bool,
    host_is_null: bool,
    share_json: Option<Seq<u8>>,
) -> Option<Seq<char>> {
    if out_is_null {
        Some("null out parameter"@)
    } else if host_is_null {
        Some("null host handle"@)
    } else {
        arg_fault(share_json, "share_json"@)
    }
}

/// Adds a share to a device host.
pub fn hvfs_add_share(out_is_null: bool, host_is_null: bool, share_json: Option<&[u8]>) -> (r:
    Result<AddShare, Refusal>)
    ensures
        r matches Err(e) ==> e.is_error() && e.out == out_after(out_is_null),
        match add_share_fault(out_is_null, host_is_null, arg_bytes(share_json)) {
            Some(m) => r matches Err(e) && e.is(HVFS_ERR_INVALID_ARG, m, false, Release::Nothing),
            None => r matches Ok(a) && a.share_json@ == arg_text(arg_bytes(share_json)),
        },
{
    if out_is_null {
        return Err(refuse_null_out());
    }
    if host_is_null {
        return Err(refuse(HVFS_ERR_INVALID_ARG, "null host handle".to_owned()));
    }
    match cstr(share_json, "share_json") {
        Ok(s) => Ok(AddShare { share_json: s }),
        Err(e) => Err(e),
    }
}

/// `share` is the share of the device instance `g`: it is named in canonical form,
/// and of the class of virtio-fs.
pub open spec fn names(share: hvfs_share, g: GUID) -> bool {
    &&& share.instance_id@ == crate::guid::guid_text(g)
    &&& share.emulator_id@ == crate::guid::guid_text(VIRTIO_FS_DEVICE_CLASS_ID())
}

impl AddShare {
    /// The configuration, or the text of the error in it. A read-only share is
    /// refused, and so is an instance that is no GUID.
    pub fn parsed(self, outcome: Result<ShareConfig, String>) -> (r: Result<AttachShare, Refusal>)
        ensures
            r matches Err(e) ==> e.is_error() && e.out == OutParam::Null,
            match outcome {
                Err(e) => r matches Err(f) && f.is(
                    HVFS_ERR_INVALID_ARG,
                    "share_json parse error: "@ + e@,
                    false,
                    Release::Nothing,
                ),
                Ok(cfg) => if cfg.ro {
                    r matches Err(f) && f.is(
                        HVFS_ERR_NOT_IMPLEMENTED,
                        read_only_text(),
                        false,
                        Release::Nothing,
                    )
                } else {
                    match crate::guid::parsed_guid(cfg.instance_id@) {
                        None => r matches Err(f) && f.is(
                            HVFS_ERR_INVALID_ARG,
                            "instance_id is not a valid GUID: "@ + cfg.instance_id@,
                            false,
                            Release::Nothing,
                        ),
                        Some(g) => r matches Ok(a) && a.tag == cfg.tag && a.path == cfg.path
                            && a.class_id == VIRTIO_FS_DEVICE_CLASS_ID() && a.instance == g && names(
                            a.share,
                            g,
                        ),
                    }
                },
            },
    {
        let cfg = match outcome {
            Ok(cfg) => cfg,
            Err(e) => return Err(
                refuse(
                    HVFS_ERR_INVALID_ARG,
                    "share_json parse error: ".to_owned().concat(e.as_str()),
                ),
            ),
        };
        if cfg.ro {
            return Err(
                refuse(
                    HVFS_ERR_NOT_IMPLEMENTED,
                    "ro:true not supported — the FUSE backend does not yet enforce read-only".to_owned(),
                ),
            );
        }
        match guid_from_string(cfg.instance_id.as_str()) {
            None => Err(
                refuse(
                    HVFS_ERR_INVALID_ARG,
                    "instance_id is not a valid GUID: ".to_owned().concat(
                        cfg.instance_id.as_str(),
                    ),
                ),
            ),
            Some(g) => Ok(
                AttachShare {
                    tag: cfg.tag,
                    path: cfg.path,
                    class_id: VIRTIO_FS_DEVICE_CLASS_ID(),
                    instance: g,
                    share: hvfs_share {
                        instance_id: guid_to_string(&g),
                        emulator_id: guid_to_string(&VIRTIO_FS_DEVICE_CLASS_ID()),
                    },
                },
            ),
        }
    }
}

impl AttachShare {
    /// Whether the device was attached, or the text of the error.
    pub fn attached(self, outcome: Result<(), String>) -> (r: Result<AddSlot, Refusal>)
        ensures
            r matches Err(e) ==> e.is_error() && e.out == OutParam::Null,
            match outcome {
                Ok(()) => r matches Ok(a) && a.share == self.share && a.request@
                    == crate::json::json_text(
                    slot_document(
                        "Add"@,
                        self.share.instance_id@,
                        self.share.emulator_id@,
                    ),
                ),
                Err(e) => r matches Err(f) && f.is(
                    HVFS_ERR_HDV,
                    "attach virtio-fs over HDV: "@ + e@,
                    true,
                    Release::Nothing,
                ),
            },
    {
        match outcome {
            Ok(()) => Ok(
                AddSlot {
                    request: slot_request(
                        "Add",
                        self.share.instance_id.as_str(),
                        self.share.emulator_id.as_str(),
                    ),
                    share: self.share,
                },
            ),
            Err(e) => Err(
                fail(
                    HVFS_ERR_HDV,
                    "attach virtio-fs over HDV: ".to_owned().concat(e.as_str()),
                    Release::Nothing,
                ),
            ),
        }
    }
}

impl AddSlot {
    /// The outcome of adding the slot. Without a slot the device is to be dropped.
    pub fn modified(self, outcome: Result<(), HRESULT>) -> (r: Result<hvfs_share, Refusal>)
        ensures
            r matches Err(e) ==> e.is_error() && e.out == OutParam::Null,
            match outcome {
                Ok(()) => r == Ok::<hvfs_share, Refusal>(self.share),
                Err(hr) => r matches Err(f) && f.is(
                    HVFS_ERR_HDV,
                    "HcsModifyComputeSystem Add FlexibleIov: HRESULT "@
                        + crate::hresult::hresult_text(hr),
                    true,
                    Release::Device,
                ),
            },
    {
        match outcome {
            Ok(()) => Ok(self.share),
            Err(hr) => Err(
                fail(
                    HVFS_ERR_HDV,
                    with_hresult("HcsModifyComputeSystem Add FlexibleIov: HRESULT ", hr),
                    Release::Device,
                ),
            ),
        }
    }
}

/// The device instance of a share, in canonical form; `None` for a null handle.
pub fn hvfs_share_instance_id(share: Option<&hvfs_share>) -> (r: Option<&str>)
    ensures
        match share {
            Some(s) => r matches Some(t) && t@ == s.instance_id@,
            None => r is None,
        },
{
    match share {
        Some(s) => Some(s.instance_id.as_str()),
        None => None,
    }
}

// ---------------------------------------------------------------------------
// Removing a share, closing a host
// ---------------------------------------------------------------------------

/// The slot of a share is to be removed from the compute system, and the outcome
/// handed to [`RemoveSlot::modified`].
pub struct RemoveSlot {
    pub request: String,
}

/// What a remove answers.
pub struct Removal {
    pub code: i32,
    /// The message for the calling thread, where there is one.
    pub last_error: Option<String>,
    /// The message for the log, where there is one: a warning for
    /// [`HVFS_ERR_UNSUPPORTED`], an error for anything else.
    pub log: Option<String>,
    /// Whether the handle is freed now, and the share forgotten by its host.
    pub free: bool,
}

impl Removal {
    /// The answer with this code and this message, for the calling thread and for
    /// the log.
    pub open spec fn tells(&self, code: i32, message: Seq<char>) -> bool {
        &&& self.code == code
        &&& self.last_error matches Some(s) && s@ == c_text(message)
        &&& self.log matches Some(s) && s@ == message
    }
}

/// The message where the platform does not remove a slot of a running guest.
pub open spec fn unsupported_text() -> Seq<char> {
    "FlexibleIov live Remove unsupported on this Windows; device reclaimed when the compute system is torn down"@
}

/// What to do for a remove.
pub enum RemoveStep {
    /// Answer with this code: there is nothing to do.
    Answer(i32),
    /// Remove the slot.
    Modify(RemoveSlot),
}

/// Removes a share. A null handle (`None`) is a success, with nothing to do.
pub fn hvfs_remove_share(share: Option<&hvfs_share>) -> (r: RemoveStep)
    ensures
        match share {
            None => r == RemoveStep::Answer(HVFS_OK),
            Some(s) => r matches RemoveStep::Modify(q) && q.request@ == crate::json::json_text(
                slot_document("Remove"@, s.instance_id@, s.emulator_id@),
            ),
        },
{
    match share {
        None => RemoveStep::Answer(HVFS_OK),
        Some(s) => RemoveStep::Modify(
            RemoveSlot {
                request: slot_request("Remove", s.instance_id.as_str(), s.emulator_id.as_str()),
            },
        ),
    }
}

impl RemoveSlot {
    /// The outcome of removing the slot. Where the platform does not support it,
    /// the share is given up all the same; on any other error the handle stays
    /// valid.
    pub fn modified(self, outcome: Result<(), HRESULT>) -> (r: Removal)
        ensures
            match outcome {
                Ok(()) => r.code == HVFS_OK && r.last_error is None && r.log is None && r.free,
                Err(hr) => if hr == HRESULT_NOT_SUPPORTED {
                    r.tells(HVFS_ERR_UNSUPPORTED, unsupported_text()) && r.free
                } else {
                    r.tells(
                        HVFS_ERR_HDV,
                        "HcsModifyComputeSystem Remove FlexibleIov: HRESULT "@
                            + crate::hresult::hresult_text(hr),
                    ) && !r.free
                },
            },
            r.free <==> r.code == HVFS_OK || r.code == HVFS_ERR_UNSUPPORTED,
            r.code <= 0,
            r.code < 0 <==> r.last_error is Some,
    {
        match outcome {
            Ok(()) => Removal { code: HVFS_OK, last_error: None, log: None, free: true },
            Err(hr) => {
                let unsupported = hr == HRESULT_NOT_SUPPORTED;
                let f = if unsupported {
                    fail(
                        HVFS_ERR_UNSUPPORTED,
                        "FlexibleIov live Remove unsupported on this Windows; device reclaimed when the compute system is torn down".to_owned(),
                        Release::Nothing,
                    )
                } else {
                    fail(
                        HVFS_ERR_HDV,
                        with_hresult("HcsModifyComputeSystem Remove FlexibleIov: HRESULT ", hr),
                        Release::Nothing,
                    )
                };
                Removal {
                    code: f.code,
                    last_error: Some(f.last_error),
                    log: f.log,
                    free: unsupported,
                }
            },
        }
    }
}

/// `shares` without the handle `h`.
pub open spec fn without(shares: Seq<usize>, h: usize) -> Seq<usize>
    decreases shares.len(),
{
    if shares.len() == 0 {
        Seq::empty()
    } else if shares.last() == h {
        without(shares.drop_last(), h)
    } else {
        without(shares.drop_last(), h).push(shares.last())
    }
}

impl hvfs_host {
    /// `self` is `before`, but for its shares.
    pub open spec fn same_host(&self, before: hvfs_host) -> bool {
        &&& self.host == before.host
        &&& self.system == before.system
        &&& self.memory_bytes == before.memory_bytes
    }

    /// Takes a share on, so that closing the host reclaims it.
    pub fn share_added(&mut self, handle: usize)
        ensures
            final(self).shares@ == old(self).shares@.push(handle),
            final(self).same_host(*old(self)),
    {
        self.shares.push(handle);
    }

    /// Forgets a share that was freed.
    pub fn share_removed(&mut self, handle: usize)
        ensures
            final(self).shares@ == without(old(self).shares@, handle),
            final(self).same_host(*old(self)),
    {
        let mut kept: Vec<usize> = Vec::new();
        let mut i: usize = 0;
        assert(self.shares@.take(0) =~= Seq::<usize>::empty());
        while i < self.shares.len()
            invariant
                i <= self.shares@.len(),
                *self == *old(self),
                kept@ == without(self.shares@.take(i as int), handle),
            decreases self.shares@.len() - i,
        {
            let h: usize = self.shares[i];
            if h != handle {
                kept.push(h);
            }
            assert(self.shares@.take(i + 1).drop_last() =~= self.shares@.take(i as int));
            i = i + 1;
        }
        assert(self.shares@.take(i as int) =~= self.shares@);
        self.shares = kept;
    }
}

/// A step of closing a host.
pub enum CloseStep {
    /// Free the share with this handle, and its device with it. Its slot is not
    /// removed: the compute system reclaims it when it stops.
    FreeShare(usize),
    /// Tear the device host down.
    TearDownHost(Arc<DeviceHost>),
    /// Release the object that the host was registered through.
    ReleaseSupport,
    /// Close the handle of the compute system.
    CloseSystem(usize),
}

/// What closing a host answers, and does, in this order.
pub struct Close {
    pub code: i32,
    pub steps: Vec<CloseStep>,
}

/// The steps that free these shares, in their order; a null handle is none.
pub open spec fn freed(shares: Seq<usize>) -> Seq<CloseStep> {
    without(shares, 0).map_values(|h: usize| CloseStep::FreeShare(h))
}

/// The steps of closing a host: the shares that are left go first, then the device
/// host, then the object that it was registered through, then the compute system.
pub open spec fn close_steps(host: hvfs_host) -> Seq<CloseStep> {
    freed(host.shares@) + seq![
        CloseStep::TearDownHost(host.host),
        CloseStep::ReleaseSupport,
        CloseStep::CloseSystem(host.system),
    ]
}

/// Closes a host, which succeeds. A null handle (`None`) is a success, with nothing
/// to do.
pub fn hvfs_host_close(host: Option<hvfs_host>) -> (r: Close)
    ensures
        r.code == HVFS_OK,
        r.steps@ == match host {
            Some(h) => close_steps(h),
            None => Seq::<CloseStep>::empty(),
        },
{
    let mut steps: Vec<CloseStep> = Vec::new();
    match host {
        Some(h) => {
            let mut left = h;
            left.share_removed(0);
            let mut i: usize = 0;
            while i < left.shares.len()
                invariant
                    i <= left.shares@.len(),
                    steps@ == left.shares@.take(i as int).map_values(
                        |h: usize| CloseStep::FreeShare(h),
                    ),
                decreases left.shares@.len() - i,
            {
                steps.push(CloseStep::FreeShare(left.shares[i]));
                i = i + 1;
                assert(steps@ =~= left.shares@.take(i as int).map_values(
                    |h: usize| CloseStep::FreeShare(h),
                ));
            }
            assert(left.shares@.take(i as int) =~= left.shares@);
            steps.push(CloseStep::TearDownHost(left.host));
            steps.push(CloseStep::ReleaseSupport);
            steps.push(CloseStep::CloseSystem(left.system));
            assert(steps@ =~= close_steps(h));
        },
        None => {},
    }
    Close { code: HVFS_OK, steps }
}

// ---------------------------------------------------------------------------
// Whole calls
// ---------------------------------------------------------------------------

/// `r` is the refusal with this code, message, entry in the log and release.
pub open spec fn refuses<T>(
    r: Result<T, Refusal>,
    code: i32,
    message: Seq<char>,
    logged: bool,
    release: Release,
) -> bool {
    r matches Err(e) && e.is(code, message, logged, release)
}

/// How opening a device host ends, when its arguments have this fault, parsing the
/// configuration gives `parsed`, opening the system gives `hr` and `system`, and
/// registering the host gives `registered`. The first thing that is wrong decides.
pub open spec fn host_open_ends(
    fault: Option<Seq<char>>,
    parsed: Result<HostConfig, String>,
    hr: HRESULT,
    system: usize,
    registered: Result<DeviceHost, String>,
    r: Result<hvfs_host, Refusal>,
) -> bool {
    match fault {
        Some(m) => refuses(r, HVFS_ERR_INVALID_ARG, m, false, Release::Nothing),
        None => match parsed {
            Err(e) => refuses(
                r,
                HVFS_ERR_INVALID_ARG,
                "host_json parse error: "@ + e@,
                false,
                Release::Nothing,
            ),
            Ok(cfg) => if hr < 0 {
                refuses(
                    r,
                    HVFS_ERR_HDV,
                    "HcsOpenComputeSystem failed: HRESULT "@ + crate::hresult::hresult_text(hr),
                    true,
                    Release::Nothing,
                )
            } else {
                match registered {
                    Err(e) => refuses(
                        r,
                        HVFS_ERR_HDV,
                        "HdvInitializeDeviceHostForProxy failed: "@ + e@,
                        true,
                        Release::System,
                    ),
                    Ok(host) => r matches Ok(h) && {
                        &&& h.shares@ == Seq::<usize>::empty()
                        &&& *h.host == host
                        &&& h.system == system
                        &&& h.memory_bytes == mebibytes(cfg.memory_mb)
                    },
                }
            },
        },
    }
}

/// Opens a device host from start to end, with these outcomes of the calls, as far
/// as they are made.
pub fn host_open_with(
    out_is_null: bool,
    id: Option<&[u8]>,
    host_json: Option<&[u8]>,
    parsed: Result<HostConfig, String>,
    hr: HRESULT,
    system: usize,
    registered: Result<DeviceHost, String>,
) -> (r: Result<hvfs_host, Refusal>)
    ensures
        r matches Err(e) ==> e.is_error() && e.out == out_after(out_is_null),
        host_open_ends(
            host_open_fault(out_is_null, arg_bytes(id), arg_bytes(host_json)),
            parsed,
            hr,
            system,
            registered,
            r,
        ),
{
    let open = match hvfs_host_open(out_is_null, id, host_json) {
        Ok(o) => o,
        Err(e) => return Err(e),
    };
    let open = match open.parsed(parsed) {
        Ok(o) => o,
        Err(e) => return Err(e),
    };
    let register = match open.opened(hr, system) {
        Ok(o) => o,
        Err(e) => return Err(e),
    };
    register.registered(registered)
}

/// How adding a share ends, when its arguments have this fault, parsing the
/// configuration gives `parsed`, attaching the device gives `attached`, and adding
/// its slot gives `modified`. The first thing that is wrong decides.
pub open spec fn add_share_ends(
    fault: Option<Seq<char>>,
    parsed: Result<ShareConfig, String>,
    attached: Result<(), String>,
    modified: Result<(), HRESULT>,
    r: Result<hvfs_share, Refusal>,
) -> bool {
    match fault {
        Some(m) => refuses(r, HVFS_ERR_INVALID_ARG, m, false, Release::Nothing),
        None => match parsed {
            Err(e) => refuses(
                r,
                HVFS_ERR_INVALID_ARG,
                "share_json parse error: "@ + e@,
                false,
                Release::Nothing,
            ),
            Ok(cfg) => if cfg.ro {
                refuses(r, HVFS_ERR_NOT_IMPLEMENTED, read_only_text(), false, Release::Nothing)
            } else {
                match crate::guid::parsed_guid(cfg.instance_id@) {
                    None => refuses(
                        r,
                        HVFS_ERR_INVALID_ARG,
                        "instance_id is not a valid GUID: "@ + cfg.instance_id@,
                        false,
                        Release::Nothing,
                    ),
                    Some(g) => match attached {
                        Err(e) => refuses(
                            r,
                            HVFS_ERR_HDV,
                            "attach virtio-fs over HDV: "@ + e@,
                            true,
                            Release::Nothing,
                        ),
                        Ok(()) => match modified {
                            Err(hr) => refuses(
                                r,
                                HVFS_ERR_HDV,
                                "HcsModifyComputeSystem Add FlexibleIov: HRESULT "@
                                    + crate::hresult::hresult_text(hr),
                                true,
                                Release::Device,
                            ),
                            Ok(()) => r matches Ok(share) && names(share, g),
                        },
                    },
                }
            },
        },
    }
}

/// Adds a share from start to end, with these outcomes of the calls, as far as they
/// are made.
pub fn add_share_with(
    out_is_null: bool,
    host_is_null: bool,
    share_json: Option<&[u8]>,
    parsed: Result<ShareConfig, String>,
    attached: Result<(), String>,
    modified: Result<(), HRESULT>,
) -> (r: Result<hvfs_share, Refusal>)
    ensures
        r matches Err(e) ==> e.is_error() && e.out == out_after(out_is_null),
        add_share_ends(
            add_share_fault(out_is_null, host_is_null, arg_bytes(share_json)),
            parsed,
            attached,
            modified,
            r,
        ),
{
    let add = match hvfs_add_share(out_is_null, host_is_null, share_json) {
        Ok(a) => a,
        Err(e) => return Err(e),
    };
    let attach = match add.parsed(parsed) {
        Ok(a) => a,
        Err(e) => return Err(e),
    };
    let slot = match attach.attached(attached) {
        Ok(a) => a,
        Err(e) => return Err(e),
    };
    slot.modified(modified)
}

// ---------------------------------------------------------------------------
// Laws
// ---------------------------------------------------------------------------

/// The name of a share stands for the device that was attached for it, and is what
/// the caller gave, in canonical form: the device, the key of its slot and the
/// share agree.
pub proof fn law_share_device_and_slot_agree(given: Seq<char>, g: GUID, share: hvfs_share)
    requires
        crate::guid::parsed_guid(given) == Some(g),
        names(share, g),
    ensures
        crate::guid::parsed_guid(share.instance_id@) == Some(g),
        share.instance_id@ == crate::guid::lowered(crate::guid::guid_body(given)),
        crate::guid::parsed_guid(share.emulator_id@) == Some(VIRTIO_FS_DEVICE_CLASS_ID()),
{
    crate::guid::law_guid_round_trip(g);
    crate::guid::law_guid_round_trip(VIRTIO_FS_DEVICE_CLASS_ID());
    crate::guid::law_guid_is_written_canonically(given);
}

/// What happens to the shares of a host.
pub enum HostEvent {
    Added(usize),
    /// A remove that frees the handle.
    Removed(usize),
}

/// The shares of a host after these events.
pub open spec fn shares_after(events: Seq<HostEvent>) -> Seq<usize>
    decreases events.len(),
{
    if events.len() == 0 {
        Seq::empty()
    } else {
        let before = shares_after(events.drop_last());
        match events.last() {
            HostEvent::Added(h) => before.push(h),
            HostEvent::Removed(h) => without(before, h),
        }
    }
}

/// The handle `h` was given out and not taken back since.
pub open spec fn live(events: Seq<HostEvent>, h: usize) -> bool
    decreases events.len(),
{
    if events.len() == 0 {
        false
    } else if events.last() == HostEvent::Added(h) {
        true
    } else if events.last() == HostEvent::Removed(h) {
        false
    } else {
        live(events.drop_last(), h)
    }
}

/// A handle is given out only while it is not in use.
pub open spec fn fresh_handles(events: Seq<HostEvent>) -> bool
    decreases events.len(),
{
    events.len() > 0 ==> {
        &&& fresh_handles(events.drop_last())
        &&& events.last() matches HostEvent::Added(h) ==> !live(events.drop_last(), h)
    }
}

proof fn lemma_without(s: Seq<usize>, h: usize)
    requires
        s.no_duplicates(),
    ensures
        without(s, h).no_duplicates(),
        forall|x: usize| #[trigger] without(s, h).contains(x) <==> s.contains(x) && x != h,
    decreases s.len(),
{
    if s.len() > 0 {
        let t = s.drop_last();
        let w = without(t, h);
        let r = without(s, h);
        lemma_without(t, h);
        assert forall|x: usize| #[trigger] r.contains(x) <==> s.contains(x) && x != h by {
            if r.contains(x) {
                let k = choose|k: int| 0 <= k < r.len() && r[k] == x;
                if k < w.len() {
                    assert(w[k] == x);
                    assert(w.contains(x));
                    let j = choose|j: int| 0 <= j < t.len() && t[j] == x;
                    assert(s[j] == x);
                } else {
                    assert(s[s.len() - 1] == x);
                }
            }
            if s.contains(x) && x != h {
                let j = choose|j: int| 0 <= j < s.len() && s[j] == x;
                if j < t.len() {
                    assert(t[j] == x);
                    assert(t.contains(x));
                    assert(w.contains(x));
                    let k = choose|k: int| 0 <= k < w.len() && w[k] == x;
                    assert(r[k] == x);
                } else {
                    assert(r[r.len() - 1] == x);
                }
            }
        }
        if s.last() != h {
            assert(!w.contains(s.last())) by {
                if w.contains(s.last()) {
                    assert(t.contains(s.last()));
                    let j = choose|j: int| 0 <= j < t.len() && t[j] == s.last();
                    assert(s[j] == s[s.len() - 1]);
                }
            }
        }
    }
}

/// The shares of a host are the ones that were added and not freed since, each
/// once.
proof fn lemma_shares_are_the_live_ones(events: Seq<HostEvent>)
    requires
        fresh_handles(events),
    ensures
        shares_after(events).no_duplicates(),
        forall|h: usize| #[trigger] shares_after(events).contains(h) <==> live(events, h),
    decreases events.len(),
{
    if events.len() > 0 {
        let t = events.drop_last();
        lemma_shares_are_the_live_ones(t);
        let before = shares_after(t);
        let after = shares_after(events);
        match events.last() {
            HostEvent::Added(h) => {
                assert(!before.contains(h));
                assert forall|x: usize| #[trigger] after.contains(x) <==> live(events, x) by {
                    assert(before.contains(x) <==> live(t, x));
                    if before.contains(x) {
                        let k = choose|k: int| 0 <= k < before.len() && before[k] == x;
                        assert(after[k] == x);
                    }
                    if after.contains(x) {
                        let k = choose|k: int| 0 <= k < after.len() && after[k] == x;
                        if k < before.len() {
                            assert(before[k] == x);
                        }
                    }
                    if x == h {
                        assert(after[after.len() - 1] == x);
                    }
                }
            },
            HostEvent::Removed(h) => {
                lemma_without(before, h);
                assert forall|x: usize| #[trigger] after.contains(x) <==> live(events, x) by {
                    assert(before.contains(x) <==> live(t, x));
                }
            },
        }
    }
}

/// Closing a host frees each share that was added and not freed since exactly once,
/// and nothing else, before it tears the host down, and closes the compute system
/// last.
pub proof fn law_close_frees_exactly_the_live_shares(events: Seq<HostEvent>, host: hvfs_host)
    requires
        fresh_handles(events),
        host.shares@ == shares_after(events),
    ensures
        ({
            let steps = close_steps(host);
            let n = steps.len() - 3;
            &&& forall|i: int| 0 <= i < n ==> (#[trigger] steps[i]) is FreeShare
            &&& forall|i: int, j: int| 0 <= i < j < n ==> steps[i] != steps[j]
            &&& forall|h: usize|
                h != 0 ==> (#[trigger] steps.contains(CloseStep::FreeShare(h)) <==> live(events, h))
            &&& steps[n] == CloseStep::TearDownHost(host.host)
            &&& steps[n + 1] is ReleaseSupport
            &&& steps[n + 2] == CloseStep::CloseSystem(host.system)
        }),
{
    let shares = shares_after(events);
    lemma_shares_are_the_live_ones(events);
    lemma_without(shares, 0);
    let left = without(shares, 0);
    let steps = close_steps(host);
    let n = steps.len() - 3;
    assert forall|i: int, j: int| 0 <= i < j < n implies steps[i] != steps[j] by {
        assert(left[i] != left[j]);
    }
    assert forall|h: usize| h != 0 implies (#[trigger] steps.contains(CloseStep::FreeShare(h))
        <==> live(events, h)) by {
        assert(left.contains(h) <==> shares.contains(h));
        assert(shares.contains(h) <==> live(events, h));
        if left.contains(h) {
            let k = choose|k: int| 0 <= k < left.len() && left[k] == h;
            assert(steps[k] == CloseStep::FreeShare(h));
        }
        if steps.contains(CloseStep::FreeShare(h)) {
            let k = choose|k: int| 0 <= k < steps.len() && steps[k] == CloseStep::FreeShare(h);
            assert(k < n);
            assert(left[k] == h);
        }
    }
}

// ---------------------------------------------------------------------------
// What each call is for
// ---------------------------------------------------------------------------

/// The codes of the ABI are these numbers, and its version is 2.
pub proof fn law_codes_of_the_abi(v: u32)
    requires
        call_ensures(hvfs_abi_version, (), v),
    ensures
        v == 2,
        HVFS_OK == 0,
        HVFS_ERR_INVALID_ARG == -1,
        HVFS_ERR_NOT_IMPLEMENTED == -2,
        HVFS_ERR_PANIC == -3,
        HVFS_ERR_HDV == -4,
        HVFS_ERR_UNSUPPORTED == -5,
        MODIFY_TIMEOUT_MS == 30_000,
{
}

/// Guest RAM is counted in bytes, 1048576 for each MiB, as far as 64 bits go. The
/// host is registered with the system that was opened.
pub proof fn law_memory_is_counted_in_bytes(
    open: OpenSystem,
    hr: HRESULT,
    system: usize,
    r: Result<RegisterHost, Refusal>,
)
    requires
        call_ensures(OpenSystem::opened, (open, hr, system), r),
    ensures
        hr >= 0 ==> {
            &&& r matches Ok(h)
            &&& h.system == system
            &&& open.memory_mb * 1_048_576 <= u64::MAX ==> h.memory_bytes == open.memory_mb
                * 1_048_576
            &&& open.memory_mb * 1_048_576 > u64::MAX ==> h.memory_bytes == u64::MAX
        },
        hr < 0 ==> (r matches Err(e) && e.code == -4 && e.release == Release::Nothing),
{
}

/// A host that is opened has the memory that its configuration names, in bytes, the
/// system that was opened, the device host that was registered, and no share yet. It
/// is opened exactly if the arguments are there and text, the configuration is
/// parsed, and both calls of the platform succeed.
pub proof fn law_host_opens_exactly_if_every_step_succeeds(
    out_is_null: bool,
    id: Option<&[u8]>,
    host_json: Option<&[u8]>,
    parsed: Result<HostConfig, String>,
    hr: HRESULT,
    system: usize,
    registered: Result<DeviceHost, String>,
    r: Result<hvfs_host, Refusal>,
)
    requires
        call_ensures(
            host_open_with,
            (out_is_null, id, host_json, parsed, hr, system, registered),
            r,
        ),
    ensures
        ({
            let texts = {
                &&& id matches Some(a) && vstd::utf8::valid_utf8(a@)
                &&& host_json matches Some(b) && vstd::utf8::valid_utf8(b@)
            };
            &&& r is Ok <==> !out_is_null && texts && parsed is Ok && hr >= 0 && registered is Ok
            &&& r matches Ok(h) ==> {
                &&& h.shares@.len() == 0
                &&& h.system == system
                &&& registered == Ok::<DeviceHost, String>(*h.host)
                &&& parsed->Ok_0.memory_mb * 1_048_576 <= u64::MAX ==> h.memory_bytes
                    == parsed->Ok_0.memory_mb * 1_048_576
                &&& parsed->Ok_0.memory_mb * 1_048_576 > u64::MAX ==> h.memory_bytes == u64::MAX
            }
            &&& r matches Err(e) ==> {
                &&& e.code == if out_is_null || !texts || parsed is Err {
                    -1i32
                } else {
                    -4i32
                }
                &&& e.release is System <==> !out_is_null && texts && parsed is Ok && hr >= 0
                &&& e.out is Untouched <==> out_is_null
                &&& e.log is Some <==> e.code == -4
            }
        }),
{
}

/// The compute system is opened by its id as UTF-16 that ends in a null, with full
/// access, which is the number 0x1000_0000.
pub proof fn law_system_is_opened_by_its_id(
    open: HostOpen,
    cfg: HostConfig,
    r: Result<OpenSystem, Refusal>,
)
    requires
        call_ensures(HostOpen::parsed, (open, Ok(cfg)), r),
    ensures
        r matches Ok(o) && {
            &&& o.memory_mb == cfg.memory_mb
            &&& o.access == 0x1000_0000
            &&& o.id@.len() > 0 && o.id@.last() == 0
            &&& crate::utf16::decoded(o.id@.drop_last()) == open.id@
        },
{
    let o = r->Ok_0;
    assert(o.id@.drop_last() =~= crate::utf16::encoded(open.id@));
    crate::utf16::law_utf16_round_trip(open.id@);
}

/// A share is added exactly if the arguments are there and text, the configuration is
/// parsed, is not read-only and names a GUID, the device is attached and its slot
/// added. The device goes again where only the slot was refused.
pub proof fn law_share_is_added_exactly_if_every_step_succeeds(
    out_is_null: bool,
    host_is_null: bool,
    share_json: Option<&[u8]>,
    parsed: Result<ShareConfig, String>,
    attached: Result<(), String>,
    modified: Result<(), HRESULT>,
    r: Result<hvfs_share, Refusal>,
)
    requires
        call_ensures(
            add_share_with,
            (out_is_null, host_is_null, share_json, parsed, attached, modified),
            r,
        ),
    ensures
        ({
            let args = {
                &&& !out_is_null
                &&& !host_is_null
                &&& share_json matches Some(b) && vstd::utf8::valid_utf8(b@)
            };
            let named = parsed matches Ok(cfg) && crate::guid::parsed_guid(cfg.instance_id@) is Some;
            let writes = parsed matches Ok(cfg) && !cfg.ro;
            &&& r is Ok <==> args && named && writes && attached is Ok && modified is Ok
            &&& r matches Ok(s) ==> crate::guid::parsed_guid(s.instance_id@)
                == crate::guid::parsed_guid(parsed->Ok_0.instance_id@)
            &&& r matches Err(e) ==> {
                &&& e.code == if !args || parsed is Err {
                    -1i32
                } else if !writes {
                    -2i32
                } else if !named {
                    -1i32
                } else {
                    -4i32
                }
                &&& e.release is Device <==> args && named && writes && attached is Ok
                &&& !(e.release is System)
                &&& e.out is Untouched <==> out_is_null
                &&& e.log is Some <==> e.code == -4
            }
        }),
{
    if r is Ok {
        crate::guid::law_guid_round_trip(
            crate::guid::parsed_guid(parsed->Ok_0.instance_id@)->0,
        );
    }
}

/// The device that is attached for a share is of the class of virtio-fs, and the
/// instance, the directory and the tag are the ones that the configuration names.
pub proof fn law_share_attaches_what_its_configuration_names(
    add: AddShare,
    cfg: ShareConfig,
    r: Result<AttachShare, Refusal>,
)
    requires
        call_ensures(AddShare::parsed, (add, Ok(cfg)), r),
    ensures
        r matches Ok(a) ==> {
            &&& a.tag == cfg.tag
            &&& a.path == cfg.path
            &&& Some(a.instance) == crate::guid::parsed_guid(cfg.instance_id@)
            &&& a.class_id.Data1 == 0x872270e1
            &&& a.class_id.Data2 == 0xa899 && a.class_id.Data3 == 0x4af6
            &&& a.class_id.Data4@ == seq![0xb4u8, 0x54, 0x71, 0x93, 0x63, 0x44, 0x35, 0xad]
        },
{
    if r is Ok {
        assert(r->Ok_0.class_id.Data4@ =~= seq![0xb4u8, 0x54, 0x71, 0x93, 0x63, 0x44, 0x35, 0xad]);
    }
}

/// The text of a field of a document that is an object.
pub open spec fn text_field(j: crate::json::Json, name: Seq<char>) -> Option<Seq<char>> {
    match j {
        crate::json::Json::Object(m) => if m.contains_key(name) {
            match m[name] {
                crate::json::Json::Text(t) => Some(t),
                _ => None,
            }
        } else {
            None
        },
        _ => None,
    }
}

/// The request for the slot of a device names the device in its path, what is to be
/// done, and, in its settings, the class and the hosting model; and nothing else. What
/// removes a slot differs from what adds it only in what is to be done.
pub proof fn law_slot_request_names_device_and_class(
    request_type: &str,
    instance_id: &str,
    emulator_id: &str,
    v: serde_json::Value,
)
    requires
        call_ensures(slot_value, (request_type, instance_id, emulator_id), v),
    ensures
        ({
            let j = crate::json::json_of(v);
            &&& j matches crate::json::Json::Object(m) && {
                &&& m.dom() == set!["ResourcePath"@, "RequestType"@, "Settings"@]
                &&& text_field(j, "RequestType"@) == Some(request_type@)
                &&& text_field(j, "ResourcePath"@) == Some(
                    "VirtualMachine/Devices/FlexibleIov/"@ + instance_id@,
                )
                &&& m["Settings"@] matches crate::json::Json::Object(s) && s.dom() == set![
                    "EmulatorId"@,
                    "HostingModel"@,
                ]
                &&& text_field(m["Settings"@], "EmulatorId"@) == Some(emulator_id@)
                &&& text_field(m["Settings"@], "HostingModel"@) == Some("ExternalRestricted"@)
            }
        }),
{
    reveal_strlit("ResourcePath");
    reveal_strlit("RequestType");
    reveal_strlit("Settings");
    reveal_strlit("EmulatorId");
    reveal_strlit("HostingModel");
    assert("ResourcePath"@.len() != "RequestType"@.len());
    assert("ResourcePath"@.len() != "Settings"@.len());
    assert("RequestType"@.len() != "Settings"@.len());
    assert("EmulatorId"@.len() != "HostingModel"@.len());
    let j = crate::json::json_of(v);
    let m = j->Object_0;
    assert(m.dom() =~= set!["ResourcePath"@, "RequestType"@, "Settings"@]);
    assert(m["Settings"@]->Object_0.dom() =~= set!["EmulatorId"@, "HostingModel"@]);
}

/// A modify request succeeds exactly if the operation could be made and neither the
/// call nor its result failed; the code that is told is the first one that failed.
pub proof fn law_modify_tells_the_first_failure(
    op_made: bool,
    hr: HRESULT,
    whr: HRESULT,
    r: Result<(), HRESULT>,
)
    requires
        call_ensures(hcs_modify, (op_made, hr, whr), r),
    ensures
        r is Ok <==> op_made && hr >= 0 && whr >= 0,
        !op_made ==> r == Err::<(), HRESULT>(0),
        op_made && hr < 0 ==> r == Err::<(), HRESULT>(hr),
        op_made && hr >= 0 && whr < 0 ==> r == Err::<(), HRESULT>(whr),
{
}

/// Removing a share frees its handle exactly where the slot was removed or the
/// platform does not support it (0x8007_0032); every error is told and logged.
pub proof fn law_remove_frees_exactly_on_success_or_unsupported(
    q: RemoveSlot,
    outcome: Result<(), HRESULT>,
    r: Removal,
)
    requires
        call_ensures(RemoveSlot::modified, (q, outcome), r),
    ensures
        ({
            let unsupported = outcome matches Err(hr) && hr as int + 0x1_0000_0000 == 0x8007_0032;
            &&& r.free <==> outcome is Ok || unsupported
            &&& r.code == if outcome is Ok {
                0i32
            } else if unsupported {
                -5i32
            } else {
                -4i32
            }
            &&& r.last_error is Some <==> outcome is Err
            &&& r.log is Some <==> outcome is Err
        }),
{
}

/// A null share is removed, and a null host closed, with nothing to do; so is the
/// instance of a null share null.
pub proof fn law_null_handles_are_a_success(
    r: RemoveStep,
    c: Close,
    i: Option<&str>,
)
    requires
        call_ensures(hvfs_remove_share, (None::<&hvfs_share>,), r),
        call_ensures(hvfs_host_close, (None::<hvfs_host>,), c),
        call_ensures(hvfs_share_instance_id, (None::<&hvfs_share>,), i),
    ensures
        r == RemoveStep::Answer(0),
        c.code == 0 && c.steps@.len() == 0,
        i is None,
{
}

/// Shares are kept in the order in which they were added; one that was freed is
/// forgotten, and the others stay. Closing then frees what is left, and succeeds.
pub proof fn law_host_keeps_its_shares(
    h: &mut hvfs_host,
    k: &mut hvfs_host,
    added: usize,
    removed: usize,
    u: (),
    v: (),
    x: usize,
)
    requires
        call_ensures(hvfs_host::share_added, (h, added), u),
        *k == *final(h),
        call_ensures(hvfs_host::share_removed, (k, removed), v),
        h.shares@.no_duplicates(),
        !h.shares@.contains(added),
    ensures
        final(h).shares@ == old(h).shares@.push(added),
        final(k).shares@.contains(x) <==> (old(h).shares@.contains(x) || x == added) && x
            != removed,
        final(k).host == old(h).host && final(k).system == old(h).system,
        final(k).memory_bytes == old(h).memory_bytes,
{
    let s = h.shares@.push(added);
    assert(s.no_duplicates());
    lemma_without(s, removed);
    if h.shares@.contains(x) {
        let i = choose|i: int| 0 <= i < h.shares@.len() && h.shares@[i] == x;
        assert(s[i] == x);
    }
    assert(s[s.len() - 1] == added);
    assert(without(s, removed).contains(x) <==> s.contains(x) && x != removed);
    if s.contains(x) && x != added {
        let i = choose|i: int| 0 <= i < s.len() && s[i] == x;
        assert(h.shares@[i] == x);
    }
}

/// A panic is answered with a code and a message of its own; anything else passes.
pub proof fn law_panic_becomes_a_code(outcome: Option<i32>, g: Guarded)
    requires
        call_ensures(guard, (outcome,), g),
    ensures
        outcome matches Some(code) ==> g.code == code && g.last_error is None,
        outcome is None ==> g.code == -3 && (g.last_error matches Some(s) && s@
            == "panic caught at FFI boundary"@),
{
}

/// A message without a null reaches the caller as it is; one with a null becomes
/// `error`.
pub proof fn law_message_reaches_the_caller(message: &str, s: String)
    requires
        call_ensures(set_last_error, (message,), s),
    ensures
        (forall|i: int| 0 <= i < message@.len() ==> message@[i] != '\0') ==> s@ == message@,
        (exists|i: int| 0 <= i < message@.len() && message@[i] == '\0') ==> s@ == "error"@,
{
    if exists|i: int| 0 <= i < message@.len() && message@[i] == '\0' {
        assert(message@.contains('\0'));
    }
}

/// A string argument is taken as the text whose UTF-8 it is.
pub proof fn law_argument_is_its_text(bytes: &[u8], what: &str, r: Result<String, Refusal>)
    requires
        call_ensures(cstr, (Some(bytes), what), r),
    ensures
        r is Ok <==> vstd::utf8::valid_utf8(bytes@),
        r matches Ok(s) ==> vstd::utf8::encode_utf8(s@) == bytes@,
        r matches Err(e) ==> e.code == -1 && e.log is None,
{
    if vstd::utf8::valid_utf8(bytes@) {
        vstd::utf8::decode_utf8_encode_utf8(bytes@);
    }
}

/// A refusal tells the calling thread what it tells the log, where it logs at all:
/// `told` is what the thread is told of the message `m`.
pub open spec fn refused_with(
    e: Refusal,
    code: int,
    m: Seq<char>,
    told: Seq<char>,
    logged: bool,
    release: Release,
) -> bool {
    &&& e.code == code
    &&& e.last_error@ == told
    &&& logged ==> (e.log matches Some(l) && l@ == m)
    &&& !logged ==> e.log is None
    &&& e.release == release
}

/// A string argument that is null, or no UTF-8, is refused by its name.
pub proof fn law_bad_argument_is_named(
    arg: Option<&[u8]>,
    what: &str,
    r: Result<String, Refusal>,
    null: &str,
    null_told: String,
    bad: &str,
    bad_told: String,
)
    requires
        call_ensures(cstr, (arg, what), r),
        null@ == "null argument: "@ + what@,
        call_ensures(set_last_error, (null,), null_told),
        bad@ == "non-UTF-8 argument: "@ + what@,
        call_ensures(set_last_error, (bad,), bad_told),
    ensures
        arg is None ==> (r matches Err(e) && refused_with(
            e,
            -1,
            null@,
            null_told@,
            false,
            Release::Nothing,
        )),
        arg matches Some(b) && !vstd::utf8::valid_utf8(b@) ==> (r matches Err(e) && refused_with(
            e,
            -1,
            bad@,
            bad_told@,
            false,
            Release::Nothing,
        )),
        r matches Err(e) ==> e.out is Null,
{
}

/// The arguments of an open are looked at in order: the out parameter, the id, the
/// configuration. The first that is wrong decides, as it would alone.
pub proof fn law_open_looks_at_its_arguments_in_order(
    out_is_null: bool,
    id: Option<&[u8]>,
    host_json: Option<&[u8]>,
    r: Result<HostOpen, Refusal>,
    a: Result<String, Refusal>,
    b: Result<String, Refusal>,
    told: String,
)
    requires
        call_ensures(hvfs_host_open, (out_is_null, id, host_json), r),
        call_ensures(cstr, (id, "hcs_system_id"), a),
        call_ensures(cstr, (host_json, "host_json"), b),
        call_ensures(set_last_error, ("null out parameter",), told),
    ensures
        r is Ok <==> !out_is_null && a is Ok && b is Ok,
        r matches Ok(h) ==> h.id@ == a->Ok_0@ && h.host_json@ == b->Ok_0@,
        out_is_null ==> refused_with(
            r->Err_0,
            -1,
            "null out parameter"@,
            told@,
            false,
            Release::Nothing,
        ) && r->Err_0.out is Untouched,
        !out_is_null && a is Err ==> r->Err_0.last_error@ == a->Err_0.last_error@ && r->Err_0.code
            == -1 && r->Err_0.out is Null,
        !out_is_null && a is Ok && b is Err ==> r->Err_0.last_error@ == b->Err_0.last_error@
            && r->Err_0.code == -1 && r->Err_0.out is Null,
{
}

/// The arguments of an add are looked at in order: the out parameter, the host, the
/// configuration.
pub proof fn law_add_looks_at_its_arguments_in_order(
    out_is_null: bool,
    host_is_null: bool,
    share_json: Option<&[u8]>,
    r: Result<AddShare, Refusal>,
    b: Result<String, Refusal>,
    told: String,
    host_told: String,
)
    requires
        call_ensures(hvfs_add_share, (out_is_null, host_is_null, share_json), r),
        call_ensures(cstr, (share_json, "share_json"), b),
        call_ensures(set_last_error, ("null out parameter",), told),
        call_ensures(set_last_error, ("null host handle",), host_told),
    ensures
        r is Ok <==> !out_is_null && !host_is_null && b is Ok,
        r matches Ok(h) ==> h.share_json@ == b->Ok_0@,
        out_is_null ==> refused_with(
            r->Err_0,
            -1,
            "null out parameter"@,
            told@,
            false,
            Release::Nothing,
        ) && r->Err_0.out is Untouched,
        !out_is_null && host_is_null ==> refused_with(
            r->Err_0,
            -1,
            "null host handle"@,
            host_told@,
            false,
            Release::Nothing,
        ) && r->Err_0.out is Null,
        !out_is_null && !host_is_null && b is Err ==> r->Err_0.last_error@
            == b->Err_0.last_error@ && r->Err_0.code == -1 && r->Err_0.out is Null,
{
}

/// What fails while a host is opened is told with what failed: the text of the parser,
/// the code of the system, the text of the registration, after which the system is
/// closed again. What succeeds passes on what it got.
pub proof fn law_open_tells_what_failed(
    open: HostOpen,
    cfg: Result<HostConfig, String>,
    p: Result<OpenSystem, Refusal>,
    parse: &str,
    parse_told: String,
    sys: OpenSystem,
    hr: HRESULT,
    system: usize,
    q: Result<RegisterHost, Refusal>,
    code: String,
    code_ref: &str,
    code_told: String,
    reg: RegisterHost,
    outcome: Result<DeviceHost, String>,
    r: Result<hvfs_host, Refusal>,
    fail: &str,
    fail_told: String,
)
    requires
        call_ensures(HostOpen::parsed, (open, cfg), p),
        cfg is Err ==> parse@ == "host_json parse error: "@ + cfg->Err_0@,
        call_ensures(set_last_error, (parse,), parse_told),
        call_ensures(OpenSystem::opened, (sys, hr, system), q),
        call_ensures(with_hresult, ("HcsOpenComputeSystem failed: HRESULT ", hr), code),
        code_ref@ == code@,
        call_ensures(set_last_error, (code_ref,), code_told),
        call_ensures(RegisterHost::registered, (reg, outcome), r),
        outcome is Err ==> fail@ == "HdvInitializeDeviceHostForProxy failed: "@ + outcome->Err_0@,
        call_ensures(set_last_error, (fail,), fail_told),
    ensures
        p is Ok <==> cfg is Ok,
        p matches Err(e) ==> refused_with(e, -1, parse@, parse_told@, false, Release::Nothing),
        q is Ok <==> hr >= 0,
        q matches Err(e) ==> refused_with(e, -4, code@, code_told@, true, Release::Nothing),
        q matches Ok(h) ==> h.system == system && h.host_id == crate::sys::lone_guid(3),
        r is Ok <==> outcome is Ok,
        r matches Err(e) ==> refused_with(e, -4, fail@, fail_told@, true, Release::System),
        r matches Ok(h) ==> h.shares@.len() == 0 && *h.host == outcome->Ok_0 && h.system
            == reg.system && h.memory_bytes == reg.memory_bytes,
        p matches Err(e) ==> e.out is Null,
        q matches Err(e) ==> e.out is Null,
        r matches Err(e) ==> e.out is Null,
{
    crate::sys::law_identifiers_of_the_library();
}

/// What fails while a share is added is told with what failed: the text of the parser,
/// that it was to be read-only, the instance that is no GUID.
pub proof fn law_bad_share_is_told(
    add: AddShare,
    cfg: Result<ShareConfig, String>,
    r: Result<AttachShare, Refusal>,
    parse: &str,
    parse_told: String,
    ro_told: String,
    bad: &str,
    bad_told: String,
    id: &str,
    g: Option<GUID>,
)
    requires
        call_ensures(AddShare::parsed, (add, cfg), r),
        cfg is Err ==> parse@ == "share_json parse error: "@ + cfg->Err_0@,
        call_ensures(set_last_error, (parse,), parse_told),
        call_ensures(
            set_last_error,
            ("ro:true not supported — the FUSE backend does not yet enforce read-only",),
            ro_told,
        ),
        cfg is Ok ==> id@ == cfg->Ok_0.instance_id@,
        call_ensures(guid_from_string, (id,), g),
        bad@ == "instance_id is not a valid GUID: "@ + id@,
        call_ensures(set_last_error, (bad,), bad_told),
    ensures
        r is Ok <==> cfg is Ok && !cfg->Ok_0.ro && g is Some,
        cfg is Err ==> refused_with(
            r->Err_0,
            -1,
            parse@,
            parse_told@,
            false,
            Release::Nothing,
        ),
        cfg is Ok && cfg->Ok_0.ro ==> refused_with(
            r->Err_0,
            -2,
            "ro:true not supported — the FUSE backend does not yet enforce read-only"@,
            ro_told@,
            false,
            Release::Nothing,
        ),
        cfg is Ok && !cfg->Ok_0.ro && g is None ==> refused_with(
            r->Err_0,
            -1,
            bad@,
            bad_told@,
            false,
            Release::Nothing,
        ),
        r matches Ok(a) ==> Some(a.instance) == g,
        r matches Err(e) ==> e.out is Null,
{
}

/// A share is named as its device is written, and so is its class.
pub proof fn law_share_is_named_as_its_device_is_written(
    add: AddShare,
    cfg: ShareConfig,
    a: AttachShare,
    g: &GUID,
    t: String,
    c: &GUID,
    u: String,
)
    requires
        call_ensures(AddShare::parsed, (add, Ok(cfg)), Ok(a)),
        *g == a.instance,
        call_ensures(guid_to_string, (g,), t),
        *c == a.class_id,
        call_ensures(guid_to_string, (c,), u),
    ensures
        a.share.instance_id@ == t@,
        a.share.emulator_id@ == u@,
{
}

/// A device that was attached gets a slot that is asked for under its own name and
/// class; what fails is told, and the device goes again where its slot was refused.
pub proof fn law_attached_device_gets_its_slot(
    att: AttachShare,
    outcome: Result<(), String>,
    p: Result<AddSlot, Refusal>,
    text: &str,
    told: String,
    id: &str,
    class: &str,
    request: String,
    slot: AddSlot,
    modified: Result<(), HRESULT>,
    q: Result<hvfs_share, Refusal>,
    hr: HRESULT,
    code: String,
    code_ref: &str,
    code_told: String,
)
    requires
        call_ensures(AttachShare::attached, (att, outcome), p),
        outcome is Err ==> text@ == "attach virtio-fs over HDV: "@ + outcome->Err_0@,
        call_ensures(set_last_error, (text,), told),
        id@ == att.share.instance_id@ && class@ == att.share.emulator_id@,
        call_ensures(slot_request, ("Add", id, class), request),
        call_ensures(AddSlot::modified, (slot, modified), q),
        modified is Err ==> hr == modified->Err_0,
        call_ensures(with_hresult, ("HcsModifyComputeSystem Add FlexibleIov: HRESULT ", hr), code),
        code_ref@ == code@,
        call_ensures(set_last_error, (code_ref,), code_told),
    ensures
        p is Ok <==> outcome is Ok,
        p matches Ok(a) ==> a.share == att.share && a.request@ == request@,
        p matches Err(e) ==> refused_with(e, -4, text@, told@, true, Release::Nothing)
            && e.out is Null,
        q is Ok <==> modified is Ok,
        q matches Ok(s) ==> s == slot.share,
        q matches Err(e) ==> refused_with(e, -4, code@, code_told@, true, Release::Device)
            && e.out is Null,
{
}

/// A share is removed by the request for its slot, under its own name and class; what
/// fails is told to the thread and to the log.
pub proof fn law_share_is_removed_by_its_slot(
    s: &hvfs_share,
    step: RemoveStep,
    id: &str,
    class: &str,
    request: String,
    v: serde_json::Value,
    name: Option<&str>,
    q: RemoveSlot,
    hr: HRESULT,
    r: Removal,
    code: String,
    code_ref: &str,
    code_told: String,
    un_told: String,
)
    requires
        call_ensures(hvfs_remove_share, (Some(s),), step),
        id@ == s.instance_id@ && class@ == s.emulator_id@,
        call_ensures(slot_request, ("Remove", id, class), request),
        call_ensures(slot_value, ("Remove", id, class), v),
        call_ensures(hvfs_share_instance_id, (Some(s),), name),
        call_ensures(RemoveSlot::modified, (q, Err(hr)), r),
        call_ensures(
            with_hresult,
            ("HcsModifyComputeSystem Remove FlexibleIov: HRESULT ", hr),
            code,
        ),
        code_ref@ == code@,
        call_ensures(set_last_error, (code_ref,), code_told),
        call_ensures(
            set_last_error,
            (
                "FlexibleIov live Remove unsupported on this Windows; device reclaimed when the compute system is torn down",
            ),
            un_told,
        ),
    ensures
        step matches RemoveStep::Modify(m) && m.request@ == request@,
        request@ == crate::json::json_text(crate::json::json_of(v)),
        name matches Some(n) && n@ == s.instance_id@,
        hr + 0x1_0000_0000 != 0x8007_0032 ==> r.last_error is Some && r.last_error->0@
            == code_told@ && r.log is Some && r.log->0@ == code@,
        hr + 0x1_0000_0000 == 0x8007_0032 ==> r.last_error is Some && r.last_error->0@
            == un_told@ && r.log is Some && r.log->0@
            == "FlexibleIov live Remove unsupported on this Windows; device reclaimed when the compute system is torn down"@,
{
}

proof fn lemma_without_absent(s: Seq<usize>, h: usize)
    requires
        !s.contains(h),
    ensures
        without(s, h) == s,
    decreases s.len(),
{
    if s.len() > 0 {
        let t = s.drop_last();
        assert(s[s.len() - 1] != h) by {
            if s[s.len() - 1] == h {
                assert(s.contains(h));
            }
        }
        assert(!t.contains(h)) by {
            if t.contains(h) {
                let j = choose|j: int| 0 <= j < t.len() && t[j] == h;
                assert(s[j] == h);
            }
        }
        lemma_without_absent(t, h);
        assert(without(s, h) =~= s);
    }
}

proof fn lemma_without_concat(a: Seq<usize>, b: Seq<usize>, h: usize)
    ensures
        without(a + b, h) == without(a, h) + without(b, h),
    decreases b.len(),
{
    if b.len() == 0 {
        assert(a + b =~= a);
        assert(without(a, h) + without(b, h) =~= without(a, h));
    } else {
        lemma_without_concat(a, b.drop_last(), h);
        assert((a + b).drop_last() =~= a + b.drop_last());
        assert(without(a + b, h) =~= without(a, h) + without(b, h));
    }
}

/// A share that was freed goes from its place, and the others stay in their order; one
/// that the host does not have changes nothing.
pub proof fn law_freed_share_leaves_the_others_in_order(
    host: &mut hvfs_host,
    h: usize,
    u: (),
    a: Seq<usize>,
    b: Seq<usize>,
)
    requires
        call_ensures(hvfs_host::share_removed, (host, h), u),
        !a.contains(h) && !b.contains(h),
    ensures
        old(host).shares@ == a + seq![h] + b ==> final(host).shares@ == a + b,
        old(host).shares@ == a ==> final(host).shares@ == a,
{
    lemma_without_absent(a, h);
    lemma_without_absent(b, h);
    lemma_without_concat(a, seq![h], h);
    lemma_without_concat(a + seq![h], b, h);
    let one = seq![h];
    assert(one.drop_last() =~= Seq::<usize>::empty());
    assert(without(one.drop_last(), h) =~= Seq::<usize>::empty());
    assert(without(one, h) =~= Seq::<usize>::empty());
    assert(without(a + seq![h], h) =~= a);
}

/// Closing frees the shares in the order in which they were added, then tears the host
/// down, releases what it was registered through, and closes the system last; a null
/// share is passed over.
pub proof fn law_close_goes_in_order(
    host: hvfs_host,
    c: Close,
    k: &mut hvfs_host,
    u: (),
)
    requires
        call_ensures(hvfs_host_close, (Some(host),), c),
        *k == host,
        call_ensures(hvfs_host::share_removed, (k, 0), u),
    ensures
        c.code == 0,
        ({
            let n = final(k).shares@.len() as int;
            &&& c.steps@.len() == n + 3
            &&& forall|i: int|
                0 <= i < n ==> #[trigger] c.steps@[i] == CloseStep::FreeShare(
                    final(k).shares@[i],
                )
            &&& c.steps@[n] == CloseStep::TearDownHost(host.host)
            &&& c.steps@[n + 1] is ReleaseSupport
            &&& c.steps@[n + 2] == CloseStep::CloseSystem(host.system)
        }),
{
}

} // verus!
