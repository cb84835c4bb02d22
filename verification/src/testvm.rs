//! A throwaway compute system to try the device on: what it is made of, and how
//! its creation, its console and a trial of a share go.

use crate::abi::slot_settings_value;
use crate::hresult::{with_hresult, HRESULT};
use crate::json::{flag_value, new_object, number_value, object_value, set_field, text_value,
    value_text};
use crate::pci::{PciDetails, PciOps};
use crate::text::{chars_of, push_decimal};
use vstd::prelude::*;
use vstd::string::*;

verus! {

// ---------------------------------------------------------------------------
// A device that nothing drives
// ---------------------------------------------------------------------------

/// A PCI device without a driver: its device id lies outside every virtio range,
/// its class is unassigned, and it has no base address register.
pub struct SpikeDevice;

impl SpikeDevice {
    pub const VENDOR: u16 = 0x1af4;

    pub const DEVICE: u16 = 0x1100;

    /// The config space: a header that agrees with the details.
    pub open spec fn config(offset: u32) -> u32 {
        if offset == 0x00 {
            (Self::DEVICE * 0x1_0000 + Self::VENDOR) as u32
        } else if offset == 0x08 {
            0xff00_0001
        } else if offset == 0x2c {
            (0x0040 * 0x1_0000 + Self::VENDOR) as u32
        } else {
            0
        }
    }

    /// The details.
    pub open spec fn identity() -> PciDetails {
        PciDetails {
            vendor_id: Self::VENDOR,
            device_id: Self::DEVICE,
            revision_id: 0x01,
            prog_if: 0x00,
            sub_class: 0x00,
            base_class: 0xff,
            sub_vendor_id: Self::VENDOR,
            sub_system_id: 0x0040,
            probed_bars: [0, 0, 0, 0, 0, 0],
        }
    }
}

impl PciOps for SpikeDevice {
    fn details(&self) -> (d: PciDetails)
        ensures
            d == Self::identity(),
    {
        PciDetails {
            vendor_id: Self::VENDOR,
            device_id: Self::DEVICE,
            revision_id: 0x01,
            prog_if: 0x00,
            sub_class: 0x00,
            base_class: 0xff,
            sub_vendor_id: Self::VENDOR,
            sub_system_id: 0x0040,
            probed_bars: [0, 0, 0, 0, 0, 0],
        }
    }

    fn read_config(&self, offset: u32) -> (v: u32)
        ensures
            v == Self::config(offset),
    {
        if offset == 0x00 {
            Self::DEVICE as u32 * 0x1_0000 + Self::VENDOR as u32
        } else if offset == 0x08 {
            0xff00_0001
        } else if offset == 0x2c {
            0x0040 * 0x1_0000 + Self::VENDOR as u32
        } else {
            0
        }
    }

    fn write_config(&self, offset: u32, value: u32) {
    }
}

/// The header and the details of the device agree: whoever reads the identity from
/// config space, and finds no base address register, gets the details.
pub proof fn law_spike_header_agrees_with_its_details()
    ensures
        crate::transport::details_of(
            SpikeDevice::config(0x00),
            SpikeDevice::config(0x08),
            SpikeDevice::config(0x2c),
            Seq::new(6, |i: int| SpikeDevice::config(crate::transport::bar_offset(i) as u32)),
        ) == SpikeDevice::identity(),
{
    let d = crate::transport::details_of(
        SpikeDevice::config(0x00),
        SpikeDevice::config(0x08),
        SpikeDevice::config(0x2c),
        Seq::new(6, |i: int| SpikeDevice::config(crate::transport::bar_offset(i) as u32)),
    );
    assert(d.probed_bars =~= SpikeDevice::identity().probed_bars);
}

// ---------------------------------------------------------------------------
// What to boot
// ---------------------------------------------------------------------------

/// A slot for a device, in the document of a compute system.
pub struct FlexibleIovSlot {
    /// The device instance, which is the key of the slot.
    pub instance_guid: String,
    /// The device class.
    pub emulator_id: String,
    pub hosting_model: String,
}

impl FlexibleIovSlot {
    /// A slot with the hosting model that is known to work.
    pub fn new(instance_guid: &str, emulator_id: &str) -> (s: FlexibleIovSlot)
        ensures
            s.instance_guid@ == instance_guid@,
            s.emulator_id@ == emulator_id@,
            s.hosting_model@ == "ExternalRestricted"@,
    {
        FlexibleIovSlot {
            instance_guid: instance_guid.to_owned(),
            emulator_id: emulator_id.to_owned(),
            hosting_model: "ExternalRestricted".to_owned(),
        }
    }
}

/// What to boot.
pub struct RockyConfig {
    pub kernel_path: String,
    pub initrd_path: String,
    pub kernel_cmdline: String,
    pub memory_mb: u32,
    pub processor_count: u32,
    /// A slot to declare in the document.
    pub flexible_iov: Option<FlexibleIovSlot>,
}

impl RockyConfig {
    /// This kernel and initial RAM disk, with the console on the first serial
    /// port.
    pub fn new(kernel_path: &str, initrd_path: &str) -> (c: RockyConfig)
        ensures
            c.kernel_path@ == kernel_path@,
            c.initrd_path@ == initrd_path@,
            c.kernel_cmdline@ == "console=ttyS0"@,
            c.memory_mb == 4096,
            c.processor_count == 2,
            c.flexible_iov is None,
    {
        RockyConfig {
            kernel_path: kernel_path.to_owned(),
            initrd_path: initrd_path.to_owned(),
            kernel_cmdline: "console=ttyS0".to_owned(),
            memory_mb: 4096,
            processor_count: 2,
            flexible_iov: None,
        }
    }

    /// The same, with this slot declared.
    pub fn with_flexible_iov(self, slot: FlexibleIovSlot) -> (c: RockyConfig)
        ensures
            c == (RockyConfig { flexible_iov: Some(slot), ..self }),
    {
        let mut c = self;
        c.flexible_iov = Some(slot);
        c
    }
}

/// The devices of a compute system: its console, and its slot.
pub open spec fn devices_document(slot: Option<FlexibleIovSlot>, console_pipe: Seq<char>) -> Map<
    Seq<char>,
    crate::json::Json,
> {
    let ports = map![
        "ComPorts"@ => crate::json::Json::Object(
            map![
                "0"@ => crate::json::Json::Object(
                    map!["NamedPipe"@ => crate::json::Json::Text(console_pipe)],
                ),
            ],
        ),
    ];
    match slot {
        None => ports,
        Some(s) => ports.insert(
            "FlexibleIov"@,
            crate::json::Json::Object(
                map![
                    s.instance_guid@ => crate::json::Json::Object(
                        crate::abi::slot_settings(s.emulator_id@, s.hosting_model@),
                    ),
                ],
            ),
        ),
    }
}

/// The virtual machine of a compute system.
pub open spec fn machine_document(cfg: RockyConfig, console_pipe: Seq<char>) -> Map<
    Seq<char>,
    crate::json::Json,
> {
    map![
        "Chipset"@ => crate::json::Json::Object(
            map![
                "LinuxKernelDirect"@ => crate::json::Json::Object(
                    map![
                        "KernelFilePath"@ => crate::json::Json::Text(cfg.kernel_path@),
                        "InitRdPath"@ => crate::json::Json::Text(cfg.initrd_path@),
                        "KernelCmdLine"@ => crate::json::Json::Text(cfg.kernel_cmdline@),
                    ],
                ),
            ],
        ),
        "ComputeTopology"@ => crate::json::Json::Object(
            map![
                "Memory"@ => crate::json::Json::Object(
                    map!["SizeInMB"@ => crate::json::Json::Number(cfg.memory_mb as nat)],
                ),
                "Processor"@ => crate::json::Json::Object(
                    map!["Count"@ => crate::json::Json::Number(cfg.processor_count as nat)],
                ),
            ],
        ),
        "Devices"@ => crate::json::Json::Object(devices_document(cfg.flexible_iov, console_pipe)),
    ]
}

/// The document of a compute system.
pub open spec fn system_document(cfg: RockyConfig, console_pipe: Seq<char>) -> crate::json::Json {
    crate::json::Json::Object(
        map![
            "Owner"@ => crate::json::Json::Text("hyperv-virtiofs-test"@),
            "SchemaVersion"@ => crate::json::Json::Object(
                map![
                    "Major"@ => crate::json::Json::Number(2),
                    "Minor"@ => crate::json::Json::Number(7),
                ],
            ),
            "ShouldTerminateOnLastHandleClosed"@ => crate::json::Json::Flag(true),
            "VirtualMachine"@ => crate::json::Json::Object(machine_document(cfg, console_pipe)),
        ],
    )
}

/// An object with one field.
fn object1(name: &str, v: serde_json::Value) -> (r: serde_json::Value)
    ensures
        crate::json::json_of(r) == crate::json::Json::Object(map![name@ => crate::json::json_of(v)]),
{
    let mut m = new_object();
    set_field(&mut m, name, v);
    assert(crate::json::fields_of(m) =~= map![name@ => crate::json::json_of(v)]);
    object_value(m)
}

fn devices_value(slot: &Option<FlexibleIovSlot>, console_pipe: &str) -> (r: serde_json::Value)
    ensures
        crate::json::json_of(r) == crate::json::Json::Object(
            devices_document(*slot, console_pipe@),
        ),
{
    let mut m = new_object();
    let port = object1("0", object1("NamedPipe", text_value(console_pipe)));
    set_field(&mut m, "ComPorts", port);
    assert(crate::json::fields_of(m) =~= devices_document(None, console_pipe@));
    match slot {
        None => {},
        Some(s) => {
            let settings = slot_settings_value(s.emulator_id.as_str(), s.hosting_model.as_str());
            set_field(&mut m, "FlexibleIov", object1(s.instance_guid.as_str(), settings));
        },
    }
    object_value(m)
}

fn machine_value(cfg: &RockyConfig, console_pipe: &str) -> (r: serde_json::Value)
    ensures
        crate::json::json_of(r) == crate::json::Json::Object(machine_document(*cfg, console_pipe@)),
{
    let mut boot = new_object();
    set_field(&mut boot, "KernelFilePath", text_value(cfg.kernel_path.as_str()));
    set_field(&mut boot, "InitRdPath", text_value(cfg.initrd_path.as_str()));
    set_field(&mut boot, "KernelCmdLine", text_value(cfg.kernel_cmdline.as_str()));
    let mut topology = new_object();
    set_field(&mut topology, "Memory", object1("SizeInMB", number_value(cfg.memory_mb)));
    set_field(&mut topology, "Processor", object1("Count", number_value(cfg.processor_count)));
    let mut m = new_object();
    set_field(&mut m, "Chipset", object1("LinuxKernelDirect", object_value(boot)));
    set_field(&mut m, "ComputeTopology", object_value(topology));
    set_field(&mut m, "Devices", devices_value(&cfg.flexible_iov, console_pipe));
    proof {
        assert(crate::json::fields_of(boot) =~= map![
            "KernelFilePath"@ => crate::json::Json::Text(cfg.kernel_path@),
            "InitRdPath"@ => crate::json::Json::Text(cfg.initrd_path@),
            "KernelCmdLine"@ => crate::json::Json::Text(cfg.kernel_cmdline@),
        ]);
        assert(crate::json::fields_of(topology) =~= map![
            "Memory"@ => crate::json::Json::Object(
                map!["SizeInMB"@ => crate::json::Json::Number(cfg.memory_mb as nat)],
            ),
            "Processor"@ => crate::json::Json::Object(
                map!["Count"@ => crate::json::Json::Number(cfg.processor_count as nat)],
            ),
        ]);
        assert(crate::json::fields_of(m) =~= machine_document(*cfg, console_pipe@));
    }
    object_value(m)
}

/// The document of a compute system, as a value.
pub fn document_value(cfg: &RockyConfig, console_pipe: &str) -> (r: serde_json::Value)
    ensures
        crate::json::json_of(r) == system_document(*cfg, console_pipe@),
{
    let mut version = new_object();
    set_field(&mut version, "Major", number_value(2));
    set_field(&mut version, "Minor", number_value(7));
    let mut m = new_object();
    set_field(&mut m, "Owner", text_value("hyperv-virtiofs-test"));
    set_field(&mut m, "SchemaVersion", object_value(version));
    set_field(&mut m, "ShouldTerminateOnLastHandleClosed", flag_value(true));
    set_field(&mut m, "VirtualMachine", machine_value(cfg, console_pipe));
    proof {
        assert(crate::json::fields_of(version) =~= map![
            "Major"@ => crate::json::Json::Number(2),
            "Minor"@ => crate::json::Json::Number(7),
        ]);
        assert(crate::json::Json::Object(crate::json::fields_of(m)) =~= system_document(
            *cfg,
            console_pipe@,
        ));
    }
    object_value(m)
}

/// The document of a compute system, as text.
pub fn build_document(cfg: &RockyConfig, console_pipe: &str) -> (s: String)
    ensures
        s@ == crate::json::json_text(system_document(*cfg, console_pipe@)),
{
    value_text(&document_value(cfg, console_pipe))
}

// ---------------------------------------------------------------------------
// Creating and starting
// ---------------------------------------------------------------------------

/// How long the creation of a system is waited for, in milliseconds.
pub const CREATE_TIMEOUT_MS: u32 = 60_000;

/// How long a creation that was refused is waited for.
pub const REFUSED_TIMEOUT_MS: u32 = 30_000;

/// How long the start of a system is waited for.
pub const START_TIMEOUT_MS: u32 = 60_000;

/// How long the end of a system is waited for.
pub const TERMINATE_TIMEOUT_MS: u32 = 30_000;

/// What waiting for an operation gave: its result code, and its result document.
pub struct Waited {
    pub hr: HRESULT,
    pub document: String,
}

/// The text of an operation that failed.
pub open spec fn op_failed_text(what: Seq<char>, hr: HRESULT, document: Seq<char>) -> Seq<char> {
    what + " failed: HRESULT "@ + crate::hresult::hresult_text(hr) + "; "@ + document
}

/// The result document of an operation, or the text of its failure.
pub fn run_op(what: &str, waited: Waited) -> (r: Result<String, String>)
    ensures
        if waited.hr >= 0 {
            r == Ok::<String, String>(waited.document)
        } else {
            r matches Err(e) && e@ == op_failed_text(what@, waited.hr, waited.document@)
        },
{
    if waited.hr >= 0 {
        return Ok(waited.document);
    }
    let mut e = with_hresult(what.to_owned().concat(" failed: HRESULT ").as_str(), waited.hr);
    e.append("; ");
    e.append(waited.document.as_str());
    assert(e@ =~= op_failed_text(what@, waited.hr, waited.document@));
    Err(e)
}

/// A compute system that was created.
pub struct RockyVm {
    pub id: String,
    /// The handle of the system.
    pub system: usize,
}

/// A compute system that is to be created: the pipe of its console is to be made,
/// and then the system, from this document.
pub struct CreateVm {
    pub id: String,
    pub pipe_name: String,
    pub document: String,
}

/// The id of the system `n` of process `pid`.
pub open spec fn system_id(pid: u32, n: u32) -> Seq<char> {
    "hvfs-test-"@ + crate::text::decimal(pid as nat) + "-"@ + crate::text::decimal(n as nat)
}

/// The pipe of the console of a system.
pub open spec fn console_pipe(id: Seq<char>) -> Seq<char> {
    "\\\\.\\pipe\\"@ + id + "-com1"@
}

impl RockyVm {
    /// Creates the system `n` of process `pid`.
    pub fn create(cfg: &RockyConfig, pid: u32, n: u32) -> (c: CreateVm)
        ensures
            c.id@ == system_id(pid, n),
            c.pipe_name@ == console_pipe(c.id@),
            c.document@ == crate::json::json_text(system_document(*cfg, c.pipe_name@)),
    {
        let mut id = "hvfs-test-".to_owned();
        push_decimal(&mut id, pid as u64);
        id.append("-");
        push_decimal(&mut id, n as u64);
        let pipe_name = "\\\\.\\pipe\\".to_owned().concat(id.as_str()).concat("-com1");
        let document = build_document(cfg, pipe_name.as_str());
        CreateVm { id, pipe_name, document }
    }

    /// What starting a system came to: whether an operation could be made, the
    /// result code of the call, and what waiting for it gave.
    pub fn start(&self, op_made: bool, hr: HRESULT, waited: Waited) -> (r: Result<(), String>)
        ensures
            if !op_made {
                r matches Err(e) && e@ == "HcsCreateOperation returned null"@
            } else if hr < 0 {
                r matches Err(e) && e@ == "HcsStartComputeSystem: HRESULT "@
                    + crate::hresult::hresult_text(hr)
            } else if waited.hr < 0 {
                r matches Err(e) && e@ == op_failed_text("start"@, waited.hr, waited.document@)
            } else {
                r is Ok
            },
    {
        if !op_made {
            return Err("HcsCreateOperation returned null".to_owned());
        }
        if hr < 0 {
            return Err(with_hresult("HcsStartComputeSystem: HRESULT ", hr));
        }
        match run_op("start", waited) {
            Ok(_) => Ok(()),
            Err(e) => Err(e),
        }
    }

    /// The handle of the system.
    pub fn system_handle(&self) -> (h: usize)
        ensures
            h == self.system,
    {
        self.system
    }

    /// The id of the system.
    pub fn id(&self) -> (s: &str)
        ensures
            s@ == self.id@,
    {
        self.id.as_str()
    }
}

impl CreateVm {
    /// The text where the pipe of the console could not be made.
    pub fn pipe_failed(&self) -> (s: String)
        ensures
            s@ == "CreateNamedPipeW("@ + self.pipe_name@ + ") failed"@,
    {
        "CreateNamedPipeW(".to_owned().concat(self.pipe_name.as_str()).concat(") failed")
    }

    /// What creating the system came to: whether an operation could be made, the
    /// result code of the call, what waiting for it gave, and the handle.
    pub fn created(self, op_made: bool, hr: HRESULT, waited: Waited, system: usize) -> (r: Result<
        RockyVm,
        String,
    >)
        ensures
            if !op_made {
                r matches Err(e) && e@ == "HcsCreateOperation returned null"@
            } else if hr < 0 {
                r matches Err(e) && e@ == "HcsCreateComputeSystem: HRESULT "@
                    + crate::hresult::hresult_text(hr)
            } else if waited.hr < 0 {
                r matches Err(e) && e@ == op_failed_text("create"@, waited.hr, waited.document@)
            } else {
                r == Ok::<RockyVm, String>(RockyVm { id: self.id, system })
            },
    {
        if !op_made {
            return Err("HcsCreateOperation returned null".to_owned());
        }
        if hr < 0 {
            return Err(with_hresult("HcsCreateComputeSystem: HRESULT ", hr));
        }
        match run_op("create", waited) {
            Ok(_) => Ok(RockyVm { id: self.id, system }),
            Err(e) => Err(e),
        }
    }

    /// How long to wait for the creation, from the result code of the call.
    pub fn wait_ms(hr: HRESULT) -> (ms: u32)
        ensures
            ms == if hr < 0 {
                REFUSED_TIMEOUT_MS
            } else {
                CREATE_TIMEOUT_MS
            },
    {
        if hr < 0 {
            REFUSED_TIMEOUT_MS
        } else {
            CREATE_TIMEOUT_MS
        }
    }
}

// ---------------------------------------------------------------------------
// The console
// ---------------------------------------------------------------------------

/// The code of a connect that found the client there already.
pub const ERROR_PIPE_CONNECTED: u32 = 535;

/// Whether the client of the console's pipe is there: the connect succeeded, or
/// failed because the client came first.
pub fn console_connected(connected: bool, last_error: u32) -> (b: bool)
    ensures
        b == (connected || last_error == ERROR_PIPE_CONNECTED),
{
    connected || last_error == ERROR_PIPE_CONNECTED
}

/// Takes what was read from the console. Says whether to read on: a failed or an
/// empty read is the end.
pub fn console_read(console: &mut Vec<u8>, ok: bool, chunk: &[u8]) -> (more: bool)
    ensures
        more == (ok && chunk@.len() > 0),
        final(console)@ == if more {
            old(console)@ + chunk@
        } else {
            old(console)@
        },
{
    if !ok || chunk.len() == 0 {
        return false;
    }
    let mut i: usize = 0;
    assert(chunk@.take(0) =~= Seq::<u8>::empty());
    assert(console@ =~= old(console)@ + chunk@.take(0));
    while i < chunk.len()
        invariant
            i <= chunk@.len(),
            console@ == old(console)@ + chunk@.take(i as int),
        decreases chunk@.len() - i,
    {
        console.push(chunk[i]);
        i = i + 1;
        assert(console@ =~= old(console)@ + chunk@.take(i as int));
    }
    assert(chunk@.take(i as int) =~= chunk@);
    true
}

/// `needle` stands in `s` at `i`.
pub open spec fn stands_at(s: Seq<char>, needle: Seq<char>, i: int) -> bool {
    0 <= i && i + needle.len() <= s.len() && s.subrange(i, i + needle.len()) == needle
}

/// `needle` stands somewhere in `s`.
pub open spec fn occurs(s: Seq<char>, needle: Seq<char>) -> bool {
    exists|i: int| stands_at(s, needle, i)
}

/// Whether the console shows `needle`.
pub fn console_shows(console: &str, needle: &str) -> (b: bool)
    ensures
        b == occurs(console@, needle@),
{
    let s = chars_of(console);
    let n = chars_of(needle);
    let total: usize = s.len();
    if n.len() > total {
        return false;
    }
    let last: usize = total - n.len();
    let mut i: usize = 0;
    while i <= last
        invariant
            s@ == console@,
            n@ == needle@,
            last + n@.len() == total,
            total == s@.len(),
            i <= last + 1,
            forall|j: int| 0 <= j < i ==> !stands_at(s@, n@, j),
        decreases last + 1 - i,
    {
        let mut k: usize = 0;
        while k < n.len() && s[i + k] == n[k]
            invariant
                i <= last,
                last + n@.len() == total,
                total == s@.len(),
                k <= n@.len(),
                forall|j: int| 0 <= j < k ==> s@[i + j] == n@[j],
            decreases n@.len() - k,
        {
            k = k + 1;
        }
        if k == n.len() {
            assert(s@.subrange(i as int, i + n@.len()) =~= n@);
            assert(stands_at(s@, n@, i as int));
            return true;
        }
        assert(!stands_at(s@, n@, i as int)) by {
            if stands_at(s@, n@, i as int) {
                assert(s@.subrange(i as int, i + n@.len())[k as int] == n@[k as int]);
            }
        }
        i = i + 1;
    }
    false
}

/// What to do while waiting for the console.
#[derive(Clone, Copy, Debug, PartialEq, Eq, Structural)]
pub enum WaitStep {
    /// It is there.
    Found,
    /// The time is up.
    TimedOut,
    /// Sleep for this many milliseconds, and look again.
    Sleep(u64),
}

/// Whether to go on waiting for the console to show something: the deadline is
/// looked at first.
pub fn wait_for_console(in_time: bool, console: &str, needle: &str) -> (w: WaitStep)
    ensures
        w == if !in_time {
            WaitStep::TimedOut
        } else if occurs(console@, needle@) {
            WaitStep::Found
        } else {
            WaitStep::Sleep(200)
        },
{
    if !in_time {
        WaitStep::TimedOut
    } else if console_shows(console, needle) {
        WaitStep::Found
    } else {
        WaitStep::Sleep(200)
    }
}

// ---------------------------------------------------------------------------
// A trial
// ---------------------------------------------------------------------------

/// How far a trial has come.
#[derive(Clone, Copy, Debug, PartialEq, Eq, Structural)]
pub enum TrialStage {
    Creating,
    Opening,
    Starting,
    Booting,
    Adding,
    Mounting,
    Closing,
    Over,
}

/// What a trial does next.
pub enum TrialAction {
    /// Create a system with this command line.
    Create { kernel_cmdline: String },
    /// Open a device host on it.
    OpenHost { host_json: String },
    /// Start the system.
    Start,
    /// Wait for the console to show this, for so many seconds at most.
    WaitFor { needle: String, seconds: u64 },
    /// Add the share.
    AddShare { share_json: String },
    /// Close the device host.
    CloseHost,
    /// The trial is over: whether the guest mounted the share.
    Finished(bool),
}

/// One trial of a share: a system is created and started, a share is added to it,
/// and the guest mounts it.
pub struct Trial {
    pub tag: String,
    pub path: String,
    pub instance_id: String,
    pub memory_mb: u32,
    pub stage: TrialStage,
    pub mounted: bool,
}

/// The configuration of the trial's share.
pub open spec fn share_document(tag: Seq<char>, path: Seq<char>, instance_id: Seq<char>) -> crate::json::Json {
    crate::json::Json::Object(
        map![
            "tag"@ => crate::json::Json::Text(tag),
            "path"@ => crate::json::Json::Text(path),
            "instance_id"@ => crate::json::Json::Text(instance_id),
            "ro"@ => crate::json::Json::Flag(false),
        ],
    )
}

/// The action at a stage of a trial. The two waits are for the guest to come up,
/// and for it to mount the share.
pub open spec fn trial_action(t: Trial, a: TrialAction) -> bool {
    match t.stage {
        TrialStage::Creating => a matches TrialAction::Create { kernel_cmdline } && kernel_cmdline@
            == "console=ttyS0 atelier.hptags="@ + t.tag@,
        TrialStage::Opening => a matches TrialAction::OpenHost { host_json } && host_json@
            == "{\"memory_mb\":"@ + crate::text::decimal(t.memory_mb as nat) + "}"@,
        TrialStage::Starting => a is Start,
        TrialStage::Booting => a matches TrialAction::WaitFor { needle, seconds } && needle@
            == "GUEST_READY"@ && seconds == 90,
        TrialStage::Adding => a matches TrialAction::AddShare { share_json } && share_json@
            == crate::json::json_text(share_document(t.tag@, t.path@, t.instance_id@)),
        TrialStage::Mounting => a matches TrialAction::WaitFor { needle, seconds } && needle@
            == "HOTPLUG_MOUNT_PASS tag="@ + t.tag@ && seconds == 45,
        TrialStage::Closing => a is CloseHost,
        TrialStage::Over => a == TrialAction::Finished(t.mounted),
    }
}

/// The stage after an action that succeeded or not: a host that was opened is
/// closed, whatever comes of the trial.
pub open spec fn next_stage(stage: TrialStage, ok: bool) -> TrialStage {
    match stage {
        TrialStage::Creating => if ok {
            TrialStage::Opening
        } else {
            TrialStage::Over
        },
        TrialStage::Opening => if ok {
            TrialStage::Starting
        } else {
            TrialStage::Over
        },
        TrialStage::Starting => if ok {
            TrialStage::Booting
        } else {
            TrialStage::Closing
        },
        TrialStage::Booting => if ok {
            TrialStage::Adding
        } else {
            TrialStage::Closing
        },
        TrialStage::Adding => if ok {
            TrialStage::Mounting
        } else {
            TrialStage::Closing
        },
        TrialStage::Mounting => TrialStage::Closing,
        TrialStage::Closing => TrialStage::Over,
        TrialStage::Over => TrialStage::Over,
    }
}

impl Trial {
    /// `self` is `before` at another stage.
    pub open spec fn moved(&self, before: Trial) -> bool {
        &&& self.tag == before.tag
        &&& self.path == before.path
        &&& self.instance_id == before.instance_id
        &&& self.memory_mb == before.memory_mb
    }

    /// A trial of a share of `path`, and its first action.
    pub fn new(tag: String, path: String, instance_id: String, memory_mb: u32) -> (r: (
        Trial,
        TrialAction,
    ))
        ensures
            r.0 == (Trial {
                tag,
                path,
                instance_id,
                memory_mb,
                stage: TrialStage::Creating,
                mounted: false,
            }),
            trial_action(r.0, r.1),
    {
        let t = Trial {
            tag,
            path,
            instance_id,
            memory_mb,
            stage: TrialStage::Creating,
            mounted: false,
        };
        let a = t.action();
        (t, a)
    }

    fn action(&self) -> (a: TrialAction)
        ensures
            trial_action(*self, a),
    {
        match self.stage {
            TrialStage::Creating => TrialAction::Create {
                kernel_cmdline: "console=ttyS0 atelier.hptags=".to_owned().concat(
                    self.tag.as_str(),
                ),
            },
            TrialStage::Opening => {
                let mut host_json = "{\"memory_mb\":".to_owned();
                push_decimal(&mut host_json, self.memory_mb as u64);
                host_json.append("}");
                TrialAction::OpenHost { host_json }
            },
            TrialStage::Starting => TrialAction::Start,
            TrialStage::Booting => TrialAction::WaitFor {
                needle: "GUEST_READY".to_owned(),
                seconds: 90,
            },
            TrialStage::Adding => {
                let mut m = new_object();
                set_field(&mut m, "tag", text_value(self.tag.as_str()));
                set_field(&mut m, "path", text_value(self.path.as_str()));
                set_field(&mut m, "instance_id", text_value(self.instance_id.as_str()));
                set_field(&mut m, "ro", flag_value(false));
                assert(crate::json::Json::Object(crate::json::fields_of(m)) =~= share_document(
                    self.tag@,
                    self.path@,
                    self.instance_id@,
                ));
                TrialAction::AddShare { share_json: value_text(&object_value(m)) }
            },
            TrialStage::Mounting => TrialAction::WaitFor {
                needle: "HOTPLUG_MOUNT_PASS tag=".to_owned().concat(self.tag.as_str()),
                seconds: 45,
            },
            TrialStage::Closing => TrialAction::CloseHost,
            TrialStage::Over => TrialAction::Finished(self.mounted),
        }
    }

    /// Whether the last action succeeded. The next one.
    pub fn try_once(&mut self, ok: bool) -> (a: TrialAction)
        ensures
            final(self).moved(*old(self)),
            final(self).stage == next_stage(old(self).stage, ok),
            final(self).mounted == if old(self).stage == TrialStage::Mounting {
                ok
            } else {
                old(self).mounted
            },
            trial_action(*final(self), a),
    {
        if self.stage == TrialStage::Mounting {
            self.mounted = ok;
        }
        self.stage = match self.stage {
            TrialStage::Creating => if ok {
                TrialStage::Opening
            } else {
                TrialStage::Over
            },
            TrialStage::Opening => if ok {
                TrialStage::Starting
            } else {
                TrialStage::Over
            },
            TrialStage::Starting => if ok {
                TrialStage::Booting
            } else {
                TrialStage::Closing
            },
            TrialStage::Booting => if ok {
                TrialStage::Adding
            } else {
                TrialStage::Closing
            },
            TrialStage::Adding => if ok {
                TrialStage::Mounting
            } else {
                TrialStage::Closing
            },
            TrialStage::Mounting => TrialStage::Closing,
            TrialStage::Closing => TrialStage::Over,
            TrialStage::Over => TrialStage::Over,
        };
        self.action()
    }
}

/// How often a trial is made before it counts as failed.
pub const ATTEMPTS: usize = 4;

/// What comes after an attempt at a trial.
#[derive(Clone, Copy, Debug, PartialEq, Eq, Structural)]
pub enum Attempt {
    /// Make another one.
    Again,
    Passed,
    Failed,
}

/// What comes after `made` attempts, the last of which mounted the share or not.
pub open spec fn attempt_after(made: int, mounted: bool) -> Attempt {
    if mounted {
        Attempt::Passed
    } else if made >= ATTEMPTS {
        Attempt::Failed
    } else {
        Attempt::Again
    }
}

/// What comes after `made` attempts at a trial, the last of which mounted the share
/// or not: one that did passes, and after [`ATTEMPTS`] that did not it has failed.
pub fn next_attempt(made: usize, mounted: bool) -> (r: Attempt)
    ensures
        r == attempt_after(made as int, mounted),
{
    if mounted {
        Attempt::Passed
    } else if made >= ATTEMPTS {
        Attempt::Failed
    } else {
        Attempt::Again
    }
}

/// How a series of attempts ends, which mounted the share or not one after the
/// other; `None` where another one is to be made.
pub open spec fn series(mounted: Seq<bool>) -> Option<bool>
    decreases mounted.len(),
{
    if mounted.len() == 0 {
        None
    } else {
        match series(mounted.drop_last()) {
            Some(passed) => Some(passed),
            None => match attempt_after(mounted.len() as int, mounted.last()) {
                Attempt::Passed => Some(true),
                Attempt::Failed => Some(false),
                Attempt::Again => None,
            },
        }
    }
}

/// A series of attempts passes exactly if one of the first [`ATTEMPTS`] does, and
/// fails exactly if none of these does.
pub proof fn law_series_passes_if_one_attempt_does(mounted: Seq<bool>)
    ensures
        series(mounted) == if exists|i: int|
            0 <= i < mounted.len() && i < ATTEMPTS && #[trigger] mounted[i] {
            Some(true)
        } else if mounted.len() >= ATTEMPTS {
            Some(false)
        } else {
            None
        },
    decreases mounted.len(),
{
    if mounted.len() > 0 {
        let t = mounted.drop_last();
        law_series_passes_if_one_attempt_does(t);
        if exists|i: int| 0 <= i < t.len() && i < ATTEMPTS && #[trigger] t[i] {
            let i = choose|i: int| 0 <= i < t.len() && i < ATTEMPTS && #[trigger] t[i];
            assert(mounted[i]);
        } else if mounted.last() && mounted.len() <= ATTEMPTS {
            assert(mounted[mounted.len() - 1]);
        } else {
            assert forall|i: int|
                0 <= i < mounted.len() && i < ATTEMPTS implies !#[trigger] mounted[i] by {
                if i < t.len() {
                    assert(!t[i]);
                }
            }
        }
    }
}

/// The stage of a trial after its actions succeeded or not.
pub open spec fn stage_after(answers: Seq<bool>) -> TrialStage
    decreases answers.len(),
{
    if answers.len() == 0 {
        TrialStage::Creating
    } else {
        next_stage(stage_after(answers.drop_last()), answers.last())
    }
}

/// A trial is over after at most seven actions, whatever comes of them.
pub proof fn law_trial_ends(answers: Seq<bool>)
    requires
        answers.len() >= 7,
    ensures
        stage_after(answers) == TrialStage::Over,
    decreases answers.len(),
{
    if answers.len() > 7 {
        law_trial_ends(answers.drop_last());
    } else {
        reveal_with_fuel(stage_after, 8);
    }
}

/// A trial that is over has closed the device host that it opened: the second
/// action opens it, and if that succeeds the last one but the verdict closes it.
pub proof fn law_trial_closes_what_it_opened(answers: Seq<bool>)
    requires
        answers.len() >= 2,
        answers[0],
        answers[1],
        stage_after(answers) == TrialStage::Over,
    ensures
        exists|k: int|
            2 <= k < answers.len() && stage_after(#[trigger] answers.take(k))
                == TrialStage::Closing,
    decreases answers.len(),
{
    let t = answers.drop_last();
    assert(t =~= answers.take(answers.len() - 1));
    if answers.len() == 2 {
        reveal_with_fuel(stage_after, 3);
        assert(t[0] == answers[0]);
    } else if stage_after(t) == TrialStage::Closing {
        assert(stage_after(answers.take(answers.len() - 1)) == TrialStage::Closing);
    } else if stage_after(t) == TrialStage::Over {
        law_trial_closes_what_it_opened(t);
        let k = choose|k: int|
            2 <= k < t.len() && stage_after(#[trigger] t.take(k)) == TrialStage::Closing;
        assert(t.take(k) =~= answers.take(k));
    } else {
        lemma_past_opening(t);
    }
}

proof fn lemma_past_opening(answers: Seq<bool>)
    requires
        answers.len() >= 2,
        answers[0],
        answers[1],
    ensures
        stage_after(answers) != TrialStage::Creating,
        stage_after(answers) != TrialStage::Opening,
    decreases answers.len(),
{
    if answers.len() == 2 {
        reveal_with_fuel(stage_after, 3);
        assert(answers.drop_last()[0] == answers[0]);
    } else {
        assert(answers.drop_last()[0] && answers.drop_last()[1]);
        lemma_past_opening(answers.drop_last());
    }
}

// ---------------------------------------------------------------------------
// Calls
// ---------------------------------------------------------------------------

/// The field of an object.
pub open spec fn field(j: crate::json::Json, name: Seq<char>) -> crate::json::Json {
    j->Object_0[name]
}

/// `j` is an object with a field of this name.
pub open spec fn has_field(j: crate::json::Json, name: Seq<char>) -> bool {
    j is Object && j->Object_0.dom().contains(name)
}

/// The document boots the kernel and the RAM disk that were asked for, with the command
/// line, the memory and the processors that were, and ends with its last handle.
pub proof fn law_document_boots_what_was_asked_for(
    cfg: &RockyConfig,
    pipe: &str,
    v: serde_json::Value,
    s: String,
)
    requires
        call_ensures(document_value, (cfg, pipe), v),
        call_ensures(build_document, (cfg, pipe), s),
    ensures
        s@ == crate::json::json_text(crate::json::json_of(v)),
        ({
            let d = crate::json::json_of(v);
            let vm = field(d, "VirtualMachine"@);
            let boot = field(field(vm, "Chipset"@), "LinuxKernelDirect"@);
            let top = field(vm, "ComputeTopology"@);
            &&& has_field(d, "Owner"@) && field(d, "Owner"@) == crate::json::Json::Text(
                "hyperv-virtiofs-test"@,
            )
            &&& has_field(d, "ShouldTerminateOnLastHandleClosed"@) && field(
                d,
                "ShouldTerminateOnLastHandleClosed"@,
            ) == crate::json::Json::Flag(true)
            &&& has_field(d, "SchemaVersion"@)
            &&& field(field(d, "SchemaVersion"@), "Major"@) == crate::json::Json::Number(2)
            &&& field(field(d, "SchemaVersion"@), "Minor"@) == crate::json::Json::Number(7)
            &&& has_field(d, "VirtualMachine"@) && has_field(vm, "Chipset"@) && has_field(
                vm,
                "ComputeTopology"@,
            ) && has_field(vm, "Devices"@)
            &&& field(boot, "KernelFilePath"@) == crate::json::Json::Text(cfg.kernel_path@)
            &&& field(boot, "InitRdPath"@) == crate::json::Json::Text(cfg.initrd_path@)
            &&& field(boot, "KernelCmdLine"@) == crate::json::Json::Text(cfg.kernel_cmdline@)
            &&& field(field(top, "Memory"@), "SizeInMB"@) == crate::json::Json::Number(
                cfg.memory_mb as nat,
            )
            &&& field(field(top, "Processor"@), "Count"@) == crate::json::Json::Number(
                cfg.processor_count as nat,
            )
        }),
{
    lemma_names_differ();
}

/// The names of the fields of a document differ where they stand in one object.
proof fn lemma_names_differ()
    ensures
        "Owner"@ != "SchemaVersion"@ && "Owner"@ != "ShouldTerminateOnLastHandleClosed"@,
        "Owner"@ != "VirtualMachine"@ && "SchemaVersion"@ != "VirtualMachine"@,
        "SchemaVersion"@ != "ShouldTerminateOnLastHandleClosed"@,
        "VirtualMachine"@ != "ShouldTerminateOnLastHandleClosed"@,
        "Major"@ != "Minor"@,
        "Chipset"@ != "ComputeTopology"@ && "Chipset"@ != "Devices"@,
        "ComputeTopology"@ != "Devices"@,
        "KernelFilePath"@ != "InitRdPath"@ && "KernelFilePath"@ != "KernelCmdLine"@,
        "InitRdPath"@ != "KernelCmdLine"@,
        "Memory"@ != "Processor"@,
        "ComPorts"@ != "FlexibleIov"@,
        "tag"@ != "path"@ && "tag"@ != "instance_id"@ && "tag"@ != "ro"@,
        "path"@ != "instance_id"@ && "path"@ != "ro"@ && "instance_id"@ != "ro"@,
{
    reveal_strlit("Owner");
    reveal_strlit("SchemaVersion");
    reveal_strlit("ShouldTerminateOnLastHandleClosed");
    reveal_strlit("VirtualMachine");
    reveal_strlit("Major");
    reveal_strlit("Minor");
    reveal_strlit("Chipset");
    reveal_strlit("ComputeTopology");
    reveal_strlit("Devices");
    reveal_strlit("KernelFilePath");
    reveal_strlit("InitRdPath");
    reveal_strlit("KernelCmdLine");
    reveal_strlit("Memory");
    reveal_strlit("Processor");
    reveal_strlit("ComPorts");
    reveal_strlit("FlexibleIov");
    reveal_strlit("tag");
    reveal_strlit("path");
    reveal_strlit("instance_id");
    reveal_strlit("ro");
    assert("Owner"@.len() == 5 && "SchemaVersion"@.len() == 13);
    assert("ShouldTerminateOnLastHandleClosed"@.len() == 33 && "VirtualMachine"@.len() == 14);
    assert("Chipset"@.len() == 7 && "ComputeTopology"@.len() == 15);
    assert("Devices"@.len() == 7 && "KernelFilePath"@.len() == 14);
    assert("InitRdPath"@.len() == 10 && "KernelCmdLine"@.len() == 13);
    assert("Memory"@.len() == 6 && "Processor"@.len() == 9);
    assert("ComPorts"@.len() == 8 && "FlexibleIov"@.len() == 11);
    assert("path"@.len() == 4 && "instance_id"@.len() == 11);
    assert("ro"@.len() == 2);
    assert("Chipset"@[0] != "Devices"@[0]);
    assert("Major"@[1] != "Minor"@[1]);
    assert("tag"@[0] != "path"@[0]);
}

/// The console of the system is the pipe, and a slot that is asked for stands under its
/// instance; without one there is none.
pub proof fn law_document_declares_console_and_slot(
    cfg: &RockyConfig,
    pipe: &str,
    v: serde_json::Value,
)
    requires
        call_ensures(document_value, (cfg, pipe), v),
    ensures
        ({
            let devices = field(field(crate::json::json_of(v), "VirtualMachine"@), "Devices"@);
            &&& has_field(devices, "ComPorts"@)
            &&& field(field(field(devices, "ComPorts"@), "0"@), "NamedPipe"@)
                == crate::json::Json::Text(pipe@)
            &&& has_field(devices, "FlexibleIov"@) <==> cfg.flexible_iov is Some
            &&& cfg.flexible_iov matches Some(slot) ==> {
                let settings = field(field(devices, "FlexibleIov"@), slot.instance_guid@);
                &&& has_field(field(devices, "FlexibleIov"@), slot.instance_guid@)
                &&& has_field(settings, "EmulatorId"@) && has_field(settings, "HostingModel"@)
                &&& field(settings, "EmulatorId"@) == crate::json::Json::Text(slot.emulator_id@)
                &&& field(settings, "HostingModel"@) == crate::json::Json::Text(
                    slot.hosting_model@,
                )
            }
        }),
{
    lemma_names_differ();
    reveal_strlit("EmulatorId");
    reveal_strlit("HostingModel");
    assert("EmulatorId"@.len() != "HostingModel"@.len());
}

/// A configuration boots with 4096 MiB and two processors, its console on the first
/// serial port, and no slot, until one is asked for, which changes nothing else. A slot
/// is hosted as an external, restricted one.
pub proof fn law_configuration_starts_plain(
    kernel: &str,
    initrd: &str,
    c: RockyConfig,
    instance: &str,
    emulator: &str,
    slot: FlexibleIovSlot,
    d: RockyConfig,
)
    requires
        call_ensures(RockyConfig::new, (kernel, initrd), c),
        call_ensures(FlexibleIovSlot::new, (instance, emulator), slot),
        call_ensures(RockyConfig::with_flexible_iov, (c, slot), d),
    ensures
        c.kernel_path@ == kernel@ && c.initrd_path@ == initrd@,
        c.kernel_cmdline@ == "console=ttyS0"@,
        c.memory_mb == 4096 && c.processor_count == 2 && c.flexible_iov is None,
        slot.instance_guid@ == instance@ && slot.emulator_id@ == emulator@,
        slot.hosting_model@ == "ExternalRestricted"@,
        d.flexible_iov == Some(slot),
        d.kernel_path == c.kernel_path && d.initrd_path == c.initrd_path && d.kernel_cmdline
            == c.kernel_cmdline && d.memory_mb == c.memory_mb && d.processor_count
            == c.processor_count,
{
}

/// The device that nothing drives is of the virtio vendor, outside its device ids, of
/// no class, without registers; its config space says the same, and nothing else.
pub proof fn law_spike_device_is_unclaimed(
    s: &SpikeDevice,
    d: PciDetails,
    offset: u32,
    v: u32,
)
    requires
        call_ensures(SpikeDevice::details, (s,), d),
        call_ensures(SpikeDevice::read_config, (s, offset), v),
    ensures
        d.vendor_id == 0x1af4 && d.device_id == 0x1100 && d.revision_id == 1,
        d.base_class == 0xff && d.sub_class == 0 && d.prog_if == 0,
        d.sub_vendor_id == 0x1af4 && d.sub_system_id == 0x40,
        forall|i: int| 0 <= i < 6 ==> #[trigger] d.probed_bars@[i] == 0,
        offset == 0 ==> v % 0x1_0000 == d.vendor_id && v / 0x1_0000 == d.device_id,
        offset == 8 ==> v % 0x100 == d.revision_id && v / 0x100_0000 == d.base_class && v / 0x100
            % 0x1_0000 == 0,
        offset == 0x2c ==> v % 0x1_0000 == d.sub_vendor_id && v / 0x1_0000 == d.sub_system_id,
        offset != 0 && offset != 8 && offset != 0x2c ==> v == 0,
{
}

/// An operation that succeeded gives its document; one that failed tells what it was,
/// its code and its document.
pub proof fn law_operation_tells_its_failure(
    what: &str,
    waited: Waited,
    r: Result<String, String>,
    prefix: &str,
    code: String,
)
    requires
        call_ensures(run_op, (what, waited), r),
        prefix@ == what@ + " failed: HRESULT "@,
        call_ensures(with_hresult, (prefix, waited.hr), code),
    ensures
        r is Ok <==> waited.hr >= 0,
        r matches Ok(d) ==> d@ == waited.document@,
        r matches Err(e) ==> e@ == code@ + "; "@ + waited.document@,
{
    if r is Err {
        assert(r->Err_0@ =~= code@ + "; "@ + waited.document@);
    }
}

/// A system is named after its process and its number, and so is the pipe of its
/// console, which its document names.
pub proof fn law_system_is_named_after_its_process(
    cfg: &RockyConfig,
    pid: u32,
    n: u32,
    c: CreateVm,
    a: &mut String,
    u: (),
    b: &mut String,
    w: (),
    pipe: &str,
    s: String,
    failed: String,
)
    requires
        call_ensures(RockyVm::create, (cfg, pid, n), c),
        a@ == "hvfs-test-"@,
        call_ensures(push_decimal, (a, pid as u64), u),
        b@ == final(a)@ + "-"@,
        call_ensures(push_decimal, (b, n as u64), w),
        pipe@ == c.pipe_name@,
        call_ensures(build_document, (cfg, pipe), s),
        call_ensures(CreateVm::pipe_failed, (&c,), failed),
    ensures
        c.id@ == final(b)@,
        c.pipe_name@ == "\\\\.\\pipe\\"@ + c.id@ + "-com1"@,
        c.document@ == s@,
        failed@ == "CreateNamedPipeW("@ + c.pipe_name@ + ") failed"@,
{
}

/// A system is created, and started, exactly if the operation was made, the call
/// succeeded and waiting for it did; otherwise the first of the three that failed is
/// told. It has the id that it was to have, and the handle that came.
pub proof fn law_system_is_made_if_every_step_succeeds(
    c: CreateVm,
    op_made: bool,
    hr: HRESULT,
    waited: Waited,
    system: usize,
    r: Result<RockyVm, String>,
    vm: &RockyVm,
    s: Result<(), String>,
    h: usize,
    id: &str,
    create_code: String,
    start_code: String,
    ms: u32,
)
    requires
        call_ensures(CreateVm::created, (c, op_made, hr, waited, system), r),
        r is Ok ==> *vm == r->Ok_0,
        call_ensures(RockyVm::start, (vm, op_made, hr, waited), s),
        call_ensures(RockyVm::system_handle, (vm,), h),
        call_ensures(RockyVm::id, (vm,), id),
        call_ensures(with_hresult, ("HcsCreateComputeSystem: HRESULT ", hr), create_code),
        call_ensures(with_hresult, ("HcsStartComputeSystem: HRESULT ", hr), start_code),
        call_ensures(CreateVm::wait_ms, (hr,), ms),
    ensures
        r is Ok <==> op_made && hr >= 0 && waited.hr >= 0,
        s is Ok <==> op_made && hr >= 0 && waited.hr >= 0,
        r is Ok ==> h == system && id@ == c.id@,
        !op_made ==> r->Err_0@ == "HcsCreateOperation returned null"@ && s->Err_0@
            == "HcsCreateOperation returned null"@,
        op_made && hr < 0 ==> r->Err_0@ == create_code@ && s->Err_0@ == start_code@,
        hr < 0 ==> ms == 30000,
        hr >= 0 ==> ms == 60000,
{
}

/// What waiting for an operation that failed gave is told, as the operation tells it.
pub proof fn law_failed_wait_is_told(
    c: CreateVm,
    hr: HRESULT,
    waited: Waited,
    system: usize,
    r: Result<RockyVm, String>,
    vm: &RockyVm,
    s: Result<(), String>,
    x: Result<String, String>,
    y: Result<String, String>,
)
    requires
        hr >= 0 && waited.hr < 0,
        call_ensures(CreateVm::created, (c, true, hr, waited, system), r),
        call_ensures(RockyVm::start, (vm, true, hr, waited), s),
        call_ensures(run_op, ("create", waited), x),
        call_ensures(run_op, ("start", waited), y),
    ensures
        r is Err && x is Err && r->Err_0@ == x->Err_0@,
        s is Err && y is Err && s->Err_0@ == y->Err_0@,
{
}

/// The console is connected where the connect succeeded, or found the client there
/// (535). What is read is appended, until a read fails or is empty.
pub proof fn law_console_keeps_what_was_read(
    connected: bool,
    last_error: u32,
    b: bool,
    console: &mut Vec<u8>,
    ok: bool,
    chunk: &[u8],
    more: bool,
)
    requires
        call_ensures(console_connected, (connected, last_error), b),
        call_ensures(console_read, (console, ok, chunk), more),
    ensures
        !b <==> !connected && last_error != 535,
        !more <==> !ok || chunk@.len() == 0,
        more ==> final(console)@ == old(console)@ + chunk@,
        !more ==> final(console)@ == old(console)@,
{
}

/// The console shows a text exactly where its characters stand in it, one after the
/// other; a wait ends when it does, or when the time is up, which is looked at first,
/// and looks again after 200 milliseconds.
pub proof fn law_wait_ends_when_the_text_is_shown(
    in_time: bool,
    console: &str,
    needle: &str,
    b: bool,
    w: WaitStep,
)
    requires
        call_ensures(console_shows, (console, needle), b),
        call_ensures(wait_for_console, (in_time, console, needle), w),
    ensures
        b <==> exists|i: int|
            0 <= i <= console@.len() - needle@.len() && #[trigger] console@.subrange(
                i,
                i + needle@.len(),
            ) == needle@,
        !in_time ==> w == WaitStep::TimedOut,
        in_time && b ==> w == WaitStep::Found,
        in_time && !b ==> w == WaitStep::Sleep(200),
{
    if b {
        let i = choose|i: int| stands_at(console@, needle@, i);
        assert(console@.subrange(i, i + needle@.len()) == needle@);
    }
    if exists|i: int|
        0 <= i <= console@.len() - needle@.len() && #[trigger] console@.subrange(
            i,
            i + needle@.len(),
        ) == needle@ {
        let i = choose|i: int|
            0 <= i <= console@.len() - needle@.len() && #[trigger] console@.subrange(
                i,
                i + needle@.len(),
            ) == needle@;
        assert(stands_at(console@, needle@, i));
    }
}

/// A trial starts by creating a system whose command line names the tag.
pub proof fn law_trial_starts_by_creating(
    tag: String,
    path: String,
    id: String,
    mb: u32,
    r: (Trial, TrialAction),
)
    requires
        call_ensures(Trial::new, (tag, path, id, mb), r),
    ensures
        r.0.tag == tag && r.0.path == path && r.0.instance_id == id && r.0.memory_mb == mb,
        r.0.stage == TrialStage::Creating && !r.0.mounted,
        r.1 matches TrialAction::Create { kernel_cmdline } && kernel_cmdline@
            == "console=ttyS0 atelier.hptags="@ + tag@,
{
}

/// A step of a trial that succeeds is followed by the next: the host is opened on the
/// system, the system started, the guest waited for, the share added, the mount waited
/// for, the host closed. One that fails ends the trial, by closing the host where it
/// was opened. The trial tells whether the mount was seen.
pub proof fn law_trial_goes_step_by_step(
    t: &mut Trial,
    ok: bool,
    a: TrialAction,
    json: &mut String,
    u: (),
)
    requires
        call_ensures(Trial::try_once, (t, ok), a),
        json@ == "{\"memory_mb\":"@,
        call_ensures(push_decimal, (json, t.memory_mb as u64), u),
    ensures
        old(t).stage == TrialStage::Creating && ok ==> (a matches TrialAction::OpenHost { host_json }
            && host_json@ == final(json)@ + "}"@),
        old(t).stage == TrialStage::Opening && ok ==> a is Start,
        old(t).stage == TrialStage::Starting && ok ==> (a matches TrialAction::WaitFor {
            needle,
            seconds,
        } && needle@ == "GUEST_READY"@ && seconds == 90),
        old(t).stage == TrialStage::Booting && ok ==> a is AddShare,
        old(t).stage == TrialStage::Adding && ok ==> (a matches TrialAction::WaitFor {
            needle,
            seconds,
        } && needle@ == "HOTPLUG_MOUNT_PASS tag="@ + old(t).tag@ && seconds == 45),
        old(t).stage == TrialStage::Mounting ==> a is CloseHost && final(t).mounted == ok,
        old(t).stage != TrialStage::Mounting ==> final(t).mounted == old(t).mounted,
        !ok && (old(t).stage == TrialStage::Starting || old(t).stage == TrialStage::Booting
            || old(t).stage == TrialStage::Adding) ==> a is CloseHost,
        old(t).stage == TrialStage::Closing || old(t).stage == TrialStage::Over || (!ok && (
        old(t).stage == TrialStage::Creating || old(t).stage == TrialStage::Opening)) ==> a
            == TrialAction::Finished(old(t).mounted),
        final(t).tag == old(t).tag && final(t).path == old(t).path && final(t).instance_id
            == old(t).instance_id && final(t).memory_mb == old(t).memory_mb,
        a is OpenHost <==> final(t).stage == TrialStage::Opening,
        a is Start <==> final(t).stage == TrialStage::Starting,
        a is AddShare <==> final(t).stage == TrialStage::Adding,
        a is CloseHost <==> final(t).stage == TrialStage::Closing,
        a is Finished <==> final(t).stage == TrialStage::Over,
{
}

/// The share that a trial adds is the directory, under the tag and the instance, and it
/// can be written to.
pub proof fn law_trial_adds_its_share(t: &mut Trial, a: TrialAction) -> (j: crate::json::Json)
    requires
        call_ensures(Trial::try_once, (t, true), a),
        t.stage == TrialStage::Booting,
    ensures
        a matches TrialAction::AddShare { share_json } && share_json@ == crate::json::json_text(j),
        field(j, "tag"@) == crate::json::Json::Text(old(t).tag@),
        field(j, "path"@) == crate::json::Json::Text(old(t).path@),
        field(j, "instance_id"@) == crate::json::Json::Text(old(t).instance_id@),
        field(j, "ro"@) == crate::json::Json::Flag(false),
{
    lemma_names_differ();
    share_document(t.tag@, t.path@, t.instance_id@)
}

/// An attempt that mounted the share passes; one that did not is followed by another,
/// until there were four.
pub proof fn law_four_attempts_are_made(made: usize, mounted: bool, r: Attempt)
    requires
        call_ensures(next_attempt, (made, mounted), r),
    ensures
        r == Attempt::Passed <==> mounted,
        r == Attempt::Again <==> !mounted && made < 4,
        r == Attempt::Failed <==> !mounted && made >= 4,
{
}

/// The waits for the host.
pub proof fn law_timeouts()
    ensures
        CREATE_TIMEOUT_MS == 60000,
        REFUSED_TIMEOUT_MS == 30000,
        START_TIMEOUT_MS == 60000,
        TERMINATE_TIMEOUT_MS == 30000,
{
}

/// The device that nothing drives starts, and what is read of its registers is zeroes.
pub proof fn law_spike_device_does_nothing(
    s: &SpikeDevice,
    ok: bool,
    bar: u8,
    offset: u64,
    data: &mut [u8],
    u: (),
)
    requires
        call_ensures(SpikeDevice::start, (s,), ok),
        call_ensures(SpikeDevice::read_bar, (s, bar, offset, data), u),
    ensures
        ok,
        final(data)@.len() == old(data)@.len(),
        forall|i: int| 0 <= i < old(data)@.len() ==> #[trigger] final(data)@[i] == 0,
{
}

} // verus!
