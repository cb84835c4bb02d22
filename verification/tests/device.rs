use hyperv_virtiofs::attach::{AttachAction, AttachError, VirtioHdvDevice};
use hyperv_virtiofs::doorbell::{
    bar_and_offset, enabled, size_flag, DoorbellError, HdvDoorbells, RegisterStep, Route,
    Unregister,
};
use hyperv_virtiofs::handle::{Device, DeviceHandle, DeviceSlots};
use hyperv_virtiofs::hdv::{hr, DeviceHost, Error};
use hyperv_virtiofs::interrupt::{rearm_tick_ms, Delivery, HdvSignalMsi, InterruptLog};
use hyperv_virtiofs::pci::{
    access_reaches_device, details_reply, guard_hr, on_get_details, on_start, start_status,
    PciDetails, PciDevice, PciOps,
};
use hyperv_virtiofs::proxy::{DeviceHostSupport, OutPointer, ProxyCall, QueryReply};
use hyperv_virtiofs::sys::{
    E_FAIL, E_NOINTERFACE, E_POINTER, FLEXIO_DEVICE_ID, GUID, HDV_DEVICE_HOST_FLAGS,
    HDV_DEVICE_TYPE, HDV_DOORBELL_FLAG_TRIGGER_ANY_VALUE, HDV_DOORBELL_FLAG_TRIGGER_SIZE_ANY,
    HDV_DOORBELL_FLAG_TRIGGER_SIZE_BYTE, HDV_DOORBELL_FLAG_TRIGGER_SIZE_DWORD,
    HDV_DOORBELL_FLAG_TRIGGER_SIZE_QWORD, HDV_DOORBELL_FLAG_TRIGGER_SIZE_WORD,
    HDV_PCI_BAR_SELECTOR, HDV_PCI_INTERFACE_VERSION, HDV_PCI_PNP_ID, HR_MOD_NOT_FOUND,
    HVFS_DEVICE_CLASS_ID, HVFS_DEVICE_INSTANCE_ID, IID_IUNKNOWN, IID_IVMDEVICEHOSTSUPPORT, S_OK,
    VIRTIO_FS_DEVICE_CLASS_ID,
};
use hyperv_virtiofs::testvm::SpikeDevice;
use hyperv_virtiofs::transport::{
    bar_base, cfg_read, details_from, fill, program_internal_bars, read_bar, read_outcome,
    write_bar, write_outcome, BarProbe, BarStep, ConfigWrite, MmioOutcome, ProbeAction, BAR0_BASE,
    BAR2_BASE, PROBE_STEPS,
};
use hyperv_virtiofs::vmworker::{
    connect_with, ConnectAction, Doorbell, DoorbellCall, FiovDoorbells, Obtained,
};

fn guid(n: u32) -> GUID {
    GUID { Data1: n, Data2: 0, Data3: 0, Data4: [0; 8] }
}

#[test]
fn bar_translation() {
    assert!(matches!(
        bar_and_offset(BAR0_BASE + 0x38),
        Some((HDV_PCI_BAR_SELECTOR::Bar0, 0x38))
    ));
    assert!(matches!(
        bar_and_offset(BAR2_BASE),
        Some((HDV_PCI_BAR_SELECTOR::Bar2, 0))
    ));
    assert!(bar_and_offset(BAR0_BASE - 1).is_none());
    assert!(bar_and_offset(BAR2_BASE + 0x1000).is_none());
}

#[test]
fn size_flags() {
    assert_eq!(size_flag(Some(2)), HDV_DOORBELL_FLAG_TRIGGER_SIZE_WORD);
    assert_eq!(size_flag(Some(8)), HDV_DOORBELL_FLAG_TRIGGER_SIZE_QWORD);
    assert_eq!(size_flag(None), HDV_DOORBELL_FLAG_TRIGGER_SIZE_ANY);
    assert_eq!(size_flag(Some(3)), HDV_DOORBELL_FLAG_TRIGGER_SIZE_ANY);
    assert_eq!(size_flag(Some(1)), HDV_DOORBELL_FLAG_TRIGGER_SIZE_BYTE);
    assert_eq!(size_flag(Some(4)), HDV_DOORBELL_FLAG_TRIGGER_SIZE_DWORD);
}

#[test]
fn doorbells_are_on_unless_switched_off() {
    assert!(enabled(None));
    assert!(enabled(Some("1")));
    assert!(enabled(Some("")));
    assert!(enabled(Some("OFF")));
    assert!(!enabled(Some("0")));
    assert!(!enabled(Some("false")));
    assert!(!enabled(Some("off")));
}

fn bound() -> (DeviceSlots, DeviceHandle) {
    let mut slots = DeviceSlots::new();
    let h = DeviceHandle::new(&mut slots);
    h.set(&mut slots, Device(0x77));
    (slots, h)
}

#[test]
fn doorbell_is_registered_with_hdv_and_removed_there() {
    let (mut slots, h) = bound();
    let d: HdvDoorbells<u32> = HdvDoorbells::new(h, None);
    let step = d.register_doorbell(&slots, true, BAR0_BASE + 0x38, Some(1), Some(2), 0xe0);
    let (device, doorbell, event) = match step {
        RegisterStep::Hdv { device, doorbell, event } => (device, doorbell, event),
        _ => panic!("the device is bound"),
    };
    assert_eq!((device, event), (Device(0x77), 0xe0));
    assert_eq!(
        doorbell,
        Doorbell { bar: HDV_PCI_BAR_SELECTOR::Bar0, offset: 0x38, trigger_value: 1, flags: 2 }
    );
    let guard = match d.hdv_answered(doorbell, event, 0) {
        RegisterStep::Registered(g) => g,
        _ => panic!("HDV took it"),
    };
    assert_eq!(guard.event, 0xe0);
    match guard.unregister(&slots) {
        Unregister::Hdv { device, doorbell: e } => {
            assert_eq!(device, Device(0x77));
            assert_eq!(e, doorbell);
        }
        _ => panic!("by the same route"),
    }
    let guard = match d.hdv_answered(doorbell, event, 0) {
        RegisterStep::Registered(g) => g,
        _ => panic!("HDV took it"),
    };
    h.set(&mut slots, Device(0));
    assert!(matches!(guard.unregister(&slots), Unregister::Nothing));
}

#[test]
fn doorbell_for_any_value_is_flagged() {
    let (slots, h) = bound();
    let d: HdvDoorbells<u32> = HdvDoorbells::new(h, None);
    match d.register_doorbell(&slots, true, BAR2_BASE, None, Some(4), 1) {
        RegisterStep::Hdv { doorbell, .. } => {
            assert_eq!(doorbell.trigger_value, 0);
            assert_eq!(
                doorbell.flags,
                HDV_DOORBELL_FLAG_TRIGGER_SIZE_DWORD | HDV_DOORBELL_FLAG_TRIGGER_ANY_VALUE
            );
        }
        _ => panic!("the device is bound"),
    }
}

#[test]
fn doorbell_goes_through_the_worker_where_hdv_refuses() {
    let (slots, h) = bound();
    let mut d: HdvDoorbells<u32> = HdvDoorbells::new(h, Some((guid(1), guid(2))));
    let denied = 0x8007_0005u32 as i32;
    let doorbell = match d.register_doorbell(&slots, true, BAR0_BASE, Some(0), None, 0xe1) {
        RegisterStep::Hdv { doorbell, .. } => doorbell,
        _ => panic!("the device is bound"),
    };
    let refusal = match d.hdv_answered(doorbell, 0xe1, denied) {
        RegisterStep::Connect { runtime_id, instance_id, refusal, event, .. } => {
            assert_eq!((runtime_id, instance_id, event), (guid(1), guid(2), 0xe1));
            refusal
        }
        _ => panic!("not connected yet"),
    };
    assert!(matches!(
        d.worker_connected(doorbell, 0xe1, refusal, None),
        RegisterStep::Failed(DoorbellError::Refused(Error::Hdv(_)))
    ));
    assert!(matches!(d.hdv_answered(doorbell, 0xe1, denied), RegisterStep::Connect { .. }));
    let (conn, event) = match d.worker_connected(doorbell, 0xe1, refusal, Some(9)) {
        RegisterStep::Worker { conn, event, .. } => (conn, event),
        _ => panic!("connected"),
    };
    assert_eq!((conn, event), (9, 0xe1));
    let guard = match d.worker_answered(conn, doorbell, event, 0) {
        RegisterStep::Registered(g) => g,
        _ => panic!("the worker took it"),
    };
    assert_eq!(guard.event, 0xe1);
    match guard.unregister(&DeviceSlots::new()) {
        Unregister::Worker { conn: 9, doorbell: e } => assert_eq!(e, doorbell),
        _ => panic!("by the same connection"),
    }
    assert!(matches!(
        d.hdv_answered(doorbell, 0xe2, denied),
        RegisterStep::Worker { conn: 9, event: 0xe2, .. }
    ));
}

#[test]
fn doorbell_failures_are_told_apart() {
    let (slots, h) = bound();
    let mut d: HdvDoorbells<u32> = HdvDoorbells::new(h, Some((guid(1), guid(2))));
    let mut fails = |on: bool, addr: u64, hdv: i32, conn: Option<u32>, worker: i32| {
        match d.register_with(&slots, on, addr, None, None, 5, hdv, conn, worker) {
            Ok(_) => panic!("should fail"),
            Err(e) => e,
        }
    };
    assert_eq!(fails(false, BAR0_BASE, 0, None, 0), DoorbellError::Disabled);
    assert_eq!(fails(true, 5, 0, None, 0), DoorbellError::BadAddress);
    assert_eq!(fails(true, BAR0_BASE, -1, None, 0), DoorbellError::Refused(Error::Hdv(-1)));
    assert_eq!(fails(true, BAR0_BASE, -1, Some(3), -2), DoorbellError::Refused(Error::Hdv(-2)));
    let mut empty = DeviceSlots::new();
    let unset = DeviceHandle::new(&mut empty);
    let mut unbound: HdvDoorbells<u32> = HdvDoorbells::new(unset, None);
    assert!(matches!(
        unbound.register_with(&empty, true, BAR0_BASE, None, None, 5, 0, None, 0),
        Err(DoorbellError::NotBound)
    ));
    let ok = d.register_with(&slots, true, BAR0_BASE, None, None, 5, -1, None, 0);
    assert!(matches!(ok, Ok(g) if matches!(g.route, Route::Worker(3)) && g.event == 5));
    let ok = d.register_with(&slots, true, BAR0_BASE, None, None, 6, 0, None, 0);
    assert!(matches!(ok, Ok(g) if matches!(g.route, Route::Hdv(on) if on == h) && g.event == 6));
    assert_eq!(
        DoorbellError::Disabled.message().unwrap(),
        "doorbells disabled (VIRTIO_HDV_DOORBELL=0)"
    );
    assert_eq!(
        DoorbellError::BadAddress.message().unwrap(),
        "doorbell address outside the internal BAR windows"
    );
    assert_eq!(DoorbellError::NotBound.message().unwrap(), "HDV device not bound yet");
    assert!(DoorbellError::Refused(Error::NotLinked).message().is_none());
}

#[test]
fn worker_connection_releases_what_it_holds() {
    let ok = |p| Obtained { hr: 0, interface: p };
    let bad = Obtained { hr: -7, interface: 0 };
    let run = |e, a, b, c| {
        let (r, rel) = connect_with(e, a, b, c, guid(1), guid(2));
        (r, rel)
    };
    assert_eq!(
        run(false, ok(1), ok(2), ok(3)),
        (Err(Error::Hdv(HR_MOD_NOT_FOUND)), vec![])
    );
    assert_eq!(run(true, bad, ok(2), ok(3)), (Err(Error::Hdv(-7)), vec![]));
    assert_eq!(run(true, ok(0), ok(2), ok(3)), (Err(Error::Hdv(E_NOINTERFACE)), vec![]));
    assert_eq!(run(true, ok(1), bad, ok(3)), (Err(Error::Hdv(-7)), vec![1]));
    assert_eq!(run(true, ok(1), ok(2), bad), (Err(Error::Hdv(-7)), vec![2, 1]));
    assert_eq!(
        run(true, ok(1), ok(2), ok(0)),
        (Err(Error::Hdv(E_NOINTERFACE)), vec![2, 1])
    );
    assert_eq!(
        run(true, ok(1), ok(2), ok(3)),
        (Ok(FiovDoorbells { notification: 3 }), vec![2, 1])
    );
    assert_eq!(HR_MOD_NOT_FOUND, 0x8007_007Eu32 as i32);
}

#[test]
fn worker_connection_asks_in_order() {
    let (mut c, a) = FiovDoorbells::connect(guid(1), guid(2));
    assert!(matches!(a, ConnectAction::ResolveExport));
    assert!(matches!(
        c.resolved(true),
        ConnectAction::GetWorker { runtime_id, .. } if runtime_id == guid(1)
    ));
    assert!(matches!(
        c.obtained(Obtained { hr: 0, interface: 5 }),
        ConnectAction::GetDevice { access: 5, category, instance_id }
            if category == FLEXIO_DEVICE_ID() && instance_id == guid(2)
    ));
    assert!(matches!(
        c.obtained(Obtained { hr: 0, interface: 6 }),
        ConnectAction::QueryNotification { device: 6, .. }
    ));
}

#[test]
fn worker_calls_carry_the_doorbell() {
    let d = Doorbell { bar: HDV_PCI_BAR_SELECTOR::Bar2, offset: 8, trigger_value: 3, flags: 4 };
    let f = FiovDoorbells { notification: 11 };
    let call = |event| DoorbellCall {
        target: 11,
        bar: 2,
        offset: 8,
        trigger_value: 3,
        flags: 4,
        event,
    };
    assert_eq!(f.register_doorbell(d, 0xe0), call(Some(0xe0)));
    assert_eq!(f.unregister_doorbell(d), call(None));
}

#[test]
fn log_dedups_and_stamps() {
    let mut log = InterruptLog::new();
    log.record(0xfee0_0000, 1);
    log.record(0xfee0_0000, 1);
    log.record(0xfee0_0000, 2);
    let mut buf = vec![(0u64, 0u32); 8];
    log.snapshot_into(&mut buf);
    assert_eq!(buf, vec![(0xfee0_0000, 1), (0xfee0_0000, 2)]);
    assert!(log.idle_ms() < 1000);
}

#[test]
fn a_log_without_deliveries_is_idle_for_ever() {
    let mut log = InterruptLog::new();
    assert_eq!(log.idle_ms(), u64::MAX);
    log.record_at(1, 1, 100);
    assert_eq!(log.idle_at(130), 30);
    assert_eq!(log.idle_at(90), 0);
}

#[test]
fn activity_is_stamped_in_milliseconds() {
    let mut log = InterruptLog::new();
    while log.start.elapsed() < std::time::Duration::from_millis(20) {}
    log.record(1, 1);
    let ms = log.last_activity_ms.unwrap();
    assert!((20..20_000).contains(&ms), "{ms}");
}

#[test]
fn interrupts_need_a_device_and_are_delivered_again() {
    let mut slots = DeviceSlots::new();
    let h = DeviceHandle::new(&mut slots);
    let mut t = HdvSignalMsi::new(h.clone(), InterruptLog::new());
    assert_eq!(t.signal_msi(&slots, 1, 2), None);
    assert!(t.seen.pairs.is_empty());
    assert!(t.rearm(&slots).is_empty());
    h.set(&mut slots, Device(4));
    assert_eq!(
        t.signal_msi(&slots, 1, 2),
        Some(Delivery { device: Device(4), address: 1, data: 2 })
    );
    t.signal_msi(&slots, 3, 4);
    t.signal_msi(&slots, 1, 2);
    assert_eq!(
        t.rearm(&slots),
        vec![
            Delivery { device: Device(4), address: 1, data: 2 },
            Delivery { device: Device(4), address: 3, data: 4 },
        ]
    );
}

#[test]
fn a_handle_is_empty_until_set() {
    let mut slots = DeviceSlots::default();
    let h = DeviceHandle::new(&mut slots);
    assert_eq!(h.get(&slots), None);
    h.set(&mut slots, Device(9));
    assert_eq!(h.get(&slots), Some(Device(9)));
    h.set(&mut slots, Device(0));
    assert_eq!(h.get(&slots), None);
}

#[test]
fn clones_of_a_handle_see_the_same_device() {
    let mut slots = DeviceSlots::new();
    let h = DeviceHandle::new(&mut slots);
    let before = h.clone();
    let other = DeviceHandle::new(&mut slots);
    h.set(&mut slots, Device(9));
    let after = h.clone();
    for c in [h, before, after] {
        assert_eq!(c.get(&slots), Some(Device(9)));
    }
    assert_eq!(other.get(&slots), None);
    other.set(&mut slots, Device(3));
    assert_eq!((before.get(&slots), other.get(&slots)), (Some(Device(9)), Some(Device(3))));
}

#[test]
fn the_rearm_tick_follows_activity() {
    let mut log = InterruptLog::new();
    assert_eq!(rearm_tick_ms(log.idle_ms()), 50);
    log.record_at(1, 1, 1_000);
    assert_eq!(rearm_tick_ms(log.idle_at(1_000)), 5);
    assert_eq!(rearm_tick_ms(log.idle_at(1_099)), 5);
    assert_eq!(rearm_tick_ms(log.idle_at(1_100)), 50);
    log.record_at(1, 1, 2_000);
    assert_eq!(rearm_tick_ms(log.idle_at(2_001)), 5);
}

#[test]
fn idle_time_runs_from_the_start_of_the_log() {
    let mut log = InterruptLog::new();
    log.record_at(1, 1, 0);
    while log.start.elapsed() < std::time::Duration::from_millis(20) {}
    assert!((20..20_000).contains(&log.idle_ms()));
}

#[test]
fn result_codes() {
    assert_eq!(hr(0), Ok(()));
    assert_eq!(hr(1), Ok(()));
    assert_eq!(hr(-1), Err(Error::Hdv(-1)));
    assert_eq!(E_POINTER, 0x8000_4003u32 as i32);
    assert_eq!(E_FAIL, 0x8000_4005u32 as i32);
    assert_eq!(E_NOINTERFACE, 0x8000_4002u32 as i32);
    assert_eq!(DeviceHost::open("id"), Err(Error::NotLinked));
    assert_eq!(DeviceHost::from_proxy(-4, 1), Err(Error::Hdv(-4)));
    assert_eq!(DeviceHost::from_proxy(0, 1), Ok(DeviceHost { raw: 1 }));
}

#[test]
fn numbers_of_the_hdv_vocabulary() {
    assert_eq!((HDV_DEVICE_TYPE::Undefined.value(), HDV_DEVICE_TYPE::Pci.value()), (0, 1));
    assert_eq!(HDV_DEVICE_HOST_FLAGS::NoFlags.value(), 0);
    assert_eq!(HDV_DEVICE_HOST_FLAGS::InitializeComSecurity.value(), 1);
    assert_eq!(HDV_PCI_INTERFACE_VERSION::Invalid.value(), 0);
    assert_eq!(HDV_PCI_INTERFACE_VERSION::Version1.value(), 1);
    for n in 0..6 {
        assert_eq!(HDV_PCI_BAR_SELECTOR::from_value(n).unwrap().value() as i32, n);
    }
    assert!(HDV_PCI_BAR_SELECTOR::from_value(6).is_none());
    assert!(HDV_PCI_BAR_SELECTOR::from_value(-1).is_none());
    assert_eq!(HDV_PCI_PNP_ID::default().VendorID, 0);
}

#[test]
fn callbacks_report_to_hdv() {
    assert_eq!(guard_hr(None), E_FAIL);
    assert_eq!(guard_hr(Some(3)), 3);
    assert_eq!(start_status(true), S_OK);
    assert_eq!(start_status(false), E_FAIL);
    assert_eq!(on_start(&SpikeDevice), S_OK);
    assert!(access_reaches_device(true, 1));
    assert!(!access_reaches_device(true, 0));
    assert!(!access_reaches_device(false, 1));
    let r = on_get_details(&SpikeDevice, 9);
    assert_eq!(r.pnp_id.VendorID, 0x1af4);
    assert_eq!(r.probed_bars, vec![0; 6]);
    let mut d = SpikeDevice.details();
    d.probed_bars = [1, 2, 3, 4, 5, 6];
    assert_eq!(details_reply(&d, 2).probed_bars, vec![1, 2]);
    assert_eq!(details_reply(&d, 7).probed_bars, vec![1, 2, 3, 4, 5, 6]);
}

struct Broken;

impl PciOps for Broken {
    fn details(&self) -> PciDetails {
        SpikeDevice.details()
    }
    fn read_config(&self, _offset: u32) -> u32 {
        0
    }
    fn write_config(&self, _offset: u32, _value: u32) {}
    fn start(&self) -> bool {
        false
    }
}

#[test]
fn a_device_that_does_not_start_fails() {
    assert_eq!(on_start(&Broken), E_FAIL);
    let mut data = [7u8; 3];
    Broken.read_bar(0, 0, &mut data);
    assert_eq!(data, [0; 3]);
}

#[test]
fn spike_device_has_a_coherent_header() {
    let d = SpikeDevice;
    let probed = details_from(d.read_config(0), d.read_config(8), d.read_config(0x2c), [0; 6]);
    let stated = d.details();
    assert_eq!(format!("{probed:?}"), format!("{stated:?}"));
    assert_eq!(d.read_config(0), 0x1100_1af4);
    assert_eq!(d.read_config(0x2c), 0x0040_1af4);
    assert_eq!(d.read_config(4), 0);
}

#[test]
fn devices_are_requested_and_made() {
    let r = PciDevice::create(DeviceHost { raw: 3 });
    assert_eq!(r.device_type, HDV_DEVICE_TYPE::Pci);
    assert_eq!((r.class_id, r.instance_id), (HVFS_DEVICE_CLASS_ID(), HVFS_DEVICE_INSTANCE_ID()));
    match r.created(-6, Device(0)) {
        Err(e) => assert_eq!(e, Error::Hdv(-6)),
        Ok(_) => panic!("refused"),
    }
    let r = PciDevice::create_with_instance(DeviceHost { raw: 3 }, &guid(8));
    assert_eq!((r.class_id, r.instance_id), (HVFS_DEVICE_CLASS_ID(), guid(8)));
    let p = match r.created(0, Device(12)) {
        Ok(p) => p,
        Err(_) => panic!("made"),
    };
    assert_eq!(p.device(), Device(12));
    assert_eq!(p.host().raw, 3);
    assert_eq!(p.host_arc().raw, 3);
}

#[test]
fn registers_are_routed_by_their_internal_bases() {
    assert_eq!(bar_base(0), Some(BAR0_BASE));
    assert_eq!(bar_base(2), Some(BAR2_BASE));
    assert_eq!(bar_base(1), None);
    assert_eq!(bar_base(4), None);
    assert_eq!(read_bar(0, 0x10), BarStep::Mmio(0x1_0000_0010));
    assert_eq!(read_bar(1, 0x10), BarStep::Ones);
    assert_eq!(write_bar(2, 4), BarStep::Mmio(0x1_0000_1004));
    assert_eq!(write_bar(5, 4), BarStep::Done);
    assert_eq!(read_outcome(MmioOutcome::Success), BarStep::Done);
    assert_eq!(read_outcome(MmioOutcome::Failed), BarStep::Ones);
    assert_eq!(read_outcome(MmioOutcome::Deferred), BarStep::Wait);
    assert_eq!(write_outcome(MmioOutcome::Failed), BarStep::Done);
    assert_eq!(write_outcome(MmioOutcome::Deferred), BarStep::Wait);
    let mut data = vec![1, 2];
    fill(&mut data, 0xff);
    assert_eq!(data, vec![0xff, 0xff]);
    assert_eq!(cfg_read(None), 0);
    assert_eq!(cfg_read(Some(3)), 3);
}

#[test]
fn internal_bases_are_programmed_low_half_first() {
    assert_eq!(
        program_internal_bars(),
        [
            ConfigWrite { offset: 0x10, value: 0 },
            ConfigWrite { offset: 0x14, value: 1 },
            ConfigWrite { offset: 0x18, value: 0x1000 },
            ConfigWrite { offset: 0x1c, value: 1 },
        ]
    );
}

#[test]
fn probe_sizes_and_restores_every_register() {
    let mut regs = [0u32; 16];
    regs[0] = 0x105a_1af4;
    regs[2] = 0x0180_0002;
    regs[11] = 0x0040_1af4;
    for i in 0..6 {
        regs[4 + i] = 0x1000 * i as u32;
    }
    let before = regs;
    let (mut p, mut a) = BarProbe::new();
    let mut steps = 0;
    let details = loop {
        let answer = match a {
            ProbeAction::Read(o) => regs[o as usize / 4],
            ProbeAction::Write(o, v) => {
                regs[o as usize / 4] = v & 0xffff_f000;
                0
            }
            ProbeAction::Finished(d) => break d,
        };
        steps += 1;
        a = p.answer(answer);
    };
    assert_eq!(steps, PROBE_STEPS);
    assert_eq!(regs, before);
    assert_eq!(details.probed_bars, [0xffff_f000; 6]);
    assert_eq!((details.vendor_id, details.device_id), (0x1af4, 0x105a));
    assert_eq!((details.base_class, details.sub_class), (0x01, 0x80));
    assert_eq!((details.prog_if, details.revision_id), (0, 2));
    assert_eq!((details.sub_system_id, details.sub_vendor_id), (0x40, 0x1af4));
}

#[test]
fn attach_publishes_the_handle_once_the_device_is_made() {
    let (mut at, a) = VirtioHdvDevice::attach(DeviceHost { raw: 1 }, "C:\\ws", "work", 1 << 30);
    assert!(matches!(a, AttachAction::OpenFs { workspace } if workspace == "C:\\ws"));
    match at.fs_opened(Ok(())) {
        AttachAction::BuildTransport { tag, max_address } => {
            assert_eq!((tag.as_str(), max_address), ("work", 5 << 30));
        }
        _ => panic!("opened"),
    }
    let request = match at.transport_built(Ok(())) {
        AttachAction::Create { bars, request } => {
            assert_eq!(bars, program_internal_bars());
            request
        }
        _ => panic!("built"),
    };
    assert_eq!(request.instance_id, HVFS_DEVICE_INSTANCE_ID());
    let mut slots = DeviceSlots::new();
    let handle = DeviceHandle::new(&mut slots);
    let mut msi = HdvSignalMsi::new(handle, InterruptLog::new());
    assert_eq!(msi.signal_msi(&slots, 1, 2), None);
    let v = match at.created(request, 0, Device(5), handle, &mut slots) {
        Ok(v) => v,
        Err(_) => panic!("made"),
    };
    assert_eq!(handle.get(&slots), Some(Device(5)));
    assert_eq!(v.handle.get(&slots), Some(Device(5)));
    assert_eq!(msi.signal_msi(&slots, 1, 2).unwrap().device, Device(5));
    assert_eq!(v.device(), Device(5));
}

#[test]
fn attach_failures_are_told_apart() {
    let host = std::sync::Arc::new(DeviceHost { raw: 1 });
    let shared = || {
        VirtioHdvDevice::attach_shared(
            host.clone(),
            "dir",
            "tag",
            0,
            &VIRTIO_FS_DEVICE_CLASS_ID(),
            &guid(3),
        )
        .0
    };
    match shared().fs_opened(Err("no dir".to_string())) {
        AttachAction::Failed(e) => assert_eq!(e.message(""), "virtio-fs backend: no dir"),
        _ => panic!("failed"),
    }
    let mut at = shared();
    at.fs_opened(Ok(()));
    match at.transport_built(Err("no bus".to_string())) {
        AttachAction::Failed(e) => assert_eq!(e.message(""), "virtio PCI transport: no bus"),
        _ => panic!("failed"),
    }
    let mut at = shared();
    at.fs_opened(Ok(()));
    let request = match at.transport_built(Ok(())) {
        AttachAction::Create { request, .. } => request,
        _ => panic!("built"),
    };
    assert_eq!((request.class_id, request.instance_id), (VIRTIO_FS_DEVICE_CLASS_ID(), guid(3)));
    let mut slots = DeviceSlots::new();
    let handle = DeviceHandle::new(&mut slots);
    match at.created(request, -3, Device(5), handle, &mut slots) {
        Err(e) => {
            assert!(matches!(e, AttachError::Hdv(Error::Hdv(-3))));
            assert_eq!(e.message("code -3"), "HDV: code -3");
        }
        Ok(_) => panic!("refused"),
    }
    assert_eq!(handle.get(&slots), None);
}

#[test]
fn attach_with_instance_is_of_the_well_known_class() {
    let host = DeviceHost { raw: 1 };
    let (at, a) = VirtioHdvDevice::attach_with_instance(host, "w", "t", u64::MAX, &guid(8));
    assert_eq!((at.class_id, at.instance_id), (HVFS_DEVICE_CLASS_ID(), guid(8)));
    assert_eq!(at.max_address, u64::MAX);
    assert!(matches!(a, AttachAction::OpenFs { workspace } if workspace == "w"));
}

#[test]
fn support_object_answers_queries() {
    let mut s = DeviceHostSupport::new(8);
    assert_eq!(
        s.query_interface(false, Some(IID_IUNKNOWN())),
        QueryReply { hr: E_POINTER, out: OutPointer::Untouched }
    );
    assert_eq!(
        s.query_interface(true, None),
        QueryReply { hr: E_POINTER, out: OutPointer::Null }
    );
    assert_eq!(
        s.query_interface(true, Some(guid(1))),
        QueryReply { hr: E_NOINTERFACE, out: OutPointer::Null }
    );
    assert_eq!(s.refcount, 1);
    for iid in [IID_IUNKNOWN(), IID_IVMDEVICEHOSTSUPPORT()] {
        assert_eq!(
            s.query_interface(true, Some(iid)),
            QueryReply { hr: S_OK, out: OutPointer::This }
        );
    }
    assert_eq!(s.add_ref(), 4);
    assert_eq!(s.release(), 3);
    assert_eq!((s.release(), s.release(), s.release()), (2, 1, 0));
}

#[test]
fn support_object_records_registrations() {
    let mut s = DeviceHostSupport::new(8);
    assert!(!s.was_registered());
    assert_eq!(s.register_device_host(42), ProxyCall { system: 8, pid: 42 });
    assert!(s.was_registered());
    assert_eq!(s.device_host_pid(), 42);
    assert_eq!(s.proxied(-1, Some(9)), -1);
    assert_eq!((s.register_hr(), s.ipc_section()), (-1, 0));
    assert_eq!(s.proxied(0, Some(9)), 0);
    assert_eq!((s.register_hr(), s.ipc_section()), (0, 9));
    s.proxied(0, None);
    assert_eq!(s.ipc_section(), 9);
}
