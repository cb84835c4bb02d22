use hyperv_virtiofs::abi::{
    add_share_with, cstr, guard, hcs_modify, host_open_with, hvfs_abi_version, hvfs_add_share,
    hvfs_host, hvfs_host_close,
    hvfs_host_open, hvfs_remove_share, hvfs_share, hvfs_share_instance_id, set_last_error,
    slot_request, CloseStep, HostConfig, OutParam, Refusal, Release, RemoveSlot, RemoveStep,
    ShareConfig, HVFS_ABI_VERSION, HVFS_ERR_HDV,
    HVFS_ERR_INVALID_ARG, HVFS_ERR_NOT_IMPLEMENTED, HVFS_ERR_PANIC, HVFS_ERR_UNSUPPORTED, HVFS_OK,
};
use hyperv_virtiofs::hdv::DeviceHost;
use hyperv_virtiofs::sys::{
    GENERIC_ALL, HRESULT_NOT_SUPPORTED, HVFS_DEVICE_HOST_ID, VIRTIO_FS_DEVICE_CLASS_ID,
};
use hyperv_virtiofs::utf16::{from_wide_lossy, wide};

fn refusal<T>(r: Result<T, Refusal>) -> Refusal {
    match r {
        Ok(_) => panic!("should be refused"),
        Err(e) => e,
    }
}

fn accepted<T>(r: Result<T, Refusal>) -> T {
    match r {
        Ok(t) => t,
        Err(e) => panic!("should be accepted: {}", e.last_error),
    }
}

#[test]
fn abi_version_is_two() {
    assert_eq!(hvfs_abi_version(), 2);
    assert_eq!(hvfs_abi_version(), HVFS_ABI_VERSION);
}

#[test]
fn status_codes_are_distinct_and_signed() {
    let codes = [
        HVFS_OK,
        HVFS_ERR_INVALID_ARG,
        HVFS_ERR_NOT_IMPLEMENTED,
        HVFS_ERR_PANIC,
        HVFS_ERR_HDV,
        HVFS_ERR_UNSUPPORTED,
    ];
    for (i, a) in codes.iter().enumerate() {
        for b in &codes[i + 1..] {
            assert_ne!(a, b, "status codes must be distinct");
        }
    }
    assert_eq!(HVFS_OK, 0);
    assert!(codes[1..].iter().all(|c| *c < 0), "errors must be < 0");
}

#[test]
fn guard_passes_through_normal_return() {
    assert_eq!(guard(Some(HVFS_OK)).code, HVFS_OK);
    assert_eq!(guard(Some(HVFS_ERR_HDV)).code, HVFS_ERR_HDV);
}

#[test]
fn guard_converts_panic_to_panic_code() {
    let g = guard(None);
    assert_eq!(g.code, HVFS_ERR_PANIC);
    assert!(g.last_error.is_some(), "panic should set a thread-local last_error");
    assert_eq!(g.last_error.unwrap(), "panic caught at FFI boundary");
}

#[test]
fn cstr_rejects_null() {
    let e = refusal(cstr(None, "x"));
    assert_eq!(e.code, HVFS_ERR_INVALID_ARG);
    assert_eq!(e.last_error, "null argument: x");
}

#[test]
fn cstr_accepts_valid_utf8() {
    assert_eq!(accepted(cstr(Some(&b"hello"[..]), "x")), "hello");
    assert_eq!(accepted(cstr(Some("h\u{e9}llo \u{1f600}".as_bytes()), "x")), "h\u{e9}llo \u{1f600}");
}

#[test]
fn cstr_rejects_non_utf8() {
    let e = refusal(cstr(Some(&[0xFFu8, 0xFE][..]), "x"));
    assert_eq!(e.code, HVFS_ERR_INVALID_ARG);
    assert_eq!(e.last_error, "non-UTF-8 argument: x");
}

#[test]
fn slot_request_shapes_add_and_remove() {
    for rt in ["Add", "Remove"] {
        let doc = slot_request(rt, "11112222-3333-4444-5555-666677778888", "emul-id");
        let v: serde_json::Value = serde_json::from_str(&doc).unwrap();
        assert_eq!(v["RequestType"], rt);
        assert_eq!(
            v["ResourcePath"],
            "VirtualMachine/Devices/FlexibleIov/11112222-3333-4444-5555-666677778888"
        );
        assert_eq!(v["Settings"]["EmulatorId"], "emul-id");
        assert_eq!(v["Settings"]["HostingModel"], "ExternalRestricted");
    }
}

#[test]
fn slot_request_is_compact_json() {
    assert_eq!(
        slot_request("Add", "i", "e\"\\"),
        "{\"RequestType\":\"Add\",\
         \"ResourcePath\":\"VirtualMachine/Devices/FlexibleIov/i\",\
         \"Settings\":{\"EmulatorId\":\"e\\\"\\\\\",\"HostingModel\":\"ExternalRestricted\"}}"
    );
}

#[test]
fn wide_is_nul_terminated_utf16() {
    assert_eq!(wide("AB"), vec![0x41u16, 0x42, 0x00]);
    assert_eq!(wide(""), vec![0x00u16]);
}

#[test]
fn wide_agrees_with_the_standard_encoding() {
    for s in ["", "plain", "\u{e9}\u{20ac}", "\u{10000}\u{10ffff}\u{ffff}", "a\u{1f600}b"] {
        let expected: Vec<u16> = s.encode_utf16().chain(std::iter::once(0)).collect();
        let w = wide(s);
        assert_eq!(w, expected);
        assert_eq!(from_wide_lossy(&w[..w.len() - 1]), s);
    }
}

#[test]
fn wide_ends_at_its_only_null() {
    let w = wide("C:\\dir \u{10ffff}");
    assert_eq!(w.iter().position(|u| *u == 0), Some(w.len() - 1));
}

#[test]
fn lone_surrogates_are_replaced() {
    let cases: [&[u16]; 6] = [
        &[0xd800],
        &[0xdc00, 0x41],
        &[0xd800, 0x41],
        &[0xd800, 0xd800, 0xdc00],
        &[0xdbff, 0xdfff],
        &[0x41, 0xdfff, 0x42, 0xd83d],
    ];
    for units in cases {
        assert_eq!(from_wide_lossy(units), String::from_utf16_lossy(units));
    }
}

#[test]
fn host_open_rejects_null_out() {
    let e = refusal(hvfs_host_open(true, None, None));
    assert_eq!(e.code, HVFS_ERR_INVALID_ARG);
    assert_eq!(e.last_error, "null out parameter");
    assert!(e.log.is_none());
    assert_eq!(e.out, OutParam::Untouched);
}

#[test]
fn host_open_rejects_null_id_and_clears_out() {
    let e = refusal(hvfs_host_open(false, None, None));
    assert_eq!(e.code, HVFS_ERR_INVALID_ARG);
    assert_eq!(e.last_error, "null argument: hcs_system_id");
    assert_eq!(e.out, OutParam::Null, "out must be cleared to NULL on error");
    let e = refusal(hvfs_host_open(false, Some(&b"id"[..]), None));
    assert_eq!(e.last_error, "null argument: host_json");
    assert_eq!(e.out, OutParam::Null);
}

#[test]
fn host_open_rejects_bad_json_before_touching_platform() {
    let open = accepted(hvfs_host_open(
        false,
        Some(&b"nonexistent-system"[..]),
        Some(&b"{ not valid json"[..]),
    ));
    assert_eq!(open.host_json, "{ not valid json");
    let err = serde_json::from_str::<serde_json::Value>(&open.host_json).unwrap_err();
    let e = refusal(open.parsed(Err(err.to_string())));
    assert_eq!(e.code, HVFS_ERR_INVALID_ARG);
    assert!(e.last_error.starts_with("host_json parse error: "));
    assert_eq!(e.release, Release::Nothing);
    assert_eq!(e.out, OutParam::Null);
}

#[test]
fn host_open_opens_registers_and_counts_the_memory() {
    let open = accepted(hvfs_host_open(false, Some(&b"vm"[..]), Some(&b"{}"[..])));
    let system = accepted(open.parsed(Ok(HostConfig { memory_mb: 512 })));
    assert_eq!(system.id, vec![0x76, 0x6d, 0]);
    assert_eq!(system.access, GENERIC_ALL);
    let register = accepted(system.opened(0, 77));
    assert_eq!(register.system, 77);
    assert_eq!(register.host_id, HVFS_DEVICE_HOST_ID());
    assert_eq!(register.memory_bytes, 512 * 1024 * 1024);
    let host = accepted(register.registered(DeviceHost::from_proxy(0, 5).map_err(|_| String::new())));
    assert_eq!(host.host.raw, 5);
    assert_eq!(host.system, 77);
    assert_eq!(host.memory_bytes, 512 * 1024 * 1024);
    assert!(host.shares.is_empty());
}

#[test]
fn host_open_saturates_the_memory() {
    let open = accepted(hvfs_host_open(false, Some(&b"vm"[..]), Some(&b"{}"[..])));
    let system = accepted(open.parsed(Ok(HostConfig { memory_mb: u64::MAX / 2 })));
    assert_eq!(accepted(system.opened(1, 1)).memory_bytes, u64::MAX);
}

#[test]
fn host_open_reports_a_system_that_cannot_be_opened() {
    let open = accepted(hvfs_host_open(false, Some(&b"vm"[..]), Some(&b"{}"[..])));
    let system = accepted(open.parsed(Ok(HostConfig { memory_mb: 1 })));
    let e = refusal(system.opened(0xC037010Eu32 as i32, 0));
    assert_eq!(e.code, HVFS_ERR_HDV);
    assert_eq!(e.last_error, "HcsOpenComputeSystem failed: HRESULT 0xc037010e");
    assert_eq!(e.log.unwrap(), e.last_error);
    assert_eq!(e.release, Release::Nothing);
}

#[test]
fn host_open_closes_the_system_when_the_host_is_refused() {
    let open = accepted(hvfs_host_open(false, Some(&b"vm"[..]), Some(&b"{}"[..])));
    let system = accepted(open.parsed(Ok(HostConfig { memory_mb: 1 })));
    let register = accepted(system.opened(0, 9));
    let e = refusal(register.registered(Err("denied".to_string())));
    assert_eq!(e.code, HVFS_ERR_HDV);
    assert_eq!(e.last_error, "HdvInitializeDeviceHostForProxy failed: denied");
    assert_eq!(e.release, Release::System);
}

#[test]
fn add_share_rejects_null_out_and_host() {
    let e = refusal(hvfs_add_share(true, true, None));
    assert_eq!(e.code, HVFS_ERR_INVALID_ARG);
    assert_eq!(e.last_error, "null out parameter");
    assert_eq!(e.out, OutParam::Untouched);

    let e = refusal(hvfs_add_share(false, true, None));
    assert_eq!(e.code, HVFS_ERR_INVALID_ARG);
    assert_eq!(e.last_error, "null host handle");
    assert_eq!(e.out, OutParam::Null);
}

fn share(instance_id: &str, ro: bool) -> ShareConfig {
    ShareConfig {
        tag: "t".to_string(),
        path: "C:\\".to_string(),
        instance_id: instance_id.to_string(),
        ro,
    }
}

#[test]
fn add_share_rejects_bad_input() {
    let id = "c1c1c1c1-3333-4333-8333-333333333333";
    let e = refusal(hvfs_add_share(false, false, None));
    assert_eq!((e.code, e.last_error.as_str()), (HVFS_ERR_INVALID_ARG, "null argument: share_json"));

    let add = accepted(hvfs_add_share(false, false, Some(&b"{}"[..])));
    let e = refusal(add.parsed(Ok(share(id, true))));
    assert_eq!(e.code, HVFS_ERR_NOT_IMPLEMENTED);
    assert_eq!(
        e.last_error,
        "ro:true not supported \u{2014} the FUSE backend does not yet enforce read-only"
    );

    let add = accepted(hvfs_add_share(false, false, Some(&b"{}"[..])));
    let e = refusal(add.parsed(Ok(share("not-a-guid", false))));
    assert_eq!(e.code, HVFS_ERR_INVALID_ARG);
    assert_eq!(e.last_error, "instance_id is not a valid GUID: not-a-guid");

    let add = accepted(hvfs_add_share(false, false, Some(&b"{ not valid json"[..])));
    assert_eq!(add.share_json, "{ not valid json");
    let e = refusal(add.parsed(Err("oops".to_string())));
    assert_eq!(e.code, HVFS_ERR_INVALID_ARG);
    assert_eq!(e.last_error, "share_json parse error: oops");
    assert!(e.log.is_none());
}

#[test]
fn read_only_is_refused_before_the_instance_is_looked_at() {
    let add = accepted(hvfs_add_share(false, false, Some(&b"{}"[..])));
    let e = refusal(add.parsed(Ok(share("not-a-guid", true))));
    assert_eq!(e.code, HVFS_ERR_NOT_IMPLEMENTED);
}

#[test]
fn add_share_names_device_slot_and_share_alike() {
    let add = accepted(hvfs_add_share(false, false, Some(&b"{}"[..])));
    let attach = accepted(add.parsed(Ok(share(" {C1C1C1C1-3333-4333-8333-333333333333} ", false))));
    assert_eq!(attach.tag, "t");
    assert_eq!(attach.path, "C:\\");
    assert_eq!(attach.class_id, VIRTIO_FS_DEVICE_CLASS_ID());
    assert_eq!(attach.instance.Data1, 0xc1c1_c1c1);
    let slot = accepted(attach.attached(Ok(())));
    let v: serde_json::Value = serde_json::from_str(&slot.request).unwrap();
    assert_eq!(v["RequestType"], "Add");
    assert_eq!(
        v["ResourcePath"],
        "VirtualMachine/Devices/FlexibleIov/c1c1c1c1-3333-4333-8333-333333333333"
    );
    assert_eq!(v["Settings"]["EmulatorId"], "872270e1-a899-4af6-b454-7193634435ad");
    let s = accepted(slot.modified(Ok(())));
    assert_eq!(hvfs_share_instance_id(Some(&s)), Some("c1c1c1c1-3333-4333-8333-333333333333"));
}

#[test]
fn add_share_reports_a_device_or_a_slot_that_is_refused() {
    let id = "c1c1c1c1-3333-4333-8333-333333333333";
    let add = accepted(hvfs_add_share(false, false, Some(&b"{}"[..])));
    let attach = accepted(add.parsed(Ok(share(id, false))));
    let e = refusal(attach.attached(Err("HDV: no".to_string())));
    assert_eq!(e.code, HVFS_ERR_HDV);
    assert_eq!(e.last_error, "attach virtio-fs over HDV: HDV: no");
    assert_eq!(e.release, Release::Nothing);

    let add = accepted(hvfs_add_share(false, false, Some(&b"{}"[..])));
    let attach = accepted(add.parsed(Ok(share(id, false))));
    let slot = accepted(attach.attached(Ok(())));
    let e = refusal(slot.modified(Err(0)));
    assert_eq!(e.code, HVFS_ERR_HDV);
    assert_eq!(e.last_error, "HcsModifyComputeSystem Add FlexibleIov: HRESULT 0x00000000");
    assert_eq!(e.release, Release::Device);
}

#[test]
fn instance_id_of_null_share_is_null() {
    assert!(hvfs_share_instance_id(None).is_none());
}

#[test]
fn remove_and_close_null_handles_are_ok() {
    assert!(matches!(hvfs_remove_share(None), RemoveStep::Answer(HVFS_OK)));
    let close = hvfs_host_close(None);
    assert_eq!(close.code, HVFS_OK);
    assert!(close.steps.is_empty());
}

fn removing(share: &hvfs_share) -> RemoveSlot {
    match hvfs_remove_share(Some(share)) {
        RemoveStep::Modify(q) => q,
        RemoveStep::Answer(_) => panic!("there is a share"),
    }
}

fn some_share() -> hvfs_share {
    hvfs_share {
        instance_id: "i".to_string(),
        emulator_id: "e".to_string(),
    }
}

#[test]
fn remove_share_frees_on_success_and_unsupported_only() {
    let s = some_share();
    let q = removing(&s);
    assert_eq!(q.request, slot_request("Remove", "i", "e"));
    let r = q.modified(Ok(()));
    assert_eq!((r.code, r.last_error, r.log, r.free), (HVFS_OK, None, None, true));

    let r = removing(&s).modified(Err(HRESULT_NOT_SUPPORTED));
    assert_eq!((r.code, r.free), (HVFS_ERR_UNSUPPORTED, true));
    assert_eq!(r.log, r.last_error);
    assert_eq!(
        r.last_error.unwrap(),
        "FlexibleIov live Remove unsupported on this Windows; \
         device reclaimed when the compute system is torn down"
    );

    let r = removing(&s).modified(Err(0x8007_0005u32 as i32));
    assert_eq!((r.code, r.free), (HVFS_ERR_HDV, false));
    assert_eq!(r.log, r.last_error);
    assert_eq!(
        r.last_error.unwrap(),
        "HcsModifyComputeSystem Remove FlexibleIov: HRESULT 0x80070005"
    );
}

#[test]
fn modify_outcomes() {
    assert_eq!(hcs_modify(false, 0, 0), Err(0));
    assert_eq!(hcs_modify(true, -3, -4), Err(-3));
    assert_eq!(hcs_modify(true, 0, -4), Err(-4));
    assert_eq!(hcs_modify(true, 1, 1), Ok(()));
    assert_eq!(HRESULT_NOT_SUPPORTED, 0x8007_0032u32 as i32);
}

#[test]
fn close_frees_the_shares_that_are_left() {
    let mut host = hvfs_host {
        shares: Vec::new(),
        host: std::sync::Arc::new(DeviceHost { raw: 1 }),
        system: 2,
        memory_bytes: 3,
    };
    for h in [10, 20, 30] {
        host.share_added(h);
    }
    host.share_removed(20);
    host.share_removed(99);
    assert_eq!(host.shares, vec![10, 30]);
    host.share_added(0);
    let close = hvfs_host_close(Some(host));
    assert_eq!(close.code, HVFS_OK);
    let mut steps = close.steps.iter();
    assert!(matches!(steps.next(), Some(CloseStep::FreeShare(10))));
    assert!(matches!(steps.next(), Some(CloseStep::FreeShare(30))));
    assert!(matches!(steps.next(), Some(CloseStep::TearDownHost(h)) if h.raw == 1));
    assert!(matches!(steps.next(), Some(CloseStep::ReleaseSupport)));
    assert!(matches!(steps.next(), Some(CloseStep::CloseSystem(2))));
    assert!(steps.next().is_none());
}

#[test]
fn last_error_roundtrips_a_message() {
    let s = set_last_error("a diagnostic");
    assert_eq!(s, "a diagnostic");
    assert_eq!(set_last_error("has a \0 inside"), "error");
}

#[test]
fn the_first_thing_wrong_decides() {
    let id = "c1c1c1c1-3333-4333-8333-333333333333";
    let json = Some(&b"{}"[..]);
    let codes = |e: Refusal| {
        let untouched = e.last_error == "null out parameter";
        assert_eq!(e.out, if untouched { OutParam::Untouched } else { OutParam::Null });
        (e.code, e.release)
    };
    let add = |out: bool, parsed, attached: Result<(), String>, modified| {
        add_share_with(out, false, json, parsed, attached, modified)
    };
    let bad = || Err("x".to_string());
    assert_eq!(
        codes(refusal(add(true, Ok(share(id, true)), bad(), Err(-1)))),
        (HVFS_ERR_INVALID_ARG, Release::Nothing)
    );
    assert_eq!(
        codes(refusal(add(false, Ok(share(id, true)), bad(), Err(-1)))),
        (HVFS_ERR_NOT_IMPLEMENTED, Release::Nothing)
    );
    assert_eq!(
        codes(refusal(add(false, Ok(share(id, false)), bad(), Err(-1)))),
        (HVFS_ERR_HDV, Release::Nothing)
    );
    assert_eq!(
        codes(refusal(add(false, Ok(share(id, false)), Ok(()), Err(-1)))),
        (HVFS_ERR_HDV, Release::Device)
    );
    assert_eq!(accepted(add(false, Ok(share(id, false)), Ok(()), Ok(()))).instance_id, id);

    let cfg = || Ok(HostConfig { memory_mb: 2 });
    let open = |parsed, hr, registered: Result<DeviceHost, String>| {
        host_open_with(false, Some(&b"vm"[..]), json, parsed, hr, 9, registered)
    };
    assert_eq!(
        codes(refusal(open(Err("y".to_string()), -1, Err("z".to_string())))),
        (HVFS_ERR_INVALID_ARG, Release::Nothing)
    );
    assert_eq!(
        codes(refusal(open(cfg(), -1, Err("z".to_string())))),
        (HVFS_ERR_HDV, Release::Nothing)
    );
    assert_eq!(
        codes(refusal(open(cfg(), 0, Err("z".to_string())))),
        (HVFS_ERR_HDV, Release::System)
    );
    assert_eq!(accepted(open(cfg(), 0, Ok(DeviceHost { raw: 1 }))).memory_bytes, 2 << 20);
}
