use hyperv_virtiofs::logging::{
    deliver, dev_env_set, extra_directives, syslog_level, LineVisitor, LogLevel,
};
use hyperv_virtiofs::testvm::{
    build_document, console_connected, console_read, console_shows, next_attempt, run_op,
    wait_for_console, Attempt, CreateVm, FlexibleIovSlot, RockyConfig, RockyVm, Trial, TrialAction,
    WaitStep, Waited, ATTEMPTS,
};

fn waited(hr: i32, document: &str) -> Waited {
    Waited { hr, document: document.to_string() }
}

#[test]
fn document_boots_the_kernel_with_a_console() {
    let cfg = RockyConfig::new("C:\\vmlinuz", "C:\\initrd");
    let doc = build_document(&cfg, "\\\\.\\pipe\\x");
    let v: serde_json::Value = serde_json::from_str(&doc).unwrap();
    assert_eq!(v["Owner"], "hyperv-virtiofs-test");
    assert_eq!(v["SchemaVersion"]["Major"], 2);
    assert_eq!(v["SchemaVersion"]["Minor"], 7);
    assert_eq!(v["ShouldTerminateOnLastHandleClosed"], true);
    let vm = &v["VirtualMachine"];
    let boot = &vm["Chipset"]["LinuxKernelDirect"];
    assert_eq!(boot["KernelFilePath"], "C:\\vmlinuz");
    assert_eq!(boot["InitRdPath"], "C:\\initrd");
    assert_eq!(boot["KernelCmdLine"], "console=ttyS0");
    assert_eq!(vm["ComputeTopology"]["Memory"]["SizeInMB"], 4096);
    assert_eq!(vm["ComputeTopology"]["Processor"]["Count"], 2);
    assert_eq!(vm["Devices"]["ComPorts"]["0"]["NamedPipe"], "\\\\.\\pipe\\x");
    assert!(vm["Devices"].get("FlexibleIov").is_none());
}

#[test]
fn document_declares_the_slot() {
    let cfg = RockyConfig::new("k", "i").with_flexible_iov(FlexibleIovSlot::new("inst", "emul"));
    let v: serde_json::Value = serde_json::from_str(&build_document(&cfg, "p")).unwrap();
    let slot = &v["VirtualMachine"]["Devices"]["FlexibleIov"]["inst"];
    assert_eq!(slot["EmulatorId"], "emul");
    assert_eq!(slot["HostingModel"], "ExternalRestricted");
}

#[test]
fn systems_are_created_under_names_of_their_own() {
    let cfg = RockyConfig::new("k", "i");
    let c = RockyVm::create(&cfg, 1234, 0);
    assert_eq!(c.id, "hvfs-test-1234-0");
    assert_eq!(c.pipe_name, "\\\\.\\pipe\\hvfs-test-1234-0-com1");
    assert_eq!(c.document, build_document(&cfg, &c.pipe_name));
    assert_eq!(c.pipe_failed(), "CreateNamedPipeW(\\\\.\\pipe\\hvfs-test-1234-0-com1) failed");
    let vm = c.created(true, 0, waited(0, ""), 9).map_err(|_| ()).ok().unwrap();
    assert_eq!(vm.id(), "hvfs-test-1234-0");
    assert_eq!(vm.system_handle(), 9);
}

#[test]
fn creation_and_start_report_their_failures() {
    let fails = |op, hr, w: Waited| {
        let c = RockyVm::create(&RockyConfig::new("k", "i"), 1, 2);
        match c.created(op, hr, w, 0) {
            Ok(_) => panic!("should fail"),
            Err(e) => e,
        }
    };
    assert_eq!(fails(false, 0, waited(0, "")), "HcsCreateOperation returned null");
    assert_eq!(fails(true, -1, waited(0, "")), "HcsCreateComputeSystem: HRESULT 0xffffffff");
    assert_eq!(fails(true, 0, waited(-2, "doc")), "create failed: HRESULT 0xfffffffe; doc");
    assert_eq!((CreateVm::wait_ms(0), CreateVm::wait_ms(-1)), (60_000, 30_000));
    let vm = RockyVm { id: "x".to_string(), system: 1 };
    assert_eq!(vm.start(false, 0, waited(0, "")).unwrap_err(), "HcsCreateOperation returned null");
    assert_eq!(
        vm.start(true, -1, waited(0, "")).unwrap_err(),
        "HcsStartComputeSystem: HRESULT 0xffffffff"
    );
    assert_eq!(
        vm.start(true, 0, waited(-2, "doc")).unwrap_err(),
        "start failed: HRESULT 0xfffffffe; doc"
    );
    assert!(vm.start(true, 0, waited(0, "doc")).is_ok());
    assert_eq!(run_op("x", waited(0, "doc")), Ok("doc".to_string()));
}

#[test]
fn console_is_read_to_its_end() {
    assert!(console_connected(true, 0));
    assert!(console_connected(false, 535));
    assert!(!console_connected(false, 2));
    let mut console = b"a".to_vec();
    assert!(console_read(&mut console, true, b"bc"));
    assert!(!console_read(&mut console, true, b""));
    assert!(!console_read(&mut console, false, b"zz"));
    assert_eq!(console, b"abc");
}

#[test]
fn console_is_searched_as_text() {
    for (s, n) in [("", ""), ("abc", ""), ("abc", "bc"), ("aab", "ab"), ("abc", "abcd"), ("abc", "d"), ("\u{e9}x", "x")] {
        assert_eq!(console_shows(s, n), s.contains(n), "{s:?} {n:?}");
    }
    assert_eq!(wait_for_console(true, "GUEST_READY\n", "READY"), WaitStep::Found);
    assert_eq!(wait_for_console(false, "GUEST_READY\n", "READY"), WaitStep::TimedOut);
    assert_eq!(wait_for_console(true, "", "READY"), WaitStep::Sleep(200));
}

#[test]
fn trial_runs_through_and_closes_its_host() {
    let (mut t, a) = Trial::new("cp1".into(), "C:\\ws".into(), "inst".into(), 4096);
    assert!(matches!(a, TrialAction::Create { kernel_cmdline } if kernel_cmdline == "console=ttyS0 atelier.hptags=cp1"));
    assert!(matches!(t.try_once(true), TrialAction::OpenHost { host_json } if host_json == "{\"memory_mb\":4096}"));
    assert!(matches!(t.try_once(true), TrialAction::Start));
    assert!(matches!(t.try_once(true), TrialAction::WaitFor { needle, seconds: 90 } if needle == "GUEST_READY"));
    match t.try_once(true) {
        TrialAction::AddShare { share_json } => {
            let v: serde_json::Value = serde_json::from_str(&share_json).unwrap();
            assert_eq!(v["tag"], "cp1");
            assert_eq!(v["path"], "C:\\ws");
            assert_eq!(v["instance_id"], "inst");
            assert_eq!(v["ro"], false);
        }
        _ => panic!("the guest is up"),
    }
    assert!(matches!(t.try_once(true), TrialAction::WaitFor { needle, seconds: 45 } if needle == "HOTPLUG_MOUNT_PASS tag=cp1"));
    assert!(matches!(t.try_once(true), TrialAction::CloseHost));
    assert!(matches!(t.try_once(true), TrialAction::Finished(true)));
}

#[test]
fn failed_trials_close_only_what_was_opened() {
    let trial = || Trial::new("t".into(), "p".into(), "i".into(), 1).0;
    let mut t = trial();
    assert!(matches!(t.try_once(false), TrialAction::Finished(false)));
    let mut t = trial();
    t.try_once(true);
    assert!(matches!(t.try_once(false), TrialAction::Finished(false)));
    for ok_after_open in 0..3 {
        let mut t = trial();
        t.try_once(true);
        t.try_once(true);
        for _ in 0..ok_after_open {
            t.try_once(true);
        }
        assert!(matches!(t.try_once(false), TrialAction::CloseHost));
        assert!(matches!(t.try_once(true), TrialAction::Finished(false)));
    }
}

#[test]
fn levels_are_syslog_severities() {
    assert_eq!(syslog_level(LogLevel::Error), 3);
    assert_eq!(syslog_level(LogLevel::Warn), 4);
    assert_eq!(syslog_level(LogLevel::Info), 6);
    assert_eq!(syslog_level(LogLevel::Debug), 7);
    assert_eq!(syslog_level(LogLevel::Trace), 7);
}

#[test]
fn lines_hold_target_message_and_fields() {
    let mut v = LineVisitor::new();
    v.record("code", "-4");
    v.record("message", "it failed");
    v.record("tag", "\"ws\"");
    assert_eq!(v.line("hyperv_virtiofs"), "hyperv_virtiofs: it failed code=-4 tag=\"ws\"");
    let d = deliver(true, LogLevel::Warn, "t", &v).unwrap();
    assert_eq!((d.level, d.line.as_str()), (4, "t: it failed code=-4 tag=\"ws\""));
    assert!(deliver(false, LogLevel::Warn, "t", &v).is_none());
    v.record("bad", "a\0b");
    assert!(deliver(true, LogLevel::Warn, "t", &v).is_none());
}

#[test]
fn developer_variables_raise_the_log() {
    assert!(!dev_env_set(false, false, false, false));
    assert!(dev_env_set(false, false, true, false));
    assert!(dev_env_set(false, false, false, true));
    assert_eq!(extra_directives(true, true, true), vec!["virtio_hdv=trace", "hyperv_virtiofs=trace"]);
    assert_eq!(extra_directives(false, true, false), vec!["virtio_hdv=debug"]);
    assert_eq!(extra_directives(false, false, true), vec!["virtio_hdv=debug"]);
    assert!(extra_directives(false, false, false).is_empty());
}

#[test]
fn a_trial_is_made_four_times_at_most() {
    assert_eq!(next_attempt(1, false), Attempt::Again);
    assert_eq!(next_attempt(3, false), Attempt::Again);
    assert_eq!(next_attempt(4, false), Attempt::Failed);
    assert_eq!(next_attempt(1, true), Attempt::Passed);
    assert_eq!(next_attempt(4, true), Attempt::Passed);
    assert_eq!(ATTEMPTS, 4);
}
