use kitsune::daemon::{
    check_client_credential, connect_daemon, connect_daemon_for_cxx, daemon_entry, daemon_state,
    find_prop, handle_request_async, handle_request_sync, handle_requests, kitsune_is_emulator,
    read_reply, read_request, read_sdk_int, request_code, respond_code, switch_cgroup, to_app_id,
    to_user_id, version_reply, Admission, ConnectAction, ConnectEvent, ConnectPhase, Credential,
    DaemonError, EntryProbes, EntryStep, FileId, Lane, PoolAction, Prop, Request, Respond,
    SyncAction,
};

const REQUESTS: [Request; 13] = [
    Request::StartDaemon,
    Request::CheckVersion,
    Request::CheckVersionCode,
    Request::StopDaemon,
    Request::Superuser,
    Request::ZygoteRestart,
    Request::Denylist,
    Request::SqliteCmd,
    Request::RemoveModules,
    Request::Zygisk,
    Request::PostFsData,
    Request::LateStart,
    Request::BootComplete,
];

fn prop(key: &str, val: &str) -> Prop {
    Prop { key: key.to_string(), val: val.to_string() }
}

fn probes() -> EntryProbes {
    EntryProbes {
        kernel_qemu: String::new(),
        boot_qemu: String::new(),
        device: "blueline".to_string(),
        config: vec![prop("KEEPVERITY", "true"), prop("RECOVERYMODE", "true")],
        build: vec![prop("ro.build.version.sdk", "30")],
        sdk: "29".to_string(),
        per_app_memcg: "false".to_string(),
        has_device_dir: true,
        has_mediatek_res: false,
        mount_list: String::new(),
        remount_root: false,
        exe: FileId { dev: 1, ino: 2 },
    }
}

fn root() -> Credential {
    Credential { is_root: true, is_shell: false, is_zygote: false }
}

fn shell() -> Credential {
    Credential { is_root: false, is_shell: true, is_zygote: false }
}

fn app() -> Credential {
    Credential { is_root: false, is_shell: false, is_zygote: false }
}

#[test]
fn user_ids_split_into_user_and_app() {
    for uid in [0, 2000, 10057, 99999, 100000, 1010057, -1, -100001, i32::MAX, i32::MIN] {
        assert_eq!(to_app_id(uid), uid % 100000);
        assert_eq!(to_user_id(uid), uid / 100000);
        assert_eq!(to_user_id(uid) * 100000 + to_app_id(uid), uid);
    }
}

#[test]
fn daemon_learns_about_the_device() {
    let d = daemon_state(&probes());
    assert_eq!(d.sdk_int(), 30);
    assert_eq!(d.app_data_dir(), "/data/user_de");
    assert_eq!(d.reboot_arg(), Some("recovery"));
    assert!(!d.is_emulator);
    assert!(!d.get_zygisk_enabled());
    assert!(d.module_list.is_none());
    assert!(d.get_module_fds(true).is_none());
    let mut p = probes();
    p.config = vec![prop("RECOVERYMODE", "false"), prop("RECOVERYMODE", "true")];
    p.build = vec![prop("ro.build.version.sdk", "x")];
    p.sdk = "23".to_string();
    p.device = "vsoc_x86".to_string();
    let d = daemon_state(&p);
    assert_eq!(d.sdk_int(), 23);
    assert_eq!(d.app_data_dir(), "/data/user");
    assert_eq!(d.reboot_arg(), None);
    assert!(kitsune_is_emulator(Some(&d)));
    assert!(!kitsune_is_emulator(None));
    let mut p = probes();
    p.kernel_qemu = "1".to_string();
    assert!(daemon_state(&p).is_emulator);
    let mut p = probes();
    p.boot_qemu = "1".to_string();
    assert!(daemon_state(&p).is_emulator);
    p.boot_qemu = "0".to_string();
    assert!(!daemon_state(&p).is_emulator);
}

#[test]
fn api_level_falls_back() {
    assert_eq!(read_sdk_int(&[prop("a", "1"), prop("ro.build.version.sdk", "28")], "30"), 28);
    assert_eq!(read_sdk_int(&[prop("ro.build.version.sdk", "-5")], "30"), 30);
    assert_eq!(read_sdk_int(&[], "30"), 30);
    assert_eq!(read_sdk_int(&[], ""), -1);
    assert_eq!(find_prop(&[prop("a", "1"), prop("a", "2")], "a"), Some("1"));
    assert_eq!(find_prop(&[prop("a", "1")], "b"), None);
}

#[test]
fn clients_run_the_daemons_executable() {
    let d = daemon_state(&probes());
    assert!(d.is_client(true, Some(FileId { dev: 1, ino: 2 })));
    assert!(!d.is_client(true, Some(FileId { dev: 1, ino: 3 })));
    assert!(!d.is_client(true, None));
    assert!(d.is_client(false, None));
}

#[test]
fn credentials() {
    let zygote = "u:r:zygote:s0";
    let c = check_client_credential(false, Some(0), Some(""), false).unwrap();
    assert!(c.is_root && !c.is_shell && !c.is_zygote);
    let c = check_client_credential(false, Some(1000), Some(zygote), false).unwrap();
    assert!(!c.is_root && c.is_zygote);
    let c = check_client_credential(false, Some(2000), Some("u:r:shell:s0"), true).unwrap();
    assert!(c.is_shell && !c.is_root);
    assert!(check_client_credential(false, Some(2000), Some("u:r:shell:s0"), false).is_none());
    assert!(check_client_credential(true, Some(10001), Some(""), false).unwrap().is_root);
    assert!(check_client_credential(false, None, Some(zygote), true).is_none());
    assert!(check_client_credential(false, Some(0), None, true).is_none());
}

#[test]
fn requests_have_codes() {
    for (i, r) in REQUESTS.iter().enumerate() {
        let code = request_code(*r);
        assert!(read_request(code) == Some(*r));
        let expected = [0, 1, 2, 3, 5, 6, 7, 8, 9, 10, 12, 13, 14];
        assert_eq!(code, expected[i]);
    }
    for code in [-1, 4, 11, 15, 100] {
        assert!(read_request(code).is_none());
        assert!(handle_requests(code, root()) == Admission::Ignore);
    }
}

#[test]
fn requests_need_permission() {
    for r in REQUESTS {
        let code = request_code(r);
        let lane = if code < 4 {
            Lane::Sync
        } else if code < 11 {
            Lane::Pool
        } else {
            Lane::Stage
        };
        assert!(handle_requests(code, root()) == Admission::Run(lane, r));
        let for_app = handle_requests(code, app());
        let for_shell = handle_requests(code, shell());
        match r {
            Request::PostFsData
            | Request::LateStart
            | Request::BootComplete
            | Request::ZygoteRestart
            | Request::SqliteCmd
            | Request::Denylist
            | Request::StopDaemon => {
                assert!(for_app == Admission::Refuse(Respond::RootRequired));
                assert!(for_shell == Admission::Refuse(Respond::RootRequired));
            }
            Request::RemoveModules => {
                assert!(for_app == Admission::Refuse(Respond::AccessDenied));
                assert!(for_shell == Admission::Run(lane, r));
            }
            _ => {
                assert!(for_app == Admission::Run(lane, r));
                assert!(for_shell == Admission::Run(lane, r));
            }
        }
    }
}

#[test]
fn requests_are_worked_on() {
    assert!(handle_request_sync(Request::CheckVersion) == SyncAction::SendVersion);
    assert!(handle_request_sync(Request::CheckVersionCode) == SyncAction::SendVersionCode);
    assert!(handle_request_sync(Request::StartDaemon) == SyncAction::SetupLog);
    assert!(handle_request_sync(Request::StopDaemon) == SyncAction::Stop);
    assert!(handle_request_sync(Request::Zygisk) == SyncAction::Nothing);
    assert!(handle_request_async(Request::Denylist) == PoolAction::Denylist);
    assert!(handle_request_async(Request::Superuser) == PoolAction::Superuser);
    assert!(handle_request_async(Request::ZygoteRestart) == PoolAction::ZygoteRestarted);
    assert!(handle_request_async(Request::SqliteCmd) == PoolAction::Database);
    assert!(handle_request_async(Request::RemoveModules) == PoolAction::RemoveModules);
    assert!(handle_request_async(Request::Zygisk) == PoolAction::Zygisk);
    assert!(handle_request_async(Request::PostFsData) == PoolAction::Nothing);
    assert_eq!(version_reply("v30", true), "v30:MAGISK:D");
    assert_eq!(version_reply("v30", false), "v30:MAGISK:R");
}

#[test]
fn replies() {
    assert_eq!(respond_code(Respond::Failure), -1);
    assert!(read_reply(respond_code(Respond::Success)) == Ok(()));
    assert!(read_reply(respond_code(Respond::RootRequired)) == Err(DaemonError::RootRequired));
    assert!(read_reply(respond_code(Respond::AccessDenied)) == Err(DaemonError::AccessDenied));
    assert!(read_reply(-1) == Err(DaemonError::Daemon));
    assert!(read_reply(3) == Err(DaemonError::Daemon));
    assert_eq!(connect_daemon_for_cxx(Ok(7)), 7);
    assert_eq!(connect_daemon_for_cxx(Err(DaemonError::Daemon)), -1);
}

fn show(steps: &[EntryStep]) -> Vec<String> {
    steps
        .iter()
        .map(|s| match s {
            EntryStep::CreateDeviceDir => "mkdir".to_string(),
            EntryStep::StartLogging => "log".to_string(),
            EntryStep::RestoreContexts => "contexts".to_string(),
            EntryStep::LeaveCgroup(c) => format!("leave {}", c),
            EntryStep::ClearModelProperty => "model".to_string(),
            EntryStep::Unmount(m) => format!("umount {}", m),
            EntryStep::RemountRoot => "remount".to_string(),
            EntryStep::RemoveOverlay => "overlay".to_string(),
            EntryStep::Serve => "serve".to_string(),
        })
        .collect()
}

#[test]
fn daemon_starts_in_order() {
    assert_eq!(
        show(&daemon_entry(&probes())),
        vec![
            "log",
            "contexts",
            "leave /acct",
            "leave /dev/cg2_bpf",
            "leave /sys/fs/cgroup",
            "overlay",
            "serve"
        ]
    );
    let mut p = probes();
    p.has_device_dir = false;
    p.per_app_memcg = String::new();
    p.has_mediatek_res = true;
    p.mount_list = "/a \n/b\n".to_string();
    p.remount_root = true;
    assert_eq!(
        show(&daemon_entry(&p)),
        vec![
            "mkdir",
            "log",
            "contexts",
            "leave /acct",
            "leave /dev/cg2_bpf",
            "leave /sys/fs/cgroup",
            "leave /dev/memcg/apps",
            "model",
            "umount /a",
            "umount /b",
            "remount",
            "overlay",
            "serve"
        ]
    );
    let w = switch_cgroup("/acct", 42);
    assert_eq!((w.path.as_str(), w.content.as_str()), ("/acct/cgroup.procs", "42"));
}

#[test]
fn reaching_the_daemon() {
    let tmp = "/debug_ramdisk";
    let failed = |phase, create, root| {
        connect_daemon(phase, ConnectEvent::Connected(false), create, root, tmp)
    };
    let ok = connect_daemon(ConnectPhase::First, ConnectEvent::Connected(true), false, false, tmp);
    assert!(ok == (ConnectPhase::Done(None), ConnectAction::Send));
    for (create, root) in [(false, false), (true, false), (false, true)] {
        assert!(
            failed(ConnectPhase::First, create, root)
                == (
                    ConnectPhase::Done(Some(DaemonError::CannotConnect)),
                    ConnectAction::Fail(DaemonError::CannotConnect)
                )
        );
    }
    assert!(
        failed(ConnectPhase::First, true, true)
            == (ConnectPhase::Inspecting, ConnectAction::ReadExe)
    );
    let exe = |p: Option<&str>| {
        connect_daemon(
            ConnectPhase::Inspecting,
            ConnectEvent::Exe(p.map(String::from)),
            true,
            true,
            tmp,
        )
    };
    assert!(
        exe(Some("/debug_ramdisk/magisk"))
            == (ConnectPhase::Retrying, ConnectAction::StartAndConnect)
    );
    for p in [None, Some("/data/adb/magisk")] {
        assert!(exe(p).1 == ConnectAction::Fail(DaemonError::NotOnTmpfs));
    }
    assert!(
        failed(ConnectPhase::Retrying, true, true)
            == (ConnectPhase::Retrying, ConnectAction::WaitAndConnect)
    );
}
