use kitsune::daemon::{daemon_state, EntryProbes, FileId, MagiskD};
use kitsune::zygisk::daemon::{
    child_ok, companion_name, exec_zygiskd, get_process_info, revert_reply, sulist_reply,
    zygisk_handler, zygisk_request_code, zygisk_should_load_module, CompanionAction,
    CompanionEvent, CompanionPhase, ModuleInfo, ZygiskRequest, ZygiskState,
};
use kitsune::zygisk::proc_monitor::{
    is_zygote, scan_zygote, tracer_args, Action, Event, Monitor, Phase, ProcEntry,
};
use kitsune::zygisk::ptrace_inject::{
    find_func_addr, find_module_base, find_module_return_addr, maps_path, parse_map_line,
    scan_proc_maps, PROT_EXEC, PROT_READ, PROT_WRITE,
};

fn daemon(modules: Option<Vec<ModuleInfo>>) -> MagiskD {
    let mut d = daemon_state(&EntryProbes {
        kernel_qemu: String::new(),
        boot_qemu: String::new(),
        device: String::new(),
        config: vec![],
        build: vec![],
        sdk: String::new(),
        per_app_memcg: String::new(),
        has_device_dir: true,
        has_mediatek_res: false,
        mount_list: String::new(),
        remount_root: false,
        exe: FileId { dev: 0, ino: 0 },
    });
    d.module_list = modules;
    d
}

#[test]
fn modules_are_kept_from_denied_processes() {
    assert!(zygisk_should_load_module(0));
    assert!(zygisk_should_load_module(0x2));
    assert!(zygisk_should_load_module(0x4000_0000));
    assert!(!zygisk_should_load_module(0x4000_0002));
    assert!(!zygisk_should_load_module(0x8000_0000));
    assert!(zygisk_should_load_module(0x1));
}

#[test]
fn zygotes_that_crash_are_left_alone() {
    let mut s = ZygiskState::new();
    assert_eq!(s.reset(true), Some(false));
    assert_eq!(s.start_count, 1);
    s.has_32 = true;
    assert_eq!(s.reset(false), None);
    assert!(!s.has_32);
    assert_eq!(s.reset(false), None);
    assert_eq!(s.reset(false), Some(true));
    assert_eq!(s.start_count, 4);
    assert_eq!(s.reset(true), Some(false));
    assert_eq!(s.start_count, 1);
}

#[test]
fn a_companion_is_started_and_reused() {
    let mut s = ZygiskState::new();
    let mut phase = CompanionPhase::Begin;
    let mut actions = Vec::new();
    for ev in [
        CompanionEvent::Begin,
        CompanionEvent::Finished(true),
        CompanionEvent::Finished(true),
        CompanionEvent::Ready(Some(0)),
        CompanionEvent::Finished(true),
    ] {
        let (p, a) = s.connect_zygiskd(phase, true, ev);
        phase = p;
        actions.push(a);
    }
    assert!(
        actions
            == vec![
                CompanionAction::Pair,
                CompanionAction::Start,
                CompanionAction::Await,
                CompanionAction::SendClient,
                CompanionAction::Finish(true)
            ]
    );
    assert!(s.has_64 && !s.has_32);
    let (p, a) = s.connect_zygiskd(CompanionPhase::Begin, true, CompanionEvent::Begin);
    assert!(a == CompanionAction::Poll);
    let alive = CompanionEvent::Polled { ret: 0, revents: 0 };
    let (p2, a) = s.connect_zygiskd(p, true, alive);
    assert!(a == CompanionAction::SendClient && p2 == CompanionPhase::Reusing);
    let dead = CompanionEvent::Polled { ret: 1, revents: 16 };
    let (p2, a) = s.connect_zygiskd(p, true, dead);
    assert!(a == CompanionAction::Pair && p2 == CompanionPhase::Pairing && !s.has_64);
}

#[test]
fn a_companion_that_fails_is_not_kept() {
    for (phase, ev) in [
        (CompanionPhase::Pairing, CompanionEvent::Finished(false)),
        (CompanionPhase::Starting, CompanionEvent::Finished(false)),
        (CompanionPhase::Waiting, CompanionEvent::Ready(None)),
        (CompanionPhase::Waiting, CompanionEvent::Ready(Some(1))),
        (CompanionPhase::Handing, CompanionEvent::Finished(false)),
    ] {
        let mut s = ZygiskState::new();
        let (p, a) = s.connect_zygiskd(phase, false, ev);
        assert!(p == CompanionPhase::Done(false) && a == CompanionAction::Finish(false));
        assert!(!s.has_32);
    }
    let mut s = ZygiskState::new();
    s.has_32 = true;
    let failed = CompanionEvent::Polled { ret: -1, revents: 0 };
    s.connect_zygiskd(CompanionPhase::Polling, false, failed);
    assert!(!s.has_32);
}

#[test]
fn companions_are_started_by_name() {
    assert_eq!(companion_name(true, true), "magisk");
    assert_eq!(companion_name(false, true), "magisk32");
    assert_eq!(companion_name(false, false), "magisk");
    assert_eq!(exec_zygiskd(9), vec!["", "zygisk", "companion", "9"]);
}

#[test]
fn requests_of_injected_code() {
    for (code, r) in [
        (0, ZygiskRequest::GetInfo),
        (1, ZygiskRequest::ConnectCompanion),
        (2, ZygiskRequest::GetModDir),
        (3, ZygiskRequest::SulistRootNs),
        (4, ZygiskRequest::RevertUmount),
    ] {
        assert!(zygisk_handler(code) == Some(r));
        assert_eq!(zygisk_request_code(r), code);
    }
    assert!(zygisk_handler(5).is_none());
    assert!(zygisk_handler(-1).is_none());
}

#[test]
fn children_report_by_their_status() {
    assert!(child_ok(Some(0)));
    assert!(!child_ok(Some(0x100)));
    assert!(!child_ok(Some(0x9)));
    assert!(!child_ok(Some(0x7f)));
    assert!(!child_ok(None));
    assert!(child_ok(Some(0x10000)));
    assert_eq!(sulist_reply(Some(0)), 0);
    assert_eq!(sulist_reply(Some(0x100)), -1);
    assert_eq!(sulist_reply(None), -1);
    assert_eq!(revert_reply(Some(0), 42), "/proc/42/ns/mnt");
    assert_eq!(revert_reply(Some(9), 42), "");
    assert_eq!(revert_reply(None, 42), "");
}

#[test]
fn processes_are_told_about_themselves() {
    let i = get_process_info(10001, "com.example", 0x4000_0000, 10002, true);
    assert!(i.flags == 0x4000_0001 && i.send_modules && !i.read_failed);
    let i = get_process_info(10002, "com.example", 0, 10002, false);
    assert!(i.flags == 0x8000_0000 && !i.send_modules);
    let i = get_process_info(10001, "com.example", 0x4000_0002, 10002, false);
    assert!(!i.send_modules);
    assert!(get_process_info(1000, "system_server", 0, 10002, false).read_failed);
    assert!(!get_process_info(1000, "system", 0, 10002, false).read_failed);
    assert!(!get_process_info(1001, "system_server", 0, 10002, false).read_failed);
}

#[test]
fn modules_are_listed() {
    let module = |name: &str, z32, z64| ModuleInfo { name: name.to_string(), z32, z64 };
    let d = daemon(Some(vec![module("a", -1, 5), module("b", 6, -1), module("c", 0, 8)]));
    assert_eq!(d.get_module_fds(true), Some(vec![5, 1, 8]));
    assert_eq!(d.get_module_fds(false), Some(vec![1, 6, 0]));
    assert_eq!(d.get_mod_dir(1).map(|m| m.name.as_str()), Some("b"));
    assert!(d.get_mod_dir(3).is_none());
    assert!(d.get_mod_dir(-1).is_none());
    let d = daemon(None);
    assert!(d.get_module_fds(true).is_none() && d.get_mod_dir(0).is_none());
}

#[test]
fn monitor_follows_forks_of_init() {
    let mut m = Monitor::new();
    assert!(m.phase() == Phase::Seizing);
    assert!(m.step(Event::Seized(true)) == Action::Loop);
    assert!(m.step(Event::Turn(false)) == Action::Wait);
    let fork = Event::Traced { pid: 1, signal: 5, event: 1, stop: false };
    assert!(m.step(fork) == Action::ResumeInit { read_message: true, signal: 0 });
    m.step(Event::Turn(false));
    let stop = Event::Traced { pid: 1, signal: 17, event: 0, stop: false };
    assert!(m.step(stop) == Action::ResumeInit { read_message: false, signal: 17 });
    m.step(Event::Turn(false));
    let child = |event, signal| Event::Traced { pid: 300, signal, event, stop: false };
    assert!(m.step(child(128, 19)) == Action::Adopt(300));
    m.step(Event::Turn(false));
    assert!(m.step(child(4, 5)) == Action::ReadExe(300));
    assert!(m.step(Event::Exe(Some("/system/bin/app_process64".to_string()))) == Action::Halt(300));
    assert!(m.step(Event::Halted(true)) == Action::Inject { pid: 300, signal: 19 });
    assert!(m.step(Event::Injected(false)) == Action::Kill(300));
    m.step(Event::Turn(false));
    assert!(m.step(child(4, 5)) == Action::Adopt(300));
    m.step(Event::Turn(false));
    assert!(m.step(child(4, 5)) == Action::ReadExe(300));
    assert!(m.step(Event::Exe(Some("/system/bin/sh".to_string()))) == Action::Detach(300));
    m.step(Event::Turn(false));
    assert!(m.step(Event::Stopped { pid: 7, signal: 2 }) == Action::Resume { pid: 7, signal: 2 });
    assert!(m.step(Event::Turn(true)) == Action::Exit { detach_init: true });
    assert!(m.phase() == Phase::Ended && !m.uses_denylist());
}

#[test]
fn monitor_lets_other_processes_go() {
    let mut m = Monitor::new();
    m.step(Event::Seized(true));
    for (event, signal, stop) in [(4, 5, true), (4, 19, false), (3, 5, false)] {
        m.step(Event::Turn(false));
        assert!(m.step(Event::Traced { pid: 9, signal, event, stop }) == Action::Adopt(9));
        m.step(Event::Turn(false));
        assert!(m.step(Event::Traced { pid: 9, signal, event, stop }) == Action::Detach(9));
    }
    m.step(Event::Turn(false));
    m.step(Event::Traced { pid: 9, signal: 5, event: 4, stop: false });
    m.step(Event::Turn(false));
    m.step(Event::Traced { pid: 9, signal: 5, event: 4, stop: false });
    assert!(m.step(Event::Exe(None)) == Action::Detach(9));
    m.step(Event::Turn(false));
    assert!(m.step(Event::Other) == Action::Loop);
    m.step(Event::Turn(false));
    assert!(m.step(Event::WaitFailed) == Action::Exit { detach_init: false });
}

#[test]
fn monitor_gives_up_polling() {
    let mut m = Monitor::new();
    m.step(Event::Seized(false));
    for _ in 0..120 {
        assert!(m.step(Event::Turn(false)) == Action::Scan);
        assert!(m.step(Event::Scanned(None)) == Action::Sleep);
    }
    assert!(!m.uses_denylist());
    m.step(Event::Turn(false));
    assert!(m.step(Event::Scanned(None)) == Action::SleepAndExit);
    assert!(m.uses_denylist() && m.phase() == Phase::Ended);
}

#[test]
fn monitor_attaches_to_a_zygote() {
    let mut m = Monitor::new();
    m.step(Event::Seized(false));
    m.step(Event::Turn(false));
    assert!(m.step(Event::Scanned(Some(88))) == Action::Attach(88));
    assert!(m.step(Event::Attached(true)) == Action::Follow(88));
    assert!(m.step(Event::Turn(false)) == Action::Wait);
    assert!(m.step(Event::Gone(88)) == Action::Loop);
    assert!(m.step(Event::Turn(false)) == Action::Scan);
    m.step(Event::Scanned(Some(99)));
    assert!(m.step(Event::Attached(false)) == Action::Exit { detach_init: false });
    assert!(m.uses_denylist());
}

#[test]
fn zygotes_are_found() {
    assert!(is_zygote("/system/bin/app_process32"));
    assert!(is_zygote("app_process"));
    assert!(!is_zygote("/system/bin/app_proces"));
    let entry = |name: &str, stat: &str, cmdline: &str| ProcEntry {
        name: Some(name.to_string()),
        stat: Some(stat.to_string()),
        cmdline: Some(cmdline.to_string()),
    };
    let v = vec![
        entry("self", "5 (x) S 1 0", "zygote64"),
        entry("1", "1 (init) S 1 0", "zygote"),
        entry("50", "50 (a) b) S 2 0", "zygote"),
        entry("51", "51 (sh) S 1 0", "sh"),
        ProcEntry { name: Some("52".to_string()), stat: None, cmdline: Some("zygote".to_string()) },
        entry("53", "53 (odd) S", "zygote"),
        entry("54", "no parenthesis", "zygote"),
        entry("60", "60 (main)) S 1 0", "zygote64\0--x"),
        entry("61", "61 (main) S 1 0", "zygote"),
    ];
    assert_eq!(scan_zygote(&v), Some(60));
    assert_eq!(scan_zygote(&v[..7]), None);
    assert_eq!(
        tracer_args(60, "/debug_ramdisk"),
        vec!["zygisk", "trace_zygote", "60", "/debug_ramdisk/zygisk.so"]
    );
}

const LIBC: &str = "7f00-8f00 r-xp 00001000 fe:01 12   /apex/lib64/libc.so";

#[test]
fn map_lines_are_read() {
    assert_eq!(PROT_READ, libc::PROT_READ as u32);
    assert_eq!(PROT_WRITE, libc::PROT_WRITE as u32);
    assert_eq!(PROT_EXEC, libc::PROT_EXEC as u32);
    let m = parse_map_line(LIBC).unwrap();
    assert_eq!((m.start, m.end, m.perms, m.is_private), (0x7f00, 0x8f00, 5, true));
    assert_eq!((m.offset, m.dev, m.inode), (0x1000, 0xfe01, 12));
    assert_eq!(m.path, "/apex/lib64/libc.so");
    assert!(m.contains(0x7f00) && m.contains(0x8eff) && !m.contains(0x8f00) && !m.contains(0));
    let m = parse_map_line("0-1 -w-s 0 x 0").unwrap();
    assert_eq!((m.perms, m.is_private, m.dev, m.path.as_str()), (2, false, 0, ""));
    let m = parse_map_line("0-1 rwxp 0 zz:01 0 /a  b").unwrap();
    assert_eq!((m.perms, m.dev, m.path.as_str()), (7, 1, "/a b"));
    for bad in [
        "",
        "0-1 r--p 0 0:0",
        "0 r--p 0 0:0 0",
        "0-1-2 r--p 0 0:0 0",
        "x-1 r--p 0 0:0 0",
        "0-1 r--p z 0:0 0",
        "0-1 r--p 0 0:0 a",
    ] {
        assert!(parse_map_line(bad).is_none(), "{}", bad);
    }
}

#[test]
fn maps_are_scanned() {
    assert_eq!(maps_path(0), "/proc/self/maps");
    assert_eq!(maps_path(42), "/proc/42/maps");
    let lines = vec![LIBC.to_string(), "junk".to_string(), LIBC.replace("libc", "libm")];
    let maps = scan_proc_maps(&lines);
    assert_eq!(maps.len(), 2);
    assert_eq!(maps[1].path, "/apex/lib64/libm.so");
}

#[test]
fn symbols_are_translated() {
    let local = scan_proc_maps(&[
        "1000-2000 r--p 0 0:0 1 /lib/libdl.so".to_string(),
        "2000-3000 r-xp 1000 0:0 1 /lib/libdl.so".to_string(),
    ]);
    let remote = scan_proc_maps(&[
        "9000-9500 r-xp 500 0:0 1 /lib/libdl.so".to_string(),
        "a000-b000 r--p 0 0:0 1 /lib/libdl.so".to_string(),
    ]);
    assert_eq!(find_module_base(&local, "libdl.so"), Some(0x1000));
    assert_eq!(find_module_base(&remote, "libdl.so"), Some(0xa000));
    assert_eq!(find_module_base(&remote, "libc.so"), None);
    assert_eq!(find_module_return_addr(&remote, "libdl.so"), Some(0xa000));
    assert_eq!(find_module_return_addr(&local, "libdl.so"), Some(0x1000));
    assert_eq!(find_func_addr(&local, &remote, "libdl.so", Some(0x2345)), Some(0xb345));
    assert_eq!(find_func_addr(&remote, &local, "libdl.so", Some(0xb345)), Some(0x2345));
    assert_eq!(find_func_addr(&local, &remote, "libdl.so", Some(0)), None);
    assert_eq!(find_func_addr(&local, &remote, "libdl.so", None), None);
    assert_eq!(find_func_addr(&local, &remote, "libc.so", Some(0x2345)), None);
}
