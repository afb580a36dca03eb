use kitsune::inject::companion::{
    companion_starts, fd_path_bytes, Action, Companion, Event, OpenFile, POLLERR, POLLHUP,
};
use kitsune::inject::elf::find_got_offset;
use kitsune::inject::fd::{check_name, record_open_fds, sanitize_fds, FdSet};
use kitsune::inject::hook_context::{
    current_ctx, drop_context, get_current_ptr, set_current, set_current_ptr, unset_current,
    AppArgs, CurrentContext, Flags, HookContext, SpecializeStep, ALLOWLIST_ENFORCED, DO_ALLOW,
    DO_ALLOW_SU, DO_FUTILE_HIDE, DO_REVERT_UNMOUNT, RESTORE_MOUNT_EXTERNAL_NONE,
};
use kitsune::inject::hooks::{hook_plt, missing, HookSlot, Missing, OrigFuncs};
use kitsune::inject::ipc::{
    collect_fds, command_code, connect_daemon, contains_subslice, get_magisk_tmp, info_request,
    read_int, read_string, recv_fd, recv_fds, remote_get_info, string_len, write_int, write_string,
    DaemonCommand, SCM_RIGHTS, SOL_SOCKET,
};
use kitsune::inject::jni_env::{
    self, find_jni_function_offset, hook_register_natives, init_jni_offsets, replace_entry,
    restore_jni_env, JniHook, JniOffsetsCell, RegisterCall, RegisterStep,
};
use kitsune::inject::memory::layout_size;
use kitsune::inject::module::{
    descriptor_path, library_path_bytes, load_modules, run_modules_pre, LoadAction, LoadPhase,
    Loading, ZygiskModule,
};
use kitsune::inject::module_api::{
    find_callback, natives_replaced, Handler, ModuleApiV1, ModuleApiV4, Moment, ZygiskModuleImpl,
};
use kitsune::inject::platform::{cmsg_len, cmsg_space, is_regular_file, S_IFMT, S_IFREG};
use kitsune::inject::plt::{
    begin_change, commit_all, find_and_hook, find_got_addr, find_lib_base, get_page_perms,
    lib_image, page_of, parse_perms,
    push_plt_hook, restore_all_hooks, scan_maps, ImagePart, PltHookEntry, Restore,
    SlotAction, SlotPhase,
};
use kitsune::inject::solist::{
    hide_modules, initialize, HideAction, HidePhase, HideState, MapEntry,
};
use kitsune::inject::unload::unhook_functions;
use kitsune::text::to_chars;
use kitsune::zygisk::daemon::{
    get_process_info, is_wide, ALLOW_LIST_ENFORCED, HIDE_FROM_PROCESS, PROCESS_GRANTED_ROOT,
    PROCESS_MAY_BE_ROOT, PROCESS_ON_DENY_LIST,
};

#[test]
fn sets_of_descriptors() {
    let mut s = FdSet::new();
    for fd in [0, 63, 64, 1023, 7, -1, 1024, i32::MAX, i32::MIN] {
        s.add(fd);
    }
    for fd in [0, 7, 63, 64, 1023] {
        assert!(s.contains(fd));
    }
    for fd in [-1, 1024, 1, 62, 65, i32::MIN] {
        assert!(!s.contains(fd));
    }
    s.remove(63);
    s.remove(-5);
    s.remove(2000);
    let mut it = s.iter();
    let mut seen = Vec::new();
    while let Some(fd) = it.next() {
        seen.push(fd);
    }
    assert_eq!(seen, [0, 7, 64, 1023]);
    assert_eq!(it.next(), None);
    s.clear();
    assert_eq!(s.iter().next(), None);
}

fn names(v: &[&str]) -> Vec<Vec<u8>> {
    v.iter().map(|s| s.as_bytes().to_vec()).collect()
}

#[test]
fn open_descriptors_are_recorded() {
    let mut s = FdSet::new();
    s.add(99);
    record_open_fds(&mut s, &names(&[".", "..", "0", "12", "1023", "1024", "3x", "007"]));
    let mut it = s.iter();
    let mut seen = Vec::new();
    while let Some(fd) = it.next() {
        seen.push(fd);
    }
    assert_eq!(seen, [0, 7, 12, 1023]);
    record_open_fds(&mut s, &names(&[""]));
    assert!(s.contains(0) && !s.contains(7));
    record_open_fds(&mut s, &[]);
    assert_eq!(s.iter().next(), None);
    assert!(check_name(b"2147483647") && check_name(b"x99999999999"));
    assert!(!check_name(b"2147483648") && !check_name(b"99999999999x"));
}

#[test]
fn other_descriptors_are_closed() {
    let mut allowed = FdSet::new();
    let mut actual = FdSet::new();
    for fd in [0, 1, 2] {
        allowed.add(fd);
    }
    for fd in [9, 0, 1, 5, 7] {
        actual.add(fd);
    }
    assert_eq!(sanitize_fds(&allowed, &[7, 100], &actual), [5, 9]);
    assert!(sanitize_fds(&actual, &[], &actual).is_empty());
}

#[test]
fn flags_are_set_and_cleared() {
    let mut f = Flags::new();
    assert_eq!(f.raw(), 0);
    f.set(DO_ALLOW);
    f.set(DO_FUTILE_HIDE);
    assert!(f.has(DO_ALLOW) && f.has(DO_FUTILE_HIDE) && !f.has(DO_REVERT_UNMOUNT));
    f.clear(DO_ALLOW);
    assert!(!f.has(DO_ALLOW) && f.has(DO_FUTILE_HIDE));
    assert_eq!(f.raw(), 512);
}

#[test]
fn flags_follow_from_what_the_daemon_knows() {
    let told = get_process_info(10001, "app", PROCESS_ON_DENY_LIST, 10099, true);
    assert_eq!(told.flags, PROCESS_ON_DENY_LIST | PROCESS_GRANTED_ROOT);
    let cases = [
        (told.flags, DO_REVERT_UNMOUNT | DO_ALLOW),
        (PROCESS_ON_DENY_LIST, DO_REVERT_UNMOUNT),
        (PROCESS_GRANTED_ROOT, DO_ALLOW),
        (ALLOW_LIST_ENFORCED, ALLOWLIST_ENFORCED),
        (HIDE_FROM_PROCESS, DO_FUTILE_HIDE),
        (PROCESS_MAY_BE_ROOT, 0),
    ];
    for (info, flags) in cases {
        let mut c = HookContext::new(None, "x");
        c.apply_app_info(info);
        assert_eq!((c.info_flags, c.flags.raw()), (info, flags));
    }
}

#[test]
fn contexts_are_prepared() {
    let args = AppArgs { uid: 10001, mount_external: Some(0) };
    let mut c = HookContext::new(Some(args), "com.example");
    assert_eq!((c.pid, c.info_flags, c.process_name.as_str()), (-1, 0, "com.example"));
    assert_eq!(c.raise_mounts(), 10001);
    assert!(c.args == Some(AppArgs { uid: 10001, mount_external: Some(1) }));
    assert!(c.flags.has(RESTORE_MOUNT_EXTERNAL_NONE));
    let mut c = HookContext::new(Some(AppArgs { uid: 5, mount_external: Some(2) }), "x");
    assert_eq!(c.raise_mounts(), 5);
    assert_eq!(c.flags.raw(), 0);
    let mut c = HookContext::new(None, "x");
    assert_eq!((c.raise_mounts(), c.uid()), (0, 0));
    c.apply_app_info(2 | 4 | 16);
    assert_eq!(c.flags.raw(), DO_REVERT_UNMOUNT | ALLOWLIST_ENFORCED);
    assert_eq!(c.info_flags, 22);
    c.apply_specialize_info(16);
    assert!(c.flags.has(DO_ALLOW_SU));
    c.apply_server_info(3);
    assert_eq!(c.info_flags, 3);
    c.fork_pre(&names(&["8"]));
    assert!([0, 1, 2, 8].iter().all(|fd| c.allowed_fds.contains(*fd)));
    assert!(!c.allowed_fds.contains(3));
    c.exempt_fd(40);
    assert_eq!(c.exempted_fds, [40]);
}

#[test]
fn processes_are_specialised() {
    let mut c = HookContext::new(None, "x");
    assert!(
        c.native_fork_and_specialize_pre()
            == vec![
                SpecializeStep::ForkPre,
                SpecializeStep::RaiseMounts,
                SpecializeStep::AskApp { run_modules: false }
            ]
    );
    assert!(c.app_specialize_pre().contains(&SpecializeStep::AskApp { run_modules: true }));
    assert!(c.app_specialize_post()[0] == SpecializeStep::SanitizeFds);
    assert!(c.native_fork_and_specialize_post()[0] == SpecializeStep::ForkPost);
    assert!(c.native_specialize_app_process_pre() == vec![SpecializeStep::AskSpecialized]);
    assert!(c.server_specialize_pre() == vec![SpecializeStep::AskServer { run_modules: true }]);
    assert!(c.native_fork_system_server_pre().len() == 2);
    assert!(
        c.native_specialize_app_process_post()
            == vec![
                SpecializeStep::LoadModules,
                SpecializeStep::RunPost,
                SpecializeStep::SanitizeFds
            ]
    );
    assert!(c.server_specialize_post()[0] == SpecializeStep::LoadServerModules);
    assert!(run_modules_pre(&c.modules));
    c.modules.push(ZygiskModule { handle: 1, api_handle: 2, id: "m".to_string() });
    c.apply_app_info(8 | 16);
    assert!(!run_modules_pre(&c.modules));
    assert!(
        c.native_specialize_app_process_post()
            == vec![
                SpecializeStep::RunPost,
                SpecializeStep::Hide,
                SpecializeStep::SetEnabled,
                SpecializeStep::SanitizeFds
            ]
    );
    assert!(
        c.native_fork_system_server_post()
            == vec![
                SpecializeStep::RunPostServer,
                SpecializeStep::SanitizeFds,
                SpecializeStep::ForkPost
            ]
    );
    assert!(c.server_specialize_post()[1] == SpecializeStep::Hide);
}

#[test]
fn current_context() {
    let mut slot = CurrentContext { ptr: 0 };
    assert_eq!(current_ctx(&slot), None);
    set_current_ptr(&mut slot, 78);
    assert_eq!(current_ctx(&slot), Some(78));
    set_current_ptr(&mut slot, 0);
    assert_eq!(current_ctx(&slot), None);
    set_current(&mut slot, 77);
    assert_eq!((current_ctx(&slot), get_current_ptr(&slot)), (Some(77), 77));
    assert!(!drop_context(&mut slot, 78, 0).restore_env);
    assert_eq!(slot.ptr, 77);
    assert!(drop_context(&mut slot, 77, 5).restore_env);
    assert_eq!(slot.ptr, 0);
    set_current(&mut slot, 1);
    unset_current(&mut slot);
    assert_eq!(slot.ptr, 0);
}

#[test]
fn calls_to_be_redirected() {
    assert!(hook_plt(false).is_empty());
    let list = hook_plt(true);
    assert_eq!(list.len(), 7);
    assert_eq!((list[0].lib, list[0].symbol), ("/libnativebridge.so", "dlclose"));
    assert_eq!((list[6].lib, list[6].symbol), ("/libc.so", "pthread_attr_destroy"));
    assert!(list[2].slot == HookSlot::Setcontext);
    let mut f = OrigFuncs::new();
    assert_eq!(f.orig_fn(HookSlot::Strdup), None);
    f.set(HookSlot::Strdup, 9);
    assert_eq!(f.orig_fn(HookSlot::Strdup), Some(9));
    assert_eq!(f.orig_fn(HookSlot::Unshare), None);
    assert!(missing(HookSlot::Unshare) == Missing::Failure);
    assert!(missing(HookSlot::Strdup) == Missing::NoMemory);
    assert!(missing(HookSlot::LogClose) == Missing::Nothing);
    assert!(commit_all());
}

#[test]
fn subslices() {
    let cases: [(&[u8], &[u8]); 6] = [
        (b"abc", b""),
        (b"", b"a"),
        (b"", b""),
        (b"/dev/.magisk/x", b".magisk"),
        (b"aab", b"ab"),
        (b"abc", b"abd"),
    ];
    for (h, n) in cases {
        let expected = n.is_empty() || h.windows(n.len()).any(|w| w == n);
        assert_eq!(contains_subslice(h, n), expected);
    }
}

#[test]
fn daemon_directory() {
    let info = b"1 2 0:3 / / rw\n\n30 2 0:4 /  /debug_ramdisk/.magisk/x rw - tmpfs magisk\n";
    assert_eq!(get_magisk_tmp(info), Some("/debug_ramdisk".to_string()));
    let info = b"41 1 0:5 / /sbin/.magisk rw - tmpfs magisk rw\n";
    assert_eq!(get_magisk_tmp(info), Some("/sbin".to_string()));
    assert_eq!(get_magisk_tmp(b"1 2 3 4 /.magisk"), Some(String::new()));
    assert_eq!(get_magisk_tmp(b"1 2 3 4 /a/.magisk/.magisk"), Some("/a".to_string()));
    assert_eq!(get_magisk_tmp(b"1 2 3 4 /x.magisk\n1 2 3 4 /y/.magisk"), Some("/x".to_string()));
    assert_eq!(get_magisk_tmp(b"1 2 3 4 x.magisk"), Some("x".to_string()));
    assert_eq!(get_magisk_tmp(b"1 2 3 4 /a//.magisk"), Some("/a/".to_string()));
    assert_eq!(get_magisk_tmp(b"1 2 3 4 /caf\xc3\xa9/.magisk"), Some("/caf\u{e9}".to_string()));
    assert_eq!(get_magisk_tmp(b"1 2 3 /.magisk"), None);
    assert_eq!(get_magisk_tmp(b"1 2 3 /.magisk /x"), None);
    assert_eq!(get_magisk_tmp(b"1 2 3 4 /\xff/.magisk\n1 2 3 4 /.magisk"), None);
    assert_eq!(get_magisk_tmp(b""), None);
}

#[test]
fn daemon_socket() {
    let a = connect_daemon("/debug_ramdisk").unwrap();
    assert_eq!((a.path.as_slice(), a.len), (&b"/debug_ramdisk/magiskd"[..], 24));
    let a = connect_daemon(&"x".repeat(200)).unwrap();
    assert_eq!((a.path.len(), a.len), (107, 109));
    assert!(connect_daemon("a\0b").is_none());
}

#[test]
fn numbers_and_strings_are_sent() {
    for v in [0, -1, 42, i32::MIN, i32::MAX] {
        assert_eq!(write_int(v), v.to_le_bytes());
        assert_eq!(read_int(&write_int(v)), Some(v));
    }
    assert_eq!(read_int(&[1, 2, 3]), None);
    for s in ["x", "zygote64", "caf\u{e9}"] {
        let sent = write_string(s);
        let len = read_int(&sent[..4]).unwrap();
        assert_eq!(string_len(len), Some(s.len()));
        assert_eq!(read_string(len, &sent[4..]).as_deref(), Some(s));
    }
    assert_eq!(write_string(""), [0, 0, 0, 0]);
    assert_eq!(read_string(0, &[]), None);
    assert_eq!(read_string(2, &[65]), None);
    assert_eq!(read_string(1, &[0xff]), None);
    assert_eq!((string_len(65536), string_len(65537), string_len(-1)), (Some(65536), None, None));
}

#[test]
fn the_daemon_is_asked() {
    let mut expected = Vec::new();
    expected.extend(0i32.to_le_bytes());
    expected.extend(1000i32.to_le_bytes());
    expected.extend(2i32.to_le_bytes());
    expected.extend(b"ab");
    expected.extend(1i32.to_le_bytes());
    assert_eq!(info_request(1000, "ab", true), expected);
    assert_eq!(info_request(1000, "ab", false)[14..], 0i32.to_le_bytes());
    for wide in [false, true] {
        let sent = info_request(1000, "ab", wide);
        assert_eq!(is_wide(read_int(&sent[14..]).unwrap()), wide);
    }
    assert!(is_wide(64) && is_wide(-1));
    let r = remote_get_info(Some(-1), Some(3)).unwrap();
    assert_eq!((r.flags, r.fds), (u32::MAX, 3));
    assert_eq!(remote_get_info(Some(1), Some(-4)).unwrap().fds, 0);
    assert!(remote_get_info(None, Some(3)).is_none() && remote_get_info(Some(1), None).is_none());
    assert_eq!(collect_fds(&[Some(3), None, Some(4)]), [3, 4]);
    assert_eq!(command_code(DaemonCommand::RemoteGetInfo), 0);
    assert_eq!(command_code(DaemonCommand::ConnectCompanion), 1);
    assert_eq!(command_code(DaemonCommand::RequestSulist), 3);
    assert_eq!(command_code(DaemonCommand::RequestUmount), 4);
}

#[test]
fn descriptors_are_received() {
    assert_eq!((SOL_SOCKET, SCM_RIGHTS), (libc::SOL_SOCKET, libc::SCM_RIGHTS));
    let data = [5, 0, 0, 0, 7, 0, 0, 0, 1];
    assert_eq!(recv_fds(1, 1, &data), [5, 7]);
    assert_eq!(recv_fd(1, 1, &data), Some(5));
    assert!(recv_fds(1, 2, &data).is_empty() && recv_fds(0, 1, &data).is_empty());
    assert_eq!((recv_fd(1, 1, &data[..3]), recv_fd(2, 1, &data)), (None, None));
    assert_eq!((cmsg_len(4, 8), cmsg_len(0, 8), cmsg_space(4, 8)), (20, 16, 24));
    assert_eq!(cmsg_len(u32::MAX, 8), 0x1_0000_000f);
    assert_eq!((cmsg_len(4, 4), cmsg_space(5, 4), cmsg_space(8, 8)), (16, 20, 24));
    assert_eq!((S_IFMT, S_IFREG), (libc::S_IFMT as u32, libc::S_IFREG as u32));
    assert!(is_regular_file(libc::S_IFREG as u32 | 0o644));
    assert!(!is_regular_file(libc::S_IFDIR as u32));
}

#[test]
fn allocations_are_powers_of_two() {
    for size in [0usize, 1, 15, 16, 17, 32, 33, 4096, 4097, isize::MAX as usize] {
        assert_eq!(layout_size(size), size.max(16).next_power_of_two());
    }
}

#[test]
fn own_descriptors_have_paths() {
    for fd in [0, 7, 10, 2147483647, -1, -25] {
        assert_eq!(fd_path_bytes(fd), format!("/proc/self/fd/{}\0", fd).into_bytes());
    }
    assert_eq!(descriptor_path(12), b"/proc/self/fd/12\0");
}

#[test]
fn companions_serve_clients() {
    assert!(companion_starts(false, 0, true));
    assert!(!companion_starts(true, 0, true));
    assert!(!companion_starts(false, 1000, true));
    assert!(!companion_starts(false, 0, false));
    assert_eq!((POLLERR, POLLHUP), (libc::POLLERR, libc::POLLHUP));
    let mut c = Companion::new();
    assert!(c.zygisk_companion_entry(Event::Received(2)) == Action::Load(0));
    assert!(c.zygisk_companion_entry(Event::Loaded(false)) == Action::Load(1));
    assert!(c.zygisk_companion_entry(Event::Loaded(true)) == Action::Acknowledge);
    assert!(c.zygisk_companion_entry(Event::Finished) == Action::Poll);
    let mut ask = |id, expected: Action| {
        assert!(
            c.zygisk_companion_entry(Event::Polled { ret: 1, revents: 1 }) == Action::Accept
        );
        assert!(c.zygisk_companion_entry(Event::Client(Some(30))) == Action::Read(30));
        assert!(c.zygisk_companion_entry(Event::Wants(id)) == expected);
    };
    ask(Some(0), Action::CloseAndPoll(30));
    ask(Some(2), Action::CloseAndPoll(30));
    ask(Some(-1), Action::CloseAndPoll(30));
    ask(None, Action::CloseAndPoll(30));
    ask(Some(1), Action::Serve { client: 30, module: 1 });
    let f = OpenFile { dev: 1, ino: 2 };
    let same = Event::Served { before: f, after: Some(f) };
    assert!(c.zygisk_companion_entry(same) == Action::CloseAndPoll(30));
    c.zygisk_companion_entry(Event::Polled { ret: 1, revents: 1 });
    c.zygisk_companion_entry(Event::Client(Some(30)));
    c.zygisk_companion_entry(Event::Wants(Some(1)));
    let other = Event::Served { before: f, after: Some(OpenFile { dev: 1, ino: 3 }) };
    assert!(c.zygisk_companion_entry(other) == Action::Poll);
    let gone = Event::Polled { ret: 1, revents: libc::POLLIN | libc::POLLHUP };
    assert!(c.zygisk_companion_entry(gone) == Action::Exit);
    let mut c = Companion::new();
    assert!(c.zygisk_companion_entry(Event::Received(0)) == Action::Exit);
}

fn image(symbols: &[(&str, u64)]) -> Vec<u8> {
    let mut img = vec![0u8; 0x800];
    let mut put = |at: usize, bytes: &[u8]| img[at..at + bytes.len()].copy_from_slice(bytes);
    put(0, b"\x7fELF");
    put(32, &64u64.to_le_bytes());
    put(54, &56u16.to_le_bytes());
    put(56, &2u16.to_le_bytes());
    put(64, &1u32.to_le_bytes());
    put(120, &2u32.to_le_bytes());
    put(136, &0x100u64.to_le_bytes());
    let rels = symbols.len() as u64 * 24;
    for (i, (tag, value)) in
        [(5u64, 0x600u64), (6, 0x400), (23, 0x200), (2, rels), (99, 1), (0, 0)].iter().enumerate()
    {
        put(0x100 + i * 16, &tag.to_le_bytes());
        put(0x108 + i * 16, &value.to_le_bytes());
    }
    let mut name = 1;
    for (i, (symbol, offset)) in symbols.iter().enumerate() {
        put(0x200 + i * 24, &offset.to_le_bytes());
        put(0x208 + i * 24, &(((i as u64 + 1) << 32) | 7).to_le_bytes());
        put(0x400 + (i + 1) * 24, &(name as u32).to_le_bytes());
        put(0x600 + name, symbol.as_bytes());
        name += symbol.len() + 1;
    }
    img
}

#[test]
fn slots_of_called_functions() {
    let img = image(&[("strdup", 0x3000), ("unshare", 0x3008), ("strdup", 0x3010)]);
    assert_eq!(find_got_offset(&img, b"strdup\0"), Some(0x3000));
    assert_eq!(find_got_offset(&img, b"unshare\0"), Some(0x3008));
    assert_eq!(find_got_offset(&img, b"dlclose\0"), None);
    assert_eq!(find_got_offset(&img, b"strdup"), None);
    assert_eq!(find_got_offset(&img[..0x300], b"strdup\0"), None);
    assert_eq!(find_got_offset(&img[..50], b"strdup\0"), None);
    assert_eq!(find_got_offset(&[], b"strdup\0"), None);
    let mut bad = img.clone();
    bad[1] = b'X';
    assert_eq!(find_got_offset(&bad, b"strdup\0"), None);
    let mut bad = img.clone();
    bad[120] = 3;
    assert_eq!(find_got_offset(&bad, b"strdup\0"), None);
    let mut bad = img.clone();
    bad[0x138] = 0;
    assert_eq!(find_got_offset(&bad, b"strdup\0"), None);
}

const MAPS: &[u8] = b"1000-2000 r--p 00000000 fe:01 12      /lib/libc.so\n\
2000-3000 r-xp 00001000 fe:01 12      /lib/libc.so\n\
4000-5000 rw-p 00000000 00:00 0\n\
5000-6000 rw-p 00000000 00:00 0       [heap]\n\
6000-7000 -w-p 00000000 fe:01 13      /lib/my lib.so\n\
junk\n";

#[test]
fn file_mappings_are_read() {
    let maps = scan_maps(MAPS);
    assert_eq!(maps.len(), 3);
    assert_eq!((maps[0].addr_start, maps[0].addr_end, maps[0].offset), (0x1000, 0x2000, 0));
    assert_eq!((maps[0].dev_major, maps[0].dev_minor, maps[0].inode), (0xfe, 1, 12));
    assert_eq!((maps[2].perms.as_str(), maps[2].path.as_str()), ("-w-p", "/lib/my lib.so"));
    assert!(scan_maps(b"\xff").is_empty());
    assert_eq!(get_page_perms(&maps, 0x1000), Some(1));
    assert_eq!(get_page_perms(&maps, 0x2fff), Some(5));
    assert_eq!(get_page_perms(&maps, 0x6000), Some(2));
    assert_eq!(get_page_perms(&maps, 0x4000), None);
    assert_eq!(find_lib_base(&maps, "/libc.so"), Some(0x1000));
    assert_eq!(find_lib_base(&maps, "/my lib.so"), None);
    assert_eq!(page_of(0x12345), 0x12000);
    assert_eq!(parse_perms(&to_chars("rwxp")), 7);
}

#[test]
fn calls_are_redirected_and_put_back() {
    let maps = scan_maps(MAPS);
    let img = image(&[("strdup", 0x1008)]);
    assert_eq!(find_got_addr(&maps, "/libc.so", &img, b"strdup\0"), Some(0x2008));
    assert_eq!(find_got_addr(&maps, "/none.so", &img, b"strdup\0"), None);
    let p = find_and_hook(&maps, "/libc.so", b"strdup\0", true, &img).unwrap();
    assert_eq!((p.got, p.page, p.perms, p.sym.as_slice()), (0x2008, 0x2000, 5, &b"strdup"[..]));
    assert!(find_and_hook(&maps, "/libc.so", b"strdup\0", false, &img).is_none());
    assert!(find_and_hook(&maps, "/libc.so", b"strdup", true, &img).is_none());
    assert!(find_and_hook(&maps, "/libc.so", b"dlclose\0", true, &img).is_none());
    let mut list: Vec<PltHookEntry> = Vec::new();
    push_plt_hook(&mut list, p, 0xaaaa);
    assert_eq!((list[0].dev, list[0].ino, list[0].addr, list[0].perms), (0, 0, 0x2008, 5));
    list.push(PltHookEntry { dev: 0, ino: 0, addr: 0, perms: 0, sym: vec![], orig: 1 });
    list.push(PltHookEntry { dev: 0, ino: 0, addr: 0x9000, perms: 0, sym: vec![], orig: 2 });
    let expected = vec![Restore { addr: 0x2008, page: 0x2000, orig: 0xaaaa }];
    assert!(restore_all_hooks(&list, &maps) == expected);
    let unhooking = unhook_functions(&list, &maps);
    assert!(unhooking.restores == expected && unhooking.result);
    assert!(unhook_functions(&[], &maps).result);
}

#[test]
fn libraries_are_read_part_by_part() {
    let maps = scan_maps(
        b"1000-2000 r--p 0 fe:01 12 /lib/libx.so\n\
2000-3000 r-xp 1000 fe:01 12 /lib/libx.so\n\
4000-5000 ---p 2000 fe:01 12 /lib/libx.so\n\
5000-5800 r--p 3000 fe:01 13 /lib/liby.so\n\
6000-7000 rw-p 3000 fe:01 12 /lib/libx.so\n\
9000-a000 r--p 0 fe:01 12 /lib/libx.so\n\
a000-b000 r--p 1000 fe:01 12 /lib/libx.so\n",
    );
    let image = lib_image(&maps, "/libx.so");
    assert_eq!(image.len, 0x6000);
    assert!(
        image.parts
            == vec![
                ImagePart { addr: 0x1000, at: 0, len: 0x1000 },
                ImagePart { addr: 0x2000, at: 0x1000, len: 0x1000 },
                ImagePart { addr: 0x6000, at: 0x5000, len: 0x1000 }
            ]
    );
    let image = lib_image(&maps, "/libz.so");
    assert!(image.len == 0 && image.parts.is_empty());
}

#[test]
fn a_slot_is_changed() {
    let maps = scan_maps(MAPS);
    let img = image(&[("strdup", 0x1008)]);
    let p = find_and_hook(&maps, "/libc.so", b"strdup\0", true, &img).unwrap();
    let (phase, action) = begin_change();
    assert!(action == SlotAction::Protect((libc::PROT_READ | libc::PROT_WRITE) as u32));
    assert!(p.write_hook(phase, false, 7) == (SlotPhase::Done(false), SlotAction::Finish(false)));
    let (phase, action) = p.write_hook(phase, true, 7);
    assert!(action == SlotAction::Write(7));
    let (phase, action) = p.write_hook(phase, true, 7);
    assert!(action == SlotAction::Protect(p.perms));
    assert!(p.write_hook(phase, true, 7).1 == SlotAction::Finish(true));
    assert!(p.write_hook(phase, false, 7).1 == SlotAction::Finish(false));
    let r = Restore { addr: 0x2008, page: 0x2000, orig: 9 };
    let (phase, action) = r.restore_hook(begin_change().0, true);
    assert!(action == SlotAction::Write(9));
    let (phase, action) = r.restore_hook(phase, true);
    assert!(action == SlotAction::Protect((libc::PROT_READ | libc::PROT_EXEC) as u32));
    assert!(r.restore_hook(phase, false).1 == SlotAction::Finish(true));
    assert!(r.restore_hook(begin_change().0, false).1 == SlotAction::Finish(false));
}

#[test]
fn a_slot_redirected_once_gets_its_function_back() {
    let maps = scan_maps(MAPS);
    let img = image(&[("strdup", 0x1008), ("unshare", 0x1010)]);
    let mut memory = std::collections::BTreeMap::from([(0x2008usize, 11usize), (0x2010, 22)]);
    let before = memory.clone();
    let mut list: Vec<PltHookEntry> = Vec::new();
    for (symbol, hook) in [(&b"strdup\0"[..], 91), (&b"unshare\0"[..], 92)] {
        let p = find_and_hook(&maps, "/libc.so", symbol, true, &img).unwrap();
        let orig = memory.insert(p.got, hook).unwrap();
        push_plt_hook(&mut list, p, orig);
    }
    assert_ne!(memory, before);
    for r in restore_all_hooks(&list, &maps) {
        memory.insert(r.addr, r.orig);
    }
    assert_eq!(memory, before);
}

#[test]
fn mappings_of_modules_are_hidden() {
    let mut s = HideState::new();
    assert!(initialize(&mut s, false));
    assert!(initialize(&mut s, true));
    let mut s = HideState::new();
    assert!(!initialize(&mut s, true));
    assert!(!initialize(&mut s, false));
    let text = b"1000-3000 r-xp 00000000 00:01 9      /memfd:jit-zygisk-cache (deleted)\n\
5000-6000 -w-p 0 0 0 /data/adb/modules/x/lib.so\n\
6000-7000 r--p 0 0 0 /system/lib.so\n\
x-7000 r--p 0 0 0 /modules/\n\
7000-8000 r--p 0 0 0\n";
    let mut s = HideState::new();
    assert!(
        hide_modules(&mut s, false, text)
            == vec![
                MapEntry { start: 0x1000, end: 0x3000, perms: 5 },
                MapEntry { start: 0x5000, end: 0x6000, perms: 2 }
            ]
    );
    assert!(s == HideState { initialized: true, needs_hide: true });
    assert!(hide_modules(&mut s, true, b"\xff").is_empty());
    let mut s = HideState::new();
    assert!(hide_modules(&mut s, true, text).is_empty());
    assert!(hide_modules(&mut s, false, text).is_empty());
}

#[test]
fn a_mapping_is_replaced() {
    let e = MapEntry { start: 0x5000, end: 0x6000, perms: 2 };
    assert!(e.begin_hide() == (HidePhase::Allocating, HideAction::Allocate(0x1000)));
    assert!(
        e.hide_step(HidePhase::Allocating, true) == (HidePhase::Exposing, HideAction::Protect(1))
    );
    assert!(e.hide_step(HidePhase::Exposing, false) == (HidePhase::Copying, HideAction::Copy));
    assert!(e.hide_step(HidePhase::Copying, true) == (HidePhase::Moving, HideAction::Move));
    assert!(
        e.hide_step(HidePhase::Moving, true) == (HidePhase::Protecting, HideAction::Protect(2))
    );
    assert!(
        e.hide_step(HidePhase::Protecting, true)
            == (HidePhase::Done(true), HideAction::Finish(true))
    );
    assert!(e.hide_step(HidePhase::Moving, false) == (HidePhase::Releasing, HideAction::Release));
    assert!(
        e.hide_step(HidePhase::Allocating, false)
            == (HidePhase::Done(false), HideAction::Finish(false))
    );
    let r = MapEntry { start: 0x5000, end: 0x6000, perms: 5 };
    assert!(r.hide_step(HidePhase::Allocating, true) == (HidePhase::Copying, HideAction::Copy));
}

#[test]
fn modules_are_loaded() {
    let (mut l, a) = Loading::start(5);
    assert!(a == LoadAction::OpenDescriptor);
    assert!(l.load(false) == LoadAction::OpenPath);
    assert!(l.load(true) == LoadAction::Find && l.open);
    assert!(l.load(true) == LoadAction::Enter);
    assert!(l.load(true) == LoadAction::Finish(true));
    assert!(l.open && l.phase == LoadPhase::Done(true));
    let (mut l, a) = Loading::start(0);
    assert!(a == LoadAction::OpenPath);
    assert!(l.load(false) == LoadAction::Finish(false) && !l.open);
    let (mut l, _) = Loading::start(5);
    l.load(true);
    assert!(l.load(false) == LoadAction::Close && l.open);
    assert!(l.load(true) == LoadAction::Finish(false) && !l.open);
    let (mut l, _) = Loading::start(5);
    l.load(true);
    l.load(true);
    assert!(l.load(false) == LoadAction::Close);
    assert_eq!(
        library_path_bytes("mod").as_deref(),
        Some(&b"/data/adb/modules/mod/zygisk/zygisk.so\0"[..])
    );
    assert!(library_path_bytes("a\0").is_none());
}

#[test]
fn modules_get_their_descriptors() {
    let mut entries = names(&[".", "..", "a", ".x", "b", "c"]);
    entries.insert(3, vec![0xff]);
    let v = load_modules(&entries, &[10, 11]);
    let got: Vec<(i32, &str)> = v.iter().map(|m| (m.fd, m.id.as_str())).collect();
    assert_eq!(got, [(10, "a"), (11, "b"), (-1, "c")]);
    assert!(load_modules(&[], &[1]).is_empty());
}

#[test]
fn tables_for_modules() {
    let mut t = ModuleApiV4::default();
    assert!(t.v2.v1 == ModuleApiV1::default() && t.v2.get_flags.is_none());
    ModuleApiV4::populate(&mut t, 9);
    assert_eq!(t.v2.v1.handle, 9);
    assert!(t.v2.v1.plt_hook_register == Some(Handler::PltHookRegister));
    assert!(t.v2.v1.plt_hook_exclude.is_none() && t.exempt_fd.is_none());
    assert!(t.v2.get_module_dir == Some(Handler::GetModuleDir));
    assert!(t.plt_hook_commit_v4 == Some(Handler::PltHookCommit));
    let imp = ZygiskModuleImpl {
        pre_app_specialize: 1,
        post_app_specialize: 0,
        pre_server_specialize: 3,
        post_server_specialize: 4,
    };
    assert_eq!(find_callback(Some(imp), Moment::PreAppSpecialize), Some(1));
    assert_eq!(find_callback(Some(imp), Moment::PostAppSpecialize), None);
    assert_eq!(find_callback(Some(imp), Moment::PostServerSpecialize), Some(4));
    assert_eq!(find_callback(None, Moment::PreAppSpecialize), None);
    assert!(natives_replaced(0) && !natives_replaced(-1));
}

#[test]
fn functions_of_the_java_machine() {
    let mut table: Vec<usize> = (100..400).collect();
    assert_eq!(find_jni_function_offset(&table, 131), Some(31));
    assert_eq!(find_jni_function_offset(&table, 356), None);
    assert_eq!(find_jni_function_offset(&table, 0), None);
    let o = init_jni_offsets(None, Some(5), None, None, Some(6));
    assert_eq!((o.get_object_class, o.get_method_id, o.call_object_method), (31, 5, 34));
    assert_eq!((o.get_string_utf_chars, o.release_string_utf_chars), (169, 6));
    assert_eq!(init_jni_offsets(None, None, None, None, None).release_string_utf_chars, 170);
    let mut cell = JniOffsetsCell::new();
    assert!(cell.get().is_none());
    cell.init(o);
    assert!(cell.get() == Some(o));
    let args = RegisterCall { env: 1, class: 2, methods: 3, count: 4 };
    let call = RegisterStep::CallAndReturn { func: 9, args };
    assert!(
        hook_register_natives(9, Some("com.android.internal.os.Zygote"), args)
            == vec![RegisterStep::ReplaceMethods { env: 1, methods: 3, count: 4 }, call]
    );
    let other = Some("com.android.internal.os.ZygoteInit");
    assert!(hook_register_natives(9, other, args) == vec![call]);
    assert!(hook_register_natives(9, None, args) == vec![call]);
    assert!(hook_register_natives(0, other, args) == vec![RegisterStep::Return(0)]);
    let before = table.clone();
    assert_eq!(replace_entry(&mut table, 315, 7), Some(215));
    assert_eq!(table[215], 7);
    table[215] = 315;
    assert_eq!(table, before);
    assert_eq!(replace_entry(&mut table, 999, 7), None);
    assert!(restore_jni_env(1, 2) && !restore_jni_env(0, 2) && !restore_jni_env(1, 0));
}

#[test]
fn the_java_machine_is_hooked() {
    assert!(JniHook::start(true).is_none());
    let mut h = JniHook::start(false).unwrap();
    let events = [
        jni_env::Event::Address(0x10),
        jni_env::Event::Vm { ret: 0, count: 1, vm: 0x20 },
        jni_env::Event::Env { ret: 0, env: 0x30 },
        jni_env::Event::Address(0x40),
        jni_env::Event::Finished(true),
        jni_env::Event::Finished(true),
        jni_env::Event::Address(0x50),
        jni_env::Event::Finished(true),
        jni_env::Event::Finished(true),
    ];
    let actions: Vec<jni_env::Action> = events.iter().map(|e| h.hook_jni_env(*e)).collect();
    assert!(
        actions
            == vec![
                jni_env::Action::FindVm(0x10),
                jni_env::Action::FindEnv(0x20),
                jni_env::Action::ReadTable(0x30),
                jni_env::Action::Allocate,
                jni_env::Action::Copy(0x40),
                jni_env::Action::FindRegister,
                jni_env::Action::Replace(0x50),
                jni_env::Action::Install,
                jni_env::Action::Finish(true)
            ]
    );
    assert!(h.hooked && h.orig_functions == 0x40 && h.orig_register == 0x50);
    let bad = [
        jni_env::Event::Address(0),
        jni_env::Event::Vm { ret: 0, count: 0, vm: 0x20 },
        jni_env::Event::Env { ret: -1, env: 0x30 },
        jni_env::Event::Address(0),
        jni_env::Event::Finished(false),
        jni_env::Event::Finished(true),
        jni_env::Event::Address(0),
        jni_env::Event::Finished(false),
    ];
    for i in [0, 1, 2, 3, 4, 6, 7] {
        let mut h = JniHook::start(false).unwrap();
        for e in &events[..i] {
            h.hook_jni_env(*e);
        }
        assert!(h.hook_jni_env(bad[i]) == jni_env::Action::Finish(false));
        assert_eq!(h.hooked, i == 4);
    }
}
