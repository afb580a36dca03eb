use kitsune::zygisk::injection::{
    entry_name, return_module, Action, Event, Injection, Phase, Symbol,
};
use kitsune::zygisk::regs::{aarch64, arm, x86, x86_64, CallStyle, Registers};
use kitsune::zygisk::remote_call::{
    align_stack, finish_call, prepare_call, push_string, resume_at, CallOutcome,
};
use kitsune::zygisk::tracing::{
    self, bind_path, random_bind_path, wait_for_trace, Action as A, Event as E, Trace, Waited,
};
use kitsune::zygisk::{proc_monitor, remote_call};

fn arm64() -> aarch64::user_regs_struct {
    aarch64::user_regs_struct { regs: [7; 31], sp: 0x8005, pc: 0x100, pstate: 0 }
}

fn amd64() -> x86_64::user_regs_struct {
    x86_64::user_regs_struct {
        r15: 0, r14: 0, r13: 0, r12: 0, rbp: 0, rbx: 0, r11: 0, r10: 0, r9: 0, r8: 0, rax: 3,
        rcx: 0, rdx: 0, rsi: 0, rdi: 0, orig_rax: 0, rip: 0x100, cs: 0, eflags: 0, rsp: 0x8005,
        ss: 0, fs_base: 0, gs_base: 0, ds: 0, es: 0, fs: 0, gs: 0,
    }
}

fn i386() -> x86::user_regs_struct {
    x86::user_regs_struct {
        ebx: 0, ecx: 0, edx: 0, esi: 0, edi: 0, ebp: 0, eax: 3, xds: 0, xes: 0, xfs: 0, xgs: 0,
        orig_eax: 0, eip: 0x100, xcs: 0, eflags: 0, esp: 0x8005, xss: 0,
    }
}

fn words(v: &[u64]) -> Vec<u8> {
    v.iter().flat_map(|w| w.to_le_bytes()).collect()
}

#[test]
fn stacks_are_aligned() {
    let mut r = arm64();
    align_stack(&mut r, 0);
    assert_eq!(r.sp, 0x8000);
    align_stack(&mut r, 1);
    assert_eq!(r.sp, 0x7ff0);
    let mut r = arm::user_regs_struct { uregs: [0; 18] };
    align_stack(&mut r, 8);
    assert_eq!(r.uregs[13], 0xffff_fff0);
    assert_eq!(r.reg_sp(), 0xffff_fff0);
}

#[test]
fn strings_are_pushed() {
    let mut r = amd64();
    let w = push_string(&mut r, "abc");
    assert_eq!(w.bytes, b"abc\0");
    assert_eq!(w.addr, 0x8000);
    assert_eq!(r.rsp, 0x8000);
    let w = push_string(&mut r, "");
    assert_eq!((w.addr, w.bytes.as_slice()), (0x7ff0, &b"\0"[..]));
}

#[test]
fn registers_of_each_architecture() {
    let mut r = arm64();
    r.set_reg_ip(5);
    r.set_lr(6);
    r.set_regs_arg(30, 9);
    r.set_regs_arg(31, 1);
    assert_eq!((r.reg_ip(), r.reg_ret(), r.regs[30]), (5, 7, 9));
    assert!(aarch64::user_regs_struct::call_style() == CallStyle::LinkRegister { register_args: 8 });
    let mut r = arm::user_regs_struct { uregs: [2; 18] };
    r.set_reg_sp(0x1_0000_0010);
    r.set_reg_ip(0x20);
    r.set_lr(0x30);
    r.set_regs_arg(12, 4);
    r.set_regs_arg(13, 4);
    assert_eq!((r.uregs[13], r.uregs[15], r.uregs[12], r.uregs[14]), (0x10, 0x20, 4, 0x30));
    assert_eq!((r.reg_ip(), r.reg_ret()), (0x20, 2));
    let mut r = i386();
    for i in 0..7 {
        r.set_regs_arg(i, 10 + i as u64);
    }
    assert_eq!((r.ebx, r.ecx, r.edx, r.esi, r.edi, r.ebp), (10, 11, 12, 13, 14, 15));
    r.set_reg_sp(8);
    r.set_reg_ip(9);
    assert_eq!((r.reg_sp(), r.reg_ip(), r.reg_ret()), (8, 9, 3));
    let mut r = amd64();
    for i in 0..7 {
        r.set_regs_arg(i, 10 + i as u64);
    }
    assert_eq!((r.rdi, r.rsi, r.rdx, r.rcx, r.r8, r.r9), (10, 11, 12, 13, 14, 15));
}

#[test]
fn calls_on_64_bit_arm() {
    let mut r = arm64();
    let args: Vec<u64> = (0..10).map(|i| 100 + i).collect();
    let w = prepare_call(&mut r, 0xf000, 0xe000, &args);
    assert_eq!(&r.regs[..8], &args[..8]);
    assert_eq!((r.pc, r.regs[30], r.sp), (0xf000, 0xe000, 0x7ff0));
    assert_eq!(w.len(), 1);
    assert_eq!((w[0].addr, w[0].bytes.clone()), (0x7ff0, words(&args[8..])));
    let mut r = arm64();
    assert!(prepare_call(&mut r, 0xf000, 0xe000, &args[..8]).is_empty());
    assert_eq!(r.sp, 0x8000);
}

#[test]
fn calls_on_64_bit_x86() {
    let mut r = amd64();
    let args: Vec<u64> = (0..7).map(|i| 100 + i).collect();
    let w = prepare_call(&mut r, 0xf000, 0xe000, &args);
    assert_eq!((r.rdi, r.r9, r.rip, r.rsp), (100, 105, 0xf000, 0x7fe8));
    assert_eq!(w.len(), 2);
    assert_eq!((w[0].addr, w[0].bytes.clone()), (0x7ff0, words(&args[6..])));
    assert_eq!((w[1].addr, w[1].bytes.clone()), (0x7fe8, words(&[0xe000])));
}

#[test]
fn calls_on_32_bit_x86() {
    let mut r = i386();
    let w = prepare_call(&mut r, 0xf000, 0xe000, &[1, 2]);
    assert_eq!((r.eip, r.esp, r.ebx), (0xf000, 0x7fec, 0));
    assert_eq!(w.len(), 2);
    assert_eq!((w[0].addr, w[0].bytes.as_slice()), (0x7ff0, &[1, 0, 0, 0, 2, 0, 0, 0][..]));
    assert_eq!((w[1].addr, w[1].bytes.as_slice()), (0x7fec, &[0, 0xe0, 0, 0][..]));
    let mut r = i386();
    r.esp = 0;
    let w = prepare_call(&mut r, 0xf000, 0xe000, &[]);
    assert_eq!((w.len(), w[0].addr, r.esp), (1, 0xffff_fffc, 0xffff_fffc));
}

#[test]
fn calls_on_32_bit_arm() {
    let mut r = arm::user_regs_struct { uregs: [0; 18] };
    r.uregs[13] = 0x8005;
    r.uregs[16] = 0x1f;
    let w = prepare_call(&mut r, 0xf001, 0xe000, &[1, 2, 3, 4, 5, 6]);
    assert_eq!(&r.uregs[..4], &[1, 2, 3, 4]);
    assert_eq!((r.uregs[13], r.uregs[14], r.uregs[15], r.uregs[16]), (0x7ff0, 0xe000, 0xf000, 0x3f));
    assert_eq!(w.len(), 1);
    assert_eq!((w[0].addr, w[0].bytes.as_slice()), (0x7ff0, &[5, 0, 0, 0, 6, 0, 0, 0][..]));
    assert!(prepare_call(&mut r, 0xf000, 0xe000, &[7]).is_empty());
    assert_eq!((r.uregs[0], r.uregs[15], r.uregs[16]), (7, 0xf000, 0x1f));
    resume_at(&mut r, 0x77);
    assert_eq!((r.uregs[15], r.uregs[16]), (0x77, 0x1f));
    assert!(arm::user_regs_struct::has_mode() && !x86::user_regs_struct::has_mode());
    assert_eq!((arm::user_regs_struct::word_size(), x86_64::user_regs_struct::word_size()), (4, 8));
}

#[test]
fn calls_return_where_they_were_told() {
    let fault = CallOutcome::Stopped { signal: 11, regs: Some(amd64()) };
    assert_eq!(finish_call(&fault, 0x100), 3);
    assert_eq!(finish_call(&fault, 0x200), 0);
    let trap = CallOutcome::Stopped { signal: 5, regs: Some(amd64()) };
    assert_eq!(finish_call(&trap, 0x100), 0);
    let unread = CallOutcome::<x86::user_regs_struct>::Stopped { signal: 11, regs: None };
    assert_eq!(finish_call(&unread, 0x100), 0);
    assert_eq!(finish_call(&CallOutcome::<x86::user_regs_struct>::NotStarted, 0x100), 0);
    assert_eq!(finish_call(&CallOutcome::<x86::user_regs_struct>::Lost, 0x100), 0);
    let fault = CallOutcome::Stopped { signal: 11, regs: Some(i386()) };
    assert_eq!(finish_call(&fault, 0x100), 3);
    let mut r = amd64();
    resume_at(&mut r, 0x77);
    assert_eq!(r.rip, 0x77);
}

/// The status of a process that stopped, as waiting for it gives it.
fn stopped(signal: i32, event: i32) -> i32 {
    let status = (event << 16) | (signal << 8) | 0x7f;
    assert!(libc::WIFSTOPPED(status) && libc::WSTOPSIG(status) == signal);
    match wait_for_trace(false, false, status) {
        Waited::Stopped(s) => s,
        _ => panic!("not taken for stopped"),
    }
}

fn to_trap(word: u64) -> Injection {
    let mut s = Injection::new(word);
    assert!(s.step(Event::Regs(Some((0x1000, 0)))) == Action::ReadWord(0x1000));
    let env = 0x1000 + word * 4;
    assert!(s.step(Event::Word(Some(2))) == Action::ReadWord(env));
    assert!(s.step(Event::Word(Some(5))) == Action::ReadWord(env + word));
    assert!(s.step(Event::Word(Some(0))) == Action::ReadAuxv(env + 2 * word));
    assert!(s.step(Event::Auxv(Some((6, 4096)))) == Action::ReadAuxv(env + 4 * word));
    s
}

#[test]
fn entry_points_are_found_and_replaced() {
    let mut s = to_trap(8);
    let slot = 0x1000 + 48 + 16 + 8;
    assert!(
        s.step(Event::Auxv(Some((9, 0x4001))))
            == Action::WriteWord { addr: slot, value: 0xffff_ffff_fa13_e301 }
    );
    assert!(s.step(Event::Written(true)) == Action::Run);
    assert!(s.patched);
    assert!(s.step(Event::Status(stopped(11, 0))) == Action::ReadRegs);
    assert!(
        s.step(Event::Regs(Some((0, 0xffff_ffff_fa13_e300))))
            == Action::WriteWord { addr: slot, value: 0x4001 }
    );
    assert!(s.step(Event::Written(true)) == Action::FindReturn);
    assert!(!s.patched);
    let mut s = to_trap(4);
    assert!(
        s.step(Event::Auxv(Some((9, 0x1_0000_4000))))
            == Action::WriteWord { addr: 0x1000 + 24 + 8 + 4, value: 0xfa13_e300 }
    );
    assert_eq!(s.entry, 0x4000);
    s.step(Event::Written(true));
    assert!(s.step(Event::Status(stopped(11, 0))) == Action::ReadRegs);
    assert!(
        s.step(Event::Regs(Some((0, 0xfa13_e300))))
            == Action::WriteWord { addr: 0x1024, value: 0x4000 }
    );
}

fn trapped() -> Injection {
    let mut s = to_trap(8);
    s.step(Event::Auxv(Some((9, 0x4000))));
    s.step(Event::Written(true));
    s.step(Event::Status(stopped(11, 0)));
    s.step(Event::Regs(Some((0, 0xffff_ffff_fa13_e300))));
    s.step(Event::Written(true));
    s
}

#[test]
fn libraries_are_loaded_and_entered() {
    let mut s = trapped();
    assert!(s.step(Event::Found(Some(0x99))) == Action::Resolve(Symbol::Dlopen));
    assert!(s.step(Event::Found(Some(0xd0))) == Action::PushPath);
    assert!(
        s.step(Event::Pushed(0x700))
            == Action::Call { func: 0xd0, ret: 0x99, first: Some(0x700), second: Some(libc::RTLD_NOW as u64) }
    );
    assert!(s.step(Event::Returned(0xabc)) == Action::Resolve(Symbol::Dlsym));
    assert!(s.step(Event::Found(Some(0xd5))) == Action::PushName);
    assert!(
        s.step(Event::Pushed(0x600))
            == Action::Call { func: 0xd5, ret: 0x99, first: Some(0xabc), second: Some(0x600) }
    );
    assert!(
        s.step(Event::Returned(0xeee))
            == Action::Call { func: 0xeee, ret: 0x99, first: Some(0xabc), second: None }
    );
    assert!(s.step(Event::Returned(0)) == Action::Restore(0x4000));
    assert!(s.step(Event::Written(true)) == Action::Finish(true));
    assert!(s.phase == Phase::Done(true));
    assert_eq!((return_module(), entry_name()), ("libc.so", "zygisk_inject_entry"));
}

#[test]
fn reasons_of_failures_are_reported() {
    let mut s = trapped();
    s.step(Event::Found(Some(0x99)));
    s.step(Event::Found(Some(0xd0)));
    s.step(Event::Pushed(0x700));
    assert!(s.step(Event::Returned(0)) == Action::Resolve(Symbol::Dlerror));
    assert!(
        s.step(Event::Found(Some(0xd1))) == Action::Call { func: 0xd1, ret: 0x99, first: None, second: None }
    );
    assert!(s.step(Event::Returned(0x555)) == Action::Resolve(Symbol::Strlen));
    assert!(
        s.step(Event::Found(Some(0xd2)))
            == Action::Call { func: 0xd2, ret: 0x99, first: Some(0x555), second: None }
    );
    assert!(s.step(Event::Returned(12)) == Action::Report { addr: 0x555, len: 12 });
    assert!(s.phase == Phase::Done(false));
    assert_eq!((Symbol::Strlen.module(), Symbol::Strlen.name()), ("libc.so", "strlen"));
    for (y, n) in [(Symbol::Dlopen, "dlopen"), (Symbol::Dlsym, "dlsym"), (Symbol::Dlerror, "dlerror")]
    {
        assert_eq!((y.module(), y.name()), ("libdl.so", n));
    }
}

#[test]
fn injections_fail() {
    let fails = |mut s: Injection, ev: Event| s.step(ev) == Action::Finish(false);
    assert!(fails(Injection::new(8), Event::Regs(None)));
    let mut s = Injection::new(8);
    s.step(Event::Regs(Some((0x1000, 0))));
    assert!(fails(s, Event::Word(None)));
    assert!(fails(to_trap(8), Event::Auxv(Some((0, 0)))));
    assert!(fails(to_trap(8), Event::Auxv(None)));
    assert!(fails(to_trap(8), Event::Auxv(Some((9, 0)))));
    let mut s = to_trap(8);
    s.step(Event::Auxv(Some((9, 0x4000))));
    assert!(fails(s, Event::Written(false)));
    s.step(Event::Written(true));
    assert!(fails(s, Event::Status(stopped(19, 0))));
    s.step(Event::Status(stopped(11, 0)));
    assert!(fails(s, Event::Regs(Some((0, 0x4000)))));
    assert!(fails(s, Event::Regs(None)));
    assert!(fails(trapped(), Event::Found(None)));
    let mut s = Injection::new(8);
    s.step(Event::Regs(Some((0x1000, 0))));
    s.step(Event::Word(Some(0)));
    assert!(s.step(Event::Word(None)) == Action::ReadAuxv(0x1010));
}

#[test]
fn waiting_for_a_traced_process() {
    assert!(wait_for_trace(true, true, 0) == Waited::Again);
    assert!(wait_for_trace(true, false, 0) == Waited::Abort);
    assert!(wait_for_trace(false, false, 0x137f) == Waited::Stopped(0x137f));
    assert!(wait_for_trace(false, false, 0x100) == Waited::Abort);
}

#[test]
fn files_to_mount_on_are_random() {
    assert_eq!(bind_path(12), "/dev/zygisk.12");
    assert_eq!(bind_path(u64::MAX), format!("/dev/zygisk.{}", u64::MAX));
    let a = random_bind_path();
    assert!(a.strip_prefix("/dev/zygisk.").unwrap().parse::<u64>().is_ok());
    assert_ne!(a, random_bind_path());
}

fn tracing_run(evs: &[tracing::Event]) -> (Trace, Vec<tracing::Action>) {
    let mut t = Trace::new();
    let actions = evs.iter().map(|e| t.step(*e)).collect();
    (t, actions)
}

#[test]
fn tracing_succeeds() {
    let stop = |sig: i32, event: i32| E::Status(stopped(sig, event));
    let (t, a) = tracing_run(&[
        E::Finished(true),
        stop(libc::SIGSTOP, 128),
        E::Finished(true),
        E::Finished(true),
        E::Finished(true),
        E::Finished(true),
        stop(libc::SIGTRAP, 128),
        stop(libc::SIGCONT, 0),
        E::Finished(true),
    ]);
    assert!(
        a == vec![
            A::Wait,
            A::Create,
            A::Mount,
            A::Inject,
            A::UnmountAndRemove,
            A::Continue,
            A::Run,
            A::Detach(libc::SIGCONT),
            A::Finish(true)
        ]
    );
    assert!(!t.seized && !t.created && !t.mounted);
}

#[test]
fn tracing_fails_and_cleans_up() {
    let stop = |sig: i32, event: i32| E::Status(stopped(sig, event));
    let ready = stop(libc::SIGSTOP, 128);
    let (t, a) = tracing_run(&[E::Finished(false)]);
    assert!(a == vec![A::Finish(false)] && !t.seized);
    let (t, a) = tracing_run(&[E::Finished(true), stop(libc::SIGTRAP, 128), E::Finished(true)]);
    assert!(a[1..] == [A::Detach(0), A::Finish(false)] && !t.seized);
    let (_, a) = tracing_run(&[E::Finished(true), ready, E::Finished(false)]);
    assert!(a[2] == A::Detach(0));
    let (t, a) = tracing_run(&[
        E::Finished(true),
        ready,
        E::Finished(true),
        E::Finished(false),
        E::Finished(true),
        E::Finished(true),
    ]);
    assert!(a[3..] == [A::Remove, A::Detach(0), A::Finish(false)]);
    assert!(!t.created && !t.seized);
    let (t, a) = tracing_run(&[
        E::Finished(true),
        ready,
        E::Finished(true),
        E::Finished(true),
        E::Finished(false),
        E::Finished(true),
        E::Finished(true),
    ]);
    assert!(a[4..] == [A::UnmountAndRemove, A::Detach(0), A::Finish(false)]);
    assert!(!t.mounted && !t.created && !t.seized);
    let (_, a) = tracing_run(&[
        E::Finished(true),
        ready,
        E::Finished(true),
        E::Finished(true),
        E::Finished(true),
        E::Finished(true),
        stop(libc::SIGTRAP, 0),
    ]);
    assert!(a[6] == A::Detach(0));
    let (_, a) = tracing_run(&[
        E::Finished(true),
        ready,
        E::Finished(true),
        E::Finished(true),
        E::Finished(true),
        E::Finished(true),
        stop(libc::SIGTRAP, 128),
        stop(libc::SIGSTOP, 0),
        E::Finished(true),
    ]);
    assert!(a[7..] == [A::Detach(0), A::Finish(true)]);
}

#[test]
fn signals_have_the_systems_numbers() {
    assert_eq!(proc_monitor::SIGTRAP, libc::SIGTRAP);
    assert_eq!(proc_monitor::SIGSTOP, libc::SIGSTOP);
    assert_eq!(remote_call::SIGSEGV, libc::SIGSEGV);
    assert_eq!(tracing::SIGCONT, libc::SIGCONT);
}
