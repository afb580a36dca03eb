//! The path that booting takes.

use vstd::prelude::*;
use vstd::string::*;

use crate::text::{after_last, after_last_spec, law_after_last, same_text, texts, to_chars, to_text};

verus! {

/// What the boot loader asked for.
pub struct BootConfig {
    pub skip_initramfs: bool,
    pub force_normal_boot: bool,
    pub rootwait: bool,
    pub emulator: bool,
    pub slot: [u8; 3],
    pub dt_dir: [u8; 64],
    pub fstab_suffix: [u8; 32],
    pub hardware: [u8; 32],
    pub hardware_plat: [u8; 32],
    pub boot_mode: [u8; 16],
    pub partition_map: Vec<(String, String)>,
}

/// Every byte is zero.
pub open spec fn all_zero(s: Seq<u8>) -> bool {
    forall|i: int| 0 <= i < s.len() ==> s[i] == 0
}

impl BootConfig {
    /// Nothing was asked for.
    pub fn new() -> (r: BootConfig)
        ensures
            !r.skip_initramfs,
            !r.force_normal_boot,
            !r.rootwait,
            !r.emulator,
            all_zero(r.slot@),
            all_zero(r.dt_dir@),
            all_zero(r.fstab_suffix@),
            all_zero(r.hardware@),
            all_zero(r.hardware_plat@),
            all_zero(r.boot_mode@),
            r.partition_map@.len() == 0,
    {
        BootConfig {
            skip_initramfs: false,
            force_normal_boot: false,
            rootwait: false,
            emulator: false,
            slot: [0;3],
            dt_dir: [0;64],
            fstab_suffix: [0;32],
            hardware: [0;32],
            hardware_plat: [0;32],
            boot_mode: [0;16],
            partition_map: Vec::new(),
        }
    }
}

/// The bytes before the first zero.
pub open spec fn c_text(s: Seq<u8>) -> Seq<u8>
    decreases s.len(),
{
    if s.len() == 0 || s[0] == 0 {
        Seq::empty()
    } else {
        seq![s[0]] + c_text(s.skip(1))
    }
}

/// The bytes of `charger`.
pub open spec fn charger_bytes() -> Seq<u8> {
    seq![99, 104, 97, 114, 103, 101, 114]
}

proof fn lemma_c_text(s: Seq<u8>, t: Seq<u8>)
    requires
        t.len() < s.len(),
        forall|i: int| 0 <= i < t.len() ==> t[i] != 0,
    ensures
        c_text(s) == t <==> (s.take(t.len() as int) == t && s[t.len() as int] == 0),
    decreases t.len(),
{
    if t.len() > 0 {
        let r = t.skip(1);
        let u = s.skip(1);
        let head = s.take(t.len() as int);
        lemma_c_text(u, r);
        assert(t =~= seq![t[0]] + r);
        assert(head =~= seq![s[0]] + u.take(r.len() as int));
        assert(u[r.len() as int] == s[t.len() as int]);
        if c_text(s) == t {
            assert(s[0] != 0);
            assert((seq![s[0]] + c_text(u))[0] == t[0]);
            assert((seq![s[0]] + c_text(u)).skip(1) =~= c_text(u));
        }
        if head == t {
            assert(head[0] == t[0]);
            assert(head.skip(1) =~= u.take(r.len() as int));
        }
    } else {
        assert(t =~= Seq::empty());
        assert(s.take(0) =~= t);
        if s[0] != 0 {
            assert(c_text(s).len() > 0);
        }
    }
}

/// Tells whether the device only charges.
pub fn is_charger(boot_mode: &[u8; 16]) -> (r: bool)
    ensures
        r == (c_text(boot_mode@) == charger_bytes()),
{
    let m = boot_mode;
    let r = m[0] == 99 && m[1] == 104 && m[2] == 97 && m[3] == 114 && m[4] == 103 && m[5] == 101
        && m[6] == 114 && m[7] == 0;
    proof {
        lemma_c_text(boot_mode@, charger_bytes());
        if r {
            assert(boot_mode@.take(7) =~= charger_bytes());
        } else if boot_mode@.take(7) == charger_bytes() {
            let t = boot_mode@.take(7);
            assert(t[0] == 99 && t[1] == 104 && t[2] == 97 && t[3] == 114 && t[4] == 103 && t[5]
                == 101 && t[6] == 114);
        }
    }
    r
}

/// How booting goes on.
#[derive(Clone, Copy, PartialEq, Eq, Structural)]
pub enum BootPath {
    /// The root file system is in place, and `init` is about to load its policy.
    SecondStage,
    /// The system partition becomes the root file system at once.
    LegacySystemAsRoot,
    /// `init` will mount the root file system.
    FirstStage,
    /// The device charges, or starts its recovery system.
    RecoveryOrCharger,
    /// The root file system stays in memory.
    RootFs,
}

/// What is looked at, or done, to find the path.
#[derive(Clone, Copy, PartialEq, Eq, Structural)]
pub enum StartPhase {
    /// Is the process file system mounted?
    Proc,
    /// The process file system is being mounted.
    MountProc,
    /// Is the system file system mounted?
    Sys,
    /// The system file system is being mounted.
    MountSys,
    /// The boot configuration is being read.
    Configure,
    /// Does `init` boot in two stages?
    TwoStage,
    /// The path is found.
    Run(BootPath),
    /// A file system could not be mounted.
    Failed,
}

/// An answer.
pub enum StartAnswer {
    Yes(bool),
    /// The configuration was read; the first argument, and whether there is a
    /// recovery program.
    Configured { argv1: Option<String>, recovery: bool },
}

/// An answer fits a question.
pub open spec fn start_expects(phase: StartPhase, a: StartAnswer) -> bool {
    match phase {
        StartPhase::Configure => a is Configured,
        StartPhase::Run(_) | StartPhase::Failed => false,
        _ => a is Yes,
    }
}

/// The path that the configuration fixes, or `None` where `init` has to be
/// looked at.
pub open spec fn configured_path(
    config: BootConfig,
    argv1: Option<Seq<char>>,
    recovery: bool,
) -> Option<BootPath> {
    if argv1 == Some("selinux_setup"@) {
        Some(BootPath::SecondStage)
    } else if config.skip_initramfs {
        Some(BootPath::LegacySystemAsRoot)
    } else if config.force_normal_boot {
        Some(BootPath::FirstStage)
    } else if recovery || c_text(config.boot_mode@) == charger_bytes() {
        Some(BootPath::RecoveryOrCharger)
    } else {
        None
    }
}

/// The phase after an answer.
pub open spec fn start_step(config: BootConfig, phase: StartPhase, a: StartAnswer) -> StartPhase {
    match (phase, a) {
        (StartPhase::Proc, StartAnswer::Yes(mounted)) => if mounted {
            StartPhase::Sys
        } else {
            StartPhase::MountProc
        },
        (StartPhase::MountProc, StartAnswer::Yes(ok)) => if ok {
            StartPhase::Sys
        } else {
            StartPhase::Failed
        },
        (StartPhase::Sys, StartAnswer::Yes(mounted)) => if mounted {
            StartPhase::Configure
        } else {
            StartPhase::MountSys
        },
        (StartPhase::MountSys, StartAnswer::Yes(ok)) => if ok {
            StartPhase::Configure
        } else {
            StartPhase::Failed
        },
        (StartPhase::Configure, StartAnswer::Configured { argv1, recovery }) => {
            let arg = match argv1 {
                Some(s) => Some(s@),
                None => None,
            };
            match configured_path(config, arg, recovery) {
                Some(p) => StartPhase::Run(p),
                None => StartPhase::TwoStage,
            }
        },
        (StartPhase::TwoStage, StartAnswer::Yes(two)) => StartPhase::Run(
            if two {
                BootPath::FirstStage
            } else {
                BootPath::RootFs
            },
        ),
        _ => StartPhase::Failed,
    }
}

/// What a step adds to the list of mounts.
pub open spec fn start_mounts(phase: StartPhase, a: StartAnswer) -> Seq<Seq<char>> {
    match (phase, a) {
        (StartPhase::MountProc, StartAnswer::Yes(true)) => seq!["/proc"@],
        (StartPhase::MountSys, StartAnswer::Yes(true)) => seq!["/sys"@],
        _ => Seq::empty(),
    }
}

/// The state of the program that takes the place of `init`.
pub struct MagiskInit {
    pub preinit_dev: String,
    /// What was mounted, in order.
    pub mount_list: Vec<String>,
    pub overlay_con: Vec<String>,
    pub config: BootConfig,
}

impl MagiskInit {
    /// Nothing was done yet.
    pub fn new() -> (r: MagiskInit)
        ensures
            r.preinit_dev@ == ""@,
            r.mount_list@.len() == 0,
            r.overlay_con@.len() == 0,
            !r.config.skip_initramfs,
            !r.config.force_normal_boot,
            !r.config.rootwait,
            !r.config.emulator,
            all_zero(r.config.slot@),
            all_zero(r.config.dt_dir@),
            all_zero(r.config.fstab_suffix@),
            all_zero(r.config.hardware@),
            all_zero(r.config.hardware_plat@),
            all_zero(r.config.boot_mode@),
            r.config.partition_map@.len() == 0,
    {
        let preinit_dev = String::new();
        proof {
            reveal_strlit("");
            assert(preinit_dev@ =~= ""@);
        }
        MagiskInit {
            preinit_dev,
            mount_list: Vec::new(),
            overlay_con: Vec::new(),
            config: BootConfig::new(),
        }
    }

    /// Takes one answer on the way to the boot path and tells the next question.
    pub fn start(&mut self, phase: StartPhase, a: StartAnswer) -> (r: StartPhase)
        requires
            start_expects(phase, a),
        ensures
            r == start_step(old(self).config, phase, a),
            final(self).config == old(self).config,
            final(self).preinit_dev == old(self).preinit_dev,
            final(self).overlay_con == old(self).overlay_con,
            texts(final(self).mount_list@) == texts(old(self).mount_list@) + start_mounts(phase, a),
    {
        let ghost before = texts(self.mount_list@);
        assert(before + Seq::<Seq<char>>::empty() =~= before);
        match (phase, a) {
            (StartPhase::Proc, StartAnswer::Yes(mounted)) => {
                if mounted {
                    StartPhase::Sys
                } else {
                    StartPhase::MountProc
                }
            },
            (StartPhase::MountProc, StartAnswer::Yes(ok)) => {
                if ok {
                    self.mount_list.push("/proc".to_owned());
                    assert(texts(self.mount_list@) =~= before + seq!["/proc"@]);
                    StartPhase::Sys
                } else {
                    StartPhase::Failed
                }
            },
            (StartPhase::Sys, StartAnswer::Yes(mounted)) => {
                if mounted {
                    StartPhase::Configure
                } else {
                    StartPhase::MountSys
                }
            },
            (StartPhase::MountSys, StartAnswer::Yes(ok)) => {
                if ok {
                    self.mount_list.push("/sys".to_owned());
                    assert(texts(self.mount_list@) =~= before + seq!["/sys"@]);
                    StartPhase::Configure
                } else {
                    StartPhase::Failed
                }
            },
            (StartPhase::Configure, StartAnswer::Configured { argv1, recovery }) => {
                let selinux_setup = match &argv1 {
                    Some(s) => same_text(s.as_str(), "selinux_setup"),
                    None => false,
                };
                if selinux_setup {
                    StartPhase::Run(BootPath::SecondStage)
                } else if self.config.skip_initramfs {
                    StartPhase::Run(BootPath::LegacySystemAsRoot)
                } else if self.config.force_normal_boot {
                    StartPhase::Run(BootPath::FirstStage)
                } else if recovery || is_charger(&self.config.boot_mode) {
                    StartPhase::Run(BootPath::RecoveryOrCharger)
                } else {
                    StartPhase::TwoStage
                }
            },
            (StartPhase::TwoStage, StartAnswer::Yes(two)) => {
                if two {
                    StartPhase::Run(BootPath::FirstStage)
                } else {
                    StartPhase::Run(BootPath::RootFs)
                }
            },
            _ => StartPhase::Failed,
        }
    }
}

/// Something that is done on a boot path.
#[derive(Clone, Copy, PartialEq, Eq, Structural)]
pub enum InitStep {
    /// Keep what is needed after the root file system is replaced.
    PrepareData,
    /// Put the first `init` back.
    RestoreInit,
    /// Have `init` start this program again in its second stage; `writable`
    /// where its file can be written.
    RedirectInit { writable: bool },
    /// Have `init` start this program again by switching roots.
    HijackInit,
    /// Undo the mounts over `init` and remove its copy.
    UncoverInit,
    /// Go on under the name of the real `init`.
    RenameSelf,
    /// Link `init` to the real one.
    RelinkInit,
    /// Patch a root file system that can be written.
    PatchWritableRoot,
    /// Patch a root file system that cannot be written.
    PatchReadOnlyRoot,
    /// Remove the files that were kept of the first `init`.
    RemoveBackup,
}

/// What is done once the root file system is in place.
pub open spec fn second_stage_spec(is_rootfs: bool) -> Seq<InitStep> {
    seq![InitStep::UncoverInit, InitStep::RenameSelf] + (if is_rootfs {
        seq![InitStep::RelinkInit, InitStep::PatchWritableRoot]
    } else {
        seq![InitStep::PatchReadOnlyRoot]
    })
}

/// What is done on the paths on which `init` is still the first one.
pub open spec fn early_steps(path: BootPath) -> Seq<InitStep> {
    match path {
        BootPath::FirstStage => seq![
            InitStep::PrepareData,
            InitStep::RestoreInit,
            InitStep::RedirectInit { writable: true },
        ],
        BootPath::RootFs => seq![
            InitStep::PrepareData,
            InitStep::RestoreInit,
            InitStep::PatchWritableRoot,
        ],
        BootPath::RecoveryOrCharger => seq![InitStep::RestoreInit, InitStep::RemoveBackup],
        _ => Seq::empty(),
    }
}

/// Lists what is done once the root file system is in place.
pub fn second_stage(is_rootfs: bool) -> (r: Vec<InitStep>)
    ensures
        r@ == seq![InitStep::UncoverInit, InitStep::RenameSelf] + (if is_rootfs {
            seq![InitStep::RelinkInit, InitStep::PatchWritableRoot]
        } else {
            seq![InitStep::PatchReadOnlyRoot]
        }),
        r@ == second_stage_spec(is_rootfs),
{
    let mut out: Vec<InitStep> = Vec::new();
    out.push(InitStep::UncoverInit);
    out.push(InitStep::RenameSelf);
    if is_rootfs {
        out.push(InitStep::RelinkInit);
        out.push(InitStep::PatchWritableRoot);
    } else {
        out.push(InitStep::PatchReadOnlyRoot);
    }
    out
}

/// Lists what is done before `init` mounts the root file system.
pub fn first_stage() -> (r: Vec<InitStep>)
    ensures
        r@ == seq![
            InitStep::PrepareData,
            InitStep::RestoreInit,
            InitStep::RedirectInit { writable: true },
        ],
        r@ == early_steps(BootPath::FirstStage),
{
    let mut out: Vec<InitStep> = Vec::new();
    out.push(InitStep::PrepareData);
    out.push(InitStep::RestoreInit);
    out.push(InitStep::RedirectInit { writable: true });
    out
}

/// What is left to do once `init` was redirected.
pub open spec fn fallback_spec(sdcard: bool, ramdisk_sdcard: bool, redirected: bool) -> Option<
    InitStep,
> {
    if !sdcard && !ramdisk_sdcard && !redirected {
        Some(InitStep::HijackInit)
    } else {
        None
    }
}

/// Tells what is left to do once `init` was redirected: where that failed, and
/// the image has no place for removable storage, `init` is hijacked instead.
pub fn first_stage_fallback(sdcard: bool, ramdisk_sdcard: bool, redirected: bool) -> (r: Option<
    InitStep,
>)
    ensures
        r == (if !sdcard && !ramdisk_sdcard && !redirected {
            Some(InitStep::HijackInit)
        } else {
            None
        }),
        r == fallback_spec(sdcard, ramdisk_sdcard, redirected),
{
    if !sdcard && !ramdisk_sdcard && !redirected {
        Some(InitStep::HijackInit)
    } else {
        None
    }
}

/// What is done after the system partition became the root file system.
pub open spec fn legacy_spec(is_two_stage: bool) -> InitStep {
    if is_two_stage {
        InitStep::RedirectInit { writable: false }
    } else {
        InitStep::PatchReadOnlyRoot
    }
}

/// Tells what is done after the system partition became the root file system.
pub fn legacy_system_as_root(is_two_stage: bool) -> (r: InitStep)
    ensures
        r == (if is_two_stage {
            InitStep::RedirectInit { writable: false }
        } else {
            InitStep::PatchReadOnlyRoot
        }),
        r == legacy_spec(is_two_stage),
{
    if is_two_stage {
        InitStep::RedirectInit { writable: false }
    } else {
        InitStep::PatchReadOnlyRoot
    }
}

/// Lists what is done where the root file system stays in memory.
pub fn rootfs() -> (r: Vec<InitStep>)
    ensures
        r@ == seq![InitStep::PrepareData, InitStep::RestoreInit, InitStep::PatchWritableRoot],
        r@ == early_steps(BootPath::RootFs),
{
    let mut out: Vec<InitStep> = Vec::new();
    out.push(InitStep::PrepareData);
    out.push(InitStep::RestoreInit);
    out.push(InitStep::PatchWritableRoot);
    out
}

/// Lists what is done where the device charges or starts its recovery system.
pub fn recovery_or_charger() -> (r: Vec<InitStep>)
    ensures
        r@ == seq![InitStep::RestoreInit, InitStep::RemoveBackup],
        r@ == early_steps(BootPath::RecoveryOrCharger),
{
    let mut out: Vec<InitStep> = Vec::new();
    out.push(InitStep::RestoreInit);
    out.push(InitStep::RemoveBackup);
    out
}

/// How the first `init` is put back.
#[derive(Clone, Copy, PartialEq, Eq, Structural)]
pub enum InitSource {
    /// The copy that was kept.
    Backup,
    /// A link to the one on the system partition.
    System,
}

/// Tells how the first `init` is put back. Where no copy was kept, the image was
/// made from scratch, and the real one is on the system partition.
pub fn restore_ramdisk_init(has_backup: bool) -> (r: InitSource)
    ensures
        r == (if has_backup {
            InitSource::Backup
        } else {
            InitSource::System
        }),
{
    if has_backup {
        InitSource::Backup
    } else {
        InitSource::System
    }
}

/// What the program is started as.
#[derive(Clone, Copy, PartialEq, Eq, Structural)]
pub enum Role {
    /// The proxy of another program.
    Proxy,
    /// `init`.
    Init,
    Nothing,
}

/// What stands behind the last slash of a path, or all of it where there is none.
pub open spec fn base_name_spec(path: Seq<char>) -> Seq<char> {
    match after_last_spec(path, '/') {
        Some(name) => name,
        None => path,
    }
}

/// Tells what stands behind the last slash of a path, or all of it where there is
/// none.
pub fn base_name(path: &str) -> (r: String)
    ensures
        r@ == base_name_spec(path@),
{
    let chars = to_chars(path);
    match after_last(chars.as_slice(), '/') {
        Some(name) => to_text(name),
        None => to_text(chars.as_slice()),
    }
}

/// What the program is started as.
pub open spec fn role_spec(name: Seq<char>, pid: i32) -> Role {
    if name == "magisk"@ {
        Role::Proxy
    } else if pid == 1 {
        Role::Init
    } else {
        Role::Nothing
    }
}

/// Tells what the program is started as, from its name and its process id.
pub fn role(name: &str, pid: i32) -> (r: Role)
    ensures
        r == (if name@ == "magisk"@ {
            Role::Proxy
        } else if pid == 1 {
            Role::Init
        } else {
            Role::Nothing
        }),
        r == role_spec(name@, pid),
{
    if same_text(name, "magisk") {
        Role::Proxy
    } else if pid == 1 {
        Role::Init
    } else {
        Role::Nothing
    }
}

/// Booting follows a path unless a file system could not be mounted, and what
/// was mounted on the way is listed, each file system at most once and only if
/// it was not there before.
pub proof fn law_mounts_are_listed(config: BootConfig, phase: StartPhase, a: StartAnswer)
    requires
        start_expects(phase, a),
    ensures
        start_step(config, phase, a) is Failed <==> (phase is MountProc || phase is MountSys) && a
            == StartAnswer::Yes(false),
        start_mounts(phase, a).len() == 1 <==> (phase is MountProc || phase is MountSys) && a
            == StartAnswer::Yes(true),
        start_step(config, phase, a) is MountProc ==> phase is Proc && a == StartAnswer::Yes(false),
        start_step(config, phase, a) is MountSys ==> phase is Sys && a == StartAnswer::Yes(false),
{
}

/// Text in a field of bytes ends at the first zero, or with the field.
pub proof fn law_text_ends_at_zero(t: Seq<u8>, rest: Seq<u8>)
    requires
        forall|i: int| 0 <= i < t.len() ==> #[trigger] t[i] != 0,
    ensures
        c_text(t) == t,
        c_text(t.push(0) + rest) == t,
    decreases t.len(),
{
    let s = t.push(0) + rest;
    if t.len() == 0 {
        assert(s[0] == 0);
        assert(t =~= Seq::empty());
    } else {
        let u = t.skip(1);
        assert forall|i: int| 0 <= i < u.len() implies #[trigger] u[i] != 0 by {
            assert(u[i] == t[i + 1]);
        }
        law_text_ends_at_zero(u, rest);
        assert(s[0] == t[0]);
        assert(s.skip(1) =~= u.push(0) + rest);
        assert(seq![t[0]] + u =~= t);
    }
}

/// What is asked for decides the path, in this order: the argument
/// `selinux_setup`, skipping the image in memory, a normal boot, and then
/// recovery or charging. Only where none of these is asked for is `init` looked
/// at.
pub proof fn law_boot_path(config: BootConfig, arg: Option<Seq<char>>, recovery: bool)
    ensures
        configured_path(config, Some("selinux_setup"@), recovery) == Some(BootPath::SecondStage),
        arg != Some("selinux_setup"@) ==> {
            let path = configured_path(config, arg, recovery);
            &&& config.skip_initramfs ==> path == Some(BootPath::LegacySystemAsRoot)
            &&& !config.skip_initramfs && config.force_normal_boot ==> path == Some(
                BootPath::FirstStage,
            )
            &&& !config.skip_initramfs && !config.force_normal_boot && recovery ==> path == Some(
                BootPath::RecoveryOrCharger,
            )
        },
{
}

/// A device charges exactly where its boot mode is `charger` and a zero.
pub proof fn law_charger(config: BootConfig, arg: Option<Seq<char>>, rest: Seq<u8>)
    requires
        !config.skip_initramfs,
        !config.force_normal_boot,
        arg != Some("selinux_setup"@),
    ensures
        config.boot_mode@ == seq![99u8, 104, 97, 114, 103, 101, 114, 0] + rest ==> configured_path(
            config,
            arg,
            false,
        ) == Some(BootPath::RecoveryOrCharger),
        configured_path(config, arg, false) is Some ==> config.boot_mode@.take(8) == seq![
            99u8,
            104,
            97,
            114,
            103,
            101,
            114,
            0,
        ],
{
    let word = seq![99u8, 104, 97, 114, 103, 101, 114];
    let mode = config.boot_mode@;
    assert(charger_bytes() =~= word);
    lemma_c_text(mode, word);
    if mode == seq![99u8, 104, 97, 114, 103, 101, 114, 0] + rest {
        assert(mode.take(7) =~= word);
        assert(mode[7] == 0);
    }
    if mode.take(7) == word && mode[7] == 0 {
        assert(mode.take(8) =~= mode.take(7).push(0));
        assert(word.push(0) =~= seq![99u8, 104, 97, 114, 103, 101, 114, 0]);
    }
}

/// A file system that is not mounted is mounted, first that of processes and then
/// that of the system, and listed by its place. One that is mounted is left alone.
/// After both the configuration is read.
pub proof fn law_file_systems_are_mounted(config: BootConfig, proc_there: bool, sys_there: bool)
    ensures
        ({
            let p = start_step(config, StartPhase::Proc, StartAnswer::Yes(proc_there));
            let q = start_step(config, StartPhase::Sys, StartAnswer::Yes(sys_there));
            &&& proc_there ==> p is Sys
            &&& !proc_there ==> p is MountProc && start_step(config, p, StartAnswer::Yes(true))
                is Sys && start_step(config, p, StartAnswer::Yes(false)) is Failed && start_mounts(
                p,
                StartAnswer::Yes(true),
            ) == seq!["/proc"@]
            &&& sys_there ==> q is Configure
            &&& !sys_there ==> q is MountSys && start_step(config, q, StartAnswer::Yes(true))
                is Configure && start_step(config, q, StartAnswer::Yes(false)) is Failed
                && start_mounts(q, StartAnswer::Yes(true)) == seq!["/sys"@]
        }),
{
}

/// Once the configuration was read, the path that it fixes is taken; otherwise
/// `init` decides: one that boots in two stages is redirected, and for another the
/// root file system stays in memory.
pub proof fn law_init_decides(config: BootConfig, argv1: Option<String>, recovery: bool, two: bool)
    ensures
        ({
            let arg = match argv1 {
                Some(s) => Some(s@),
                None => None,
            };
            let next = start_step(
                config,
                StartPhase::Configure,
                StartAnswer::Configured { argv1, recovery },
            );
            &&& configured_path(config, arg, recovery) is None ==> next is TwoStage
            &&& configured_path(config, arg, recovery) matches Some(p) ==> next == StartPhase::Run(
                p,
            )
        }),
        start_step(config, StartPhase::TwoStage, StartAnswer::Yes(two)) == StartPhase::Run(
            if two {
                BootPath::FirstStage
            } else {
                BootPath::RootFs
            },
        ),
{
}

/// Once the root file system is in place, `init` is uncovered before this program
/// takes its name, and the root is patched last, as one that can be written
/// exactly where it can.
pub proof fn law_second_stage(is_rootfs: bool)
    ensures
        ({
            let s = second_stage_spec(is_rootfs);
            &&& s[0] == InitStep::UncoverInit
            &&& s[1] == InitStep::RenameSelf
            &&& is_rootfs ==> s.len() == 4 && s[2] == InitStep::RelinkInit && s[3]
                == InitStep::PatchWritableRoot
            &&& !is_rootfs ==> s.len() == 3 && s[2] == InitStep::PatchReadOnlyRoot
        }),
{
}

/// On the early paths the first `init` is put back before anything is made of it.
/// Data are kept first where the system goes on booting, and what was kept is
/// removed where it does not.
pub proof fn law_first_init_is_put_back(path: BootPath)
    requires
        path is FirstStage || path is RootFs || path is RecoveryOrCharger,
    ensures
        ({
            let s = early_steps(path);
            let n = s.len() as int;
            &&& s[n - 2] == InitStep::RestoreInit
            &&& path is RecoveryOrCharger <==> n == 2
            &&& !(path is RecoveryOrCharger) ==> n == 3 && s[0] == InitStep::PrepareData
            &&& path is RecoveryOrCharger ==> s[1] == InitStep::RemoveBackup
            &&& path is FirstStage ==> s[2] == (InitStep::RedirectInit { writable: true })
            &&& path is RootFs ==> s[2] == InitStep::PatchWritableRoot
        }),
{
}

/// `init` is hijacked only as the last resort: any place for removable storage, and
/// any redirection that worked, makes it needless.
pub proof fn law_hijacking_is_the_last_resort(a: bool, b: bool, c: bool)
    ensures
        fallback_spec(true, b, c) is None,
        fallback_spec(a, true, c) is None,
        fallback_spec(a, b, true) is None,
        fallback_spec(false, false, false) == Some(InitStep::HijackInit),
        legacy_spec(a) == InitStep::PatchReadOnlyRoot <==> !a,
        legacy_spec(a) == (InitStep::RedirectInit { writable: false }) <==> a,
{
}

/// A program is a proxy by the name `magisk` alone, whatever its process id;
/// another is `init` exactly as process 1.
pub proof fn law_roles(name: Seq<char>, pid: i32)
    ensures
        role_spec(name, pid) == Role::Proxy <==> name == "magisk"@,
        name != "magisk"@ ==> (role_spec(name, pid) == Role::Init <==> pid == 1),
        name != "magisk"@ ==> (role_spec(name, pid) == Role::Nothing <==> pid != 1),
{
}

/// The name of a program is what follows the last slash of its path, and a path
/// without one is a name.
pub proof fn law_base_name(dir: Seq<char>, name: Seq<char>)
    requires
        !name.contains('/'),
    ensures
        base_name_spec(dir.push('/') + name) == name,
        base_name_spec(name) == name,
{
    law_after_last(dir, '/', name);
}

} // verus!
