//! What happens around a zygote's forks.

use vstd::prelude::*;
use vstd::string::*;

use super::fd::{name_fits, named_fds, names, record_open_fds, FdSet};
use super::module::ZygiskModule;
use crate::zygisk::daemon::{
    process_flags_spec, ALLOW_LIST_ENFORCED, HIDE_FROM_PROCESS, PROCESS_GRANTED_ROOT,
    PROCESS_IS_MAGISK_APP, PROCESS_MAY_BE_ROOT, PROCESS_ON_DENY_LIST,
};

verus! {

/// Where booting a process stands, and what is to be done to it.
pub struct Flags(u16);

/// The process is specialised.
pub const POST_SPECIALIZE: u16 = 1;

/// An app is forked and specialised.
pub const APP_FORK_AND_SPECIALIZE: u16 = 2;

/// An app is specialised.
pub const APP_SPECIALIZE: u16 = 4;

/// The system server is forked and specialised.
pub const SERVER_FORK_AND_SPECIALIZE: u16 = 8;

/// Mounts are to be undone.
pub const DO_REVERT_UNMOUNT: u16 = 16;

/// The pipe of the log is not to be closed.
pub const SKIP_CLOSE_LOG_PIPE: u16 = 32;

/// The process is allowed to be root.
pub const DO_ALLOW: u16 = 64;

/// The allow list is enforced.
pub const ALLOWLIST_ENFORCED: u16 = 128;

/// The process is to lose its storage again.
pub const RESTORE_MOUNT_EXTERNAL_NONE: u16 = 256;

/// Modules are to be hidden.
pub const DO_FUTILE_HIDE: u16 = 512;

/// The process may become root.
pub const DO_ALLOW_SU: u16 = 1024;

impl View for Flags {
    type V = u16;

    closed spec fn view(&self) -> u16 {
        self.0
    }
}

impl Flags {
    /// No flag is set.
    pub fn new() -> (r: Flags)
        ensures
            r@ == 0,
    {
        Flags(0)
    }

    /// Sets flags.
    pub fn set(&mut self, flag: u16)
        ensures
            final(self)@ == old(self)@ | flag,
    {
        self.0 = self.0 | flag;
    }

    /// Tells whether one of these flags is set.
    pub fn has(&self, flag: u16) -> (r: bool)
        ensures
            r == (self@ & flag != 0),
    {
        (self.0 & flag) != 0
    }

    /// Clears flags.
    pub fn clear(&mut self, flag: u16)
        ensures
            final(self)@ == old(self)@ & !flag,
    {
        self.0 = self.0 & !flag;
    }

    /// The flags as bits.
    pub fn raw(&self) -> (r: u16)
        ensures
            r == self@,
    {
        self.0
    }
}

/// A flag is set once it was set, and not set once it was cleared; neither
/// touches flags that have no bit in common with it.
pub proof fn law_flags(bits: u16, flag: u16, other: u16)
    ensures
        flag != 0 ==> (bits | flag) & flag != 0,
        (bits & !flag) & flag == 0,
        flag & other == 0 ==> ((bits | flag) & other) == (bits & other),
        flag & other == 0 ==> ((bits & !flag) & other) == (bits & other),
{
    assert((flag != 0 ==> (bits | flag) & flag != 0) && (bits & !flag) & flag == 0 && (flag & other
        == 0 ==> ((bits | flag) & other) == (bits & other)) && (flag & other == 0 ==> ((bits
        & !flag) & other) == (bits & other))) by (bit_vector);
}

/// What an app is started with.
#[derive(Clone, Copy, PartialEq, Eq, Structural)]
pub struct AppArgs {
    pub uid: i32,
    /// How storage is mounted, where the system tells.
    pub mount_external: Option<i32>,
}

/// A process that is about to be specialised.
pub struct HookContext {
    pub args: Option<AppArgs>,
    pub process_name: String,
    pub pid: i32,
    pub flags: Flags,
    pub info_flags: u32,
    pub modules: Vec<ZygiskModule>,
    pub allowed_fds: FdSet,
    pub exempted_fds: Vec<i32>,
}

/// The user id of the system server.
pub const SYSTEM_UID: i32 = 1000;

/// Storage is not mounted for the process.
pub open spec fn mounts_none(args: Option<AppArgs>) -> bool {
    args matches Some(a) && a.mount_external == Some(0i32)
}

/// The arguments with storage mounted by default where it was not mounted at all.
pub open spec fn raised_args(args: Option<AppArgs>) -> Option<AppArgs> {
    match args {
        Some(a) => if a.mount_external == Some(0i32) {
            Some(AppArgs { mount_external: Some(1i32), ..a })
        } else {
            Some(a)
        },
        None => None,
    }
}

/// The flags after storage was mounted by default where it was not mounted at all.
pub open spec fn raised_flags(args: Option<AppArgs>, flags: u16) -> u16 {
    if mounts_none(args) {
        flags | RESTORE_MOUNT_EXTERNAL_NONE
    } else {
        flags
    }
}

/// The user id that a process is started with, 0 where it is not known.
pub open spec fn uid_spec(args: Option<AppArgs>) -> i32 {
    match args {
        Some(a) => a.uid,
        None => 0,
    }
}

/// `flag` where bit `bit` of what the daemon knows is set.
pub open spec fn flag_if(info: u32, bit: u32, flag: u16) -> u16 {
    if info & bit != 0 {
        flag
    } else {
        0
    }
}

/// The flags that follow from what the daemon knows of an app.
pub open spec fn app_flags(info: u32) -> u16 {
    flag_if(info, PROCESS_ON_DENY_LIST, DO_REVERT_UNMOUNT) | flag_if(
        info,
        PROCESS_GRANTED_ROOT,
        DO_ALLOW,
    ) | flag_if(info, ALLOW_LIST_ENFORCED, ALLOWLIST_ENFORCED) | flag_if(
        info,
        HIDE_FROM_PROCESS,
        DO_FUTILE_HIDE,
    )
}

/// The flags that follow from what the daemon knows of an app that is specialised
/// in place.
pub open spec fn specialized_flags(info: u32) -> u16 {
    flag_if(info, PROCESS_MAY_BE_ROOT, DO_ALLOW_SU)
}

/// Everything of a context but its flags and arguments is unchanged.
pub open spec fn same_rest(a: HookContext, b: HookContext) -> bool {
    &&& a.process_name == b.process_name
    &&& a.pid == b.pid
    &&& a.modules == b.modules
    &&& a.allowed_fds == b.allowed_fds
    &&& a.exempted_fds == b.exempted_fds
}

fn flag_of(info: u32, bit: u32, flag: u16) -> (r: u16)
    ensures
        r == flag_if(info, bit, flag),
{
    if info & bit != 0 {
        flag
    } else {
        0
    }
}

impl HookContext {
    /// A process that is about to be specialised.
    pub fn new(args: Option<AppArgs>, process_name: &str) -> (r: HookContext)
        ensures
            r.args == args,
            r.process_name@ == process_name@,
            r.pid == -1,
            r.flags@ == 0,
            r.info_flags == 0,
            r.modules@.len() == 0,
            r.allowed_fds@ == Set::<i32>::empty(),
            r.exempted_fds@.len() == 0,
    {
        HookContext {
            args,
            process_name: process_name.to_owned(),
            pid: -1,
            flags: Flags::new(),
            info_flags: 0,
            modules: Vec::new(),
            allowed_fds: FdSet::new(),
            exempted_fds: Vec::new(),
        }
    }

    /// Notes the descriptors that are open before a fork; `entries` are the names
    /// in the directory that lists them. The first three are always allowed.
    pub fn fork_pre(&mut self, entries: &[Vec<u8>])
        requires
            forall|i: int| 0 <= i < entries@.len() ==> name_fits(#[trigger] entries@[i]@),
        ensures
            final(self).allowed_fds@ == named_fds(names(entries@)).insert(0).insert(1).insert(2),
            final(self).args == old(self).args,
            final(self).process_name == old(self).process_name,
            final(self).pid == old(self).pid,
            final(self).flags == old(self).flags,
            final(self).info_flags == old(self).info_flags,
            final(self).modules == old(self).modules,
            final(self).exempted_fds == old(self).exempted_fds,
    {
        record_open_fds(&mut self.allowed_fds, entries);
        self.allowed_fds.add(0);
        self.allowed_fds.add(1);
        self.allowed_fds.add(2);
    }

    /// The user id that the process is started with.
    pub fn uid(&self) -> (r: i32)
        ensures
            r == uid_spec(self.args),
    {
        match self.args {
            Some(a) => a.uid,
            None => 0,
        }
    }

    /// Prepares an app to be specialised: where its storage is not mounted, it is
    /// mounted by default for now, so that the process gets its own namespace.
    /// The result is the user id to ask the daemon about.
    pub fn raise_mounts(&mut self) -> (r: i32)
        ensures
            r == uid_spec(old(self).args),
            final(self).args == raised_args(old(self).args),
            final(self).flags@ == (if mounts_none(old(self).args) {
                old(self).flags@ | RESTORE_MOUNT_EXTERNAL_NONE
            } else {
                old(self).flags@
            }),
            final(self).flags@ == raised_flags(old(self).args, old(self).flags@),
            final(self).info_flags == old(self).info_flags,
            same_rest(*final(self), *old(self)),
    {
        match self.args {
            Some(a) => {
                match a.mount_external {
                    Some(m) => {
                        if m == 0 {
                            self.args = Some(AppArgs { uid: a.uid, mount_external: Some(1) });
                            self.flags.set(RESTORE_MOUNT_EXTERNAL_NONE);
                        }
                    },
                    None => {},
                }
                a.uid
            },
            None => 0,
        }
    }

    /// Takes in what the daemon knows of an app that is forked.
    pub fn apply_app_info(&mut self, info: u32)
        ensures
            final(self).info_flags == info,
            final(self).flags@ == old(self).flags@ | app_flags(info),
            final(self).args == old(self).args,
            same_rest(*final(self), *old(self)),
    {
        self.info_flags = info;
        let flags: u16 = flag_of(info, PROCESS_ON_DENY_LIST, DO_REVERT_UNMOUNT) | flag_of(
            info,
            PROCESS_GRANTED_ROOT,
            DO_ALLOW,
        ) | flag_of(info, ALLOW_LIST_ENFORCED, ALLOWLIST_ENFORCED) | flag_of(
            info,
            HIDE_FROM_PROCESS,
            DO_FUTILE_HIDE,
        );
        self.flags.set(flags);
    }

    /// Takes in what the daemon knows of an app that is specialised in place.
    pub fn apply_specialize_info(&mut self, info: u32)
        ensures
            final(self).info_flags == info,
            final(self).flags@ == old(self).flags@ | flag_if(info, PROCESS_MAY_BE_ROOT, DO_ALLOW_SU),
            final(self).flags@ == old(self).flags@ | specialized_flags(info),
            final(self).args == old(self).args,
            same_rest(*final(self), *old(self)),
    {
        self.info_flags = info;
        self.flags.set(flag_of(info, PROCESS_MAY_BE_ROOT, DO_ALLOW_SU));
    }

    /// Takes in what the daemon knows of the system server.
    pub fn apply_server_info(&mut self, info: u32)
        ensures
            final(self).info_flags == info,
            final(self).flags == old(self).flags,
            final(self).args == old(self).args,
            same_rest(*final(self), *old(self)),
    {
        self.info_flags = info;
    }

    /// Keeps a descriptor open.
    pub fn exempt_fd(&mut self, fd: i32)
        ensures
            final(self).exempted_fds@ == old(self).exempted_fds@.push(fd),
            final(self).args == old(self).args,
            final(self).process_name == old(self).process_name,
            final(self).pid == old(self).pid,
            final(self).flags == old(self).flags,
            final(self).info_flags == old(self).info_flags,
            final(self).modules == old(self).modules,
            final(self).allowed_fds == old(self).allowed_fds,
    {
        self.exempted_fds.push(fd);
    }
}

/// Something that is done before or after a process is specialised.
#[derive(Clone, Copy, PartialEq, Eq, Structural)]
pub enum SpecializeStep {
    /// Block signals, note the open descriptors, and take the lock.
    ForkPre,
    /// Unblock signals, and release the lock.
    ForkPost,
    /// Mount storage by default where it is not mounted at all.
    RaiseMounts,
    /// Ask the daemon, and take in what it knows of an app that is forked.
    AskApp { run_modules: bool },
    /// Ask the daemon, and take in what it knows of an app that is specialised in
    /// place; then run the modules.
    AskSpecialized,
    /// Ask the daemon, and take in what it knows of the system server.
    AskServer { run_modules: bool },
    /// Ask the daemon for the modules of an app, load them, and tell them.
    LoadModules,
    /// Ask the daemon for the modules of the system server, load them, and tell
    /// them.
    LoadServerModules,
    /// Tell the modules that the app is specialised.
    RunPost,
    /// Tell the modules that the system server is specialised.
    RunPostServer,
    /// Hide the modules.
    Hide,
    /// Tell the process by its environment that code was injected.
    SetEnabled,
    /// Close the descriptors that the process must not have.
    SanitizeFds,
}

/// `step` where `cond` holds, and nothing otherwise.
pub open spec fn step_if(cond: bool, step: SpecializeStep) -> Seq<SpecializeStep> {
    if cond {
        seq![step]
    } else {
        Seq::empty()
    }
}

/// What is done before a process is specialised, which is forked for that or not,
/// and which is the system server or an app.
pub open spec fn pre_steps(forks: bool, server: bool) -> Seq<SpecializeStep> {
    step_if(forks, SpecializeStep::ForkPre) + (if server {
        seq![SpecializeStep::AskServer { run_modules: !forks }]
    } else {
        seq![SpecializeStep::RaiseMounts, SpecializeStep::AskApp { run_modules: !forks }]
    })
}

/// What is done after an app was specialised, which was forked by native code or
/// not.
pub open spec fn app_post_steps(native: bool) -> Seq<SpecializeStep> {
    if native {
        seq![SpecializeStep::ForkPost, SpecializeStep::SanitizeFds]
    } else {
        seq![SpecializeStep::SanitizeFds, SpecializeStep::ForkPost]
    }
}

/// What is done after the system server was specialised, where `loaded` modules
/// were loaded before; they are hidden where `hide` holds.
pub open spec fn server_post_steps(loaded: nat, hide: bool) -> Seq<SpecializeStep> {
    step_if(loaded == 0, SpecializeStep::LoadServerModules) + seq![SpecializeStep::RunPostServer]
        + step_if(hide, SpecializeStep::Hide) + seq![
        SpecializeStep::SanitizeFds,
        SpecializeStep::ForkPost,
    ]
}

/// What is done after a process was specialised in place, where `loaded` modules
/// were loaded before.
pub open spec fn specialized_post_steps(loaded: nat, flags: u16, info: u32) -> Seq<
    SpecializeStep,
> {
    step_if(loaded == 0, SpecializeStep::LoadModules) + seq![SpecializeStep::RunPost] + step_if(
        flags & DO_FUTILE_HIDE != 0,
        SpecializeStep::Hide,
    ) + step_if(info & PROCESS_MAY_BE_ROOT != 0, SpecializeStep::SetEnabled) + seq![
        SpecializeStep::SanitizeFds,
    ]
}

impl HookContext {
    /// Lists what is done before an app is specialised.
    pub fn app_specialize_pre(&self) -> (r: Vec<SpecializeStep>)
        ensures
            r@ == seq![SpecializeStep::RaiseMounts, SpecializeStep::AskApp { run_modules: true }],
            r@ == pre_steps(false, false),
    {
        let mut out: Vec<SpecializeStep> = Vec::new();
        out.push(SpecializeStep::RaiseMounts);
        out.push(SpecializeStep::AskApp { run_modules: true });
        out
    }

    /// Lists what is done after an app was specialised.
    pub fn app_specialize_post(&self) -> (r: Vec<SpecializeStep>)
        ensures
            r@ == seq![SpecializeStep::SanitizeFds, SpecializeStep::ForkPost],
            r@ == app_post_steps(false),
    {
        let mut out: Vec<SpecializeStep> = Vec::new();
        out.push(SpecializeStep::SanitizeFds);
        out.push(SpecializeStep::ForkPost);
        out
    }

    /// Lists what is done before the system server is specialised.
    pub fn server_specialize_pre(&self) -> (r: Vec<SpecializeStep>)
        ensures
            r@ == seq![SpecializeStep::AskServer { run_modules: true }],
            r@ == pre_steps(false, true),
    {
        let mut out: Vec<SpecializeStep> = Vec::new();
        out.push(SpecializeStep::AskServer { run_modules: true });
        out
    }

    /// Lists what is done after the system server was specialised. Modules that
    /// were not loaded before the fork are loaded first.
    pub fn server_specialize_post(&self) -> (r: Vec<SpecializeStep>)
        ensures
            r@ == step_if(self.modules@.len() == 0, SpecializeStep::LoadServerModules) + seq![
                SpecializeStep::RunPostServer,
                SpecializeStep::Hide,
                SpecializeStep::SanitizeFds,
                SpecializeStep::ForkPost,
            ],
            r@ == server_post_steps(self.modules@.len(), true),
    {
        let mut out: Vec<SpecializeStep> = Vec::new();
        if self.modules.len() == 0 {
            out.push(SpecializeStep::LoadServerModules);
        }
        out.push(SpecializeStep::RunPostServer);
        out.push(SpecializeStep::Hide);
        out.push(SpecializeStep::SanitizeFds);
        out.push(SpecializeStep::ForkPost);
        out
    }

    /// Lists what is done before an app is forked. What the daemon knows is asked
    /// for here, so that the child has it; modules are loaded by the child.
    pub fn native_fork_and_specialize_pre(&self) -> (r: Vec<SpecializeStep>)
        ensures
            r@ == seq![
                SpecializeStep::ForkPre,
                SpecializeStep::RaiseMounts,
                SpecializeStep::AskApp { run_modules: false },
            ],
            r@ == pre_steps(true, false),
    {
        let mut out: Vec<SpecializeStep> = Vec::new();
        out.push(SpecializeStep::ForkPre);
        out.push(SpecializeStep::RaiseMounts);
        out.push(SpecializeStep::AskApp { run_modules: false });
        out
    }

    /// Lists what is done after an app was forked.
    pub fn native_fork_and_specialize_post(&self) -> (r: Vec<SpecializeStep>)
        ensures
            r@ == seq![SpecializeStep::ForkPost, SpecializeStep::SanitizeFds],
            r@ == app_post_steps(true),
    {
        let mut out: Vec<SpecializeStep> = Vec::new();
        out.push(SpecializeStep::ForkPost);
        out.push(SpecializeStep::SanitizeFds);
        out
    }

    /// Lists what is done before a process is specialised in place.
    pub fn native_specialize_app_process_pre(&self) -> (r: Vec<SpecializeStep>)
        ensures
            r@ == seq![SpecializeStep::AskSpecialized],
    {
        let mut out: Vec<SpecializeStep> = Vec::new();
        out.push(SpecializeStep::AskSpecialized);
        out
    }

    /// Lists what is done after a process was specialised in place. Modules that
    /// were not loaded yet are loaded first.
    pub fn native_specialize_app_process_post(&self) -> (r: Vec<SpecializeStep>)
        ensures
            r@ == step_if(self.modules@.len() == 0, SpecializeStep::LoadModules) + seq![
                SpecializeStep::RunPost,
            ] + step_if(self.flags@ & DO_FUTILE_HIDE != 0, SpecializeStep::Hide) + step_if(
                self.info_flags & PROCESS_MAY_BE_ROOT != 0,
                SpecializeStep::SetEnabled,
            ) + seq![SpecializeStep::SanitizeFds],
            r@ == specialized_post_steps(self.modules@.len(), self.flags@, self.info_flags),
    {
        let mut out: Vec<SpecializeStep> = Vec::new();
        if self.modules.len() == 0 {
            out.push(SpecializeStep::LoadModules);
        }
        out.push(SpecializeStep::RunPost);
        if self.flags.has(DO_FUTILE_HIDE) {
            out.push(SpecializeStep::Hide);
        }
        if self.info_flags & PROCESS_MAY_BE_ROOT != 0 {
            out.push(SpecializeStep::SetEnabled);
        }
        out.push(SpecializeStep::SanitizeFds);
        out
    }

    /// Lists what is done before the system server is forked.
    pub fn native_fork_system_server_pre(&self) -> (r: Vec<SpecializeStep>)
        ensures
            r@ == seq![SpecializeStep::ForkPre, SpecializeStep::AskServer { run_modules: false }],
            r@ == pre_steps(true, true),
    {
        let mut out: Vec<SpecializeStep> = Vec::new();
        out.push(SpecializeStep::ForkPre);
        out.push(SpecializeStep::AskServer { run_modules: false });
        out
    }

    /// Lists what is done after the system server was forked. Modules that were
    /// not loaded before the fork are loaded first.
    pub fn native_fork_system_server_post(&self) -> (r: Vec<SpecializeStep>)
        ensures
            r@ == step_if(self.modules@.len() == 0, SpecializeStep::LoadServerModules) + seq![
                SpecializeStep::RunPostServer,
                SpecializeStep::SanitizeFds,
                SpecializeStep::ForkPost,
            ],
            r@ == server_post_steps(self.modules@.len(), false),
    {
        let mut out: Vec<SpecializeStep> = Vec::new();
        if self.modules.len() == 0 {
            out.push(SpecializeStep::LoadServerModules);
        }
        out.push(SpecializeStep::RunPostServer);
        out.push(SpecializeStep::SanitizeFds);
        out.push(SpecializeStep::ForkPost);
        out
    }
}

/// An app whose storage is not mounted is prepared once: preparing it again
/// changes nothing.
pub proof fn law_mounts_are_raised_once(args: Option<AppArgs>)
    ensures
        !mounts_none(raised_args(args)),
        raised_args(raised_args(args)) == raised_args(args),
        uid_spec(raised_args(args)) == uid_spec(args),
{
}

/// What the daemon knows of an app sets exactly the flags of its bits.
pub proof fn law_app_flags(info: u32)
    ensures
        app_flags(info) & DO_REVERT_UNMOUNT != 0 <==> info & PROCESS_ON_DENY_LIST != 0,
        app_flags(info) & DO_ALLOW != 0 <==> info & PROCESS_GRANTED_ROOT != 0,
        app_flags(info) & ALLOWLIST_ENFORCED != 0 <==> info & ALLOW_LIST_ENFORCED != 0,
        app_flags(info) & DO_FUTILE_HIDE != 0 <==> info & HIDE_FROM_PROCESS != 0,
        app_flags(info) & DO_ALLOW_SU == 0,
        app_flags(info) & RESTORE_MOUNT_EXTERNAL_NONE == 0,
{
    let a = flag_if(info, PROCESS_ON_DENY_LIST, DO_REVERT_UNMOUNT);
    let b = flag_if(info, PROCESS_GRANTED_ROOT, DO_ALLOW);
    let c = flag_if(info, ALLOW_LIST_ENFORCED, ALLOWLIST_ENFORCED);
    let d = flag_if(info, HIDE_FROM_PROCESS, DO_FUTILE_HIDE);
    let all = a | b | c | d;
    assert(((all & 16 != 0) == (a == 16)) && ((all & 64 != 0) == (b == 64)) && ((all & 128 != 0)
        == (c == 128)) && ((all & 512 != 0) == (d == 512)) && all & 1024 == 0 && all & 256 == 0)
        by (bit_vector)
        requires
            all == a | b | c | d,
            a == 0 || a == 16,
            b == 0 || b == 64,
            c == 0 || c == 128,
            d == 0 || d == 512,
    ;
}

/// A process that the deny list holds is told so by the daemon, and has its
/// mounts undone for it.
pub proof fn law_listed_process_is_reverted(deny: u32, is_manager: bool, granted: bool)
    requires
        deny & PROCESS_ON_DENY_LIST != 0,
    ensures
        ({
            let info = process_flags_spec(deny, is_manager, granted);
            &&& info & PROCESS_ON_DENY_LIST != 0
            &&& app_flags(info) & DO_REVERT_UNMOUNT != 0
        }),
{
    let info = process_flags_spec(deny, is_manager, granted);
    let m: u32 = if is_manager {
        PROCESS_IS_MAGISK_APP
    } else {
        0
    };
    let g: u32 = if granted {
        PROCESS_GRANTED_ROOT
    } else {
        0
    };
    assert((deny | m | g) & 2 != 0) by (bit_vector)
        requires
            deny & 2 != 0,
    ;
    law_app_flags(info);
}

/// The context that hooks find, by its address; 0 where there is none.
#[derive(Clone, Copy, PartialEq, Eq, Structural)]
pub struct CurrentContext {
    pub ptr: usize,
}

/// The address of the current context.
pub fn current_ctx(slot: &CurrentContext) -> (r: Option<usize>)
    ensures
        r == (if slot.ptr == 0 {
            None
        } else {
            Some(slot.ptr)
        }),
{
    if slot.ptr == 0 {
        None
    } else {
        Some(slot.ptr)
    }
}

/// Makes the context at an address the current one; 0 stands for none.
pub fn set_current_ptr(slot: &mut CurrentContext, ptr: usize)
    ensures
        final(slot).ptr == ptr,
{
    slot.ptr = ptr;
}

/// Makes a context the current one.
pub fn set_current(slot: &mut CurrentContext, ptr: usize)
    ensures
        final(slot).ptr == ptr,
{
    slot.ptr = ptr;
}

/// The address of the current context, 0 where there is none.
pub fn get_current_ptr(slot: &CurrentContext) -> (r: usize)
    ensures
        r == slot.ptr,
{
    slot.ptr
}

/// There is no current context any more.
pub fn unset_current(slot: &mut CurrentContext)
    ensures
        final(slot).ptr == 0,
{
    slot.ptr = 0;
}

/// What is left to do when a context goes away.
#[derive(Clone, Copy, PartialEq, Eq, Structural)]
pub struct DropPlan {
    /// The table of functions is put back.
    pub restore_env: bool,
}

/// The current context after the one at `ptr` went away, and whether the
/// environment's functions are put back.
pub open spec fn dropped(current: usize, ptr: usize, env: usize) -> (usize, bool) {
    (
        if current == ptr {
            0
        } else {
            current
        },
        env != 0,
    )
}

/// A context at `ptr` goes away: it is not the current one any more, and where it
/// has an environment, the environment's functions are put back.
pub fn drop_context(slot: &mut CurrentContext, ptr: usize, env: usize) -> (r: DropPlan)
    ensures
        final(slot).ptr == (if old(slot).ptr == ptr {
            0
        } else {
            old(slot).ptr
        }),
        r.restore_env == (env != 0),
        (final(slot).ptr, r.restore_env) == dropped(old(slot).ptr, ptr, env),
{
    if slot.ptr == ptr {
        slot.ptr = 0;
    }
    DropPlan { restore_env: env != 0 }
}

/// The flags that follow from what the daemon knows of an app are a sum: 64 where
/// bit 0 is set, 16 where bit 1 is, 128 where bit 2 is and 512 where bit 3 is;
/// the other bits count for nothing.
pub proof fn law_app_flags_add_up(info: u32)
    ensures
        app_flags(info) == 64 * (info % 2) + 16 * ((info / 2) % 2) + 128 * ((info / 4) % 2) + 512 * ((
        info / 8) % 2),
{
    let a = flag_if(info, PROCESS_ON_DENY_LIST, DO_REVERT_UNMOUNT);
    let b = flag_if(info, PROCESS_GRANTED_ROOT, DO_ALLOW);
    let c = flag_if(info, ALLOW_LIST_ENFORCED, ALLOWLIST_ENFORCED);
    let d = flag_if(info, HIDE_FROM_PROCESS, DO_FUTILE_HIDE);
    let all = a | b | c | d;
    assert(all == a + b + c + d) by (bit_vector)
        requires
            all == a | b | c | d,
            a == 0 || a == 16,
            b == 0 || b == 64,
            c == 0 || c == 128,
            d == 0 || d == 512,
    ;
    assert((info & 1 != 0) == (info % 2 == 1) && (info & 2 != 0) == ((info / 2) % 2 == 1) && (info
        & 4 != 0) == ((info / 4) % 2 == 1) && (info & 8 != 0) == ((info / 8) % 2 == 1))
        by (bit_vector);
}

/// Of what the daemon knows of a process that is specialised in place, bit 4
/// alone counts.
pub proof fn law_specialized_flags(info: u32)
    ensures
        specialized_flags(info) == 1024 * ((info / 16) % 2),
{
    assert((info & 16 != 0) == ((info / 16) % 2 == 1)) by (bit_vector);
}

/// An app that has its storage mounted in some way, or of which that is not
/// known, is left as it is. One that has none gets it mounted by default, with
/// bit 8 of the flags set to tell so; its user id stays.
pub proof fn law_only_unmounted_apps_are_raised(uid: i32, mount: i32, flags: u16)
    ensures
        raised_args(Some(AppArgs { uid, mount_external: Some(mount) })) == Some(
            AppArgs {
                uid,
                mount_external: Some(
                    if mount == 0 {
                        1i32
                    } else {
                        mount
                    },
                ),
            },
        ),
        raised_flags(Some(AppArgs { uid, mount_external: Some(mount) }), flags) == (if mount == 0 {
            flags | 256
        } else {
            flags
        }),
        raised_args(Some(AppArgs { uid, mount_external: None })) == Some(
            AppArgs { uid, mount_external: None },
        ),
        raised_flags(Some(AppArgs { uid, mount_external: None }), flags) == flags,
        raised_args(None) is None,
        raised_flags(None, flags) == flags,
        uid_spec(Some(AppArgs { uid, mount_external: Some(mount) })) == uid,
        uid_spec(None) == 0,
{
}

/// After the system server was specialised, its modules are told before they are
/// hidden, and its descriptors closed after both; releasing the lock comes last.
/// Modules are loaded, before all else, exactly where none were.
pub proof fn law_server_steps_in_order(loaded: nat, hide: bool)
    ensures
        ({
            let s = server_post_steps(loaded, hide);
            let n = s.len() as int;
            &&& n == 3 + (if loaded == 0 {
                1int
            } else {
                0
            }) + (if hide {
                1int
            } else {
                0
            })
            &&& s[n - 1] == SpecializeStep::ForkPost
            &&& s[n - 2] == SpecializeStep::SanitizeFds
            &&& hide ==> s[n - 3] == SpecializeStep::Hide
            &&& loaded > 0 ==> s[0] == SpecializeStep::RunPostServer
            &&& loaded == 0 ==> s[0] == SpecializeStep::LoadServerModules && s[1]
                == SpecializeStep::RunPostServer
        }),
{
}

/// After a process was specialised in place, its modules are told, where none
/// were loaded once they are loaded. Then they are hidden where bit 9 of the flags
/// is set; the process is told of them where bit 4 of what the daemon knows is
/// set; and descriptors are closed last.
pub proof fn law_specialized_steps_in_order(loaded: nat, flags: u16, info: u32)
    ensures
        ({
            let s = specialized_post_steps(loaded, flags, info);
            let n = s.len() as int;
            let first: int = if loaded == 0 {
                1
            } else {
                0
            };
            let hide: int = (flags as int / 512) % 2;
            let tell: int = (info as int / 16) % 2;
            &&& n == first + 1 + hide + tell + 1
            &&& s[n - 1] == SpecializeStep::SanitizeFds
            &&& s[first] == SpecializeStep::RunPost
            &&& loaded == 0 ==> s[0] == SpecializeStep::LoadModules
            &&& hide == 1 ==> s[first + 1] == SpecializeStep::Hide
            &&& tell == 1 ==> s[n - 2] == SpecializeStep::SetEnabled
        }),
{
    assert((info & 16 != 0) == ((info / 16) % 2 == 1) && (flags & 512 != 0) == ((flags / 512) % 2
        == 1)) by (bit_vector);
}

/// Before a process is specialised the daemon is asked about it, last of all.
/// Where the process is forked, the fork is prepared first and modules are left to
/// the child; otherwise modules run at once. Mounts are raised for apps alone, and
/// before the daemon is asked.
pub proof fn law_steps_before(forks: bool, server: bool)
    ensures
        ({
            let s = pre_steps(forks, server);
            let n = s.len() as int;
            &&& n == (if forks {
                1int
            } else {
                0
            }) + (if server {
                1int
            } else {
                2
            })
            &&& forks ==> s[0] == SpecializeStep::ForkPre
            &&& server ==> s[n - 1] == (SpecializeStep::AskServer { run_modules: !forks })
            &&& !server ==> s[n - 1] == (SpecializeStep::AskApp { run_modules: !forks })
            &&& !server ==> s[n - 2] == SpecializeStep::RaiseMounts
        }),
{
}

/// After an app was specialised its descriptors are closed and the lock is
/// released: the lock first where native code forked the app, and last otherwise.
pub proof fn law_steps_after(native: bool)
    ensures
        ({
            let s = app_post_steps(native);
            &&& s.len() == 2
            &&& s.contains(SpecializeStep::SanitizeFds) && s.contains(SpecializeStep::ForkPost)
            &&& s[0] == SpecializeStep::ForkPost <==> native
        }),
{
    let s = app_post_steps(native);
    assert(s[0] == SpecializeStep::SanitizeFds || s[1] == SpecializeStep::SanitizeFds);
    assert(s[0] == SpecializeStep::ForkPost || s[1] == SpecializeStep::ForkPost);
}

/// Contexts of which the rest is unchanged agree in all but their flags and
/// arguments, and a context agrees with itself.
pub proof fn law_rest_is_unchanged(a: HookContext, b: HookContext)
    ensures
        same_rest(a, a),
        same_rest(a, b) ==> a.process_name == b.process_name && a.pid == b.pid && a.modules
            == b.modules && a.allowed_fds == b.allowed_fds && a.exempted_fds == b.exempted_fds,
{
}

/// A context that goes away is no longer the current one, and leaves another that
/// is current alone. Functions are put back exactly where there is an environment.
pub proof fn law_context_goes_away(current: usize, ptr: usize, env: usize)
    requires
        env != 0,
    ensures
        dropped(ptr, ptr, env) == (0usize, true),
        dropped(ptr, ptr, 0) == (0usize, false),
        current != ptr ==> dropped(current, ptr, env) == (current, true),
        current != ptr ==> dropped(current, ptr, 0) == (current, false),
{
}

} // verus!
