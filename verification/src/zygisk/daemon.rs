//! The daemon's service for injected code.

use vstd::prelude::*;
use vstd::string::*;

use crate::daemon::MagiskD;
use crate::num::{decimal_int, decimal_text_i32};
use crate::text::{append, same_text};

verus! {

/// The process was granted root.
pub const PROCESS_GRANTED_ROOT: u32 = 0x1;

/// The process is on the deny list.
pub const PROCESS_ON_DENY_LIST: u32 = 0x2;

/// The allow list is enforced.
pub const ALLOW_LIST_ENFORCED: u32 = 0x4;

/// Modules are to be hidden from the process.
pub const HIDE_FROM_PROCESS: u32 = 0x8;

/// The process may become root where it is specialised in place.
pub const PROCESS_MAY_BE_ROOT: u32 = 0x10;

/// The deny list is enforced.
pub const DENY_LIST_ENFORCED: u32 = 0x4000_0000;

/// The process is the manager app.
pub const PROCESS_IS_MAGISK_APP: u32 = 0x8000_0000;

/// The flags with which nothing is shown to a process.
pub const UNMOUNT_MASK: u32 = 0x4000_0002;

/// Modules are loaded into a process with these flags: it is not the manager
/// app, nor on a deny list that is enforced.
pub open spec fn loads_modules(flags: u32) -> bool {
    flags & UNMOUNT_MASK != UNMOUNT_MASK && flags & PROCESS_IS_MAGISK_APP == 0
}

/// Tells whether modules are loaded into a process with these flags.
pub fn zygisk_should_load_module(flags: u32) -> (r: bool)
    ensures
        r == loads_modules(flags),
{
    flags & UNMOUNT_MASK != UNMOUNT_MASK && flags & PROCESS_IS_MAGISK_APP == 0
}

/// Modules are kept from a process exactly where it is the manager app, or on
/// the deny list while the list is enforced.
pub proof fn law_modules_are_kept_out(flags: u32)
    ensures
        loads_modules(flags) == !((flags & PROCESS_ON_DENY_LIST != 0 && flags & DENY_LIST_ENFORCED
            != 0) || flags & PROCESS_IS_MAGISK_APP != 0),
{
    assert((flags & 0x4000_0002 != 0x4000_0002) == !(flags & 2 != 0 && flags & 0x4000_0000 != 0))
        by (bit_vector);
}

/// The number that a process sends of its width stands for 64 bits.
pub open spec fn is_wide_spec(code: int) -> bool {
    code != 0
}

/// Tells whether the number that a process sends of its width stands for 64
/// bits.
pub fn is_wide(code: i32) -> (r: bool)
    ensures
        r == is_wide_spec(code as int),
{
    code != 0
}

/// The state of the service.
#[derive(Clone, Copy, PartialEq, Eq, Structural)]
pub struct ZygiskState {
    /// The companion for 32-bit processes is connected.
    pub has_32: bool,
    /// The companion for 64-bit processes is connected.
    pub has_64: bool,
    /// How often zygotes were started.
    pub start_count: u32,
}

/// Starts of the zygote after which no more code is injected.
pub const MAX_STARTS: u32 = 3;

/// The state after zygotes were started anew, or after booting was complete
/// where `restore` holds.
pub open spec fn reset_spec(s: ZygiskState, restore: bool) -> ZygiskState {
    if restore {
        ZygiskState { start_count: 1, ..s }
    } else {
        ZygiskState {
            has_32: false,
            has_64: false,
            start_count: (s.start_count + 1) as u32,
        }
    }
}

/// Whether zygotes are still watched is to be changed to this.
pub open spec fn stop_tracing_spec(s: ZygiskState, restore: bool) -> Option<bool> {
    if restore {
        Some(false)
    } else if s.start_count + 1 > MAX_STARTS {
        Some(true)
    } else {
        None
    }
}

impl ZygiskState {
    /// No zygote was started yet.
    pub fn new() -> (r: ZygiskState)
        ensures
            r == (ZygiskState { has_32: false, has_64: false, start_count: 0 }),
    {
        ZygiskState { has_32: false, has_64: false, start_count: 0 }
    }

    /// Starts over. The result tells whether to stop watching zygotes, where
    /// that changes.
    pub fn reset(&mut self, restore: bool) -> (r: Option<bool>)
        requires
            restore || old(self).start_count < u32::MAX,
        ensures
            *final(self) == reset_spec(*old(self), restore),
            r == stop_tracing_spec(*old(self), restore),
    {
        if restore {
            self.start_count = 1;
            Some(false)
        } else {
            self.has_32 = false;
            self.has_64 = false;
            self.start_count = self.start_count + 1;
            if self.start_count > MAX_STARTS {
                Some(true)
            } else {
                None
            }
        }
    }

    fn set_slot(&mut self, is_64_bit: bool, filled: bool)
        ensures
            *final(self) == with_slot(*old(self), is_64_bit, filled),
    {
        if is_64_bit {
            self.has_64 = filled;
        } else {
            self.has_32 = filled;
        }
    }
}

/// The state after zygotes were started `n` times anew.
pub open spec fn restarts(s: ZygiskState, n: nat) -> ZygiskState
    decreases n,
{
    if n == 0 {
        s
    } else {
        reset_spec(restarts(s, (n - 1) as nat), false)
    }
}

/// After booting was complete, zygotes may be started twice more; from the third
/// time on no more code is injected, until booting is complete again.
pub proof fn law_crashing_zygote_is_left_alone(s: ZygiskState, n: nat)
    requires
        n < u32::MAX,
    ensures
        restarts(reset_spec(s, true), n).start_count == n + 1,
        stop_tracing_spec(restarts(reset_spec(s, true), n), false) == (if n >= 2 {
            Some(true)
        } else {
            None::<bool>
        }),
        stop_tracing_spec(restarts(reset_spec(s, true), n), true) == Some(false),
    decreases n,
{
    if n > 0 {
        law_crashing_zygote_is_left_alone(s, (n - 1) as nat);
    }
}

/// The companion for a width is connected.
pub open spec fn slot(s: ZygiskState, is_64_bit: bool) -> bool {
    if is_64_bit {
        s.has_64
    } else {
        s.has_32
    }
}

/// The state with the companion for a width connected or not.
pub open spec fn with_slot(s: ZygiskState, is_64_bit: bool, filled: bool) -> ZygiskState {
    if is_64_bit {
        ZygiskState { has_64: filled, ..s }
    } else {
        ZygiskState { has_32: filled, ..s }
    }
}

/// Where handing a client to a companion stands.
#[derive(Clone, Copy, PartialEq, Eq, Structural)]
pub enum CompanionPhase {
    Begin,
    /// The connection is being tested.
    Polling,
    /// The client is being handed to a companion that runs.
    Reusing,
    /// A pair of sockets is being made.
    Pairing,
    /// A companion is being started, and given the modules.
    Starting,
    /// The new companion is getting ready.
    Waiting,
    /// The client is being handed to the new companion.
    Handing,
    /// The client was handed over, or not.
    Done(bool),
}

/// What happened.
#[derive(Clone, Copy, PartialEq, Eq, Structural)]
pub enum CompanionEvent {
    Begin,
    /// What testing the connection gave.
    Polled { ret: i32, revents: i16 },
    /// Whether the last action succeeded.
    Finished(bool),
    /// What the new companion said, where it said anything.
    Ready(Option<i32>),
}

/// What is to be done next.
#[derive(Clone, Copy, PartialEq, Eq, Structural)]
pub enum CompanionAction {
    /// Test the connection.
    Poll,
    /// Hand the client to the companion.
    SendClient,
    /// Make a pair of sockets.
    Pair,
    /// Start a companion; where there are modules, send them.
    Start,
    /// Wait for the companion to get ready.
    Await,
    Finish(bool),
}

/// The events that can come in a phase.
pub open spec fn companion_expects(phase: CompanionPhase, ev: CompanionEvent) -> bool {
    match phase {
        CompanionPhase::Begin => ev is Begin,
        CompanionPhase::Polling => ev is Polled,
        CompanionPhase::Waiting => ev is Ready,
        CompanionPhase::Done(_) => false,
        _ => ev is Finished,
    }
}

/// The state, the phase and the action after an event.
pub open spec fn companion_step(
    s: ZygiskState,
    phase: CompanionPhase,
    is_64_bit: bool,
    ev: CompanionEvent,
) -> (ZygiskState, CompanionPhase, CompanionAction) {
    let failed = (s, CompanionPhase::Done(false), CompanionAction::Finish(false));
    match (phase, ev) {
        (CompanionPhase::Begin, _) => if slot(s, is_64_bit) {
            (s, CompanionPhase::Polling, CompanionAction::Poll)
        } else {
            (s, CompanionPhase::Pairing, CompanionAction::Pair)
        },
        (CompanionPhase::Polling, CompanionEvent::Polled { ret, revents }) => if ret == -1
            || revents != 0 {
            (
                with_slot(s, is_64_bit, false),
                CompanionPhase::Pairing,
                CompanionAction::Pair,
            )
        } else {
            (s, CompanionPhase::Reusing, CompanionAction::SendClient)
        },
        (CompanionPhase::Reusing, CompanionEvent::Finished(ok)) => (
            s,
            CompanionPhase::Done(ok),
            CompanionAction::Finish(ok),
        ),
        (CompanionPhase::Pairing, CompanionEvent::Finished(true)) => (
            s,
            CompanionPhase::Starting,
            CompanionAction::Start,
        ),
        (CompanionPhase::Starting, CompanionEvent::Finished(true)) => (
            s,
            CompanionPhase::Waiting,
            CompanionAction::Await,
        ),
        (CompanionPhase::Waiting, CompanionEvent::Ready(Some(code))) => if code == 0 {
            (s, CompanionPhase::Handing, CompanionAction::SendClient)
        } else {
            failed
        },
        (CompanionPhase::Handing, CompanionEvent::Finished(true)) => (
            with_slot(s, is_64_bit, true),
            CompanionPhase::Done(true),
            CompanionAction::Finish(true),
        ),
        _ => failed,
    }
}

impl ZygiskState {
    /// Takes one event of handing a client to a companion and tells what to do.
    pub fn connect_zygiskd(
        &mut self,
        phase: CompanionPhase,
        is_64_bit: bool,
        ev: CompanionEvent,
    ) -> (r: (CompanionPhase, CompanionAction))
        requires
            companion_expects(phase, ev),
        ensures
            (*final(self), r.0, r.1) == companion_step(*old(self), phase, is_64_bit, ev),
    {
        match (phase, ev) {
            (CompanionPhase::Begin, _) => {
                let connected = if is_64_bit {
                    self.has_64
                } else {
                    self.has_32
                };
                if connected {
                    (CompanionPhase::Polling, CompanionAction::Poll)
                } else {
                    (CompanionPhase::Pairing, CompanionAction::Pair)
                }
            },
            (CompanionPhase::Polling, CompanionEvent::Polled { ret, revents }) => {
                if ret == -1 || revents != 0 {
                    self.set_slot(is_64_bit, false);
                    (CompanionPhase::Pairing, CompanionAction::Pair)
                } else {
                    (CompanionPhase::Reusing, CompanionAction::SendClient)
                }
            },
            (CompanionPhase::Reusing, CompanionEvent::Finished(ok)) => (
                CompanionPhase::Done(ok),
                CompanionAction::Finish(ok),
            ),
            (CompanionPhase::Pairing, CompanionEvent::Finished(true)) => (
                CompanionPhase::Starting,
                CompanionAction::Start,
            ),
            (CompanionPhase::Starting, CompanionEvent::Finished(true)) => (
                CompanionPhase::Waiting,
                CompanionAction::Await,
            ),
            (CompanionPhase::Waiting, CompanionEvent::Ready(Some(code))) => {
                if code == 0 {
                    (CompanionPhase::Handing, CompanionAction::SendClient)
                } else {
                    (CompanionPhase::Done(false), CompanionAction::Finish(false))
                }
            },
            (CompanionPhase::Handing, CompanionEvent::Finished(true)) => {
                self.set_slot(is_64_bit, true);
                (CompanionPhase::Done(true), CompanionAction::Finish(true))
            },
            _ => (CompanionPhase::Done(false), CompanionAction::Finish(false)),
        }
    }
}

/// What holds between the state and the phase: a companion that is being started
/// does not count as connected, one that is used does.
pub open spec fn companion_wf(s: ZygiskState, phase: CompanionPhase, is_64_bit: bool) -> bool {
    match phase {
        CompanionPhase::Begin => true,
        CompanionPhase::Polling | CompanionPhase::Reusing | CompanionPhase::Done(true) => slot(
            s,
            is_64_bit,
        ),
        CompanionPhase::Pairing
        | CompanionPhase::Starting
        | CompanionPhase::Waiting
        | CompanionPhase::Handing => !slot(s, is_64_bit),
        CompanionPhase::Done(false) => true,
    }
}

/// A companion counts as connected only once a client was handed to it, and
/// handing a client over never touches the companion for the other width.
pub proof fn law_companion_slot(
    s: ZygiskState,
    phase: CompanionPhase,
    is_64_bit: bool,
    ev: CompanionEvent,
)
    requires
        companion_wf(s, phase, is_64_bit),
        companion_expects(phase, ev),
    ensures
        ({
            let (t, next, _) = companion_step(s, phase, is_64_bit, ev);
            &&& companion_wf(t, next, is_64_bit)
            &&& slot(t, !is_64_bit) == slot(s, !is_64_bit)
            &&& t.start_count == s.start_count
            &&& slot(t, is_64_bit) && !slot(s, is_64_bit) ==> next == CompanionPhase::Done(true)
        }),
{
}

/// The executable that runs a companion.
pub open spec fn companion_name_spec(is_64_bit: bool, wide: bool) -> Seq<char> {
    if wide && !is_64_bit {
        "magisk32"@
    } else {
        "magisk"@
    }
}

/// The executable that runs a companion: where the daemon is a 64-bit program,
/// 32-bit processes have one of their own.
pub fn companion_name(is_64_bit: bool, wide: bool) -> (r: &'static str)
    ensures
        r@ == (if wide && !is_64_bit {
            "magisk32"@
        } else {
            "magisk"@
        }),
        r@ == companion_name_spec(is_64_bit, wide),
{
    if wide && !is_64_bit {
        "magisk32"
    } else {
        "magisk"
    }
}

/// What injected code asks for.
#[derive(Clone, Copy, PartialEq, Eq, Structural)]
pub enum ZygiskRequest {
    GetInfo,
    ConnectCompanion,
    GetModDir,
    SulistRootNs,
    RevertUmount,
}

/// The code of a request.
pub open spec fn zygisk_code(r: ZygiskRequest) -> int {
    match r {
        ZygiskRequest::GetInfo => 0,
        ZygiskRequest::ConnectCompanion => 1,
        ZygiskRequest::GetModDir => 2,
        ZygiskRequest::SulistRootNs => 3,
        ZygiskRequest::RevertUmount => 4,
    }
}

/// Reads a request; `None` for a number that is none, which is left unanswered.
pub fn zygisk_handler(code: i32) -> (r: Option<ZygiskRequest>)
    ensures
        match r {
            Some(q) => zygisk_code(q) == code,
            None => forall|q: ZygiskRequest| zygisk_code(q) != code,
        },
{
    match code {
        0 => Some(ZygiskRequest::GetInfo),
        1 => Some(ZygiskRequest::ConnectCompanion),
        2 => Some(ZygiskRequest::GetModDir),
        3 => Some(ZygiskRequest::SulistRootNs),
        4 => Some(ZygiskRequest::RevertUmount),
        _ => None,
    }
}

/// The code of a request.
pub fn zygisk_request_code(r: ZygiskRequest) -> (c: i32)
    ensures
        c == zygisk_code(r),
{
    match r {
        ZygiskRequest::GetInfo => 0,
        ZygiskRequest::ConnectCompanion => 1,
        ZygiskRequest::GetModDir => 2,
        ZygiskRequest::SulistRootNs => 3,
        ZygiskRequest::RevertUmount => 4,
    }
}

/// Calls `libc::WIFEXITED`. It is claimed to tell whether the seven lowest bits
/// of the status are zero.
#[verifier::external_body]
fn exited(status: i32) -> (r: bool)
    ensures
        r == (status & 0x7f == 0),
{
    libc::WIFEXITED(status)
}

/// Calls `libc::WEXITSTATUS`. It is claimed to give bits 8 to 15 of the status.
#[verifier::external_body]
fn exit_status(status: i32) -> (r: i32)
    ensures
        r == (status >> 8) & 0xff,
{
    libc::WEXITSTATUS(status)
}

/// A child process ended by itself, and with success: `status` is its wait
/// status, `None` where it could not be started.
pub open spec fn child_succeeded(status: Option<i32>) -> bool {
    status matches Some(s) && s & 0x7f == 0 && (s >> 8) & 0xff == 0
}

/// Tells whether a child process ended with success.
pub fn child_ok(status: Option<i32>) -> (r: bool)
    ensures
        r == child_succeeded(status),
{
    match status {
        Some(s) => exited(s) && exit_status(s) == 0,
        None => false,
    }
}

/// The answer to a client, from the status of the child that worked for it.
pub open spec fn sulist_reply_spec(status: Option<i32>) -> i32 {
    if child_succeeded(status) {
        0
    } else {
        -1i32
    }
}

/// The answer to a client that asked for its root file system to be mounted.
pub fn sulist_reply(status: Option<i32>) -> (r: i32)
    ensures
        child_succeeded(status) ==> r == 0,
        !child_succeeded(status) ==> r == -1,
        r == sulist_reply_spec(status),
{
    if child_ok(status) {
        0
    } else {
        -1
    }
}

/// The answer to a client that asked for mounts to be undone.
pub open spec fn revert_reply_spec(status: Option<i32>, pid: i32) -> Seq<char> {
    if child_succeeded(status) {
        "/proc/"@ + decimal_int(pid as int) + "/ns/mnt"@
    } else {
        Seq::empty()
    }
}

/// The answer to a client that asked for mounts to be undone: its mount
/// namespace, or nothing.
pub fn revert_reply(status: Option<i32>, pid: i32) -> (r: String)
    ensures
        r@ == (if child_succeeded(status) {
            "/proc/"@ + decimal_int(pid as int) + "/ns/mnt"@
        } else {
            Seq::empty()
        }),
        r@ == revert_reply_spec(status, pid),
{
    if child_ok(status) {
        let mut path = "/proc/".to_owned();
        append(&mut path, decimal_text_i32(pid).as_str());
        append(&mut path, "/ns/mnt");
        path
    } else {
        String::new()
    }
}

/// The flags of a process: what the deny list says, whether it is the manager
/// app, and whether it was granted root.
pub open spec fn process_flags_spec(deny: u32, is_manager: bool, granted: bool) -> u32 {
    deny | (if is_manager {
        PROCESS_IS_MAGISK_APP
    } else {
        0
    }) | (if granted {
        PROCESS_GRANTED_ROOT
    } else {
        0
    })
}

/// What a process is told about itself.
#[derive(Clone, Copy, PartialEq, Eq, Structural)]
pub struct ProcessInfo {
    pub flags: u32,
    /// The modules are sent, where there are any.
    pub send_modules: bool,
    /// The modules that failed to load are read.
    pub read_failed: bool,
}

/// What a process is told about itself.
pub open spec fn process_info_spec(
    uid: i32,
    process: Seq<char>,
    deny: u32,
    manager_uid: i32,
    granted: bool,
) -> ProcessInfo {
    let flags = process_flags_spec(deny, manager_uid == uid, granted);
    ProcessInfo {
        flags,
        send_modules: loads_modules(flags),
        read_failed: uid == 1000 && process == "system_server"@,
    }
}

/// Tells what a process is told about itself: `deny` is what the deny list says
/// of it, and `manager_uid` the user id of the manager app.
pub fn get_process_info(
    uid: i32,
    process: &str,
    deny: u32,
    manager_uid: i32,
    granted: bool,
) -> (r: ProcessInfo)
    ensures
        r.flags == process_flags_spec(deny, manager_uid == uid, granted),
        r.send_modules == loads_modules(r.flags),
        r.read_failed == (uid == 1000 && process@ == "system_server"@),
        r == process_info_spec(uid, process@, deny, manager_uid, granted),
{
    let manager: u32 = if manager_uid == uid {
        PROCESS_IS_MAGISK_APP
    } else {
        0
    };
    let root: u32 = if granted {
        PROCESS_GRANTED_ROOT
    } else {
        0
    };
    let flags: u32 = deny | manager | root;
    ProcessInfo {
        flags,
        send_modules: zygisk_should_load_module(flags),
        read_failed: uid == 1000 && same_text(process, "system_server"),
    }
}

/// The manager app is never given modules, whatever the deny list says.
pub proof fn law_manager_gets_no_modules(deny: u32, granted: bool)
    ensures
        !loads_modules(process_flags_spec(deny, true, granted)),
{
    assert((deny | 0x8000_0000u32 | 1) & 0x8000_0000 != 0 && (deny | 0x8000_0000u32 | 0)
        & 0x8000_0000 != 0) by (bit_vector);
}

/// A module, with its libraries for injected code.
pub struct ModuleInfo {
    pub name: String,
    /// The 32-bit library, negative where there is none.
    pub z32: i32,
    /// The 64-bit library, negative where there is none.
    pub z64: i32,
}

/// The library of a module that is sent; standard output stands in where there
/// is none.
pub open spec fn module_fd(m: ModuleInfo, is_64_bit: bool) -> i32 {
    let fd = if is_64_bit {
        m.z64
    } else {
        m.z32
    };
    if fd < 0 {
        1
    } else {
        fd
    }
}

/// The libraries of modules, in their order.
pub open spec fn module_fds_spec(modules: Seq<ModuleInfo>, is_64_bit: bool) -> Seq<i32> {
    modules.map_values(|m: ModuleInfo| module_fd(m, is_64_bit))
}

fn module_fds(m: &[ModuleInfo], is_64_bit: bool) -> (r: Vec<i32>)
    ensures
        r@ == module_fds_spec(m@, is_64_bit),
{
    let mut out: Vec<i32> = Vec::new();
    for i in 0..m.len()
        invariant
            out@ == module_fds_spec(m@, is_64_bit).take(i as int),
    {
        let fd: i32 = if is_64_bit {
            m[i].z64
        } else {
            m[i].z32
        };
        let ghost before = out@;
        if fd < 0 {
            out.push(1);
        } else {
            out.push(fd);
        }
        assert(module_fds_spec(m@, is_64_bit).take(i + 1) =~= before.push(
            module_fd(m@[i as int], is_64_bit),
        ));
    }
    assert(module_fds_spec(m@, is_64_bit).take(m@.len() as int) =~= module_fds_spec(m@, is_64_bit));
    out
}

impl MagiskD {
    /// Lists the libraries of the modules, where the modules were loaded.
    pub fn get_module_fds(&self, is_64_bit: bool) -> (r: Option<Vec<i32>>)
        ensures
            match (self.module_list, r) {
                (Some(m), Some(v)) => v@ == module_fds_spec(m@, is_64_bit),
                (None, None) => true,
                _ => false,
            },
    {
        match &self.module_list {
            Some(m) => Some(module_fds(m.as_slice(), is_64_bit)),
            None => None,
        }
    }

    /// Finds the module with number `id`.
    pub fn get_mod_dir(&self, id: i32) -> (r: Option<&ModuleInfo>)
        ensures
            match self.module_list {
                Some(m) => if 0 <= id < m@.len() {
                    r == Some(&m@[id as int])
                } else {
                    r is None
                },
                None => r is None,
            },
            self.module_list is None ==> r is None,
            self.module_list matches Some(m) ==> (match r {
                Some(i) => module_with(m@, id) == Some(*i),
                None => module_with(m@, id) is None,
            }),
    {
        match &self.module_list {
            Some(m) => {
                if id >= 0 && (id as usize) < m.len() {
                    Some(&m[id as usize])
                } else {
                    None
                }
            },
            None => None,
        }
    }
}

/// The module with number `id`, where there is one.
pub open spec fn module_with(modules: Seq<ModuleInfo>, id: i32) -> Option<ModuleInfo> {
    if 0 <= id < modules.len() {
        Some(modules[id as int])
    } else {
        None
    }
}

/// Every module has its place in what is sent, and no descriptor that is sent is
/// negative.
pub proof fn law_sent_descriptors_are_valid(modules: Seq<ModuleInfo>, is_64_bit: bool, i: int)
    requires
        0 <= i < modules.len(),
    ensures
        module_fds_spec(modules, is_64_bit).len() == modules.len(),
        module_fds_spec(modules, is_64_bit)[i] >= 0,
{
}

/// The command line of a companion that talks through descriptor `fd`.
pub fn exec_zygiskd(fd: i32) -> (r: Vec<String>)
    ensures
        r@.len() == 4,
        r@[0]@ == ""@,
        r@[1]@ == "zygisk"@,
        r@[2]@ == "companion"@,
        r@[3]@ == decimal_int(fd as int),
{
    let mut v: Vec<String> = Vec::new();
    v.push("".to_owned());
    v.push("zygisk".to_owned());
    v.push("companion".to_owned());
    v.push(decimal_text_i32(fd));
    v
}

/// Modules are kept from a process exactly where the top bit of its flags is
/// set, or the two bits 1 and 30 are.
pub proof fn law_flags_keep_modules_out(flags: u32)
    ensures
        !loads_modules(flags) <==> (flags / 0x8000_0000) % 2 == 1 || ((flags / 2) % 2 == 1 && (flags
            / 0x4000_0000) % 2 == 1),
{
    assert((flags & 0x4000_0002 == 0x4000_0002 || flags & 0x8000_0000 != 0) == ((flags
        / 0x8000_0000) % 2 == 1 || ((flags / 2) % 2 == 1 && (flags / 0x4000_0000) % 2 == 1)))
        by (bit_vector);
}

/// A process is told what the deny list says of it, bit by bit; the lowest bit
/// is set besides where it was granted root, and the highest exactly where it is
/// the manager app or the deny list said so. Modules are sent exactly where the
/// flags allow it, and the modules that failed are read from the system server
/// alone.
pub proof fn law_what_a_process_is_told(
    uid: i32,
    process: Seq<char>,
    deny: u32,
    manager_uid: i32,
    granted: bool,
    k: u32,
)
    requires
        k < 32,
    ensures
        ({
            let info = process_info_spec(uid, process, deny, manager_uid, granted);
            &&& (info.flags >> k) & 1 == 1 <==> (deny >> k) & 1 == 1 || (k == 0 && granted) || (k
                == 31 && manager_uid == uid)
            &&& manager_uid == uid ==> !info.send_modules
            &&& manager_uid != uid && (deny >> 31) & 1 == 0 ==> info.send_modules == !((deny >> 1)
                & 1 == 1 && (deny >> 30) & 1 == 1)
            &&& info.read_failed ==> uid == 1000 && process == "system_server"@
            &&& uid == 1000 && process == "system_server"@ ==> info.read_failed
        }),
{
    let m: u32 = if manager_uid == uid {
        0x8000_0000
    } else {
        0
    };
    let g: u32 = if granted {
        1
    } else {
        0
    };
    let f: u32 = deny | m | g;
    assert(((f >> k) & 1 == 1) == ((deny >> k) & 1 == 1 || (k == 0 && g == 1) || (k == 31 && m
        == 0x8000_0000u32))) by (bit_vector)
        requires
            k < 32,
            f == deny | m | g,
            m == 0 || m == 0x8000_0000u32,
            g == 0 || g == 1,
    ;
    assert((f & 0x4000_0002 != 0x4000_0002 && f & 0x8000_0000 == 0) == (m == 0 && (deny >> 31) & 1
        == 0 && !((deny >> 1) & 1 == 1 && (deny >> 30) & 1 == 1))) by (bit_vector)
        requires
            f == deny | m | g,
            m == 0 || m == 0x8000_0000u32,
            g == 0 || g == 1,
    ;
}

/// A child that ended by itself with a code succeeded exactly where the code is
/// zero; one that a signal ended did not succeed, nor did one that was never
/// started.
pub proof fn law_child_success(code: i32, signal: i32)
    requires
        0 <= code < 256,
        0 < signal < 128,
    ensures
        child_succeeded(Some((code * 256) as i32)) <==> code == 0,
        !child_succeeded(Some((code * 256 + signal) as i32)),
        !child_succeeded(None),
{
    let s = (code * 256) as i32;
    let t = (code * 256 + signal) as i32;
    assert(s & 0x7f == 0 && (s >> 8) & 0xff == code) by (bit_vector)
        requires
            0 <= code < 256,
            s == code * 256,
    ;
    assert(t & 0x7f != 0) by (bit_vector)
        requires
            0 <= code < 256,
            0 < signal < 128,
            t == code * 256 + signal,
    ;
}

/// Where undoing mounts succeeded, the client is told the mount namespace of the
/// process that did it, and otherwise nothing.
pub proof fn law_namespace_is_told(code: i32, pid: i32)
    requires
        0 <= code < 256,
    ensures
        revert_reply_spec(Some((code * 256) as i32), pid).len() > 0 <==> code == 0,
        code == 0 ==> revert_reply_spec(Some((code * 256) as i32), pid) == "/proc/"@ + decimal_int(
            pid as int,
        ) + "/ns/mnt"@,
        revert_reply_spec(None, pid).len() == 0,
{
    law_child_success(code, 1);
    reveal_strlit("/proc/");
    reveal_strlit("/ns/mnt");
}

/// Requests are numbered from 0 to 4, and no two share a number.
pub proof fn law_zygisk_requests_are_numbered(a: ZygiskRequest, b: ZygiskRequest)
    ensures
        0 <= zygisk_code(a) <= 4,
        zygisk_code(a) == zygisk_code(b) <==> a == b,
        zygisk_code(ZygiskRequest::GetInfo) < zygisk_code(ZygiskRequest::ConnectCompanion)
            < zygisk_code(ZygiskRequest::GetModDir) < zygisk_code(ZygiskRequest::SulistRootNs)
            < zygisk_code(ZygiskRequest::RevertUmount),
{
}

/// Zygotes that were started anew have no companion yet, and each start counts;
/// once booting is complete the companions stay, and the count is that of one
/// start. Watching ends with the fourth start, and goes on once booting is
/// complete.
pub proof fn law_starting_over(s: ZygiskState)
    requires
        s.start_count < u32::MAX,
    ensures
        !reset_spec(s, false).has_32,
        !reset_spec(s, false).has_64,
        reset_spec(s, false).start_count == s.start_count + 1,
        reset_spec(s, true).has_32 == s.has_32,
        reset_spec(s, true).has_64 == s.has_64,
        reset_spec(s, true).start_count == 1,
        s.start_count >= 3 <==> stop_tracing_spec(s, false) == Some(true),
        s.start_count < 3 <==> stop_tracing_spec(s, false) is None,
        stop_tracing_spec(s, true) == Some(false),
{
}

/// The state, the phase and the last action after a run of events, where each was
/// expected when it came.
pub open spec fn companion_run(s: ZygiskState, is_64_bit: bool, evs: Seq<CompanionEvent>) -> Option<
    (ZygiskState, CompanionPhase, CompanionAction),
>
    decreases evs.len(),
{
    if evs.len() == 0 {
        Some((s, CompanionPhase::Begin, CompanionAction::Poll))
    } else {
        match companion_run(s, is_64_bit, evs.drop_last()) {
            Some((t, phase, _)) => if companion_expects(phase, evs.last()) {
                Some(companion_step(t, phase, is_64_bit, evs.last()))
            } else {
                None
            },
            None => None,
        }
    }
}

/// A companion whose connection is sound gets the client at once, and stays
/// connected whether or not it could be handed over.
pub proof fn law_running_companion_is_used(s: ZygiskState, is_64_bit: bool, ret: i32, ok: bool)
    requires
        if is_64_bit {
            s.has_64
        } else {
            s.has_32
        },
        ret != -1,
    ensures
        companion_run(s, is_64_bit, seq![CompanionEvent::Begin]) == Some(
            (s, CompanionPhase::Polling, CompanionAction::Poll),
        ),
        companion_run(
            s,
            is_64_bit,
            seq![CompanionEvent::Begin, CompanionEvent::Polled { ret, revents: 0 }],
        ) == Some((s, CompanionPhase::Reusing, CompanionAction::SendClient)),
        companion_run(
            s,
            is_64_bit,
            seq![
                CompanionEvent::Begin,
                CompanionEvent::Polled { ret, revents: 0 },
                CompanionEvent::Finished(ok),
            ],
        ) == Some((s, CompanionPhase::Done(ok), CompanionAction::Finish(ok))),
{
    let e1 = seq![CompanionEvent::Begin];
    let e2 = seq![CompanionEvent::Begin, CompanionEvent::Polled { ret, revents: 0 }];
    let e3 = seq![
        CompanionEvent::Begin,
        CompanionEvent::Polled { ret, revents: 0 },
        CompanionEvent::Finished(ok),
    ];
    assert(e3.drop_last() =~= e2);
    assert(e2.drop_last() =~= e1);
    assert(e1.drop_last() =~= Seq::empty());
    reveal_with_fuel(companion_run, 4);
}

/// Where there is no companion, a pair of sockets is made and a companion
/// started, and once it says that it is ready it gets the client. Only then does
/// it count as connected; a step that fails ends the matter with the state as it
/// was.
pub proof fn law_companion_is_started(
    s: ZygiskState,
    is_64_bit: bool,
    paired: bool,
    started: bool,
    answer: Option<i32>,
    handed: bool,
)
    requires
        if is_64_bit {
            !s.has_64
        } else {
            !s.has_32
        },
    ensures
        ({
            let e1 = seq![CompanionEvent::Begin];
            let e2 = e1.push(CompanionEvent::Finished(paired));
            let e3 = e2.push(CompanionEvent::Finished(started));
            let e4 = e3.push(CompanionEvent::Ready(answer));
            let e5 = e4.push(CompanionEvent::Finished(handed));
            let failed = Some((s, CompanionPhase::Done(false), CompanionAction::Finish(false)));
            let with_companion = ZygiskState {
                has_32: s.has_32 || !is_64_bit,
                has_64: s.has_64 || is_64_bit,
                start_count: s.start_count,
            };
            &&& companion_run(s, is_64_bit, e1) == Some(
                (s, CompanionPhase::Pairing, CompanionAction::Pair),
            )
            &&& !paired ==> companion_run(s, is_64_bit, e2) == failed
            &&& paired ==> companion_run(s, is_64_bit, e2) == Some(
                (s, CompanionPhase::Starting, CompanionAction::Start),
            )
            &&& paired && !started ==> companion_run(s, is_64_bit, e3) == failed
            &&& paired && started ==> companion_run(s, is_64_bit, e3) == Some(
                (s, CompanionPhase::Waiting, CompanionAction::Await),
            )
            &&& paired && started && answer != Some(0i32) ==> companion_run(s, is_64_bit, e4)
                == failed
            &&& paired && started && answer == Some(0i32) ==> companion_run(s, is_64_bit, e4)
                == Some((s, CompanionPhase::Handing, CompanionAction::SendClient))
            &&& paired && started && answer == Some(0i32) && !handed ==> companion_run(
                s,
                is_64_bit,
                e5,
            ) == failed
            &&& paired && started && answer == Some(0i32) && handed ==> companion_run(
                s,
                is_64_bit,
                e5,
            ) == Some((with_companion, CompanionPhase::Done(true), CompanionAction::Finish(true)))
        }),
{
    let e1 = seq![CompanionEvent::Begin];
    let e2 = e1.push(CompanionEvent::Finished(paired));
    let e3 = e2.push(CompanionEvent::Finished(started));
    let e4 = e3.push(CompanionEvent::Ready(answer));
    let e5 = e4.push(CompanionEvent::Finished(handed));
    assert(e1.drop_last() =~= Seq::empty());
    assert(e2.drop_last() =~= e1);
    assert(e3.drop_last() =~= e2);
    assert(e4.drop_last() =~= e3);
    assert(e5.drop_last() =~= e4);
    reveal_with_fuel(companion_run, 6);
}

/// A companion whose connection broke, which shows in testing it, is forgotten,
/// and a new one is started in its place.
pub proof fn law_broken_companion_is_replaced(
    s: ZygiskState,
    is_64_bit: bool,
    ret: i32,
    revents: i16,
)
    requires
        if is_64_bit {
            s.has_64
        } else {
            s.has_32
        },
        ret == -1 || revents != 0,
    ensures
        companion_run(
            s,
            is_64_bit,
            seq![CompanionEvent::Begin, CompanionEvent::Polled { ret, revents }],
        ) == Some(
            (
                ZygiskState {
                    has_32: s.has_32 && is_64_bit,
                    has_64: s.has_64 && !is_64_bit,
                    start_count: s.start_count,
                },
                CompanionPhase::Pairing,
                CompanionAction::Pair,
            ),
        ),
{
    let e1 = seq![CompanionEvent::Begin];
    let e2 = seq![CompanionEvent::Begin, CompanionEvent::Polled { ret, revents }];
    assert(e2.drop_last() =~= e1);
    assert(e1.drop_last() =~= Seq::empty());
    reveal_with_fuel(companion_run, 3);
}

/// Each module is sent by its library for the width that was asked for, in its
/// place; where it has none, standard output stands in.
pub proof fn law_module_libraries(modules: Seq<ModuleInfo>, i: int)
    requires
        0 <= i < modules.len(),
    ensures
        module_fds_spec(modules, true).len() == modules.len(),
        module_fds_spec(modules, false).len() == modules.len(),
        modules[i].z64 >= 0 ==> module_fds_spec(modules, true)[i] == modules[i].z64,
        modules[i].z64 < 0 ==> module_fds_spec(modules, true)[i] == 1,
        modules[i].z32 >= 0 ==> module_fds_spec(modules, false)[i] == modules[i].z32,
        modules[i].z32 < 0 ==> module_fds_spec(modules, false)[i] == 1,
{
}

/// Zero alone stands for 32 bits.
pub proof fn law_width_code(code: int)
    ensures
        !is_wide_spec(code) <==> code == 0,
{
}

/// A 64-bit process is always served by the daemon's own executable, and a 32-bit
/// one is unless the daemon is a 64-bit program.
pub proof fn law_companion_name(is_64_bit: bool, wide: bool)
    ensures
        companion_name_spec(true, wide) == "magisk"@,
        companion_name_spec(is_64_bit, false) == "magisk"@,
        companion_name_spec(false, true) == "magisk"@ + "32"@,
{
    reveal_strlit("magisk");
    reveal_strlit("magisk32");
    reveal_strlit("32");
    assert("magisk32"@ =~= "magisk"@ + "32"@);
}

/// Modules are numbered from 0 in their order.
pub proof fn law_modules_are_numbered(
    before: Seq<ModuleInfo>,
    m: ModuleInfo,
    behind: Seq<ModuleInfo>,
    id: i32,
)
    ensures
        id == before.len() ==> module_with(before.push(m) + behind, id) == Some(m),
        id < 0 ==> module_with(before, id) is None,
        id >= before.len() ==> module_with(before, id) is None,
{
}

/// A client is answered 0 where the child that worked for it ended with the code
/// 0, and -1 where it ended otherwise, was killed or never started.
pub proof fn law_child_is_reported(code: i32, signal: i32)
    requires
        0 <= code < 256,
        0 < signal < 128,
    ensures
        sulist_reply_spec(Some((code * 256) as i32)) == (if code == 0 {
            0int
        } else {
            -1
        }),
        sulist_reply_spec(Some((code * 256 + signal) as i32)) == -1,
        sulist_reply_spec(None) == -1,
{
    law_child_success(code, signal);
}

} // verus!
