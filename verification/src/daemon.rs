//! The daemon: who may ask it for what, and how it starts.

use vstd::prelude::*;
use vstd::string::*;

use crate::bootstages::{BootFlag, BootState};
use crate::num::{
    decimal_int, decimal_text_i32, law_signed_round_trip, parse_i32, signed_spec,
};
use crate::text::{
    concat_text, contains_text, has_prefix, law_ends, law_occurs, lines, lines_spec, occurs,
    same_text, starts_with, to_chars, to_text, trim_end, trim_end_spec, views,
};
use crate::zygisk::daemon::{ModuleInfo, ZygiskState};

verus! {

/// The user id of root.
pub const AID_ROOT: i32 = 0;

/// The user id of the debugging shell.
pub const AID_SHELL: i32 = 2000;

/// The first user id of an app.
pub const AID_APP_START: i32 = 10000;

/// The last user id of an app.
pub const AID_APP_END: i32 = 19999;

/// The user ids that each Android user has.
pub const AID_USER_OFFSET: i32 = 100000;

/// The remainder of a division that rounds towards zero.
pub open spec fn truncated_rem(a: int, b: int) -> int
    recommends
        b > 0,
{
    if a >= 0 {
        a % b
    } else {
        -((-a) % b)
    }
}

/// The quotient of a division that rounds towards zero.
pub open spec fn truncated_div(a: int, b: int) -> int
    recommends
        b > 0,
{
    if a >= 0 {
        a / b
    } else {
        -((-a) / b)
    }
}

/// The app that a user id belongs to.
pub fn to_app_id(uid: i32) -> (r: i32)
    ensures
        r == truncated_rem(uid as int, AID_USER_OFFSET as int),
{
    if uid >= 0 {
        uid % AID_USER_OFFSET
    } else {
        let magnitude: i64 = -(uid as i64);
        (-(magnitude % 100000)) as i32
    }
}

/// The Android user that a user id belongs to.
pub fn to_user_id(uid: i32) -> (r: i32)
    ensures
        r == truncated_div(uid as int, AID_USER_OFFSET as int),
{
    if uid >= 0 {
        uid / AID_USER_OFFSET
    } else {
        let magnitude: i64 = -(uid as i64);
        (-(magnitude / 100000)) as i32
    }
}

/// A user id is made of its Android user and its app.
pub proof fn law_uid_splits(uid: i32)
    ensures
        truncated_div(uid as int, AID_USER_OFFSET as int) * AID_USER_OFFSET + truncated_rem(
            uid as int,
            AID_USER_OFFSET as int,
        ) == uid,
        uid >= 0 ==> 0 <= truncated_rem(uid as int, AID_USER_OFFSET as int) < AID_USER_OFFSET,
{
}

/// Apps of any Android user keep their app id.
pub proof fn law_app_id_of_user(user: int, app: int)
    requires
        0 <= user,
        0 <= app < AID_USER_OFFSET,
    ensures
        truncated_rem(user * AID_USER_OFFSET + app, AID_USER_OFFSET as int) == app,
        truncated_div(user * AID_USER_OFFSET + app, AID_USER_OFFSET as int) == user,
{
}

/// What identifies a file on a device.
#[derive(Clone, Copy, PartialEq, Eq, Structural)]
pub struct FileId {
    pub dev: u64,
    pub ino: u64,
}

/// The state of the daemon.
pub struct MagiskD {
    /// How far booting has come.
    pub boot_state: BootState,
    /// The modules, once they were loaded.
    pub module_list: Option<Vec<ModuleInfo>>,
    /// Code is injected into apps.
    pub zygisk_enabled: bool,
    /// The service for injected code.
    pub zygisk: ZygiskState,
    pub sdk_int: i32,
    pub is_emulator: bool,
    pub is_recovery: bool,
    /// The daemon's own executable.
    pub exe: FileId,
}

impl MagiskD {
    /// The API level of the device.
    pub fn sdk_int(&self) -> (r: i32)
        ensures
            r == self.sdk_int,
    {
        self.sdk_int
    }

    /// Tells whether code is injected into apps.
    pub fn get_zygisk_enabled(&self) -> (r: bool)
        ensures
            r == self.zygisk_enabled,
    {
        self.zygisk_enabled
    }

    /// Where apps keep their data.
    pub fn app_data_dir(&self) -> (r: &'static str)
        ensures
            r@ == (if self.sdk_int >= 24 {
                "/data/user_de"@
            } else {
                "/data/user"@
            }),
            r@ == data_dir_spec(self.sdk_int),
    {
        if self.sdk_int >= 24 {
            "/data/user_de"
        } else {
            "/data/user"
        }
    }

    /// The argument of the command that reboots the device, if it takes one.
    pub fn reboot_arg(&self) -> (r: Option<&'static str>)
        ensures
            self.is_recovery ==> r is Some && r.unwrap()@ == "recovery"@,
            !self.is_recovery ==> r is None,
    {
        if self.is_recovery {
            Some("recovery")
        } else {
            None
        }
    }

    /// Tells whether a client runs the daemon's own executable; `check` turns
    /// the test on. A client whose executable is not known does not.
    pub fn is_client(&self, check: bool, exe: Option<FileId>) -> (r: bool)
        ensures
            r == (!check || exe == Some(self.exe)),
            r == is_client_spec(self.exe, check, exe),
    {
        if !check {
            return true;
        }
        match exe {
            Some(e) => e.dev == self.exe.dev && e.ino == self.exe.ino,
            None => false,
        }
    }
}

/// Tells whether a daemon that runs is on an emulator.
pub fn kitsune_is_emulator(daemon: Option<&MagiskD>) -> (r: bool)
    ensures
        r == (daemon is Some && daemon.unwrap().is_emulator),
{
    match daemon {
        Some(d) => d.is_emulator,
        None => false,
    }
}

/// Who a client is.
#[derive(Clone, Copy, PartialEq, Eq, Structural)]
pub struct Credential {
    pub is_root: bool,
    pub is_shell: bool,
    pub is_zygote: bool,
}

/// Who a client with user id `uid` and security context `context` is. In a
/// virtual phone user ids cannot be trusted, and everyone counts as root.
pub open spec fn credential_of(virtual_phone: bool, uid: u32, context: Seq<char>) -> Credential {
    Credential {
        is_root: virtual_phone || uid == 0,
        is_shell: uid == 2000,
        is_zygote: context == "u:r:zygote:s0"@,
    }
}

/// A client is served: root, a zygote, or another copy of the daemon's
/// executable.
pub open spec fn is_served(c: Credential, is_client: bool) -> bool {
    c.is_root || c.is_zygote || is_client
}

/// Tells who a client is; `None` for one that is not served. `uid` is `None`
/// where it could not be read, and so is `context`.
pub fn check_client_credential(
    virtual_phone: bool,
    uid: Option<u32>,
    context: Option<&str>,
    is_client: bool,
) -> (r: Option<Credential>)
    ensures
        match r {
            Some(c) => uid is Some && context is Some && c == credential_of(
                virtual_phone,
                uid.unwrap(),
                context.unwrap()@,
            ) && is_served(c, is_client),
            None => uid is None || context is None || !is_served(
                credential_of(virtual_phone, uid.unwrap(), context.unwrap()@),
                is_client,
            ),
        },
{
    match (uid, context) {
        (Some(u), Some(con)) => {
            let is_root = virtual_phone || u == 0;
            let is_shell = u == 2000;
            let is_zygote = same_text(con, "u:r:zygote:s0");
            if !is_root && !is_zygote && !is_client {
                return None;
            }
            Some(Credential { is_root, is_shell, is_zygote })
        },
        _ => None,
    }
}

/// What a client asks for.
#[derive(Clone, Copy, PartialEq, Eq, Structural)]
pub enum Request {
    StartDaemon,
    CheckVersion,
    CheckVersionCode,
    StopDaemon,
    Superuser,
    ZygoteRestart,
    Denylist,
    SqliteCmd,
    RemoveModules,
    Zygisk,
    PostFsData,
    LateStart,
    BootComplete,
}

/// The code behind the requests that are answered at once.
pub const SYNC_BARRIER: i32 = 4;

/// The code behind the requests that are answered by another thread.
pub const STAGE_BARRIER: i32 = 11;

/// The code behind all requests.
pub const REQUEST_END: i32 = 15;

/// The code of a request.
pub open spec fn code_of(r: Request) -> int {
    match r {
        Request::StartDaemon => 0,
        Request::CheckVersion => 1,
        Request::CheckVersionCode => 2,
        Request::StopDaemon => 3,
        Request::Superuser => 5,
        Request::ZygoteRestart => 6,
        Request::Denylist => 7,
        Request::SqliteCmd => 8,
        Request::RemoveModules => 9,
        Request::Zygisk => 10,
        Request::PostFsData => 12,
        Request::LateStart => 13,
        Request::BootComplete => 14,
    }
}

/// The request that a code stands for.
pub open spec fn request_of(code: int) -> Option<Request> {
    if exists|r: Request| code_of(r) == code {
        Some(choose|r: Request| code_of(r) == code)
    } else {
        None
    }
}

/// The code of a request.
pub fn request_code(r: Request) -> (c: i32)
    ensures
        c == code_of(r),
        0 <= c < REQUEST_END,
        c != SYNC_BARRIER,
        c != STAGE_BARRIER,
{
    match r {
        Request::StartDaemon => 0,
        Request::CheckVersion => 1,
        Request::CheckVersionCode => 2,
        Request::StopDaemon => 3,
        Request::Superuser => 5,
        Request::ZygoteRestart => 6,
        Request::Denylist => 7,
        Request::SqliteCmd => 8,
        Request::RemoveModules => 9,
        Request::Zygisk => 10,
        Request::PostFsData => 12,
        Request::LateStart => 13,
        Request::BootComplete => 14,
    }
}

proof fn lemma_request(r: Request)
    ensures
        request_of(code_of(r)) == Some(r),
{
    let c = code_of(r);
    let s = choose|s: Request| code_of(s) == c;
    assert(code_of(s) == c);
    assert(s == r);
}

/// Reads a request; `None` for a number that is none.
pub fn read_request(code: i32) -> (r: Option<Request>)
    ensures
        r == request_of(code as int),
        r is Some == (0 <= code < REQUEST_END && code != SYNC_BARRIER && code != STAGE_BARRIER),
{
    let r = match code {
        0 => Request::StartDaemon,
        1 => Request::CheckVersion,
        2 => Request::CheckVersionCode,
        3 => Request::StopDaemon,
        5 => Request::Superuser,
        6 => Request::ZygoteRestart,
        7 => Request::Denylist,
        8 => Request::SqliteCmd,
        9 => Request::RemoveModules,
        10 => Request::Zygisk,
        12 => Request::PostFsData,
        13 => Request::LateStart,
        14 => Request::BootComplete,
        _ => {
            assert(forall|r: Request| code_of(r) != code);
            return None;
        },
    };
    proof {
        lemma_request(r);
    }
    Some(r)
}

/// Every request is read back from its code.
pub proof fn law_request_round_trip(r: Request)
    ensures
        request_of(code_of(r)) == Some(r),
{
    lemma_request(r);
}

/// How a client is answered first.
#[derive(Clone, Copy, PartialEq, Eq, Structural)]
pub enum Respond {
    Failure,
    Success,
    RootRequired,
    AccessDenied,
}

/// The code of an answer.
pub open spec fn respond_code_spec(r: Respond) -> int {
    match r {
        Respond::Failure => -1,
        Respond::Success => 0,
        Respond::RootRequired => 1,
        Respond::AccessDenied => 2,
    }
}

/// The code of an answer.
pub fn respond_code(r: Respond) -> (c: i32)
    ensures
        c == respond_code_spec(r),
{
    match r {
        Respond::Failure => -1,
        Respond::Success => 0,
        Respond::RootRequired => 1,
        Respond::AccessDenied => 2,
    }
}

/// Who works on a request.
#[derive(Clone, Copy, PartialEq, Eq, Structural)]
pub enum Lane {
    /// The thread that accepted the client.
    Sync,
    /// A thread of the pool.
    Pool,
    /// A thread of the pool, as a stage of booting.
    Stage,
}

/// What becomes of a request.
#[derive(Clone, Copy, PartialEq, Eq, Structural)]
pub enum Admission {
    /// The client is left without an answer.
    Ignore,
    /// The client is refused.
    Refuse(Respond),
    /// The client is told that all is well, and the request is worked on.
    Run(Lane, Request),
}

/// Only root may ask for this.
pub open spec fn needs_root(r: Request) -> bool {
    r is PostFsData || r is LateStart || r is BootComplete || r is ZygoteRestart || r is SqliteCmd
        || r is Denylist || r is StopDaemon
}

/// Who works on a request.
pub open spec fn lane_of(r: Request) -> Lane {
    if code_of(r) < SYNC_BARRIER {
        Lane::Sync
    } else if code_of(r) < STAGE_BARRIER {
        Lane::Pool
    } else {
        Lane::Stage
    }
}

/// What becomes of the request with `code` of a client.
pub open spec fn admission(code: int, c: Credential) -> Admission {
    match request_of(code) {
        None => Admission::Ignore,
        Some(r) => if needs_root(r) && !c.is_root {
            Admission::Refuse(Respond::RootRequired)
        } else if r is RemoveModules && !c.is_root && !c.is_shell {
            Admission::Refuse(Respond::AccessDenied)
        } else {
            Admission::Run(lane_of(r), r)
        },
    }
}

/// Decides what becomes of the request with `code` of a client.
pub fn handle_requests(code: i32, c: Credential) -> (r: Admission)
    ensures
        r == admission(code as int, c),
{
    let req = match read_request(code) {
        Some(r) => r,
        None => {
            return Admission::Ignore;
        },
    };
    proof {
        lemma_request(req);
        let k = choose|k: Request| code_of(k) == code;
        assert(code_of(req) == code) by {
            if exists|k: Request| code_of(k) == code {
                assert(code_of(k) == code);
            }
        }
    }
    match req {
        Request::PostFsData
        | Request::LateStart
        | Request::BootComplete
        | Request::ZygoteRestart
        | Request::SqliteCmd
        | Request::Denylist
        | Request::StopDaemon => {
            if !c.is_root {
                return Admission::Refuse(Respond::RootRequired);
            }
        },
        Request::RemoveModules => {
            if !c.is_root && !c.is_shell {
                return Admission::Refuse(Respond::AccessDenied);
            }
        },
        _ => {},
    }
    let lane = if code < SYNC_BARRIER {
        Lane::Sync
    } else if code < STAGE_BARRIER {
        Lane::Pool
    } else {
        Lane::Stage
    };
    Admission::Run(lane, req)
}

/// A request that only root may make runs for root alone, and modules are
/// removed only for root and the shell.
pub proof fn law_no_request_without_permission(code: int, c: Credential)
    ensures
        admission(code, c) matches Admission::Run(_, r) ==> (needs_root(r) ==> c.is_root) && (
        r is RemoveModules ==> c.is_root || c.is_shell),
{
}

/// Root is never refused.
pub proof fn law_root_is_never_refused(code: int, c: Credential)
    requires
        c.is_root,
    ensures
        admission(code, c) !is Refuse,
        admission(code, c) is Ignore == (request_of(code) is None),
{
}

/// What is done for a request that is answered at once.
#[derive(Clone, Copy, PartialEq, Eq, Structural)]
pub enum SyncAction {
    /// Send the version.
    SendVersion,
    /// Send the version code.
    SendVersionCode,
    /// Start writing the log file.
    SetupLog,
    /// Undo the overlays, acknowledge, and exit.
    Stop,
    Nothing,
}

/// Tells what is done for a request that is answered at once.
pub fn handle_request_sync(r: Request) -> (a: SyncAction)
    ensures
        a == (match r {
            Request::CheckVersion => SyncAction::SendVersion,
            Request::CheckVersionCode => SyncAction::SendVersionCode,
            Request::StartDaemon => SyncAction::SetupLog,
            Request::StopDaemon => SyncAction::Stop,
            _ => SyncAction::Nothing,
        }),
        a is Nothing <==> lane_of(r) != Lane::Sync,
{
    match r {
        Request::CheckVersion => SyncAction::SendVersion,
        Request::CheckVersionCode => SyncAction::SendVersionCode,
        Request::StartDaemon => SyncAction::SetupLog,
        Request::StopDaemon => SyncAction::Stop,
        _ => SyncAction::Nothing,
    }
}

/// The version that is sent to clients.
pub open spec fn version_reply_spec(version: Seq<char>, debug: bool) -> Seq<char> {
    version + (if debug {
        ":MAGISK:D"@
    } else {
        ":MAGISK:R"@
    })
}

/// Where apps keep their data, by the API level of the device.
pub open spec fn data_dir_spec(sdk_int: i32) -> Seq<char> {
    if sdk_int >= 24 {
        "/data/user_de"@
    } else {
        "/data/user"@
    }
}

/// A client runs the daemon's own executable `own`, or that is not tested.
pub open spec fn is_client_spec(own: FileId, check: bool, exe: Option<FileId>) -> bool {
    !check || exe == Some(own)
}

/// The version that is sent to clients: the version, and whether this is a debug
/// build.
pub fn version_reply(version: &str, debug: bool) -> (r: String)
    ensures
        r@ == version@ + (if debug {
            ":MAGISK:D"@
        } else {
            ":MAGISK:R"@
        }),
        r@ == version_reply_spec(version@, debug),
{
    if debug {
        concat_text(version, ":MAGISK:D")
    } else {
        concat_text(version, ":MAGISK:R")
    }
}

/// What is done for a request that a thread of the pool answers.
#[derive(Clone, Copy, PartialEq, Eq, Structural)]
pub enum PoolAction {
    /// Hand the client to the deny list.
    Denylist,
    /// Hand the client to the superuser service.
    Superuser,
    /// Drop stale grants, look for denied apps anew, and start over with the
    /// injected code.
    ZygoteRestarted,
    /// Run a database command.
    Database,
    /// Remove the modules and acknowledge; then reboot where the client asked
    /// for it.
    RemoveModules,
    /// Hand the client to the injected code's service.
    Zygisk,
    Nothing,
}

/// Tells what is done for a request that a thread of the pool answers.
pub fn handle_request_async(r: Request) -> (a: PoolAction)
    ensures
        a == (match r {
            Request::Denylist => PoolAction::Denylist,
            Request::Superuser => PoolAction::Superuser,
            Request::ZygoteRestart => PoolAction::ZygoteRestarted,
            Request::SqliteCmd => PoolAction::Database,
            Request::RemoveModules => PoolAction::RemoveModules,
            Request::Zygisk => PoolAction::Zygisk,
            _ => PoolAction::Nothing,
        }),
        a is Nothing <==> lane_of(r) != Lane::Pool,
{
    match r {
        Request::Denylist => PoolAction::Denylist,
        Request::Superuser => PoolAction::Superuser,
        Request::ZygoteRestart => PoolAction::ZygoteRestarted,
        Request::SqliteCmd => PoolAction::Database,
        Request::RemoveModules => PoolAction::RemoveModules,
        Request::Zygisk => PoolAction::Zygisk,
        _ => PoolAction::Nothing,
    }
}

/// A line of a property file.
pub struct Prop {
    pub key: String,
    pub val: String,
}

/// The value of the first property with the name `key`.
pub open spec fn prop_value(props: Seq<Prop>, key: Seq<char>) -> Option<Seq<char>>
    decreases props.len(),
{
    if props.len() == 0 {
        None
    } else if props[0].key@ == key {
        Some(props[0].val@)
    } else {
        prop_value(props.skip(1), key)
    }
}

/// Finds the value of the first property with the name `key`.
pub fn find_prop<'a>(props: &'a [Prop], key: &str) -> (r: Option<&'a str>)
    ensures
        match r {
            Some(v) => prop_value(props@, key@) == Some(v@),
            None => prop_value(props@, key@) is None,
        },
{
    assert(props@.skip(0) =~= props@);
    for i in 0..props.len()
        invariant
            prop_value(props@, key@) == prop_value(props@.skip(i as int), key@),
    {
        assert(props@.skip(i as int)[0] == props@[i as int]);
        assert(props@.skip(i as int).skip(1) =~= props@.skip(i + 1));
        if same_text(props[i].key.as_str(), key) {
            return Some(props[i].val.as_str());
        }
    }
    assert(props@.skip(props@.len() as int) =~= Seq::empty());
    None
}

/// The number that a property holds, -1 where it holds none.
pub open spec fn level_of(val: Seq<char>) -> int {
    match signed_spec(val, i32::MIN as int, i32::MAX as int) {
        Some(v) => v,
        None => -1,
    }
}

/// The API level: what the build's properties say, or else the property that the
/// running system has; -1 where neither is a number.
pub open spec fn sdk_level(build: Seq<Prop>, fallback: Seq<char>) -> int {
    let listed = match prop_value(build, "ro.build.version.sdk"@) {
        Some(v) => level_of(v),
        None => -1,
    };
    if listed < 0 {
        level_of(fallback)
    } else {
        listed
    }
}

fn level(val: &str) -> (r: i32)
    ensures
        r == level_of(val@),
{
    let chars = to_chars(val);
    match parse_i32(chars.as_slice()) {
        Some(v) => v,
        None => -1,
    }
}

/// Tells the API level of the device.
pub fn read_sdk_int(build: &[Prop], fallback: &str) -> (r: i32)
    ensures
        r == sdk_level(build@, fallback@),
{
    let listed: i32 = match find_prop(build, "ro.build.version.sdk") {
        Some(v) => level(v),
        None => -1,
    };
    if listed < 0 {
        level(fallback)
    } else {
        listed
    }
}

/// What the daemon finds when it starts.
pub struct EntryProbes {
    /// The property `ro.kernel.qemu`.
    pub kernel_qemu: String,
    /// The property `ro.boot.qemu`.
    pub boot_qemu: String,
    /// The property `ro.product.device`.
    pub device: String,
    /// The daemon's configuration; empty where it could not be read.
    pub config: Vec<Prop>,
    /// The build's properties; empty where they could not be read.
    pub build: Vec<Prop>,
    /// The property `ro.build.version.sdk`.
    pub sdk: String,
    /// The property `ro.config.per_app_memcg`.
    pub per_app_memcg: String,
    /// The device directory exists.
    pub has_device_dir: bool,
    /// A resource package of a chip vendor is installed that needs a property
    /// to be overridden.
    pub has_mediatek_res: bool,
    /// The list of mounts made before the daemon started; empty where it could
    /// not be read.
    pub mount_list: String,
    /// The root file system is to be mounted read-only again.
    pub remount_root: bool,
    /// The daemon's own executable.
    pub exe: FileId,
}

/// The device is an emulator.
pub open spec fn emulator_spec(p: EntryProbes) -> bool {
    p.kernel_qemu@ == "1"@ || p.boot_qemu@ == "1"@ || occurs(p.device@, "vsoc"@)
}

/// The daemon's state when it starts, by what it finds: nothing has happened
/// yet, and the device is known.
pub fn daemon_state(p: &EntryProbes) -> (r: MagiskD)
    ensures
        r.boot_state@ == Set::<BootFlag>::empty(),
        r.module_list is None,
        !r.zygisk_enabled,
        r.zygisk == (ZygiskState { has_32: false, has_64: false, start_count: 0 }),
        r.sdk_int == sdk_level(p.build@, p.sdk@),
        r.is_emulator == emulator_spec(*p),
        r.is_recovery == (prop_value(p.config@, "RECOVERYMODE"@) == Some("true"@)),
        r.exe == p.exe,
{
    let device = to_chars(p.device.as_str());
    let is_emulator = same_text(p.kernel_qemu.as_str(), "1") || same_text(
        p.boot_qemu.as_str(),
        "1",
    ) || contains_text(device.as_slice(), "vsoc");
    let is_recovery = match find_prop(p.config.as_slice(), "RECOVERYMODE") {
        Some(v) => same_text(v, "true"),
        None => false,
    };
    let sdk_int: i32 = read_sdk_int(p.build.as_slice(), p.sdk.as_str());
    MagiskD {
        boot_state: BootState::new(),
        module_list: None,
        zygisk_enabled: false,
        zygisk: ZygiskState::new(),
        sdk_int,
        is_emulator,
        is_recovery,
        exe: p.exe,
    }
}

/// How a process joins a control group: the file that is written, and what is
/// written to it.
pub struct CgroupWrite {
    pub path: String,
    pub content: String,
}

/// Tells how process `pid` joins the control group in the directory `cgroup`.
pub fn switch_cgroup(cgroup: &str, pid: i32) -> (r: CgroupWrite)
    ensures
        r.path@ == cgroup@ + "/cgroup.procs"@,
        r.content@ == decimal_int(pid as int),
{
    CgroupWrite { path: concat_text(cgroup, "/cgroup.procs"), content: decimal_text_i32(pid) }
}

/// Something that the daemon does when it starts.
pub enum EntryStep {
    /// Make the device directory.
    CreateDeviceDir,
    /// Start logging.
    StartLogging,
    /// Give the temporary files back their security contexts.
    RestoreContexts,
    /// Leave a control group, by its directory.
    LeaveCgroup(String),
    /// Override the property of the chip vendor.
    ClearModelProperty,
    /// Undo a mount that was made before the daemon started.
    Unmount(String),
    /// Mount the root file system read-only.
    RemountRoot,
    /// Remove the files that overlaid the root file system.
    RemoveOverlay,
    /// Serve clients.
    Serve,
}

/// What an [`EntryStep`] holds.
#[verifier::ext_equal]
pub enum EntryStepModel {
    CreateDeviceDir,
    StartLogging,
    RestoreContexts,
    LeaveCgroup(Seq<char>),
    ClearModelProperty,
    Unmount(Seq<char>),
    RemountRoot,
    RemoveOverlay,
    Serve,
}

impl View for EntryStep {
    type V = EntryStepModel;

    open spec fn view(&self) -> EntryStepModel {
        match self {
            EntryStep::CreateDeviceDir => EntryStepModel::CreateDeviceDir,
            EntryStep::StartLogging => EntryStepModel::StartLogging,
            EntryStep::RestoreContexts => EntryStepModel::RestoreContexts,
            EntryStep::LeaveCgroup(s) => EntryStepModel::LeaveCgroup(s@),
            EntryStep::ClearModelProperty => EntryStepModel::ClearModelProperty,
            EntryStep::Unmount(s) => EntryStepModel::Unmount(s@),
            EntryStep::RemountRoot => EntryStepModel::RemountRoot,
            EntryStep::RemoveOverlay => EntryStepModel::RemoveOverlay,
            EntryStep::Serve => EntryStepModel::Serve,
        }
    }
}

/// The models of a list of steps.
pub open spec fn step_views(v: Seq<EntryStep>) -> Seq<EntryStepModel> {
    Seq::new(v.len(), |i: int| v[i]@)
}

/// `step` where `cond` holds, and nothing otherwise.
pub open spec fn only_if(cond: bool, step: EntryStepModel) -> Seq<EntryStepModel> {
    if cond {
        seq![step]
    } else {
        Seq::empty()
    }
}

/// The mounts of a list, one on each line, without trailing blanks.
pub open spec fn unmount_steps(list: Seq<char>) -> Seq<EntryStepModel> {
    lines_spec(list).map_values(|l: Seq<char>| EntryStepModel::Unmount(trim_end_spec(l)))
}

/// What the daemon does when it starts, in order.
pub open spec fn entry_plan_spec(p: EntryProbes) -> Seq<EntryStepModel> {
    only_if(!p.has_device_dir, EntryStepModel::CreateDeviceDir) + seq![
        EntryStepModel::StartLogging,
        EntryStepModel::RestoreContexts,
        EntryStepModel::LeaveCgroup("/acct"@),
        EntryStepModel::LeaveCgroup("/dev/cg2_bpf"@),
        EntryStepModel::LeaveCgroup("/sys/fs/cgroup"@),
    ] + only_if(
        p.per_app_memcg@ != "false"@,
        EntryStepModel::LeaveCgroup("/dev/memcg/apps"@),
    ) + only_if(p.has_mediatek_res, EntryStepModel::ClearModelProperty) + unmount_steps(
        p.mount_list@,
    ) + only_if(p.remount_root, EntryStepModel::RemountRoot) + seq![
        EntryStepModel::RemoveOverlay,
        EntryStepModel::Serve,
    ]
}

fn push_unmounts(out: &mut Vec<EntryStep>, list: &str)
    ensures
        step_views(final(out)@) == step_views(old(out)@) + unmount_steps(list@),
{
    let chars = to_chars(list);
    let all = lines(chars.as_slice());
    let ghost start = step_views(out@);
    let ghost full = views(all@);
    for i in 0..all.len()
        invariant
            full == views(all@),
            full == lines_spec(list@),
            step_views(out@) == start + unmount_steps(list@).take(i as int),
    {
        let ghost before = step_views(out@);
        let item = to_text(trim_end(all[i]));
        assert(full[i as int] == all@[i as int]@);
        out.push(EntryStep::Unmount(item));
        assert(step_views(out@) =~= before.push(EntryStepModel::Unmount(item@)));
        assert(unmount_steps(list@).take(i + 1) =~= unmount_steps(list@).take(i as int).push(
            EntryStepModel::Unmount(item@),
        ));
    }
    assert(unmount_steps(list@).take(full.len() as int) =~= unmount_steps(list@));
}

fn push_step(out: &mut Vec<EntryStep>, step: EntryStep)
    ensures
        step_views(final(out)@) == step_views(old(out)@).push(step@),
{
    out.push(step);
    assert(step_views(out@) =~= step_views(old(out)@).push(step@));
}

/// Lists what the daemon does when it starts, in order.
pub fn daemon_entry(p: &EntryProbes) -> (r: Vec<EntryStep>)
    ensures
        step_views(r@) == entry_plan_spec(*p),
{
    let mut out: Vec<EntryStep> = Vec::new();
    assert(step_views(out@) =~= Seq::empty());
    if !p.has_device_dir {
        push_step(&mut out, EntryStep::CreateDeviceDir);
    }
    push_step(&mut out, EntryStep::StartLogging);
    push_step(&mut out, EntryStep::RestoreContexts);
    push_step(&mut out, EntryStep::LeaveCgroup("/acct".to_owned()));
    push_step(&mut out, EntryStep::LeaveCgroup("/dev/cg2_bpf".to_owned()));
    push_step(&mut out, EntryStep::LeaveCgroup("/sys/fs/cgroup".to_owned()));
    if !same_text(p.per_app_memcg.as_str(), "false") {
        push_step(&mut out, EntryStep::LeaveCgroup("/dev/memcg/apps".to_owned()));
    }
    if p.has_mediatek_res {
        push_step(&mut out, EntryStep::ClearModelProperty);
    }
    push_unmounts(&mut out, p.mount_list.as_str());
    if p.remount_root {
        push_step(&mut out, EntryStep::RemountRoot);
    }
    push_step(&mut out, EntryStep::RemoveOverlay);
    push_step(&mut out, EntryStep::Serve);
    assert(step_views(out@) =~= entry_plan_spec(*p));
    out
}

/// The daemon serves clients as the last thing, and exactly once.
pub proof fn law_daemon_serves_last(p: EntryProbes)
    ensures
        ({
            let plan = entry_plan_spec(p);
            &&& plan.len() > 0
            &&& plan.last() is Serve
            &&& forall|i: int| 0 <= i < plan.len() - 1 ==> #[trigger] plan[i] !is Serve
        }),
{
}

/// Why the daemon cannot be reached.
#[derive(Clone, Copy, PartialEq, Eq, Structural)]
pub enum DaemonError {
    /// Root is required for the request.
    RootRequired,
    /// The request is not allowed.
    AccessDenied,
    /// The daemon failed.
    Daemon,
    /// Nobody listens, and no daemon is to be started.
    CannotConnect,
    /// A daemon can be started only from the daemon's own directory.
    NotOnTmpfs,
}

/// Reads the daemon's first answer.
pub fn read_reply(code: i32) -> (r: Result<(), DaemonError>)
    ensures
        r is Ok <==> code == respond_code_spec(Respond::Success),
        r == Err::<(), DaemonError>(DaemonError::RootRequired) <==> code == respond_code_spec(
            Respond::RootRequired,
        ),
        r == Err::<(), DaemonError>(DaemonError::AccessDenied) <==> code == respond_code_spec(
            Respond::AccessDenied,
        ),
        r is Err ==> r->Err_0 is RootRequired || r->Err_0 is AccessDenied || r->Err_0 is Daemon,
{
    if code == 0 {
        Ok(())
    } else if code == 1 {
        Err(DaemonError::RootRequired)
    } else if code == 2 {
        Err(DaemonError::AccessDenied)
    } else {
        Err(DaemonError::Daemon)
    }
}

/// Where an attempt to reach the daemon stands.
#[derive(Clone, Copy, PartialEq, Eq, Structural)]
pub enum ConnectPhase {
    /// The first attempt.
    First,
    /// The caller's executable is being read.
    Inspecting,
    /// A daemon was started; attempts are repeated.
    Retrying,
    /// Connected, or failed for good.
    Done(Option<DaemonError>),
}

/// What happened.
pub enum ConnectEvent {
    /// Whether the daemon could be reached.
    Connected(bool),
    /// The caller's executable, where it could be read.
    Exe(Option<String>),
}

/// What is to be done next.
#[derive(Clone, Copy, PartialEq, Eq, Structural)]
pub enum ConnectAction {
    /// Read the caller's executable.
    ReadExe,
    /// Start a daemon in another process, and connect.
    StartAndConnect,
    /// Wait a moment, and connect.
    WaitAndConnect,
    /// Send the request.
    Send,
    /// Give up.
    Fail(DaemonError),
}

/// The phase after an event, and what to do: `create` where a daemon may be
/// started, `root` where the caller is root, `tmp` the daemon's own directory.
pub open spec fn connect_step_spec(
    phase: ConnectPhase,
    ev: ConnectEvent,
    create: bool,
    root: bool,
    tmp: Seq<char>,
) -> (ConnectPhase, ConnectAction) {
    match ev {
        ConnectEvent::Connected(ok) => if ok {
            (ConnectPhase::Done(None), ConnectAction::Send)
        } else if phase is Retrying {
            (ConnectPhase::Retrying, ConnectAction::WaitAndConnect)
        } else if create && root {
            (ConnectPhase::Inspecting, ConnectAction::ReadExe)
        } else {
            (
                ConnectPhase::Done(Some(DaemonError::CannotConnect)),
                ConnectAction::Fail(DaemonError::CannotConnect),
            )
        },
        ConnectEvent::Exe(exe) => if exe is Some && has_prefix(exe.unwrap()@, tmp) {
            (ConnectPhase::Retrying, ConnectAction::StartAndConnect)
        } else {
            (
                ConnectPhase::Done(Some(DaemonError::NotOnTmpfs)),
                ConnectAction::Fail(DaemonError::NotOnTmpfs),
            )
        },
    }
}

/// The events that can come in a phase.
pub open spec fn connect_expects(phase: ConnectPhase, ev: ConnectEvent) -> bool {
    match phase {
        ConnectPhase::First | ConnectPhase::Retrying => ev is Connected,
        ConnectPhase::Inspecting => ev is Exe,
        ConnectPhase::Done(_) => false,
    }
}

/// Takes one event of an attempt to reach the daemon and tells what to do.
pub fn connect_daemon(
    phase: ConnectPhase,
    ev: ConnectEvent,
    create: bool,
    root: bool,
    tmp: &str,
) -> (r: (ConnectPhase, ConnectAction))
    requires
        connect_expects(phase, ev),
    ensures
        r == connect_step_spec(phase, ev, create, root, tmp@),
{
    match ev {
        ConnectEvent::Connected(ok) => {
            if ok {
                (ConnectPhase::Done(None), ConnectAction::Send)
            } else if phase == ConnectPhase::Retrying {
                (ConnectPhase::Retrying, ConnectAction::WaitAndConnect)
            } else if !create || !root {
                (
                    ConnectPhase::Done(Some(DaemonError::CannotConnect)),
                    ConnectAction::Fail(DaemonError::CannotConnect),
                )
            } else {
                (ConnectPhase::Inspecting, ConnectAction::ReadExe)
            }
        },
        ConnectEvent::Exe(exe) => {
            let own = match &exe {
                Some(e) => {
                    let path = to_chars(e.as_str());
                    let dir = to_chars(tmp);
                    starts_with(path.as_slice(), dir.as_slice())
                },
                None => false,
            };
            if own {
                (ConnectPhase::Retrying, ConnectAction::StartAndConnect)
            } else {
                (
                    ConnectPhase::Done(Some(DaemonError::NotOnTmpfs)),
                    ConnectAction::Fail(DaemonError::NotOnTmpfs),
                )
            }
        },
    }
}

/// A daemon is started only by root, where the caller asked for it, and only
/// from the daemon's own directory; once it was started, no attempt gives up.
pub proof fn law_daemon_start_is_guarded(
    phase: ConnectPhase,
    ev: ConnectEvent,
    create: bool,
    root: bool,
    tmp: Seq<char>,
)
    requires
        connect_expects(phase, ev),
    ensures
        ({
            let (next, action) = connect_step_spec(phase, ev, create, root, tmp);
            &&& action is StartAndConnect ==> phase is Inspecting && (ev matches ConnectEvent::Exe(
                Some(e),
            ) && has_prefix(e@, tmp))
            &&& next is Inspecting ==> phase is First && create && root
            &&& phase is Retrying ==> action !is Fail
        }),
{
}

/// The descriptor that is handed to callers.
pub open spec fn descriptor_spec(fd: Result<i32, DaemonError>) -> i32 {
    match fd {
        Ok(f) => f,
        Err(_) => -1i32,
    }
}

/// The descriptor that is handed to callers: the socket's, or -1 where the
/// daemon could not be reached.
pub fn connect_daemon_for_cxx(fd: Result<i32, DaemonError>) -> (r: i32)
    ensures
        r == (match fd {
            Ok(f) => f as int,
            Err(_) => -1,
        }),
        r == descriptor_spec(fd),
{
    match fd {
        Ok(f) => f,
        Err(_) => -1,
    }
}

/// Every client that runs the daemon's own executable is served, whatever its user
/// id. Of the others, root and zygotes are, and everyone in a virtual phone.
pub proof fn law_who_is_served(virtual_phone: bool, uid: u32, context: Seq<char>, is_client: bool)
    ensures
        is_served(credential_of(virtual_phone, uid, context), true),
        is_served(credential_of(virtual_phone, uid, context), is_client) <==> is_client || uid == 0
            || context == "u:r:zygote:s0"@ || virtual_phone,
{
}

/// Root is user 0 and the shell user 2000, a zygote is told by its security context,
/// and in a virtual phone everyone counts as root.
pub proof fn law_who_a_client_is(virtual_phone: bool, uid: u32, context: Seq<char>)
    ensures
        ({
            let c = credential_of(virtual_phone, uid, context);
            &&& c.is_root <==> uid == 0 || virtual_phone
            &&& c.is_shell <==> uid == 2000
            &&& c.is_zygote <==> context == "u:r:zygote:s0"@
        }),
{
}

/// The codes that clients and the daemon agree on, in the order of the requests.
pub proof fn law_request_codes(r: Request, code: int)
    ensures
        request_of(0) == Some(Request::StartDaemon),
        request_of(1) == Some(Request::CheckVersion),
        request_of(2) == Some(Request::CheckVersionCode),
        request_of(3) == Some(Request::StopDaemon),
        request_of(5) == Some(Request::Superuser),
        request_of(6) == Some(Request::ZygoteRestart),
        request_of(7) == Some(Request::Denylist),
        request_of(8) == Some(Request::SqliteCmd),
        request_of(9) == Some(Request::RemoveModules),
        request_of(10) == Some(Request::Zygisk),
        request_of(12) == Some(Request::PostFsData),
        request_of(13) == Some(Request::LateStart),
        request_of(14) == Some(Request::BootComplete),
        code < 0 || code == 4 || code == 11 || code > 14 ==> request_of(code) is None,
        respond_code_spec(Respond::Failure) == -1,
        respond_code_spec(Respond::Success) == 0,
        respond_code_spec(Respond::RootRequired) == 1,
        respond_code_spec(Respond::AccessDenied) == 2,
{
    lemma_request(Request::StartDaemon);
    lemma_request(Request::CheckVersion);
    lemma_request(Request::CheckVersionCode);
    lemma_request(Request::StopDaemon);
    lemma_request(Request::Superuser);
    lemma_request(Request::ZygoteRestart);
    lemma_request(Request::Denylist);
    lemma_request(Request::SqliteCmd);
    lemma_request(Request::RemoveModules);
    lemma_request(Request::Zygisk);
    lemma_request(Request::PostFsData);
    lemma_request(Request::LateStart);
    lemma_request(Request::BootComplete);
}

/// Everyone who is served may ask for the version, for superuser rights, and for what
/// injected code needs. The shell may have modules removed besides. Everything else
/// is for root alone, and whoever may not ask is told why.
pub proof fn law_who_may_ask(r: Request, c: Credential)
    ensures
        ({
            let a = admission(code_of(r), c);
            match r {
                Request::StartDaemon
                | Request::CheckVersion
                | Request::CheckVersionCode
                | Request::Superuser
                | Request::Zygisk => a matches Admission::Run(_, q) && q == r,
                Request::RemoveModules => if c.is_root || c.is_shell {
                    a matches Admission::Run(_, q) && q == r
                } else {
                    a == Admission::Refuse(Respond::AccessDenied)
                },
                _ => if c.is_root {
                    a matches Admission::Run(_, q) && q == r
                } else {
                    a == Admission::Refuse(Respond::RootRequired)
                },
            }
        }),
{
    lemma_request(r);
}

/// What is answered at once is not left to another thread, and only the stages of
/// booting run as such.
pub proof fn law_lanes(r: Request)
    ensures
        lane_of(r) == Lane::Sync <==> r is StartDaemon || r is CheckVersion || r is CheckVersionCode
            || r is StopDaemon,
        lane_of(r) == Lane::Stage <==> r is PostFsData || r is LateStart || r is BootComplete,
        forall|c: Credential|
            (#[trigger] admission(code_of(r), c)) matches Admission::Run(lane, _) ==> lane
                == lane_of(r),
{
    lemma_request(r);
}

/// The first of the properties of a name has its value, whatever follows it, and
/// properties of other names do not matter.
pub proof fn law_first_property_counts(before: Seq<Prop>, p: Prop, behind: Seq<Prop>)
    requires
        forall|i: int| 0 <= i < before.len() ==> (#[trigger] before[i]).key@ != p.key@,
    ensures
        prop_value(before.push(p) + behind, p.key@) == Some(p.val@),
        prop_value(before, p.key@) is None,
    decreases before.len(),
{
    let all = before.push(p) + behind;
    if before.len() > 0 {
        assert(all[0] == before[0]);
        let rest = before.skip(1);
        assert forall|i: int| 0 <= i < rest.len() implies (#[trigger] rest[i]).key@ != p.key@ by {
            assert(rest[i] == before[i + 1]);
        }
        law_first_property_counts(rest, p, behind);
        assert(all.skip(1) =~= rest.push(p) + behind);
    } else {
        assert(all[0] == p);
    }
}

/// The API level is what the build's properties say where that is a number that is
/// not negative, and otherwise what the running system says.
pub proof fn law_api_level(build: Seq<Prop>, fallback: Seq<char>, n: int, m: int)
    requires
        i32::MIN <= n <= i32::MAX,
        i32::MIN <= m <= i32::MAX,
        fallback == decimal_int(m),
    ensures
        prop_value(build, "ro.build.version.sdk"@) == Some(decimal_int(n)) ==> sdk_level(
            build,
            fallback,
        ) == (if n >= 0 {
            n
        } else {
            m
        }),
        prop_value(build, "ro.build.version.sdk"@) is None ==> sdk_level(build, fallback) == m,
        prop_value(build, "ro.build.version.sdk"@) is None ==> sdk_level(build, Seq::empty()) == -1,
{
    law_signed_round_trip(n, i32::MIN as int, i32::MAX as int);
    law_signed_round_trip(m, i32::MIN as int, i32::MAX as int);
}

/// The device is an emulator where a property says so, or its name mentions `vsoc`.
pub proof fn law_emulators(p: EntryProbes)
    ensures
        emulator_spec(p) <==> p.kernel_qemu@ == "1"@ || p.boot_qemu@ == "1"@ || exists|
            a: Seq<char>,
            b: Seq<char>,
        | p.device@ == #[trigger] (a + "vsoc"@ + b),
{
    law_occurs(p.device@, "vsoc"@, Seq::empty(), Seq::empty());
    if exists|a: Seq<char>, b: Seq<char>| p.device@ == #[trigger] (a + "vsoc"@ + b) {
        let (a, b) = choose|a: Seq<char>, b: Seq<char>| p.device@ == #[trigger] (a + "vsoc"@ + b);
        law_occurs(p.device@, "vsoc"@, a, b);
    }
}

/// When the daemon starts it logs first, and then leaves the control groups that
/// exist on every device; the group of apps only where apps have one each.
pub proof fn law_daemon_starts_clean(p: EntryProbes)
    ensures
        ({
            let plan = entry_plan_spec(p);
            let n: int = if p.has_device_dir {
                0
            } else {
                1
            };
            &&& plan.len() >= n + 7
            &&& !p.has_device_dir ==> plan[0] is CreateDeviceDir
            &&& plan[n] is StartLogging
            &&& plan[n + 1] is RestoreContexts
            &&& plan[n + 2] == EntryStepModel::LeaveCgroup("/acct"@)
            &&& plan[n + 3] == EntryStepModel::LeaveCgroup("/dev/cg2_bpf"@)
            &&& plan[n + 4] == EntryStepModel::LeaveCgroup("/sys/fs/cgroup"@)
            &&& p.per_app_memcg@ != "false"@ ==> plan[n + 5] == EntryStepModel::LeaveCgroup(
                "/dev/memcg/apps"@,
            )
            &&& p.per_app_memcg@ == "false"@ ==> plan[n + 5] !is LeaveCgroup
            &&& plan[plan.len() - 2] is RemoveOverlay
            &&& p.remount_root <==> plan[plan.len() - 3] is RemountRoot
        }),
{
}

/// Every mount that was made before the daemon started is undone, in the order in
/// which the mounts are listed; `k` counts the mounts.
pub proof fn law_early_mounts_are_undone(p: EntryProbes, k: int)
    requires
        0 <= k < lines_spec(p.mount_list@).len(),
    ensures
        ({
            let plan = entry_plan_spec(p);
            let n: int = 5 + (if p.has_device_dir {
                0int
            } else {
                1
            }) + (if p.per_app_memcg@ == "false"@ {
                0int
            } else {
                1
            }) + (if p.has_mediatek_res {
                1int
            } else {
                0
            });
            &&& p.has_mediatek_res ==> plan[n - 1] is ClearModelProperty
            &&& plan[n + k] == EntryStepModel::Unmount(trim_end_spec(lines_spec(p.mount_list@)[k]))
            &&& plan.len() == n + lines_spec(p.mount_list@).len() + 2 + (if p.remount_root {
                1int
            } else {
                0
            })
        }),
{
}

/// A caller whom nobody answers starts a daemon exactly where it is root, wants one
/// and runs from the daemon's own directory, and then waits until it is answered.
pub proof fn law_daemon_is_started(tmp: Seq<char>, exe: String, create: bool, root: bool)
    ensures
        ({
            let (p1, a1) = connect_step_spec(
                ConnectPhase::First,
                ConnectEvent::Connected(false),
                create,
                root,
                tmp,
            );
            let (p2, a2) = connect_step_spec(
                p1,
                ConnectEvent::Exe(Some(exe)),
                create,
                root,
                tmp,
            );
            let (p3, a3) = connect_step_spec(
                p2,
                ConnectEvent::Connected(false),
                create,
                root,
                tmp,
            );
            let (p4, a4) = connect_step_spec(p3, ConnectEvent::Connected(true), create, root, tmp);
            &&& !(create && root) ==> a1 == ConnectAction::Fail(DaemonError::CannotConnect)
            &&& create && root ==> a1 is ReadExe
            &&& create && root && (exists|rest: Seq<char>| exe@ == #[trigger] (tmp + rest)) ==> a2
                is StartAndConnect && a3 is WaitAndConnect && a4 is Send && p4
                == ConnectPhase::Done(None)
            &&& create && root && (forall|rest: Seq<char>| exe@ != #[trigger] (tmp + rest)) ==> a2
                == ConnectAction::Fail(DaemonError::NotOnTmpfs)
        }),
        connect_step_spec(ConnectPhase::First, ConnectEvent::Connected(true), create, root, tmp) == (
            ConnectPhase::Done(None),
            ConnectAction::Send,
        ),
        create && root ==> connect_step_spec(
            ConnectPhase::Inspecting,
            ConnectEvent::Exe(None),
            create,
            root,
            tmp,
        ).1 == ConnectAction::Fail(DaemonError::NotOnTmpfs),
{
    law_ends(tmp, Seq::empty(), exe@);
    if exists|rest: Seq<char>| exe@ == #[trigger] (tmp + rest) {
        let rest = choose|rest: Seq<char>| exe@ == #[trigger] (tmp + rest);
        law_ends(tmp, rest, exe@);
    }
}

/// Clients are sent the version, a colon, the program's name, another colon, and
/// the letter of the build.
pub proof fn law_version_reply(version: Seq<char>)
    ensures
        version_reply_spec(version, true).drop_last() == version_reply_spec(
            version,
            false,
        ).drop_last(),
        version_reply_spec(version, true).drop_last() == version + ":MAGISK:"@,
        version_reply_spec(version, true).last() == 'D',
        version_reply_spec(version, false).last() == 'R',
{
    reveal_strlit(":MAGISK:D");
    reveal_strlit(":MAGISK:R");
    reveal_strlit(":MAGISK:");
    assert(version_reply_spec(version, true).drop_last() =~= version + ":MAGISK:"@);
    assert(version_reply_spec(version, false).drop_last() =~= version + ":MAGISK:"@);
}

/// Before API level 24 apps have one directory for their data, and from there on
/// the one that is open before the device is unlocked is used.
pub proof fn law_data_dir(sdk_int: i32)
    ensures
        sdk_int <= 23 ==> data_dir_spec(sdk_int) == "/data/user"@,
        sdk_int > 23 ==> data_dir_spec(sdk_int) == "/data/user"@ + "_de"@,
{
    reveal_strlit("/data/user");
    reveal_strlit("/data/user_de");
    reveal_strlit("_de");
    assert("/data/user_de"@ =~= "/data/user"@ + "_de"@);
}

/// Where it is tested, a client runs the daemon's own executable exactly where its
/// own is known, and is the same file on the same device; untested, every client
/// is taken for one.
pub proof fn law_clients_by_executable(own: FileId, dev: u64, ino: u64, exe: Option<FileId>)
    ensures
        is_client_spec(own, false, exe),
        !is_client_spec(own, true, None),
        is_client_spec(own, true, Some(FileId { dev, ino })) <==> dev == own.dev && ino == own.ino,
{
}

/// A descriptor is handed on as it is, and every error as -1.
pub proof fn law_descriptor_is_handed_on(fd: i32, error: DaemonError)
    ensures
        descriptor_spec(Ok(fd)) == fd,
        descriptor_spec(Err(error)) == -1,
{
}

} // verus!
