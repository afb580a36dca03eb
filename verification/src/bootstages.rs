//! The stages of booting, and what the daemon does in each.

use vstd::prelude::*;
use vstd::string::*;

use crate::daemon::{MagiskD, Request};
use crate::mount::MountInfo;
use crate::text::{
    append, contains_text, has_prefix, law_ends, law_occurs, lines, lines_spec, occurs, same_text,
    split_whitespace, starts_with_text, texts, to_chars, to_text, views, words_spec,
};

verus! {

/// Something that holds of the boot process once it happened.
#[derive(Clone, Copy, PartialEq, Eq, Structural)]
pub enum BootFlag {
    PostFsDataDone,
    LateStartDone,
    BootComplete,
    SafeMode,
}

/// The bit of a flag.
pub open spec fn flag_bit(f: BootFlag) -> u32 {
    match f {
        BootFlag::PostFsDataDone => 1,
        BootFlag::LateStartDone => 2,
        BootFlag::BootComplete => 4,
        BootFlag::SafeMode => 8,
    }
}

/// How far booting has come, as a set of flags.
pub struct BootState {
    bits: u32,
}

impl View for BootState {
    type V = Set<BootFlag>;

    closed spec fn view(&self) -> Set<BootFlag> {
        Set::new(|f: BootFlag| self.bits & flag_bit(f) == flag_bit(f))
    }
}

impl BootState {
    /// Nothing has happened yet.
    pub fn new() -> (r: BootState)
        ensures
            r@ == Set::<BootFlag>::empty(),
    {
        let r = BootState { bits: 0 };
        proof {
            assert(0u32 & 1 == 0 && 0u32 & 2 == 0 && 0u32 & 4 == 0 && 0u32 & 8 == 0)
                by (bit_vector);
            assert forall|f: BootFlag| !r@.contains(f) by {
                match f {
                    BootFlag::PostFsDataDone => {},
                    _ => {},
                }
            }
            assert(r@ =~= Set::empty());
        }
        r
    }

    fn bit(f: BootFlag) -> (r: u32)
        ensures
            r == flag_bit(f),
    {
        match f {
            BootFlag::PostFsDataDone => 1,
            BootFlag::LateStartDone => 2,
            BootFlag::BootComplete => 4,
            BootFlag::SafeMode => 8,
        }
    }

    /// Tells whether a flag is set.
    pub fn contains(&self, f: BootFlag) -> (r: bool)
        ensures
            r == self@.contains(f),
    {
        let bit: u32 = BootState::bit(f);
        self.bits & bit == bit
    }

    /// Sets a flag.
    pub fn insert(&mut self, f: BootFlag)
        ensures
            final(self)@ == old(self)@.insert(f),
    {
        let bit: u32 = BootState::bit(f);
        let ghost before = self.bits;
        self.bits = self.bits | bit;
        proof {
            assert forall|g: BootFlag| self@.contains(g) == (old(self)@.contains(g) || g == f) by {
                let a = flag_bit(f);
                let b = flag_bit(g);
                assert((before | a) & b == b <==> (a == b || before & b == b)) by (bit_vector)
                    requires
                        a == 1 || a == 2 || a == 4 || a == 8,
                        b == 1 || b == 2 || b == 4 || b == 8,
                ;
            }
            assert(self@ =~= old(self)@.insert(f));
        }
    }
}

/// A stage that runs.
#[derive(Clone, Copy, PartialEq, Eq, Structural)]
pub enum Stage {
    PostFsData,
    LateStart,
    BootComplete,
}

/// The stage that a request starts. The first stage runs once, and only when the
/// data partition can be read; the second follows it unless in safe mode.
pub open spec fn stage_of(flags: Set<BootFlag>, r: Request, data_ready: bool) -> Option<Stage> {
    match r {
        Request::PostFsData => if data_ready && !flags.contains(BootFlag::PostFsDataDone) {
            Some(Stage::PostFsData)
        } else {
            None
        },
        Request::LateStart => if flags.contains(BootFlag::PostFsDataDone) && !flags.contains(
            BootFlag::SafeMode,
        ) {
            Some(Stage::LateStart)
        } else {
            None
        },
        Request::BootComplete => if flags.contains(BootFlag::PostFsDataDone) {
            Some(Stage::BootComplete)
        } else {
            None
        },
        _ => None,
    }
}

/// The flags once a stage is over; `safe` where the first stage chose safe mode.
pub open spec fn after_stage(flags: Set<BootFlag>, stage: Stage, safe: bool) -> Set<BootFlag> {
    match stage {
        Stage::PostFsData => if safe {
            flags.insert(BootFlag::SafeMode).insert(BootFlag::PostFsDataDone)
        } else {
            flags.insert(BootFlag::PostFsDataDone)
        },
        Stage::LateStart => flags.insert(BootFlag::LateStartDone),
        Stage::BootComplete => flags.insert(BootFlag::BootComplete),
    }
}

impl BootState {
    /// Tells which stage a request starts.
    pub fn start_stage(&self, r: Request, data_ready: bool) -> (s: Option<Stage>)
        ensures
            s == stage_of(self@, r, data_ready),
    {
        match r {
            Request::PostFsData => {
                if data_ready && !self.contains(BootFlag::PostFsDataDone) {
                    Some(Stage::PostFsData)
                } else {
                    None
                }
            },
            Request::LateStart => {
                if self.contains(BootFlag::PostFsDataDone) && !self.contains(BootFlag::SafeMode) {
                    Some(Stage::LateStart)
                } else {
                    None
                }
            },
            Request::BootComplete => {
                if self.contains(BootFlag::PostFsDataDone) {
                    Some(Stage::BootComplete)
                } else {
                    None
                }
            },
            _ => None,
        }
    }

    /// Notes that a stage is over; `safe` where the first stage chose safe mode.
    pub fn finish_stage(&mut self, stage: Stage, safe: bool)
        ensures
            final(self)@ == after_stage(old(self)@, stage, safe),
    {
        match stage {
            Stage::PostFsData => {
                if safe {
                    self.insert(BootFlag::SafeMode);
                }
                self.insert(BootFlag::PostFsDataDone);
            },
            Stage::LateStart => {
                self.insert(BootFlag::LateStartDone);
            },
            Stage::BootComplete => {
                self.insert(BootFlag::BootComplete);
            },
        }
    }
}

impl MagiskD {
    /// Tells which stage a request starts.
    pub fn boot_stage_handler(&self, r: Request, data_ready: bool) -> (s: Option<Stage>)
        ensures
            s == stage_of(self.boot_state@, r, data_ready),
    {
        self.boot_state.start_stage(r, data_ready)
    }
}

/// A request, whether the data partition could be read when it came, and whether
/// the first stage, if it started, chose safe mode.
pub struct StageRequest {
    pub request: Request,
    pub data_ready: bool,
    pub safe: bool,
}

/// The flags and the stages that ran after a sequence of requests.
pub open spec fn boot_run(reqs: Seq<StageRequest>) -> (Set<BootFlag>, Seq<Stage>)
    decreases reqs.len(),
{
    if reqs.len() == 0 {
        (Set::empty(), Seq::empty())
    } else {
        let (flags, stages) = boot_run(reqs.drop_last());
        let r = reqs.last();
        match stage_of(flags, r.request, r.data_ready) {
            Some(stage) => (after_stage(flags, stage, r.safe), stages.push(stage)),
            None => (flags, stages),
        }
    }
}

/// The flags tell what ran: the first stage ran exactly where its flag is set,
/// and then it ran first and only then; safe mode is chosen by no other stage;
/// and each flag stands for the stage of its name.
pub proof fn law_stages_run_in_order(reqs: Seq<StageRequest>)
    ensures
        ({
            let (flags, stages) = boot_run(reqs);
            &&& flags.contains(BootFlag::PostFsDataDone) == (stages.len() > 0)
            &&& stages.len() > 0 ==> stages[0] is PostFsData
            &&& forall|i: int| 0 < i < stages.len() ==> #[trigger] stages[i] !is PostFsData
            &&& flags.contains(BootFlag::SafeMode) ==> flags.contains(BootFlag::PostFsDataDone)
            &&& flags.contains(BootFlag::SafeMode) ==> forall|i: int|
                0 <= i < stages.len() ==> #[trigger] stages[i] !is LateStart
            &&& flags.contains(BootFlag::LateStartDone) == stages.contains(Stage::LateStart)
            &&& flags.contains(BootFlag::BootComplete) == stages.contains(Stage::BootComplete)
        }),
    decreases reqs.len(),
{
    if reqs.len() > 0 {
        law_stages_run_in_order(reqs.drop_last());
        let (flags, stages) = boot_run(reqs.drop_last());
        let r = reqs.last();
        match stage_of(flags, r.request, r.data_ready) {
            Some(stage) => {
                let after = stages.push(stage);
                assert(after.last() == stage);
                assert forall|s: Stage| after.contains(s) == (stages.contains(s) || s == stage) by {
                    if stages.contains(s) {
                        let i = choose|i: int| 0 <= i < stages.len() && stages[i] == s;
                        assert(after[i] == s);
                    }
                    if s == stage {
                        assert(after[stages.len() as int] == s);
                    }
                }
            },
            None => {},
        }
    }
}

/// What has happened stays so.
pub proof fn law_flags_only_grow(flags: Set<BootFlag>, stage: Stage, safe: bool, f: BootFlag)
    ensures
        flags.contains(f) ==> after_stage(flags, stage, safe).contains(f),
{
}

/// What is looked at, or done, to set the environment up.
#[derive(Clone, Copy, PartialEq, Eq, Structural)]
pub enum EnvQuery {
    /// Does this old directory of binaries exist?
    AltDir(u8),
    /// Make the directories; any answer will do.
    Prepare,
    /// Is there a busybox among the binaries?
    Busybox,
    /// Is there this binary?
    Binary(u8),
    /// Is code to be injected into apps?
    ZygiskOn,
    /// Did this binary arrive?
    Arrived(u8),
    /// The environment is complete, or not.
    Done(bool),
}

/// What an answer calls for.
#[derive(Clone, Copy, PartialEq, Eq, Structural)]
pub enum EnvWork {
    Nothing,
    /// Put the binaries of this old directory in place of the current ones.
    Migrate(u8),
    /// Install busybox and its applets.
    InstallBusybox,
    /// Copy this binary to the daemon's directory.
    Copy(u8),
    /// Warn that this binary did not arrive.
    Warn(u8),
}

/// How many old directories there are.
pub const ALT_DIRS: u8 = 3;

/// How many binaries are copied.
pub const BINARIES: u8 = 6;

/// How many binaries are needed to inject code into apps.
pub const NEEDED: u8 = 4;

/// A question that can be asked.
pub open spec fn env_query_wf(q: EnvQuery) -> bool {
    match q {
        EnvQuery::AltDir(i) => i < ALT_DIRS,
        EnvQuery::Binary(i) => i < BINARIES,
        EnvQuery::Arrived(i) => i < NEEDED,
        _ => true,
    }
}

/// What an answer calls for, and the next question.
pub open spec fn env_step(q: EnvQuery, answer: bool) -> (EnvWork, EnvQuery) {
    match q {
        EnvQuery::AltDir(i) => (
            if answer {
                EnvWork::Migrate(i)
            } else {
                EnvWork::Nothing
            },
            if i + 1 < ALT_DIRS {
                EnvQuery::AltDir((i + 1) as u8)
            } else {
                EnvQuery::Prepare
            },
        ),
        EnvQuery::Prepare => (EnvWork::Nothing, EnvQuery::Busybox),
        EnvQuery::Busybox => if answer {
            (EnvWork::InstallBusybox, EnvQuery::Binary(0))
        } else {
            (EnvWork::Nothing, EnvQuery::Done(false))
        },
        EnvQuery::Binary(i) => (
            if answer {
                EnvWork::Copy(i)
            } else {
                EnvWork::Nothing
            },
            if i + 1 < BINARIES {
                EnvQuery::Binary((i + 1) as u8)
            } else {
                EnvQuery::ZygiskOn
            },
        ),
        EnvQuery::ZygiskOn => (
            EnvWork::Nothing,
            if answer {
                EnvQuery::Arrived(0)
            } else {
                EnvQuery::Done(true)
            },
        ),
        EnvQuery::Arrived(i) => (
            if answer {
                EnvWork::Nothing
            } else {
                EnvWork::Warn(i)
            },
            if i + 1 < NEEDED {
                EnvQuery::Arrived((i + 1) as u8)
            } else {
                EnvQuery::Done(true)
            },
        ),
        EnvQuery::Done(ok) => (EnvWork::Nothing, EnvQuery::Done(ok)),
    }
}

/// Tells what an answer calls for, and the next question.
pub fn setup_magisk_env(q: EnvQuery, answer: bool) -> (r: (EnvWork, EnvQuery))
    requires
        env_query_wf(q),
    ensures
        r == env_step(q, answer),
        env_query_wf(r.1),
{
    match q {
        EnvQuery::AltDir(i) => {
            let work = if answer {
                EnvWork::Migrate(i)
            } else {
                EnvWork::Nothing
            };
            let next = if i + 1 < ALT_DIRS {
                EnvQuery::AltDir(i + 1)
            } else {
                EnvQuery::Prepare
            };
            (work, next)
        },
        EnvQuery::Prepare => (EnvWork::Nothing, EnvQuery::Busybox),
        EnvQuery::Busybox => {
            if answer {
                (EnvWork::InstallBusybox, EnvQuery::Binary(0))
            } else {
                (EnvWork::Nothing, EnvQuery::Done(false))
            }
        },
        EnvQuery::Binary(i) => {
            let work = if answer {
                EnvWork::Copy(i)
            } else {
                EnvWork::Nothing
            };
            let next = if i + 1 < BINARIES {
                EnvQuery::Binary(i + 1)
            } else {
                EnvQuery::ZygiskOn
            };
            (work, next)
        },
        EnvQuery::ZygiskOn => {
            if answer {
                (EnvWork::Nothing, EnvQuery::Arrived(0))
            } else {
                (EnvWork::Nothing, EnvQuery::Done(true))
            }
        },
        EnvQuery::Arrived(i) => {
            let work = if answer {
                EnvWork::Nothing
            } else {
                EnvWork::Warn(i)
            };
            let next = if i + 1 < NEEDED {
                EnvQuery::Arrived(i + 1)
            } else {
                EnvQuery::Done(true)
            };
            (work, next)
        },
        EnvQuery::Done(ok) => (EnvWork::Nothing, EnvQuery::Done(ok)),
    }
}

/// An upper bound on the questions that are left.
pub open spec fn env_left(q: EnvQuery) -> int {
    match q {
        EnvQuery::AltDir(i) => 13 + ALT_DIRS - i,
        EnvQuery::Prepare => 13,
        EnvQuery::Busybox => 12,
        EnvQuery::Binary(i) => 5 + BINARIES - i,
        EnvQuery::ZygiskOn => 5,
        EnvQuery::Arrived(i) => NEEDED - i,
        EnvQuery::Done(_) => 0,
    }
}

/// The work that the answers `f` call for, from question `q` on, and how it ends.
pub open spec fn env_run(q: EnvQuery, f: spec_fn(EnvQuery) -> bool) -> (Seq<EnvWork>, bool)
    decreases env_left(q),
{
    match q {
        EnvQuery::Done(ok) => (Seq::empty(), ok),
        _ => if env_query_wf(q) {
            let (work, next) = env_step(q, f(q));
            let (rest, ok) = env_run(next, f);
            (
                if work is Nothing {
                    rest
                } else {
                    seq![work] + rest
                },
                ok,
            )
        } else {
            (Seq::empty(), false)
        },
    }
}

/// `w` where `cond` holds, and nothing otherwise.
pub open spec fn work_if(cond: bool, w: EnvWork) -> Seq<EnvWork> {
    if cond {
        seq![w]
    } else {
        Seq::empty()
    }
}

/// The migrations that the answers `f` call for, from old directory `i` on.
pub open spec fn migrations(i: int, f: spec_fn(EnvQuery) -> bool) -> Seq<EnvWork>
    decreases ALT_DIRS - i,
{
    if 0 <= i < ALT_DIRS {
        work_if(f(EnvQuery::AltDir(i as u8)), EnvWork::Migrate(i as u8)) + migrations(i + 1, f)
    } else {
        Seq::empty()
    }
}

/// The copies that the answers `f` call for, from binary `i` on.
pub open spec fn copies(i: int, f: spec_fn(EnvQuery) -> bool) -> Seq<EnvWork>
    decreases BINARIES - i,
{
    if 0 <= i < BINARIES {
        work_if(f(EnvQuery::Binary(i as u8)), EnvWork::Copy(i as u8)) + copies(i + 1, f)
    } else {
        Seq::empty()
    }
}

/// The warnings that the answers `f` call for, from needed binary `i` on.
pub open spec fn warnings(i: int, f: spec_fn(EnvQuery) -> bool) -> Seq<EnvWork>
    decreases NEEDED - i,
{
    if 0 <= i < NEEDED {
        work_if(!f(EnvQuery::Arrived(i as u8)), EnvWork::Warn(i as u8)) + warnings(i + 1, f)
    } else {
        Seq::empty()
    }
}

proof fn lemma_warnings(i: u8, f: spec_fn(EnvQuery) -> bool)
    requires
        i < NEEDED,
    ensures
        env_run(EnvQuery::Arrived(i), f) == (warnings(i as int, f), true),
    decreases NEEDED - i,
{
    if i + 1 < NEEDED {
        lemma_warnings((i + 1) as u8, f);
    } else {
        reveal_with_fuel(env_run, 2);
        assert(warnings(i + 1, f) == Seq::<EnvWork>::empty());
    }
    assert(env_run(EnvQuery::Arrived(i), f).0 =~= warnings(i as int, f));
}

proof fn lemma_copies(i: u8, f: spec_fn(EnvQuery) -> bool)
    requires
        i < BINARIES,
    ensures
        env_run(EnvQuery::Binary(i), f) == (
            copies(i as int, f) + env_run(EnvQuery::ZygiskOn, f).0,
            env_run(EnvQuery::ZygiskOn, f).1,
        ),
    decreases BINARIES - i,
{
    if i + 1 < BINARIES {
        lemma_copies((i + 1) as u8, f);
    } else {
        assert(copies(i + 1, f) == Seq::<EnvWork>::empty());
    }
    assert(env_run(EnvQuery::Binary(i), f).0 =~= copies(i as int, f) + env_run(
        EnvQuery::ZygiskOn,
        f,
    ).0);
}

proof fn lemma_migrations(i: u8, f: spec_fn(EnvQuery) -> bool)
    requires
        i < ALT_DIRS,
    ensures
        env_run(EnvQuery::AltDir(i), f) == (
            migrations(i as int, f) + env_run(EnvQuery::Prepare, f).0,
            env_run(EnvQuery::Prepare, f).1,
        ),
    decreases ALT_DIRS - i,
{
    if i + 1 < ALT_DIRS {
        lemma_migrations((i + 1) as u8, f);
    } else {
        assert(migrations(i + 1, f) == Seq::<EnvWork>::empty());
    }
    assert(env_run(EnvQuery::AltDir(i), f).0 =~= migrations(i as int, f) + env_run(
        EnvQuery::Prepare,
        f,
    ).0);
}

/// Old directories that exist are migrated in order. The environment is complete
/// exactly where there is a busybox. Then busybox is installed, every binary
/// that is there is copied, and, where code is injected into apps, a warning is
/// given for every needed binary that did not arrive.
pub proof fn law_environment(f: spec_fn(EnvQuery) -> bool)
    ensures
        env_run(EnvQuery::AltDir(0), f).1 == f(EnvQuery::Busybox),
        env_run(EnvQuery::AltDir(0), f).0 == (if f(EnvQuery::Busybox) {
            migrations(0, f) + seq![EnvWork::InstallBusybox] + copies(0, f) + (if f(
                EnvQuery::ZygiskOn,
            ) {
                warnings(0, f)
            } else {
                Seq::empty()
            })
        } else {
            migrations(0, f)
        }),
{
    lemma_migrations(0, f);
    let tail = env_run(EnvQuery::ZygiskOn, f);
    assert(tail.1 && tail.0 =~= (if f(EnvQuery::ZygiskOn) {
        warnings(0, f)
    } else {
        Seq::empty()
    })) by {
        lemma_warnings(0, f);
        reveal_with_fuel(env_run, 2);
    }
    assert(env_run(EnvQuery::Busybox, f) == (if f(EnvQuery::Busybox) {
        (seq![EnvWork::InstallBusybox] + copies(0, f) + tail.0, true)
    } else {
        (Seq::empty(), false)
    })) by {
        lemma_copies(0, f);
        reveal_with_fuel(env_run, 2);
        assert(seq![EnvWork::InstallBusybox] + (copies(0, f) + tail.0) =~= seq![
            EnvWork::InstallBusybox,
        ] + copies(0, f) + tail.0);
    }
    assert(env_run(EnvQuery::Prepare, f) == env_run(EnvQuery::Busybox, f));
    assert(env_run(EnvQuery::AltDir(0), f).0 =~= migrations(0, f) + env_run(
        EnvQuery::Busybox,
        f,
    ).0);
    assert(migrations(0, f) + (seq![EnvWork::InstallBusybox] + copies(0, f) + tail.0)
        =~= migrations(0, f) + seq![EnvWork::InstallBusybox] + copies(0, f) + tail.0);
}

/// Where an app keeps binaries for the daemon.
pub open spec fn app_bin_dir_spec(data_dir: Seq<char>, package: Seq<char>) -> Seq<char> {
    data_dir + "/0/"@ + package + "/install"@
}

/// Where the app keeps binaries for the daemon.
pub fn app_bin_dir(data_dir: &str, package: &str) -> (r: String)
    ensures
        r@ == data_dir@ + "/0/"@ + package@ + "/install"@,
        r@ == app_bin_dir_spec(data_dir@, package@),
{
    let mut out = data_dir.to_owned();
    append(&mut out, "/0/");
    append(&mut out, package);
    append(&mut out, "/install");
    out
}

/// The old directory of binaries with number `i`, where it does not depend on the
/// device.
pub open spec fn alt_bin_dir_spec(i: u8) -> Option<Seq<char>> {
    if i == 0 {
        Some("/cache/data_adb/magisk"@)
    } else if i == 1 {
        Some("/data/magisk"@)
    } else {
        None
    }
}

/// The old directories of binaries that do not depend on the device; the last
/// one is the app's.
pub fn alt_bin_dir(i: u8) -> (r: Option<&'static str>)
    ensures
        i == 0 ==> r is Some && r.unwrap()@ == "/cache/data_adb/magisk"@,
        i == 1 ==> r is Some && r.unwrap()@ == "/data/magisk"@,
        i > 1 ==> r is None,
        match r {
            Some(d) => alt_bin_dir_spec(i) == Some(d@),
            None => alt_bin_dir_spec(i) is None,
        },
{
    match i {
        0 => Some("/cache/data_adb/magisk"),
        1 => Some("/data/magisk"),
        _ => None,
    }
}

/// The name of a binary that is copied.
pub open spec fn binary_name_spec(i: u8) -> Seq<char> {
    if i == 0 {
        "magisk32"@
    } else if i == 1 {
        "magisk64"@
    } else if i == 2 {
        "magisk"@
    } else if i == 3 {
        "magiskpolicy"@
    } else if i == 4 {
        "zygisk_inject"@
    } else {
        "zygisk_inject32"@
    }
}

/// The name of a binary that is copied.
pub fn binary_name(i: u8) -> (r: &'static str)
    requires
        i < BINARIES,
    ensures
        r@ == binary_name_spec(i),
{
    match i {
        0 => "magisk32",
        1 => "magisk64",
        2 => "magisk",
        3 => "magiskpolicy",
        4 => "zygisk_inject",
        _ => "zygisk_inject32",
    }
}

/// The name of a binary that is needed to inject code into apps.
pub open spec fn needed_name_spec(i: u8) -> Seq<char> {
    if i == 0 {
        "magisk"@
    } else if i == 1 {
        "magisk32"@
    } else if i == 2 {
        "zygisk_inject"@
    } else {
        "zygisk_inject32"@
    }
}

/// The name of a binary that is needed to inject code into apps.
pub fn needed_name(i: u8) -> (r: &'static str)
    requires
        i < NEEDED,
    ensures
        r@ == needed_name_spec(i),
{
    match i {
        0 => "magisk",
        1 => "magisk32",
        2 => "zygisk_inject",
        _ => "zygisk_inject32",
    }
}

/// Every needed binary is one that is copied.
pub proof fn law_needed_binaries_are_copied(i: u8)
    requires
        i < NEEDED,
    ensures
        exists|k: u8| k < BINARIES && #[trigger] binary_name_spec(k) == needed_name_spec(i),
{
    if i == 0 {
        assert(binary_name_spec(2) == needed_name_spec(i));
    } else if i == 1 {
        assert(binary_name_spec(0) == needed_name_spec(i));
    } else if i == 2 {
        assert(binary_name_spec(4) == needed_name_spec(i));
    } else {
        assert(binary_name_spec(5) == needed_name_spec(i));
    }
}

/// Where the first stage stands.
#[derive(Clone, Copy, PartialEq, Eq, Structural)]
pub enum PostFsPhase {
    /// Does the daemon's data directory exist?
    SecureDir,
    /// Is the environment complete?
    Environment,
    /// How often did booting fail, and do properties ask for safe mode?
    Bootloop,
    /// Are the keys held that ask for safe mode?
    KeyCombo,
    /// Is code to be injected into apps?
    ZygiskConfig,
    /// Does the link to the injected library exist?
    LibraryLink { zygisk: bool },
    /// The stage is over; whether in safe mode.
    Done(bool),
}

/// An answer.
pub enum PostFsAnswer {
    Yes(bool),
    Count { count: i32, persist_safemode: String, ro_safemode: String },
    Config(i32),
}

/// What an answer calls for.
#[derive(Clone, Copy, PartialEq, Eq, Structural)]
pub enum PostFsWork {
    Nothing,
    /// Make the data directory where `make_dir` holds; then drop stale grants.
    PruneGrants { make_dir: bool },
    /// Store how often booting failed.
    StoreCount(i32),
    /// Store how often booting failed, and disable all modules.
    StoreCountAndDisable(i32),
    /// Disable all modules.
    DisableModules,
    /// Run the scripts of this stage.
    RunScripts,
    /// Note whether code is injected, start the deny list, handle the modules.
    LoadModules { zygisk: bool },
    /// Link the injected library where `link` holds, watch for zygotes where
    /// `monitor` holds, and undo the mounts of this stage.
    Finish { link: bool, monitor: bool },
}

/// An answer fits a question; booting cannot have failed so often that it cannot
/// be counted.
pub open spec fn post_fs_expects(phase: PostFsPhase, a: PostFsAnswer) -> bool {
    match phase {
        PostFsPhase::Bootloop => a matches PostFsAnswer::Count { count, .. } && count < i32::MAX,
        PostFsPhase::ZygiskConfig => a is Config,
        PostFsPhase::Done(_) => false,
        _ => a is Yes,
    }
}

/// Booting failed twice, or a property asks for safe mode.
pub open spec fn asks_safe_mode(count: i32, persist: Seq<char>, ro: Seq<char>) -> bool {
    count >= 2 || persist == "1"@ || ro == "1"@
}

/// What an answer calls for, and the next phase.
pub open spec fn post_fs_step(phase: PostFsPhase, a: PostFsAnswer, sdk_int: i32) -> (
    PostFsWork,
    PostFsPhase,
) {
    match (phase, a) {
        (PostFsPhase::SecureDir, PostFsAnswer::Yes(found)) => if found || sdk_int < 24 {
            (PostFsWork::PruneGrants { make_dir: !found }, PostFsPhase::Environment)
        } else {
            (PostFsWork::Nothing, PostFsPhase::Done(true))
        },
        (PostFsPhase::Environment, PostFsAnswer::Yes(complete)) => if complete {
            (PostFsWork::Nothing, PostFsPhase::Bootloop)
        } else {
            (PostFsWork::Nothing, PostFsPhase::Done(true))
        },
        (
            PostFsPhase::Bootloop,
            PostFsAnswer::Count { count, persist_safemode, ro_safemode },
        ) => if asks_safe_mode(count, persist_safemode@, ro_safemode@) {
            (PostFsWork::StoreCountAndDisable((count + 1) as i32), PostFsPhase::Done(true))
        } else {
            (PostFsWork::StoreCount((count + 1) as i32), PostFsPhase::KeyCombo)
        },
        (PostFsPhase::KeyCombo, PostFsAnswer::Yes(held)) => if held {
            (PostFsWork::DisableModules, PostFsPhase::Done(true))
        } else {
            (PostFsWork::RunScripts, PostFsPhase::ZygiskConfig)
        },
        (PostFsPhase::ZygiskConfig, PostFsAnswer::Config(c)) => (
            PostFsWork::LoadModules { zygisk: c != 0 },
            PostFsPhase::LibraryLink { zygisk: c != 0 },
        ),
        (PostFsPhase::LibraryLink { zygisk }, PostFsAnswer::Yes(found)) => (
            PostFsWork::Finish { link: !found, monitor: zygisk },
            PostFsPhase::Done(false),
        ),
        _ => (PostFsWork::Nothing, phase),
    }
}

/// Tells what an answer calls for in the first stage, and the next phase.
pub fn post_fs_data(phase: PostFsPhase, a: PostFsAnswer, sdk_int: i32) -> (r: (
    PostFsWork,
    PostFsPhase,
))
    requires
        post_fs_expects(phase, a),
    ensures
        r == post_fs_step(phase, a, sdk_int),
{
    match (phase, a) {
        (PostFsPhase::SecureDir, PostFsAnswer::Yes(found)) => {
            if found || sdk_int < 24 {
                (PostFsWork::PruneGrants { make_dir: !found }, PostFsPhase::Environment)
            } else {
                (PostFsWork::Nothing, PostFsPhase::Done(true))
            }
        },
        (PostFsPhase::Environment, PostFsAnswer::Yes(complete)) => {
            if complete {
                (PostFsWork::Nothing, PostFsPhase::Bootloop)
            } else {
                (PostFsWork::Nothing, PostFsPhase::Done(true))
            }
        },
        (PostFsPhase::Bootloop, PostFsAnswer::Count { count, persist_safemode, ro_safemode }) => {
            if count >= 2 || same_text(persist_safemode.as_str(), "1") || same_text(
                ro_safemode.as_str(),
                "1",
            ) {
                (PostFsWork::StoreCountAndDisable(count + 1), PostFsPhase::Done(true))
            } else {
                (PostFsWork::StoreCount(count + 1), PostFsPhase::KeyCombo)
            }
        },
        (PostFsPhase::KeyCombo, PostFsAnswer::Yes(held)) => {
            if held {
                (PostFsWork::DisableModules, PostFsPhase::Done(true))
            } else {
                (PostFsWork::RunScripts, PostFsPhase::ZygiskConfig)
            }
        },
        (PostFsPhase::ZygiskConfig, PostFsAnswer::Config(c)) => (
            PostFsWork::LoadModules { zygisk: c != 0 },
            PostFsPhase::LibraryLink { zygisk: c != 0 },
        ),
        (PostFsPhase::LibraryLink { zygisk }, PostFsAnswer::Yes(found)) => (
            PostFsWork::Finish { link: !found, monitor: zygisk },
            PostFsPhase::Done(false),
        ),
        (other, _) => (PostFsWork::Nothing, other),
    }
}

/// Safe mode is the outcome unless modules were loaded, and modules are loaded
/// only once nothing asked for safe mode.
pub proof fn law_modules_only_without_safe_mode(
    phase: PostFsPhase,
    a: PostFsAnswer,
    sdk_int: i32,
)
    requires
        post_fs_expects(phase, a),
    ensures
        ({
            let (work, next) = post_fs_step(phase, a, sdk_int);
            &&& next == PostFsPhase::Done(false) <==> phase is LibraryLink
            &&& next is LibraryLink <==> work is LoadModules
            &&& next is LibraryLink ==> phase is ZygiskConfig
            &&& next is ZygiskConfig ==> phase is KeyCombo && (a matches PostFsAnswer::Yes(held)
                && !held)
            &&& next is KeyCombo ==> phase is Bootloop && (a matches PostFsAnswer::Count {
                count,
                persist_safemode,
                ro_safemode,
            } && !asks_safe_mode(count, persist_safemode@, ro_safemode@))
            &&& next is Bootloop ==> phase is Environment && a == PostFsAnswer::Yes(true)
        }),
{
}

/// The zygote is watched exactly where code is to be injected.
pub proof fn law_monitor_follows_config(config: i32, found: bool, sdk_int: i32)
    ensures
        ({
            let (_, next) = post_fs_step(
                PostFsPhase::ZygiskConfig,
                PostFsAnswer::Config(config),
                sdk_int,
            );
            post_fs_step(next, PostFsAnswer::Yes(found), sdk_int) == (
                PostFsWork::Finish { link: !found, monitor: config != 0 },
                PostFsPhase::Done(false),
            )
        }),
{
}

/// What the later stages do.
#[derive(Clone, Copy, PartialEq, Eq, Structural)]
pub enum LateWork {
    SetupLog,
    /// Run the scripts that belong to no module.
    RunCommonScripts,
    /// Run the scripts of the modules.
    RunModuleScripts,
    /// Store that booting did not fail.
    ResetCount,
    /// Make the directory that mounts are worked on in.
    MakeWorkerDir,
    /// Offer the superuser command by a mount.
    EnableMountSu,
    /// Make the daemon's data directory.
    MakeSecureDir,
    /// Find the directory that is available before `init` runs.
    SetupPreinitDir,
    /// See to it that the manager app is there.
    EnsureManager,
    /// Start over with the injected code, and load it again.
    ResetZygisk,
}

/// `w` where `cond` holds, and nothing otherwise.
pub open spec fn late_if(cond: bool, w: LateWork) -> Seq<LateWork> {
    if cond {
        seq![w]
    } else {
        Seq::empty()
    }
}

/// What the second stage does.
pub open spec fn late_start_spec(has_modules: bool) -> Seq<LateWork> {
    if has_modules {
        seq![LateWork::SetupLog, LateWork::RunCommonScripts, LateWork::RunModuleScripts]
    } else {
        seq![LateWork::SetupLog, LateWork::RunCommonScripts]
    }
}

/// What the last stage does.
pub open spec fn boot_complete_spec(has_worker_dir: bool, has_secure_dir: bool, zygisk: bool) -> Seq<
    LateWork,
> {
    seq![LateWork::SetupLog, LateWork::ResetCount] + late_if(
        !has_worker_dir,
        LateWork::MakeWorkerDir,
    ) + seq![LateWork::EnableMountSu] + late_if(!has_secure_dir, LateWork::MakeSecureDir) + seq![
        LateWork::SetupPreinitDir,
        LateWork::EnsureManager,
    ] + late_if(zygisk, LateWork::ResetZygisk)
}

/// Lists what the second stage does.
pub fn late_start(has_modules: bool) -> (r: Vec<LateWork>)
    ensures
        r@ == late_start_spec(has_modules),
        r@ == seq![LateWork::SetupLog, LateWork::RunCommonScripts] + late_if(
            has_modules,
            LateWork::RunModuleScripts,
        ),
{
    let mut out: Vec<LateWork> = Vec::new();
    out.push(LateWork::SetupLog);
    out.push(LateWork::RunCommonScripts);
    if has_modules {
        out.push(LateWork::RunModuleScripts);
    }
    out
}

/// Lists what the last stage does.
pub fn boot_complete(has_worker_dir: bool, has_secure_dir: bool, zygisk: bool) -> (r: Vec<LateWork>)
    ensures
        r@ == boot_complete_spec(has_worker_dir, has_secure_dir, zygisk),
        r@ == seq![LateWork::SetupLog, LateWork::ResetCount] + late_if(
            !has_worker_dir,
            LateWork::MakeWorkerDir,
        ) + seq![LateWork::EnableMountSu] + late_if(!has_secure_dir, LateWork::MakeSecureDir)
            + seq![LateWork::SetupPreinitDir, LateWork::EnsureManager] + late_if(
            zygisk,
            LateWork::ResetZygisk,
        ),
{
    let mut out: Vec<LateWork> = Vec::new();
    out.push(LateWork::SetupLog);
    out.push(LateWork::ResetCount);
    if !has_worker_dir {
        out.push(LateWork::MakeWorkerDir);
    }
    out.push(LateWork::EnableMountSu);
    if !has_secure_dir {
        out.push(LateWork::MakeSecureDir);
    }
    out.push(LateWork::SetupPreinitDir);
    out.push(LateWork::EnsureManager);
    if zygisk {
        out.push(LateWork::ResetZygisk);
    }
    out
}

/// A line of `/proc/mounts` shows the data partition.
pub open spec fn is_data_mount(line: Seq<char>) -> bool {
    occurs(line, " /data "@) && !occurs(line, "tmpfs"@)
}

/// The data partition is mounted and can be read: it is not encrypted, or the
/// service that decrypts it has started.
pub open spec fn data_ready(lines: Seq<Seq<char>>, crypto: Seq<char>, vold: Seq<char>) -> bool {
    &&& exists|i: int| 0 <= i < lines.len() && is_data_mount(#[trigger] lines[i])
    &&& crypto == "encrypted"@ ==> vold.len() > 0
}

/// Tells whether the data partition can be read: `mounts` are the lines of
/// `/proc/mounts`, `crypto` and `vold` the properties `ro.crypto.state` and
/// `init.svc.vold`.
pub fn check_data(mounts: &[String], crypto: &str, vold: &str) -> (r: bool)
    ensures
        r == data_ready(texts(mounts@), crypto@, vold@),
{
    let mut mounted = false;
    for i in 0..mounts.len()
        invariant
            mounted == exists|k: int| 0 <= k < i && is_data_mount(#[trigger] texts(mounts@)[k]),
    {
        let line = to_chars(mounts[i].as_str());
        assert(texts(mounts@)[i as int] == line@);
        if contains_text(line.as_slice(), " /data ") && !contains_text(line.as_slice(), "tmpfs") {
            mounted = true;
        }
    }
    if !mounted {
        return false;
    }
    if same_text(crypto, "encrypted") {
        let chars = to_chars(vold);
        chars.len() > 0
    } else {
        true
    }
}

/// The first word of `words` that names a peer group.
pub open spec fn shared_word(words: Seq<Seq<char>>) -> Option<Seq<char>>
    decreases words.len(),
{
    if words.len() == 0 {
        None
    } else if has_prefix(words[0], "shared:"@) {
        Some(words[0])
    } else {
        shared_word(words.skip(1))
    }
}

/// The peer group in the first line that shows what is mounted on `/storage`.
pub open spec fn storage_group(lines: Seq<Seq<char>>) -> Option<Seq<char>>
    decreases lines.len(),
{
    if lines.len() == 0 {
        None
    } else if occurs(lines[0], " /storage "@) {
        shared_word(words_spec(lines[0]))
    } else {
        storage_group(lines.skip(1))
    }
}

fn find_shared(line: &[char]) -> (r: Option<String>)
    ensures
        match r {
            Some(w) => shared_word(words_spec(line@)) == Some(w@),
            None => shared_word(words_spec(line@)) is None,
        },
{
    let words = split_whitespace(line);
    let ghost full = views(words@);
    assert(full.skip(0) =~= full);
    for i in 0..words.len()
        invariant
            full == views(words@),
            full == words_spec(line@),
            shared_word(full) == shared_word(full.skip(i as int)),
    {
        assert(full.skip(i as int)[0] == words@[i as int]@);
        assert(full.skip(i as int).skip(1) =~= full.skip(i + 1));
        if starts_with_text(words[i], "shared:") {
            return Some(to_text(words[i]));
        }
    }
    assert(full.skip(full.len() as int) =~= Seq::empty());
    None
}

/// Finds the peer group of what is mounted on `/storage` in the contents of a
/// `mountinfo` file.
pub fn storage_peer_group(mountinfo: &str) -> (r: Option<String>)
    ensures
        match r {
            Some(w) => storage_group(lines_spec(mountinfo@)) == Some(w@),
            None => storage_group(lines_spec(mountinfo@)) is None,
        },
{
    let chars = to_chars(mountinfo);
    let all = lines(chars.as_slice());
    let ghost full = views(all@);
    assert(full.skip(0) =~= full);
    for i in 0..all.len()
        invariant
            full == views(all@),
            full == lines_spec(mountinfo@),
            storage_group(full) == storage_group(full.skip(i as int)),
    {
        assert(full.skip(i as int)[0] == all@[i as int]@);
        assert(full.skip(i as int).skip(1) =~= full.skip(i + 1));
        if contains_text(all[i], " /storage ") {
            return find_shared(all[i]);
        }
    }
    assert(full.skip(full.len() as int) =~= Seq::empty());
    None
}

/// Where emulated storage is mounted.
pub open spec fn sdcardfs_spec(infos: Seq<MountInfo>) -> Seq<Seq<char>>
    decreases infos.len(),
{
    if infos.len() == 0 {
        Seq::empty()
    } else {
        let before = sdcardfs_spec(infos.drop_last());
        if infos.last().fs_type@ == "sdcardfs"@ {
            before.push(infos.last().target@)
        } else {
            before
        }
    }
}

/// Lists where emulated storage is mounted.
pub fn sdcardfs_targets(infos: &[MountInfo]) -> (r: Vec<String>)
    ensures
        texts(r@) == sdcardfs_spec(infos@),
{
    let mut out: Vec<String> = Vec::new();
    for i in 0..infos.len()
        invariant
            texts(out@) == sdcardfs_spec(infos@.take(i as int)),
    {
        let ghost before = out@;
        assert(infos@.take(i + 1).drop_last() =~= infos@.take(i as int));
        if same_text(infos[i].fs_type.as_str(), "sdcardfs") {
            out.push(infos[i].target.clone());
            assert(texts(out@) =~= texts(before).push(infos@[i as int].target@));
        }
    }
    assert(infos@.take(infos@.len() as int) =~= infos@);
    out
}

/// What is noted when modules are loaded agrees with the setting, and so does whether
/// the zygote is watched in the end.
pub proof fn law_setting_is_noted(config: i32, found: bool, sdk_int: i32)
    ensures
        ({
            let (w1, p1) = post_fs_step(
                PostFsPhase::ZygiskConfig,
                PostFsAnswer::Config(config),
                sdk_int,
            );
            let (w2, p2) = post_fs_step(p1, PostFsAnswer::Yes(found), sdk_int);
            &&& w1 == (PostFsWork::LoadModules { zygisk: config != 0 })
            &&& (w2 matches PostFsWork::Finish { link, monitor } && monitor == (config != 0)
                && link == !found)
            &&& p2 == PostFsPhase::Done(false)
        }),
{
}

/// What the first stage is told while it runs.
pub struct PostFsAnswers {
    pub secure_dir: bool,
    pub environment: bool,
    pub count: i32,
    pub persist_safemode: String,
    pub ro_safemode: String,
    pub keys_held: bool,
    pub config: i32,
    pub library_link: bool,
}

/// The answer to the question of a phase.
pub open spec fn post_fs_answer(phase: PostFsPhase, a: PostFsAnswers) -> PostFsAnswer {
    match phase {
        PostFsPhase::SecureDir => PostFsAnswer::Yes(a.secure_dir),
        PostFsPhase::Environment => PostFsAnswer::Yes(a.environment),
        PostFsPhase::Bootloop => PostFsAnswer::Count {
            count: a.count,
            persist_safemode: a.persist_safemode,
            ro_safemode: a.ro_safemode,
        },
        PostFsPhase::KeyCombo => PostFsAnswer::Yes(a.keys_held),
        PostFsPhase::ZygiskConfig => PostFsAnswer::Config(a.config),
        _ => PostFsAnswer::Yes(a.library_link),
    }
}

/// The work of the first stage in order, and how it ends, from a phase on and within
/// `n` questions.
pub open spec fn post_fs_run(phase: PostFsPhase, a: PostFsAnswers, sdk_int: i32, n: nat) -> (
    Seq<PostFsWork>,
    PostFsPhase,
)
    decreases n,
{
    if n == 0 || phase is Done {
        (Seq::empty(), phase)
    } else {
        let (work, next) = post_fs_step(phase, post_fs_answer(phase, a), sdk_int);
        let (rest, end) = post_fs_run(next, a, sdk_int, (n - 1) as nat);
        (seq![work] + rest, end)
    }
}

/// The first stage ends in safe mode exactly where there is no data directory and
/// none is to be made, the environment is not complete, booting failed twice, a
/// property asks for it, or the keys are held.
pub proof fn law_safe_mode(a: PostFsAnswers, sdk_int: i32)
    ensures
        ({
            let (work, end) = post_fs_run(PostFsPhase::SecureDir, a, sdk_int, 6);
            let no_dir = !a.secure_dir && sdk_int >= 24;
            let asked = a.count >= 2 || a.persist_safemode@ == "1"@ || a.ro_safemode@ == "1"@;
            &&& end == PostFsPhase::Done(no_dir || !a.environment || asked || a.keys_held)
            &&& work.contains(PostFsWork::PruneGrants { make_dir: !a.secure_dir }) <==> !no_dir
            &&& !no_dir && a.environment && asked ==> work.last()
                == PostFsWork::StoreCountAndDisable((a.count + 1) as i32)
            &&& !no_dir && a.environment && !asked && a.keys_held ==> work.last()
                is DisableModules && work[2] == PostFsWork::StoreCount((a.count + 1) as i32)
            &&& end == PostFsPhase::Done(false) ==> work.skip(2) == seq![
                PostFsWork::StoreCount((a.count + 1) as i32),
                PostFsWork::RunScripts,
                PostFsWork::LoadModules { zygisk: a.config != 0 },
                PostFsWork::Finish { link: !a.library_link, monitor: a.config != 0 },
            ]
        }),
{
    reveal_with_fuel(post_fs_run, 7);
    let (work, end) = post_fs_run(PostFsPhase::SecureDir, a, sdk_int, 6);
    let no_dir = !a.secure_dir && sdk_int >= 24;
    if !no_dir {
        assert(work[0] == (PostFsWork::PruneGrants { make_dir: !a.secure_dir }));
    }
    if end == PostFsPhase::Done(false) {
        assert(work.skip(2) =~= seq![
            PostFsWork::StoreCount((a.count + 1) as i32),
            PostFsWork::RunScripts,
            PostFsWork::LoadModules { zygisk: a.config != 0 },
            PostFsWork::Finish { link: !a.library_link, monitor: a.config != 0 },
        ]);
    }
}

/// The first stage starts as soon as data can be read, and never again; the second
/// one follows it unless in safe mode, the last one in any case.
pub proof fn law_stages_start(flags: Set<BootFlag>, r: Request, ready: bool)
    ensures
        stage_of(flags, Request::PostFsData, ready) == (if ready && !flags.contains(
            BootFlag::PostFsDataDone,
        ) {
            Some(Stage::PostFsData)
        } else {
            None
        }),
        flags.contains(BootFlag::PostFsDataDone) ==> stage_of(flags, Request::BootComplete, ready)
            == Some(Stage::BootComplete),
        flags.contains(BootFlag::PostFsDataDone) && !flags.contains(BootFlag::SafeMode) ==> stage_of(
            flags,
            Request::LateStart,
            ready,
        ) == Some(Stage::LateStart),
        flags.contains(BootFlag::SafeMode) ==> stage_of(flags, Request::LateStart, ready) is None,
        !flags.contains(BootFlag::PostFsDataDone) ==> stage_of(flags, Request::LateStart, ready)
            is None && stage_of(flags, Request::BootComplete, ready) is None,
        !(r is PostFsData || r is LateStart || r is BootComplete) ==> stage_of(flags, r, ready)
            is None,
{
}

/// The three requests of an ordinary boot run the three stages, one after another;
/// in safe mode the second one is left out. A request that comes again starts the
/// first stage no second time.
pub proof fn law_ordinary_boot(safe: bool, a: bool, b: bool, c: bool, d: bool, again: bool)
    ensures
        ({
            let first = StageRequest { request: Request::PostFsData, data_ready: true, safe };
            let second = StageRequest { request: Request::LateStart, data_ready: a, safe: b };
            let third = StageRequest { request: Request::BootComplete, data_ready: c, safe: d };
            let repeat = StageRequest { request: Request::PostFsData, data_ready: true, safe: again };
            let (flags, stages) = boot_run(seq![first, second, third]);
            &&& !safe ==> stages == seq![Stage::PostFsData, Stage::LateStart, Stage::BootComplete]
            &&& safe ==> stages == seq![Stage::PostFsData, Stage::BootComplete]
            &&& flags.contains(BootFlag::SafeMode) == safe
            &&& flags.contains(BootFlag::PostFsDataDone) && flags.contains(BootFlag::BootComplete)
            &&& flags.contains(BootFlag::LateStartDone) == !safe
            &&& boot_run(seq![first, second, third, repeat]) == (flags, stages)
        }),
{
    let first = StageRequest { request: Request::PostFsData, data_ready: true, safe };
    let second = StageRequest { request: Request::LateStart, data_ready: a, safe: b };
    let third = StageRequest { request: Request::BootComplete, data_ready: c, safe: d };
    let repeat = StageRequest { request: Request::PostFsData, data_ready: true, safe: again };
    let s0 = Seq::<StageRequest>::empty();
    let s1 = seq![first];
    let s2 = seq![first, second];
    let s3 = seq![first, second, third];
    let s4 = seq![first, second, third, repeat];
    assert(boot_run(s0).1 == Seq::<Stage>::empty());
    assert(s1.drop_last() =~= s0);
    assert(s2.drop_last() =~= s1);
    assert(s3.drop_last() =~= s2);
    assert(s4.drop_last() =~= s3);
    assert(s1.last() == first && s2.last() == second && s3.last() == third && s4.last() == repeat);
    assert(boot_run(s1).1 =~= seq![Stage::PostFsData]);
    assert(boot_run(s1).0.contains(BootFlag::SafeMode) == safe);
    assert(boot_run(s2).1 =~= (if safe {
        seq![Stage::PostFsData]
    } else {
        seq![Stage::PostFsData, Stage::LateStart]
    }));
    assert(boot_run(s3).1 =~= (if safe {
        seq![Stage::PostFsData, Stage::BootComplete]
    } else {
        seq![Stage::PostFsData, Stage::LateStart, Stage::BootComplete]
    }));
}

/// The environment by its answers: which old directories are migrated, which
/// binaries are copied, and which are warned of, one after another.
pub proof fn law_environment_in_full(f: spec_fn(EnvQuery) -> bool)
    ensures
        ({
            let w = |c: bool, x: EnvWork|
                if c {
                    seq![x]
                } else {
                    Seq::<EnvWork>::empty()
                };
            let migrated = w(f(EnvQuery::AltDir(0)), EnvWork::Migrate(0)) + (w(
                f(EnvQuery::AltDir(1)),
                EnvWork::Migrate(1),
            ) + w(f(EnvQuery::AltDir(2)), EnvWork::Migrate(2)));
            let copied = w(f(EnvQuery::Binary(0)), EnvWork::Copy(0)) + (w(
                f(EnvQuery::Binary(1)),
                EnvWork::Copy(1),
            ) + (w(f(EnvQuery::Binary(2)), EnvWork::Copy(2)) + (w(
                f(EnvQuery::Binary(3)),
                EnvWork::Copy(3),
            ) + (w(f(EnvQuery::Binary(4)), EnvWork::Copy(4)) + w(
                f(EnvQuery::Binary(5)),
                EnvWork::Copy(5),
            )))));
            let warned = w(!f(EnvQuery::Arrived(0)), EnvWork::Warn(0)) + (w(
                !f(EnvQuery::Arrived(1)),
                EnvWork::Warn(1),
            ) + (w(!f(EnvQuery::Arrived(2)), EnvWork::Warn(2)) + w(
                !f(EnvQuery::Arrived(3)),
                EnvWork::Warn(3),
            )));
            env_run(EnvQuery::AltDir(0), f) == (if !f(EnvQuery::Busybox) {
                (migrated, false)
            } else if f(EnvQuery::ZygiskOn) {
                (migrated + seq![EnvWork::InstallBusybox] + copied + warned, true)
            } else {
                (migrated + seq![EnvWork::InstallBusybox] + copied, true)
            })
        }),
{
    law_environment(f);
    lemma_migrations_in_full(f);
    lemma_copies_in_full(f);
    lemma_warnings_in_full(f);
    let head = migrations(0, f) + seq![EnvWork::InstallBusybox] + copies(0, f);
    assert(head + Seq::<EnvWork>::empty() =~= head);
}

proof fn lemma_migrations_in_full(f: spec_fn(EnvQuery) -> bool)
    ensures
        ({
            let w = |c: bool, x: EnvWork|
                if c {
                    seq![x]
                } else {
                    Seq::<EnvWork>::empty()
                };
            migrations(0, f) == w(f(EnvQuery::AltDir(0)), EnvWork::Migrate(0)) + (w(
                f(EnvQuery::AltDir(1)),
                EnvWork::Migrate(1),
            ) + w(f(EnvQuery::AltDir(2)), EnvWork::Migrate(2)))
        }),
{
    assert(migrations(3, f) == Seq::<EnvWork>::empty());
    let last = work_if(f(EnvQuery::AltDir(2)), EnvWork::Migrate(2));
    assert(last + Seq::<EnvWork>::empty() =~= last);
    assert(migrations(2, f) == last);
    assert(migrations(1, f) == work_if(f(EnvQuery::AltDir(1)), EnvWork::Migrate(1)) + last);
}

proof fn lemma_copies_in_full(f: spec_fn(EnvQuery) -> bool)
    ensures
        ({
            let w = |c: bool, x: EnvWork|
                if c {
                    seq![x]
                } else {
                    Seq::<EnvWork>::empty()
                };
            copies(0, f) == w(f(EnvQuery::Binary(0)), EnvWork::Copy(0)) + (w(
                f(EnvQuery::Binary(1)),
                EnvWork::Copy(1),
            ) + (w(f(EnvQuery::Binary(2)), EnvWork::Copy(2)) + (w(
                f(EnvQuery::Binary(3)),
                EnvWork::Copy(3),
            ) + (w(f(EnvQuery::Binary(4)), EnvWork::Copy(4)) + w(
                f(EnvQuery::Binary(5)),
                EnvWork::Copy(5),
            )))))
        }),
{
    assert(copies(6, f) == Seq::<EnvWork>::empty());
    let last = work_if(f(EnvQuery::Binary(5)), EnvWork::Copy(5));
    assert(last + Seq::<EnvWork>::empty() =~= last);
    assert(copies(5, f) == last);
    let c4 = work_if(f(EnvQuery::Binary(4)), EnvWork::Copy(4)) + last;
    assert(copies(4, f) == c4);
    let c3 = work_if(f(EnvQuery::Binary(3)), EnvWork::Copy(3)) + c4;
    assert(copies(3, f) == c3);
    let c2 = work_if(f(EnvQuery::Binary(2)), EnvWork::Copy(2)) + c3;
    assert(copies(2, f) == c2);
    assert(copies(1, f) == work_if(f(EnvQuery::Binary(1)), EnvWork::Copy(1)) + c2);
}

proof fn lemma_warnings_in_full(f: spec_fn(EnvQuery) -> bool)
    ensures
        ({
            let w = |c: bool, x: EnvWork|
                if c {
                    seq![x]
                } else {
                    Seq::<EnvWork>::empty()
                };
            warnings(0, f) == w(!f(EnvQuery::Arrived(0)), EnvWork::Warn(0)) + (w(
                !f(EnvQuery::Arrived(1)),
                EnvWork::Warn(1),
            ) + (w(!f(EnvQuery::Arrived(2)), EnvWork::Warn(2)) + w(
                !f(EnvQuery::Arrived(3)),
                EnvWork::Warn(3),
            )))
        }),
{
    assert(warnings(4, f) == Seq::<EnvWork>::empty());
    let last = work_if(!f(EnvQuery::Arrived(3)), EnvWork::Warn(3));
    assert(last + Seq::<EnvWork>::empty() =~= last);
    assert(warnings(3, f) == last);
    let w2 = work_if(!f(EnvQuery::Arrived(2)), EnvWork::Warn(2)) + last;
    assert(warnings(2, f) == w2);
    assert(warnings(1, f) == work_if(!f(EnvQuery::Arrived(1)), EnvWork::Warn(1)) + w2);
}

/// The scripts of modules run in the second stage exactly where there are modules,
/// and behind those that belong to none.
pub proof fn law_module_scripts_run(has_modules: bool)
    ensures
        ({
            let w = late_start_spec(has_modules);
            &&& w[0] is SetupLog && w[1] is RunCommonScripts
            &&& has_modules <==> w.len() == 3 && w[2] is RunModuleScripts
            &&& !has_modules <==> w.len() == 2
        }),
{
}

/// A boot that completes is not counted as failed, whatever else the last stage does:
/// it makes the directories that are missing, offers the superuser command, finds the
/// directory for the next boot, sees to the manager app, and starts over with injected
/// code exactly where code is injected.
pub proof fn law_boot_completes(worker: bool, secure: bool, zygisk: bool)
    ensures
        ({
            let w = boot_complete_spec(worker, secure, zygisk);
            let n: int = if worker {
                2
            } else {
                3
            };
            let m: int = if secure {
                n + 1
            } else {
                n + 2
            };
            &&& w[0] is SetupLog && w[1] is ResetCount
            &&& !worker ==> w[2] is MakeWorkerDir
            &&& w[n] is EnableMountSu
            &&& !secure ==> w[n + 1] is MakeSecureDir
            &&& w[m] is SetupPreinitDir && w[m + 1] is EnsureManager
            &&& zygisk ==> w.len() == m + 3 && w[m + 2] is ResetZygisk
            &&& !zygisk ==> w.len() == m + 2
        }),
{
}

/// Data can be read once some mount is on `/data` that is no temporary file system,
/// unless it is encrypted and nothing has started to decrypt it.
pub proof fn law_data_is_ready(lines: Seq<Seq<char>>, crypto: Seq<char>, vold: Seq<char>)
    ensures
        data_ready(lines, crypto, vold) <==> (exists|i: int|
            0 <= i < lines.len() && (exists|a: Seq<char>, b: Seq<char>|
                lines[i] == #[trigger] (a + " /data "@ + b)) && (forall|a: Seq<char>, b: Seq<char>|
                #[trigger] lines[i] != #[trigger] (a + "tmpfs"@ + b))) && !(crypto == "encrypted"@
            && vold.len() == 0),
{
    assert forall|i: int| 0 <= i < lines.len() implies (#[trigger] is_data_mount(lines[i]) <==> (
    exists|a: Seq<char>, b: Seq<char>| lines[i] == #[trigger] (a + " /data "@ + b)) && (forall|
        a: Seq<char>,
        b: Seq<char>,
    | lines[i] != #[trigger] (a + "tmpfs"@ + b))) by {
        lemma_occurs_iff(lines[i], " /data "@);
        lemma_occurs_iff(lines[i], "tmpfs"@);
    }
    if exists|i: int|
        0 <= i < lines.len() && (exists|a: Seq<char>, b: Seq<char>|
            lines[i] == #[trigger] (a + " /data "@ + b)) && (forall|a: Seq<char>, b: Seq<char>|
            #[trigger] lines[i] != #[trigger] (a + "tmpfs"@ + b)) {
        let i = choose|i: int|
            0 <= i < lines.len() && (exists|a: Seq<char>, b: Seq<char>|
                lines[i] == #[trigger] (a + " /data "@ + b)) && (forall|a: Seq<char>, b: Seq<char>|
                #[trigger] lines[i] != #[trigger] (a + "tmpfs"@ + b));
        assert(is_data_mount(lines[i]));
    }
    if exists|i: int| 0 <= i < lines.len() && is_data_mount(#[trigger] lines[i]) {
        let i = choose|i: int| 0 <= i < lines.len() && is_data_mount(#[trigger] lines[i]);
        assert(is_data_mount(lines[i]));
    }
}

proof fn lemma_occurs_iff(s: Seq<char>, p: Seq<char>)
    ensures
        occurs(s, p) <==> exists|a: Seq<char>, b: Seq<char>| s == #[trigger] (a + p + b),
{
    law_occurs(s, p, Seq::empty(), Seq::empty());
    if exists|a: Seq<char>, b: Seq<char>| s == #[trigger] (a + p + b) {
        let (a, b) = choose|a: Seq<char>, b: Seq<char>| s == #[trigger] (a + p + b);
        law_occurs(s, p, a, b);
    }
}

/// The peer group of storage is the first word that names one in the first line that
/// shows what is mounted on `/storage`.
pub proof fn law_storage_group(
    before: Seq<Seq<char>>,
    a: Seq<char>,
    b: Seq<char>,
    behind: Seq<Seq<char>>,
)
    requires
        forall|i: int, x: Seq<char>, y: Seq<char>|
            0 <= i < before.len() ==> #[trigger] before[i] != #[trigger] (x + " /storage "@ + y),
    ensures
        storage_group(before.push(a + " /storage "@ + b) + behind) == shared_word(
            words_spec(a + " /storage "@ + b),
        ),
        storage_group(before) is None,
    decreases before.len(),
{
    let line = a + " /storage "@ + b;
    let all = before.push(line) + behind;
    if before.len() > 0 {
        assert(all[0] == before[0]);
        lemma_occurs_iff(before[0], " /storage "@);
        let rest = before.skip(1);
        assert forall|i: int, x: Seq<char>, y: Seq<char>| 0 <= i < rest.len() implies
            #[trigger] rest[i] != #[trigger] (x + " /storage "@ + y) by {
            assert(rest[i] == before[i + 1]);
        }
        law_storage_group(rest, a, b, behind);
        assert(all.skip(1) =~= rest.push(line) + behind);
    } else {
        assert(all[0] == line);
        law_occurs(line, " /storage "@, a, b);
    }
}

/// A word names a peer group where it starts with `shared:`, and the first such word
/// counts.
pub proof fn law_shared_word(before: Seq<Seq<char>>, group: Seq<char>, behind: Seq<Seq<char>>)
    requires
        forall|i: int, x: Seq<char>|
            0 <= i < before.len() ==> #[trigger] before[i] != #[trigger] ("shared:"@ + x),
    ensures
        shared_word(before.push("shared:"@ + group) + behind) == Some("shared:"@ + group),
        shared_word(before) is None,
    decreases before.len(),
{
    let w = "shared:"@ + group;
    let all = before.push(w) + behind;
    if before.len() > 0 {
        assert(all[0] == before[0]);
        law_ends("shared:"@, Seq::empty(), before[0]);
        let rest = before.skip(1);
        assert forall|i: int, x: Seq<char>| 0 <= i < rest.len() implies #[trigger] rest[i]
            != #[trigger] ("shared:"@ + x) by {
            assert(rest[i] == before[i + 1]);
        }
        law_shared_word(rest, group, behind);
        assert(all.skip(1) =~= rest.push(w) + behind);
    } else {
        assert(all[0] == w);
        law_ends("shared:"@, group, w);
    }
}

/// Emulated storage is listed by its targets, each mount of it once and in order.
pub proof fn law_emulated_storage(infos: Seq<MountInfo>, m: MountInfo)
    ensures
        sdcardfs_spec(Seq::empty()) == Seq::<Seq<char>>::empty(),
        sdcardfs_spec(infos.push(m)) == (if m.fs_type@ == "sdcardfs"@ {
            sdcardfs_spec(infos).push(m.target@)
        } else {
            sdcardfs_spec(infos)
        }),
{
    assert(infos.push(m).drop_last() =~= infos);
}

/// The app's binaries stand in its directory of the first user, under `install`.
pub proof fn law_app_bin_dir(data_dir: Seq<char>, package: Seq<char>)
    ensures
        ({
            let n = data_dir.len() as int;
            let m = package.len() as int;
            let path = app_bin_dir_spec(data_dir, package);
            &&& path.len() == n + m + 11
            &&& path.take(n) == data_dir
            &&& path.subrange(n, n + 3) == seq!['/', '0', '/']
            &&& path.subrange(n + 3, n + 3 + m) == package
            &&& path.skip(n + 3 + m) == "/install"@
        }),
{
    reveal_strlit("/0/");
    reveal_strlit("/install");
    let n = data_dir.len() as int;
    let m = package.len() as int;
    let path = app_bin_dir_spec(data_dir, package);
    assert(path.take(n) =~= data_dir);
    assert(path.subrange(n, n + 3) =~= seq!['/', '0', '/']);
    assert(path.subrange(n + 3, n + 3 + m) =~= package);
    assert(path.skip(n + 3 + m) =~= "/install"@);
}

/// Two old directories are the same on every device, both named `magisk`: the one
/// in the cache comes before the one among the data.
pub proof fn law_old_directories(i: u8)
    ensures
        alt_bin_dir_spec(i) is Some <==> i < 2,
        i == 0 ==> alt_bin_dir_spec(i) == Some("/cache/data_adb"@ + "/magisk"@),
        i == 1 ==> alt_bin_dir_spec(i) == Some("/data"@ + "/magisk"@),
{
    reveal_strlit("/cache/data_adb/magisk");
    reveal_strlit("/cache/data_adb");
    reveal_strlit("/data/magisk");
    reveal_strlit("/data");
    reveal_strlit("/magisk");
    assert("/cache/data_adb/magisk"@ =~= "/cache/data_adb"@ + "/magisk"@);
    assert("/data/magisk"@ =~= "/data"@ + "/magisk"@);
}

} // verus!
