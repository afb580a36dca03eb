//! Watching `init` for new zygotes.

use std::collections::HashSet;
use vstd::prelude::*;
use vstd::std_specs::hash::*;
use vstd::string::*;

use crate::num::{
    decimal, decimal_int, decimal_text_i32, digit_value, law_signed_round_trip, lemma_decimal,
    parse_i32, signed_spec,
};
use crate::text::{
    after_last, after_last_spec, concat_text, contains_text, is_space, law_after_last, law_occurs,
    law_words, occurs, split_whitespace, to_chars, views, words_spec,
};

verus! {

/// The process that starts every zygote.
pub const INIT_PID: i32 = 1;

/// `SIGTRAP`.
pub const SIGTRAP: i32 = 5;

/// `SIGSTOP`.
pub const SIGSTOP: i32 = 19;

/// `PTRACE_EVENT_FORK`.
pub const EVENT_FORK: i32 = 1;

/// `PTRACE_EVENT_EXEC`.
pub const EVENT_EXEC: i32 = 4;

/// Polls of the process table before the search for a zygote is given up.
pub const MAX_POLLS: u32 = 120;

/// Where the monitor stands between two events.
#[derive(Clone, Copy, PartialEq, Eq, Structural)]
pub enum Phase {
    /// `init` is being seized.
    Seizing,
    /// At the top of the loop.
    Top,
    /// The process table is being searched.
    Scanning,
    /// A zygote that the search found is being attached.
    Attaching(i32),
    /// Waiting for a traced process.
    Waiting,
    /// The executable of a process that called `exec` is being read.
    Inspecting(i32),
    /// A zygote is being stopped.
    Halting(i32),
    /// The injector runs on a zygote.
    Injecting(i32),
    /// The monitor has ended.
    Ended,
}

/// What happened.
pub enum Event {
    /// Seizing `init` succeeded or failed.
    Seized(bool),
    /// The loop starts over; whether a stop was requested.
    Turn(bool),
    /// What the search of the process table found.
    Scanned(Option<i32>),
    /// Attaching to the zygote succeeded or failed.
    Attached(bool),
    /// A ptrace stop: the process, its signal, the ptrace event, and whether a
    /// stop was requested.
    Traced { pid: i32, signal: i32, event: i32, stop: bool },
    /// A process stopped on a signal.
    Stopped { pid: i32, signal: i32 },
    /// A process exited or was killed.
    Gone(i32),
    /// Waiting failed.
    WaitFailed,
    /// Any other wait status.
    Other,
    /// The target of `/proc/<pid>/exe`, where it could be read.
    Exe(Option<String>),
    /// Whether the zygote was seen to stop.
    Halted(bool),
    /// Whether the injector succeeded.
    Injected(bool),
}

/// What is to be done next.
#[derive(Clone, Copy, PartialEq, Eq, Structural)]
pub enum Action {
    /// Go to the top of the loop.
    Loop,
    /// Leave the loop; detach from `init` first where it was seized.
    Exit { detach_init: bool },
    /// Search the process table for a zygote.
    Scan,
    /// Attach to a process.
    Attach(i32),
    /// Wait for the attached process, trace its `exec` calls, let it run.
    Follow(i32),
    /// Sleep for one polling interval.
    Sleep,
    /// Sleep for one polling interval, then leave the loop.
    SleepAndExit,
    /// Wait for any traced process.
    Wait,
    /// Let `init` run, delivering `signal`; read the event message first where
    /// `read_message` holds.
    ResumeInit { read_message: bool, signal: i32 },
    /// Trace the `exec` calls of a process and let it run.
    Adopt(i32),
    /// Read the executable of a process.
    ReadExe(i32),
    /// Send `SIGSTOP` to a process, let it run, and wait for it.
    Halt(i32),
    /// Detach from a process with `signal`, then run the injector on it.
    Inject { pid: i32, signal: i32 },
    /// Kill a process.
    Kill(i32),
    /// Detach from a process.
    Detach(i32),
    /// Let a process run, delivering `signal`.
    Resume { pid: i32, signal: i32 },
}

/// The state of the monitor.
pub struct Monitor {
    phase: Phase,
    seized_init: bool,
    attached_via_fallback: bool,
    is_fallback: bool,
    poll_count: u32,
    use_denylist: bool,
    process: HashSet<i32>,
}

/// What a [`Monitor`] holds.
#[verifier::ext_equal]
pub struct MonitorModel {
    pub phase: Phase,
    /// `init` was seized.
    pub seized_init: bool,
    /// A zygote was attached after a search.
    pub attached: bool,
    /// Zygotes are searched for in the process table.
    pub polling: bool,
    /// Searches that found nothing.
    pub polls: nat,
    /// The monitor gave up, and the deny list has to do without it.
    pub denylist: bool,
    /// The processes that are traced, besides `init`.
    pub traced: Set<i32>,
}

/// An executable path is a zygote's.
pub open spec fn zygote_path(path: Seq<char>) -> bool {
    occurs(path, "app_process"@)
}

/// The events that can come in a phase.
pub open spec fn expects(phase: Phase, ev: Event) -> bool {
    match phase {
        Phase::Seizing => ev is Seized,
        Phase::Top => ev is Turn,
        Phase::Scanning => ev is Scanned,
        Phase::Attaching(_) => ev is Attached,
        Phase::Waiting => ev is Traced || ev is Stopped || ev is Gone || ev is WaitFailed
            || ev is Other,
        Phase::Inspecting(_) => ev is Exe,
        Phase::Halting(_) => ev is Halted,
        Phase::Injecting(_) => ev is Injected,
        Phase::Ended => false,
    }
}

/// A ptrace stop outside `init`: a process seen for the first time is traced,
/// and one already traced is either a zygote candidate that just called `exec`
/// or is let go.
pub open spec fn traced_step(m: MonitorModel, pid: i32, signal: i32, event: i32, stop: bool) -> (
    MonitorModel,
    Action,
) {
    if !m.traced.contains(pid) {
        (MonitorModel { phase: Phase::Top, traced: m.traced.insert(pid), ..m }, Action::Adopt(pid))
    } else if event == EVENT_EXEC && signal == SIGTRAP && !stop {
        (MonitorModel { phase: Phase::Inspecting(pid), ..m }, Action::ReadExe(pid))
    } else {
        (MonitorModel { phase: Phase::Top, traced: m.traced.remove(pid), ..m }, Action::Detach(pid))
    }
}

/// The state after an event, and what to do.
pub open spec fn monitor_step(m: MonitorModel, ev: Event) -> (MonitorModel, Action) {
    let top = MonitorModel { phase: Phase::Top, ..m };
    let ended = MonitorModel { phase: Phase::Ended, ..m };
    match ev {
        Event::Seized(ok) => (MonitorModel { seized_init: ok, polling: !ok, ..top }, Action::Loop),
        Event::Turn(stop) => if stop {
            (ended, Action::Exit { detach_init: m.seized_init })
        } else if m.polling {
            (MonitorModel { phase: Phase::Scanning, ..m }, Action::Scan)
        } else {
            (MonitorModel { phase: Phase::Waiting, ..m }, Action::Wait)
        },
        Event::Scanned(found) => match found {
            Some(pid) => (
                MonitorModel { phase: Phase::Attaching(pid), ..m },
                Action::Attach(pid),
            ),
            None => if m.polls + 1 > MAX_POLLS {
                (
                    MonitorModel { polls: m.polls + 1, denylist: true, ..ended },
                    Action::SleepAndExit,
                )
            } else {
                (MonitorModel { polls: m.polls + 1, ..top }, Action::Sleep)
            },
        },
        Event::Attached(ok) => {
            let pid = m.phase->Attaching_0;
            if ok {
                (
                    MonitorModel {
                        attached: true,
                        polling: false,
                        traced: m.traced.insert(pid),
                        ..top
                    },
                    Action::Follow(pid),
                )
            } else {
                (MonitorModel { denylist: true, ..ended }, Action::Exit { detach_init: false })
            }
        },
        Event::Traced { pid, signal, event, stop } => if m.seized_init && pid == INIT_PID {
            (
                top,
                Action::ResumeInit {
                    read_message: event == EVENT_FORK,
                    signal: if event == 0 {
                        signal
                    } else {
                        0
                    },
                },
            )
        } else {
            traced_step(m, pid, signal, event, stop)
        },
        Event::Stopped { pid, signal } => (top, Action::Resume { pid, signal }),
        Event::Gone(pid) => {
            let left = m.traced.remove(pid);
            (
                MonitorModel {
                    traced: left,
                    polling: m.polling || (m.attached && left.is_empty()),
                    ..top
                },
                Action::Loop,
            )
        },
        Event::WaitFailed => (ended, Action::Exit { detach_init: false }),
        Event::Other => (top, Action::Loop),
        Event::Exe(path) => {
            let pid = m.phase->Inspecting_0;
            if path is Some && zygote_path(path.unwrap()@) {
                (MonitorModel { phase: Phase::Halting(pid), ..m }, Action::Halt(pid))
            } else {
                (MonitorModel { traced: m.traced.remove(pid), ..top }, Action::Detach(pid))
            }
        },
        Event::Halted(stopped) => {
            let pid = m.phase->Halting_0;
            (
                MonitorModel {
                    phase: Phase::Injecting(pid),
                    traced: m.traced.remove(pid),
                    ..m
                },
                Action::Inject {
                    pid,
                    signal: if stopped {
                        SIGSTOP
                    } else {
                        0
                    },
                },
            )
        },
        Event::Injected(ok) => {
            let pid = m.phase->Injecting_0;
            (
                top,
                if ok {
                    Action::Loop
                } else {
                    Action::Kill(pid)
                },
            )
        },
    }
}

/// The state that the monitor starts in.
pub open spec fn monitor_start() -> MonitorModel {
    MonitorModel {
        phase: Phase::Seizing,
        seized_init: false,
        attached: false,
        polling: false,
        polls: 0,
        denylist: false,
        traced: Set::empty(),
    }
}

/// What holds of every state that the monitor reaches.
pub open spec fn monitor_wf(m: MonitorModel) -> bool {
    &&& m.polls <= MAX_POLLS + 1
    &&& m.phase !is Ended ==> m.polls <= MAX_POLLS && !m.denylist
    &&& m.phase !is Seizing ==> m.seized_init || m.polling || m.attached
    &&& m.phase is Seizing ==> m == monitor_start()
    &&& m.attached ==> !m.seized_init
    &&& m.polling ==> !m.seized_init
    &&& m.phase is Scanning || m.phase is Attaching ==> m.polling
    &&& m.seized_init ==> !m.traced.contains(INIT_PID)
    &&& (m.phase matches Phase::Inspecting(pid) ==> m.traced.contains(pid))
    &&& (m.phase matches Phase::Halting(pid) ==> m.traced.contains(pid))
    &&& (m.phase matches Phase::Injecting(pid) ==> !m.traced.contains(pid))
}

impl View for Monitor {
    type V = MonitorModel;

    closed spec fn view(&self) -> MonitorModel {
        MonitorModel {
            phase: self.phase,
            seized_init: self.seized_init,
            attached: self.attached_via_fallback,
            polling: self.is_fallback,
            polls: self.poll_count as nat,
            denylist: self.use_denylist,
            traced: self.process@,
        }
    }
}

/// Tells whether an executable path is a zygote's.
pub fn is_zygote(exe_path: &str) -> (r: bool)
    ensures
        r == zygote_path(exe_path@),
{
    let chars = to_chars(exe_path);
    contains_text(chars.as_slice(), "app_process")
}

impl Monitor {
    /// A monitor that is about to seize `init`.
    pub fn new() -> (r: Monitor)
        ensures
            r@ == monitor_start(),
            monitor_wf(r@),
    {
        broadcast use group_hash_axioms;

        Monitor {
            phase: Phase::Seizing,
            seized_init: false,
            attached_via_fallback: false,
            is_fallback: false,
            poll_count: 0,
            use_denylist: false,
            process: HashSet::new(),
        }
    }

    /// The phase that the monitor is in.
    pub fn phase(&self) -> (r: Phase)
        ensures
            r == self@.phase,
    {
        self.phase
    }

    /// Tells whether the deny list has to do without the monitor.
    pub fn uses_denylist(&self) -> (r: bool)
        ensures
            r == self@.denylist,
    {
        self.use_denylist
    }

    /// Handles a ptrace stop outside `init`.
    fn on_traced(&mut self, pid: i32, signal: i32, event: i32, stop: bool) -> (r: Action)
        ensures
            (final(self)@, r) == traced_step(old(self)@, pid, signal, event, stop),
    {
        broadcast use group_hash_axioms;

        if !self.process.contains(&pid) {
            self.process.insert(pid);
            self.phase = Phase::Top;
            return Action::Adopt(pid);
        }
        if event == EVENT_EXEC && signal == SIGTRAP && !stop {
            self.phase = Phase::Inspecting(pid);
            return Action::ReadExe(pid);
        }
        self.process.remove(&pid);
        self.phase = Phase::Top;
        Action::Detach(pid)
    }

    /// Takes one event and tells what to do.
    pub fn step(&mut self, ev: Event) -> (r: Action)
        requires
            monitor_wf(old(self)@),
            expects(old(self)@.phase, ev),
        ensures
            (final(self)@, r) == monitor_step(old(self)@, ev),
            monitor_wf(final(self)@),
    {
        broadcast use group_hash_axioms;

        proof {
            law_monitor_invariant(self@, ev);
        }
        match ev {
            Event::Seized(ok) => {
                self.seized_init = ok;
                self.is_fallback = !ok;
                self.phase = Phase::Top;
                Action::Loop
            },
            Event::Turn(stop) => {
                if stop {
                    self.phase = Phase::Ended;
                    Action::Exit { detach_init: self.seized_init }
                } else if self.is_fallback {
                    self.phase = Phase::Scanning;
                    Action::Scan
                } else {
                    self.phase = Phase::Waiting;
                    Action::Wait
                }
            },
            Event::Scanned(found) => {
                match found {
                    Some(pid) => {
                        self.phase = Phase::Attaching(pid);
                        Action::Attach(pid)
                    },
                    None => {
                        self.poll_count = self.poll_count + 1;
                        if self.poll_count > MAX_POLLS {
                            self.use_denylist = true;
                            self.phase = Phase::Ended;
                            Action::SleepAndExit
                        } else {
                            self.phase = Phase::Top;
                            Action::Sleep
                        }
                    },
                }
            },
            Event::Attached(ok) => {
                match self.phase {
                    Phase::Attaching(pid) => {
                        if ok {
                            self.process.insert(pid);
                            self.attached_via_fallback = true;
                            self.is_fallback = false;
                            self.phase = Phase::Top;
                            Action::Follow(pid)
                        } else {
                            self.use_denylist = true;
                            self.phase = Phase::Ended;
                            Action::Exit { detach_init: false }
                        }
                    },
                    _ => Action::Loop,
                }
            },
            Event::Traced { pid, signal, event, stop } => {
                if self.seized_init && pid == INIT_PID {
                    self.phase = Phase::Top;
                    let cont: i32 = if event == 0 {
                        signal
                    } else {
                        0
                    };
                    Action::ResumeInit { read_message: event == EVENT_FORK, signal: cont }
                } else {
                    self.on_traced(pid, signal, event, stop)
                }
            },
            Event::Stopped { pid, signal } => {
                self.phase = Phase::Top;
                Action::Resume { pid, signal }
            },
            Event::Gone(pid) => {
                self.process.remove(&pid);
                if self.attached_via_fallback && self.process.is_empty() {
                    self.is_fallback = true;
                }
                self.phase = Phase::Top;
                Action::Loop
            },
            Event::WaitFailed => {
                self.phase = Phase::Ended;
                Action::Exit { detach_init: false }
            },
            Event::Other => {
                self.phase = Phase::Top;
                Action::Loop
            },
            Event::Exe(path) => {
                match self.phase {
                    Phase::Inspecting(pid) => {
                        let zygote = match &path {
                            Some(p) => is_zygote(p.as_str()),
                            None => false,
                        };
                        if zygote {
                            self.phase = Phase::Halting(pid);
                            Action::Halt(pid)
                        } else {
                            self.process.remove(&pid);
                            self.phase = Phase::Top;
                            Action::Detach(pid)
                        }
                    },
                    _ => Action::Loop,
                }
            },
            Event::Halted(stopped) => {
                match self.phase {
                    Phase::Halting(pid) => {
                        self.process.remove(&pid);
                        self.phase = Phase::Injecting(pid);
                        let signal: i32 = if stopped {
                            SIGSTOP
                        } else {
                            0
                        };
                        Action::Inject { pid, signal }
                    },
                    _ => Action::Loop,
                }
            },
            Event::Injected(ok) => {
                match self.phase {
                    Phase::Injecting(pid) => {
                        self.phase = Phase::Top;
                        if ok {
                            Action::Loop
                        } else {
                            Action::Kill(pid)
                        }
                    },
                    _ => Action::Loop,
                }
            },
        }
    }
}

/// Every event that a phase expects keeps the monitor's invariant: `init` is
/// never among the traced processes while it is seized, polling stops after
/// [`MAX_POLLS`] misses, and the deny list is used only once the monitor ended.
pub proof fn law_monitor_invariant(m: MonitorModel, ev: Event)
    requires
        monitor_wf(m),
        expects(m.phase, ev),
    ensures
        monitor_wf(monitor_step(m, ev).0),
{
}

/// The state after a run of events, where each was expected when it came.
pub open spec fn monitor_run(m: MonitorModel, evs: Seq<Event>) -> Option<MonitorModel>
    decreases evs.len(),
{
    if evs.len() == 0 {
        Some(m)
    } else {
        match monitor_run(m, evs.drop_last()) {
            Some(n) => if expects(n.phase, evs.last()) {
                Some(monitor_step(n, evs.last()).0)
            } else {
                None
            },
            None => None,
        }
    }
}

/// The invariant holds in every state that a run from the start reaches.
pub proof fn law_monitor_reachable(evs: Seq<Event>)
    ensures
        match monitor_run(monitor_start(), evs) {
            Some(m) => monitor_wf(m),
            None => true,
        },
    decreases evs.len(),
{
    if evs.len() > 0 {
        law_monitor_reachable(evs.drop_last());
        match monitor_run(monitor_start(), evs.drop_last()) {
            Some(n) => {
                if expects(n.phase, evs.last()) {
                    law_monitor_invariant(n, evs.last());
                }
            },
            None => {},
        }
    }
}

/// A ptrace stop of a process that is not the seized `init` makes the process
/// traced where it was not, and lets it go where it was, unless it just called
/// `exec` and no stop was requested.
pub proof fn law_stop_toggles_tracing(
    m: MonitorModel,
    pid: i32,
    signal: i32,
    event: i32,
    stop: bool,
)
    requires
        m.phase is Waiting,
        !(m.seized_init && pid == INIT_PID),
        !(m.traced.contains(pid) && event == EVENT_EXEC && signal == SIGTRAP && !stop),
    ensures
        ({
            let n = monitor_step(m, Event::Traced { pid, signal, event, stop }).0;
            &&& n.phase is Top
            &&& n.traced.contains(pid) == !m.traced.contains(pid)
            &&& forall|q: i32|
                q != pid ==> (#[trigger] n.traced.contains(q) == m.traced.contains(q))
        }),
{
}

/// The injector runs on a process only after its executable was seen to be a
/// zygote's, and from then on the process is no longer traced.
pub proof fn law_only_zygotes_are_injected(m: MonitorModel, ev: Event)
    requires
        monitor_wf(m),
        expects(m.phase, ev),
    ensures
        ({
            let (n, a) = monitor_step(m, ev);
            &&& (a matches Action::Inject { pid, .. } ==> m.phase == Phase::Halting(pid)
                && !n.traced.contains(pid))
            &&& (n.phase matches Phase::Halting(pid) ==> m.phase == Phase::Inspecting(pid)
                && m.traced.contains(pid)
                && (ev matches Event::Exe(Some(path)) && zygote_path(path@)))
            &&& (n.phase matches Phase::Inspecting(pid) ==> ev == Event::Traced {
                pid,
                signal: SIGTRAP,
                event: EVENT_EXEC,
                stop: false,
            })
        }),
{
}

/// Searches that find nothing, one after another.
pub open spec fn missed_polls(m: MonitorModel, n: nat) -> MonitorModel
    decreases n,
{
    if n == 0 {
        m
    } else {
        let k = missed_polls(m, (n - 1) as nat);
        monitor_step(monitor_step(k, Event::Turn(false)).0, Event::Scanned(None)).0
    }
}

/// Polling that keeps finding nothing goes on while at most [`MAX_POLLS`]
/// searches have failed, and the next failure ends the monitor and leaves the
/// work to the deny list.
pub proof fn law_polling_gives_up(m: MonitorModel, n: nat)
    requires
        monitor_wf(m),
        m.phase is Top,
        m.polling,
        m.polls + n <= MAX_POLLS + 1,
    ensures
        ({
            let k = missed_polls(m, n);
            &&& k.polls == m.polls + n
            &&& k.traced == m.traced
            &&& m.polls + n <= MAX_POLLS ==> k.phase is Top && k.polling && !k.denylist
            &&& m.polls + n == MAX_POLLS + 1 ==> k.phase is Ended && k.denylist
        }),
    decreases n,
{
    if n > 0 {
        law_polling_gives_up(m, (n - 1) as nat);
    }
}

/// A requested stop ends the monitor at the next turn of the loop, and `init`
/// is detached exactly where it was seized.
pub proof fn law_stop_ends(m: MonitorModel)
    requires
        m.phase is Top,
    ensures
        monitor_step(m, Event::Turn(true)).0.phase is Ended,
        monitor_step(m, Event::Turn(true)).1 == (Action::Exit { detach_init: m.seized_init }),
        forall|ev: Event| !expects(Phase::Ended, ev),
{
}

/// The command line of the injector for a zygote: `zygisk trace_zygote <pid>
/// <library>`.
pub fn tracer_args(pid: i32, tmp: &str) -> (r: Vec<String>)
    ensures
        r@.len() == 4,
        r@[0]@ == "zygisk"@,
        r@[1]@ == "trace_zygote"@,
        r@[2]@ == decimal_int(pid as int),
        r@[3]@ == tmp@ + "/zygisk.so"@,
{
    let mut v: Vec<String> = Vec::new();
    v.push("zygisk".to_owned());
    v.push("trace_zygote".to_owned());
    v.push(decimal_text_i32(pid));
    v.push(concat_text(tmp, "/zygisk.so"));
    v
}

/// What `/proc` shows of one of its entries.
pub struct ProcEntry {
    /// The name, where it is text.
    pub name: Option<String>,
    /// The contents of `stat`, where they could be read.
    pub stat: Option<String>,
    /// The contents of `cmdline`, where they could be read.
    pub cmdline: Option<String>,
}

/// The parent in a line of `/proc/<pid>/stat`: the second field after the last
/// closing parenthesis.
pub open spec fn parent_spec(stat: Seq<char>) -> Option<int> {
    match after_last_spec(stat, ')') {
        Some(rest) => if words_spec(rest).len() > 1 {
            signed_spec(words_spec(rest)[1], i32::MIN as int, i32::MAX as int)
        } else {
            None
        },
        None => None,
    }
}

/// `e` is a zygote with process id `pid`: a child of `init` whose command line
/// names a zygote.
pub open spec fn zygote_entry(e: ProcEntry, pid: i32) -> bool {
    &&& e.name is Some
    &&& signed_spec(e.name.unwrap()@, i32::MIN as int, i32::MAX as int) == Some(pid as int)
    &&& pid >= 2
    &&& e.stat is Some
    &&& parent_spec(e.stat.unwrap()@) == Some(1int)
    &&& e.cmdline is Some
    &&& occurs(e.cmdline.unwrap()@, "zygote"@)
}

/// Reads the parent from a line of `/proc/<pid>/stat`.
fn parent_of(stat: &str) -> (r: Option<i32>)
    ensures
        match r {
            Some(p) => parent_spec(stat@) == Some(p as int),
            None => parent_spec(stat@) is None,
        },
{
    let chars = to_chars(stat);
    match after_last(chars.as_slice(), ')') {
        Some(rest) => {
            let fields = split_whitespace(rest);
            assert(views(fields@).len() == fields@.len());
            if fields.len() > 1 {
                assert(words_spec(rest@)[1] == fields@[1]@);
                parse_i32(fields[1])
            } else {
                None
            }
        },
        None => None,
    }
}

/// The process id of an entry that is a zygote.
fn zygote_pid(e: &ProcEntry) -> (r: Option<i32>)
    ensures
        match r {
            Some(pid) => zygote_entry(*e, pid),
            None => forall|pid: i32| !zygote_entry(*e, pid),
        },
{
    let pid: i32 = match &e.name {
        Some(name) => {
            let chars = to_chars(name.as_str());
            match parse_i32(chars.as_slice()) {
                Some(p) => p,
                None => {
                    return None;
                },
            }
        },
        None => {
            return None;
        },
    };
    if pid < 2 {
        return None;
    }
    let parent = match &e.stat {
        Some(stat) => parent_of(stat.as_str()),
        None => None,
    };
    match parent {
        Some(p) => {
            if p != 1 {
                return None;
            }
        },
        None => {
            return None;
        },
    }
    match &e.cmdline {
        Some(cmdline) => {
            let chars = to_chars(cmdline.as_str());
            if contains_text(chars.as_slice(), "zygote") {
                Some(pid)
            } else {
                None
            }
        },
        None => None,
    }
}

/// Finds the first zygote among the entries of `/proc`.
pub fn scan_zygote(entries: &[ProcEntry]) -> (r: Option<i32>)
    ensures
        match r {
            Some(pid) => exists|i: int|
                0 <= i < entries@.len() && #[trigger] zygote_entry(entries@[i], pid) && forall|
                    j: int,
                    p: i32,
                |
                    0 <= j < i ==> !#[trigger] zygote_entry(entries@[j], p),
            None => forall|j: int, p: i32|
                0 <= j < entries@.len() ==> !#[trigger] zygote_entry(entries@[j], p),
        },
{
    for i in 0..entries.len()
        invariant
            forall|j: int, p: i32| 0 <= j < i ==> !#[trigger] zygote_entry(entries@[j], p),
    {
        match zygote_pid(&entries[i]) {
            Some(pid) => {
                assert(zygote_entry(entries@[i as int], pid));
                return Some(pid);
            },
            None => {},
        }
    }
    None
}

/// A process is killed only where the injector failed on it, and left running where
/// the injector succeeded.
pub proof fn law_only_failures_are_killed(m: MonitorModel, ev: Event)
    requires
        expects(m.phase, ev),
    ensures
        monitor_step(m, ev).1 matches Action::Kill(pid) ==> ev == Event::Injected(false) && m.phase
            == Phase::Injecting(pid),
        ev == Event::Injected(true) ==> monitor_step(m, ev).1 is Loop,
        ev == Event::Injected(false) ==> monitor_step(m, ev).1 is Kill,
{
}

/// What is done to a process is done to the one that the event or the phase is
/// about, and for a reason of its own.
pub proof fn law_actions_have_reasons(m: MonitorModel, ev: Event)
    requires
        expects(m.phase, ev),
    ensures
        match monitor_step(m, ev).1 {
            Action::Attach(pid) => ev == Event::Scanned(Some(pid)),
            Action::Follow(pid) => ev == Event::Attached(true) && m.phase == Phase::Attaching(pid),
            Action::Adopt(pid) => (ev matches Event::Traced { pid: p, .. } && p == pid)
                && !m.traced.contains(pid),
            Action::ReadExe(pid) => m.traced.contains(pid) && ev == (Event::Traced {
                pid,
                signal: 5,
                event: 4,
                stop: false,
            }),
            Action::Halt(pid) => m.phase == Phase::Inspecting(pid),
            Action::Inject { pid, signal } => m.phase == Phase::Halting(pid) && (ev
                == Event::Halted(true) ==> signal == 19) && (ev == Event::Halted(false) ==> signal
                == 0),
            Action::Detach(pid) => m.phase == Phase::Inspecting(pid) || ((ev matches Event::Traced {
                pid: p,
                ..
            } && p == pid) && m.traced.contains(pid)),
            Action::Resume { pid, signal } => ev == (Event::Stopped { pid, signal }),
            Action::ResumeInit { read_message, signal } => m.seized_init && (ev
                matches Event::Traced { pid: p, signal: s, event: e, .. } && p == 1 && (
            read_message <==> e == 1) && (e == 0 ==> signal == s) && (e != 0 ==> signal == 0)),
            Action::Scan => ev == Event::Turn(false) && m.polling,
            Action::Wait => ev == Event::Turn(false) && !m.polling,
            Action::Exit { detach_init } => (ev == Event::Turn(true) && detach_init
                == m.seized_init) || ((ev == Event::Attached(false) || ev is WaitFailed)
                && !detach_init),
            Action::Sleep | Action::SleepAndExit => ev == Event::Scanned(None),
            _ => true,
        },
{
}

/// The stops of `init` go on as they came, while it is seized.
pub proof fn law_init_runs_on(m: MonitorModel, signal: i32, event: i32, stop: bool)
    requires
        m.phase is Waiting,
        m.seized_init,
    ensures
        monitor_step(m, Event::Traced { pid: 1, signal, event, stop }) == (
            MonitorModel { phase: Phase::Top, ..m },
            Action::ResumeInit {
                read_message: event == 1,
                signal: if event == 0 {
                    signal
                } else {
                    0
                },
            },
        ),
{
}

/// A new child of `init` that turns out to be a zygote is traced, looked at when it
/// calls `exec`, halted and injected, and then left alone and untraced.
pub proof fn law_zygote_is_injected(m: MonitorModel, pid: i32, first: Event, path: String)
    requires
        m.phase is Waiting,
        !m.polling,
        pid != 1 || !m.seized_init,
        !m.traced.contains(pid),
        first matches Event::Traced { pid: p, .. } && p == pid,
        exists|a: Seq<char>, b: Seq<char>| path@ == #[trigger] (a + "app_process"@ + b),
    ensures
        ({
            let (m1, a1) = monitor_step(m, first);
            let (m2, a2) = monitor_step(m1, Event::Turn(false));
            let (m3, a3) = monitor_step(
                m2,
                Event::Traced { pid, signal: 5, event: 4, stop: false },
            );
            let (m4, a4) = monitor_step(m3, Event::Exe(Some(path)));
            let (m5, a5) = monitor_step(m4, Event::Halted(true));
            let (m6, a6) = monitor_step(m5, Event::Injected(true));
            &&& a1 == Action::Adopt(pid)
            &&& a2 is Wait
            &&& a3 == Action::ReadExe(pid)
            &&& a4 == Action::Halt(pid)
            &&& a5 == (Action::Inject { pid, signal: 19 })
            &&& a6 is Loop
            &&& m6 == (MonitorModel { phase: Phase::Top, ..m })
        }),
{
    let (a, b) = choose|a: Seq<char>, b: Seq<char>| path@ == #[trigger] (a + "app_process"@ + b);
    law_occurs(path@, "app_process"@, a, b);
    let m3 = monitor_step(
        monitor_step(monitor_step(m, first).0, Event::Turn(false)).0,
        Event::Traced { pid, signal: 5, event: 4, stop: false },
    ).0;
    assert(m3.traced == m.traced.insert(pid));
    assert(m.traced.insert(pid).remove(pid) =~= m.traced);
}

/// A program is a zygote exactly where its path mentions `app_process`, and a
/// process that runs another program is let go.
pub proof fn law_other_programs_are_let_go(m: MonitorModel, pid: i32, path: Option<String>)
    requires
        m.phase == Phase::Inspecting(pid),
        path matches Some(p) ==> forall|a: Seq<char>, b: Seq<char>|
            p@ != #[trigger] (a + "app_process"@ + b),
    ensures
        monitor_step(m, Event::Exe(path)) == (
            MonitorModel { phase: Phase::Top, traced: m.traced.remove(pid), ..m },
            Action::Detach(pid),
        ),
{
    if path is Some {
        let p = path.unwrap()@;
        law_occurs(p, "app_process"@, Seq::empty(), Seq::empty());
    }
}

/// Where `init` cannot be seized, zygotes are searched for, and one that is found is
/// attached and followed; they are searched for again once every traced process is
/// gone.
pub proof fn law_search_stands_in(pid: i32)
    ensures
        ({
            let (m1, a1) = monitor_step(monitor_start(), Event::Seized(false));
            let (m2, a2) = monitor_step(m1, Event::Turn(false));
            let (m3, a3) = monitor_step(m2, Event::Scanned(Some(pid)));
            let (m4, a4) = monitor_step(m3, Event::Attached(true));
            let (m5, a5) = monitor_step(m4, Event::Turn(false));
            let (m6, a6) = monitor_step(m5, Event::Gone(pid));
            let (_, a7) = monitor_step(m6, Event::Turn(false));
            &&& a2 is Scan
            &&& a3 == Action::Attach(pid)
            &&& a4 == Action::Follow(pid)
            &&& m4.traced == set![pid]
            &&& a5 is Wait
            &&& a7 is Scan
        }),
        ({
            let (m1, _) = monitor_step(monitor_start(), Event::Seized(true));
            monitor_step(m1, Event::Turn(false)).1 is Wait
        }),
{
    let m4 = monitor_step(
        monitor_step(
            monitor_step(
                monitor_step(monitor_start(), Event::Seized(false)).0,
                Event::Turn(false),
            ).0,
            Event::Scanned(Some(pid)),
        ).0,
        Event::Attached(true),
    ).0;
    assert(m4.traced =~= set![pid]);
    assert(m4.traced.remove(pid) =~= Set::empty());
}

/// A process that is gone is not traced any more, and every other process is traced
/// or not as before.
pub proof fn law_gone_is_forgotten(m: MonitorModel, pid: i32, q: i32)
    requires
        m.phase is Waiting,
    ensures
        ({
            let n = monitor_step(m, Event::Gone(pid)).0;
            &&& !n.traced.contains(pid)
            &&& q != pid ==> n.traced.contains(q) == m.traced.contains(q)
            &&& n.polling <==> m.polling || (m.attached && forall|p: i32|
                p != pid ==> !#[trigger] m.traced.contains(p))
        }),
{
    let left = m.traced.remove(pid);
    if forall|p: i32| p != pid ==> !#[trigger] m.traced.contains(p) {
        assert(left =~= Set::empty());
    } else {
        let p = choose|p: i32| p != pid && #[trigger] m.traced.contains(p);
        assert(left.contains(p));
    }
}

/// A line of `stat` gives the parent as the second word behind the last closing
/// parenthesis, whatever stands before that.
pub proof fn law_parent_is_read(head: Seq<char>, state: Seq<char>, parent: i32, rest: Seq<char>)
    requires
        state.len() > 0,
        forall|i: int| 0 <= i < state.len() ==> !is_space(#[trigger] state[i]) && state[i] != ')',
        !rest.contains(')'),
    ensures
        parent_spec(
            head.push(')') + (seq![' '] + state.push(' ') + (decimal_int(parent as int).push(' ')
                + rest)),
        ) == Some(parent as int),
{
    let d = decimal_int(parent as int);
    let tail = d.push(' ') + rest;
    let b = seq![' '] + state.push(' ') + tail;
    lemma_decimal_chars(parent as int);
    assert(!b.contains(')')) by {
        if b.contains(')') {
            let k = choose|k: int| 0 <= k < b.len() && b[k] == ')';
            let n = 2 + state.len();
            if k == 0 {
            } else if k < n - 1 {
                assert(b[k] == state[k - 1]);
            } else if k == n - 1 {
            } else if k < n + d.len() {
                assert(b[k] == d[k - n]);
            } else if k == n + d.len() {
                assert(b[k] == ' ');
            } else {
                assert(b[k] == rest[k - n - d.len() - 1]);
            }
        }
    }
    law_after_last(head, ')', b);
    law_words(seq![' '], state, ' ', tail);
    law_words(Seq::empty(), d, ' ', rest);
    assert(Seq::<char>::empty() + d.push(' ') + rest =~= tail);
    let w = words_spec(b);
    assert(w == seq![state] + (seq![d] + words_spec(rest)));
    assert(w[1] == d);
    law_signed_round_trip(parent as int, i32::MIN as int, i32::MAX as int);
}

proof fn lemma_decimal_chars(n: int)
    ensures
        decimal_int(n).len() > 0,
        forall|i: int|
            0 <= i < decimal_int(n).len() ==> !is_space(#[trigger] decimal_int(n)[i])
                && decimal_int(n)[i] != ')',
{
    let m: nat = if n < 0 {
        (-n) as nat
    } else {
        n as nat
    };
    lemma_decimal(m);
    let d = decimal_int(n);
    assert forall|i: int| 0 <= i < d.len() implies !is_space(#[trigger] d[i]) && d[i] != ')' by {
        if n < 0 {
            if i > 0 {
                assert(d[i] == decimal(m)[i - 1]);
                assert(digit_value(decimal(m)[i - 1]) < 10);
            }
        } else {
            assert(digit_value(decimal(m)[i]) < 10);
        }
    }
}

/// A process is found as a zygote exactly where it is a child of `init`, not `init`
/// itself, and its command line mentions a zygote.
pub proof fn law_zygote_entries(e: ProcEntry, pid: i32, name: String, stat: String, cmdline: String)
    requires
        e.name == Some(name),
        name@ == decimal_int(pid as int),
        e.stat == Some(stat),
        e.cmdline == Some(cmdline),
        pid >= 2,
    ensures
        zygote_entry(e, pid) <==> parent_spec(stat@) == Some(1int) && exists|
            a: Seq<char>,
            b: Seq<char>,
        | cmdline@ == #[trigger] (a + "zygote"@ + b),
        forall|q: i32| zygote_entry(e, q) ==> q == pid,
{
    law_signed_round_trip(pid as int, i32::MIN as int, i32::MAX as int);
    law_occurs(cmdline@, "zygote"@, Seq::empty(), Seq::empty());
    if exists|a: Seq<char>, b: Seq<char>| cmdline@ == #[trigger] (a + "zygote"@ + b) {
        let (a, b) = choose|a: Seq<char>, b: Seq<char>| cmdline@ == #[trigger] (a + "zygote"@ + b);
        law_occurs(cmdline@, "zygote"@, a, b);
    }
}

/// From the first search on, 120 searches may find nothing; one more ends the
/// monitor.
pub proof fn law_searches_are_counted(n: nat)
    requires
        n <= 121,
    ensures
        ({
            let k = missed_polls(monitor_step(monitor_start(), Event::Seized(false)).0, n);
            &&& n <= 120 ==> k.phase is Top && !k.denylist
            &&& n == 121 ==> k.phase is Ended && k.denylist
        }),
{
    let m = monitor_step(monitor_start(), Event::Seized(false)).0;
    law_polling_gives_up(m, n);
}

/// The monitor starts by seizing `init`. Nothing is traced yet, no search was made,
/// and the deny list does not do its work.
pub proof fn law_monitor_starts_clean(pid: i32)
    ensures
        monitor_start().phase is Seizing,
        !monitor_start().seized_init,
        !monitor_start().attached,
        !monitor_start().polling,
        !monitor_start().denylist,
        monitor_start().polls == 0,
        !monitor_start().traced.contains(pid),
{
}

} // verus!
