//! Taking over a stopped zygote, injecting into it and letting it go.

use vstd::prelude::*;
use vstd::string::*;

use super::injection::status_signal;
use super::proc_monitor::{SIGSTOP, SIGTRAP};
use crate::num::{decimal, decimal_text};
use crate::text::concat_text;

verus! {

/// `SIGCONT`.
pub const SIGCONT: i32 = 18;

/// `PTRACE_EVENT_STOP`.
pub const EVENT_STOP: u32 = 128;

/// The ptrace event in the status of a process.
pub open spec fn status_event(status: i32) -> u32 {
    (status >> 16) as u32
}

/// The status of a process that stopped on a signal, with a ptrace event.
pub open spec fn stopped_status(signal: i32, event: i32) -> i32 {
    (event << 16i32) | (signal << 8i32) | 0x7f
}

/// What came of waiting for a process.
#[derive(Clone, Copy, PartialEq, Eq, Structural)]
pub enum Waited {
    /// Waiting was interrupted and has to be tried again.
    Again,
    /// The process is lost, and the tracer exits.
    Abort,
    /// The process stopped, with this status.
    Stopped(i32),
}

/// What came of waiting for a process.
pub open spec fn waited_spec(failed: bool, interrupted: bool, status: i32) -> Waited {
    if failed {
        if interrupted {
            Waited::Again
        } else {
            Waited::Abort
        }
    } else if status & 0x7f == 0x7f {
        Waited::Stopped(status)
    } else {
        Waited::Abort
    }
}

/// A process that stopped is taken for stopped, with its signal and its event.
pub proof fn law_stop_is_understood(signal: i32, event: i32)
    requires
        0 <= signal <= 0xff,
        0 <= event <= 0xff,
    ensures
        ({
            let status = stopped_status(signal, event);
            &&& waited_spec(false, false, status) == Waited::Stopped(status)
            &&& status_signal(status) == signal
            &&& status_event(status) == event
        }),
{
    let status = stopped_status(signal, event);
    assert(status & 0x7f == 0x7f && (status >> 8) & 0xff == signal && (status >> 16) == event)
        by (bit_vector)
        requires
            0 <= signal <= 0xff,
            0 <= event <= 0xff,
            status == (event << 16i32) | (signal << 8i32) | 0x7f,
    ;
}

/// Tells what came of waiting for a process: `failed` where the call failed,
/// `interrupted` where it failed because a signal came.
pub fn wait_for_trace(failed: bool, interrupted: bool, status: i32) -> (r: Waited)
    ensures
        r == waited_spec(failed, interrupted, status),
{
    if failed {
        if interrupted {
            return Waited::Again;
        }
        return Waited::Abort;
    }
    if status & 0x7f == 0x7f {
        Waited::Stopped(status)
    } else {
        Waited::Abort
    }
}

/// The file that the library is mounted on while it is loaded.
pub open spec fn bind_path_spec(random: u64) -> Seq<char> {
    "/dev/zygisk."@ + decimal(random as nat)
}

/// Names the file that the library is mounted on, from a random number.
pub fn bind_path(random: u64) -> (r: String)
    ensures
        r@ == bind_path_spec(random),
{
    concat_text("/dev/zygisk.", decimal_text(random).as_str())
}

/// Draws a random number with `rand::random`. Nothing is claimed of the number.
#[verifier::external_body]
fn random_number() -> (r: u64) {
    rand::random::<u64>()
}

/// Names a file that the library can be mounted on.
pub fn random_bind_path() -> (r: String)
    ensures
        exists|n: u64| r@ == #[trigger] bind_path_spec(n),
{
    let n: u64 = random_number();
    bind_path(n)
}

/// Where tracing stands.
#[derive(Clone, Copy, PartialEq, Eq, Structural)]
pub enum Phase {
    /// The process is being seized.
    Seizing,
    /// Waiting for the process to be stopped.
    Stopping,
    /// The file to mount on is being made.
    Creating,
    /// The library is being mounted.
    Mounting,
    /// The library is being injected.
    Injecting,
    /// The mount is being undone.
    Unmounting { injected: bool },
    /// The file is being removed after the mount failed.
    Removing,
    /// The process runs until it is told to go on.
    Continuing,
    /// The process runs until the signal to go on arrives.
    Delivering,
    /// The process is being detached.
    Detaching { ok: bool },
    /// Tracing succeeded or failed.
    Done(bool),
}

/// What happened.
#[derive(Clone, Copy, PartialEq, Eq, Structural)]
pub enum Event {
    /// Whether the last action succeeded.
    Finished(bool),
    /// The status in which the process stopped.
    Status(i32),
}

/// What is to be done next.
#[derive(Clone, Copy, PartialEq, Eq, Structural)]
pub enum Action {
    /// Seize the process.
    Seize,
    /// Wait for the process to stop.
    Wait,
    /// Make the file to mount on.
    Create,
    /// Mount the library on the file.
    Mount,
    /// Inject the library.
    Inject,
    /// Undo the mount and remove the file.
    UnmountAndRemove,
    /// Remove the file.
    Remove,
    /// Tell the process to go on, let it run, and wait for it.
    Continue,
    /// Let the process run, and wait for it.
    Run,
    /// Detach from the process, delivering a signal.
    Detach(i32),
    /// Nothing is left to do.
    Finish(bool),
}

/// The state of tracing.
#[derive(Clone, Copy, PartialEq, Eq, Structural)]
pub struct Trace {
    pub phase: Phase,
    /// The process is seized.
    pub seized: bool,
    /// The file exists.
    pub created: bool,
    /// The library is mounted on the file.
    pub mounted: bool,
}

/// The events that can come in a phase.
pub open spec fn expects(s: Trace, ev: Event) -> bool {
    match s.phase {
        Phase::Stopping | Phase::Continuing | Phase::Delivering => ev is Status,
        Phase::Done(_) => false,
        _ => ev is Finished,
    }
}

/// The process is to be detached, delivering `signal`.
pub open spec fn detaching(s: Trace, ok: bool, signal: i32) -> (Trace, Action) {
    (Trace { phase: Phase::Detaching { ok }, ..s }, Action::Detach(signal))
}

/// The state after an event, and what to do.
pub open spec fn trace_step(s: Trace, ev: Event) -> (Trace, Action) {
    match (s.phase, ev) {
        (Phase::Seizing, Event::Finished(ok)) => if ok {
            (Trace { phase: Phase::Stopping, seized: true, ..s }, Action::Wait)
        } else {
            (Trace { phase: Phase::Done(false), ..s }, Action::Finish(false))
        },
        (Phase::Stopping, Event::Status(status)) => if status_signal(status) == SIGSTOP
            && status_event(status) == EVENT_STOP {
            (Trace { phase: Phase::Creating, ..s }, Action::Create)
        } else {
            detaching(s, false, 0)
        },
        (Phase::Creating, Event::Finished(ok)) => if ok {
            (Trace { phase: Phase::Mounting, created: true, ..s }, Action::Mount)
        } else {
            detaching(s, false, 0)
        },
        (Phase::Mounting, Event::Finished(ok)) => if ok {
            (Trace { phase: Phase::Injecting, mounted: true, ..s }, Action::Inject)
        } else {
            (Trace { phase: Phase::Removing, ..s }, Action::Remove)
        },
        (Phase::Removing, Event::Finished(_)) => detaching(
            Trace { created: false, ..s },
            false,
            0,
        ),
        (Phase::Injecting, Event::Finished(injected)) => (
            Trace { phase: Phase::Unmounting { injected }, ..s },
            Action::UnmountAndRemove,
        ),
        (Phase::Unmounting { injected }, Event::Finished(_)) => {
            let free = Trace { created: false, mounted: false, ..s };
            if injected {
                (Trace { phase: Phase::Continuing, ..free }, Action::Continue)
            } else {
                detaching(free, false, 0)
            }
        },
        (Phase::Continuing, Event::Status(status)) => if status_signal(status) == SIGTRAP
            && status_event(status) == EVENT_STOP {
            (Trace { phase: Phase::Delivering, ..s }, Action::Run)
        } else {
            detaching(s, false, 0)
        },
        (Phase::Delivering, Event::Status(status)) => detaching(
            s,
            true,
            if status_signal(status) == SIGCONT && status_event(status) == 0 {
                SIGCONT
            } else {
                0
            },
        ),
        (Phase::Detaching { ok }, Event::Finished(_)) => (
            Trace { phase: Phase::Done(ok), seized: false, ..s },
            Action::Finish(ok),
        ),
        _ => (s, Action::Finish(false)),
    }
}

/// The state in which tracing starts.
pub open spec fn trace_start() -> Trace {
    Trace { phase: Phase::Seizing, seized: false, created: false, mounted: false }
}

/// What holds of every state that tracing reaches.
pub open spec fn trace_wf(s: Trace) -> bool {
    &&& s.seized == !(s.phase is Seizing || s.phase is Done)
    &&& s.created == (s.phase is Mounting || s.phase is Injecting || s.phase is Unmounting
        || s.phase is Removing)
    &&& s.mounted == (s.phase is Injecting || s.phase is Unmounting)
}

impl Trace {
    /// Tracing that is about to start.
    pub fn new() -> (r: Trace)
        ensures
            r == trace_start(),
            trace_wf(r),
    {
        Trace { phase: Phase::Seizing, seized: false, created: false, mounted: false }
    }

    fn go(&mut self, phase: Phase, action: Action) -> (r: Action)
        ensures
            *final(self) == (Trace { phase, ..*old(self) }),
            r == action,
    {
        self.phase = phase;
        action
    }

    fn detach(&mut self, ok: bool, signal: i32) -> (r: Action)
        ensures
            (*final(self), r) == detaching(*old(self), ok, signal),
    {
        self.go(Phase::Detaching { ok }, Action::Detach(signal))
    }

    fn on_finished(&mut self, ok: bool) -> (r: Action)
        requires
            expects(*old(self), Event::Finished(ok)),
        ensures
            (*final(self), r) == trace_step(*old(self), Event::Finished(ok)),
    {
        match self.phase {
            Phase::Seizing => {
                if ok {
                    self.seized = true;
                    self.go(Phase::Stopping, Action::Wait)
                } else {
                    self.go(Phase::Done(false), Action::Finish(false))
                }
            },
            Phase::Creating => {
                if ok {
                    self.created = true;
                    self.go(Phase::Mounting, Action::Mount)
                } else {
                    self.detach(false, 0)
                }
            },
            Phase::Mounting => {
                if ok {
                    self.mounted = true;
                    self.go(Phase::Injecting, Action::Inject)
                } else {
                    self.go(Phase::Removing, Action::Remove)
                }
            },
            Phase::Removing => {
                self.created = false;
                self.detach(false, 0)
            },
            Phase::Injecting => self.go(
                Phase::Unmounting { injected: ok },
                Action::UnmountAndRemove,
            ),
            Phase::Unmounting { injected } => {
                self.created = false;
                self.mounted = false;
                if injected {
                    self.go(Phase::Continuing, Action::Continue)
                } else {
                    self.detach(false, 0)
                }
            },
            Phase::Detaching { ok: done } => {
                self.seized = false;
                self.go(Phase::Done(done), Action::Finish(done))
            },
            _ => Action::Finish(false),
        }
    }

    fn on_status(&mut self, status: i32) -> (r: Action)
        requires
            expects(*old(self), Event::Status(status)),
        ensures
            (*final(self), r) == trace_step(*old(self), Event::Status(status)),
    {
        let signal: i32 = (status >> 8) & 0xff;
        let event: u32 = (status >> 16) as u32;
        match self.phase {
            Phase::Stopping => {
                if signal == SIGSTOP && event == EVENT_STOP {
                    self.go(Phase::Creating, Action::Create)
                } else {
                    self.detach(false, 0)
                }
            },
            Phase::Continuing => {
                if signal == SIGTRAP && event == EVENT_STOP {
                    self.go(Phase::Delivering, Action::Run)
                } else {
                    self.detach(false, 0)
                }
            },
            Phase::Delivering => {
                if signal == SIGCONT && event == 0 {
                    self.detach(true, SIGCONT)
                } else {
                    self.detach(true, 0)
                }
            },
            _ => Action::Finish(false),
        }
    }

    /// Takes one event and tells what to do.
    pub fn step(&mut self, ev: Event) -> (r: Action)
        requires
            trace_wf(*old(self)),
            expects(*old(self), ev),
        ensures
            (*final(self), r) == trace_step(*old(self), ev),
            trace_wf(*final(self)),
    {
        proof {
            law_trace_invariant(*self, ev);
        }
        match ev {
            Event::Finished(ok) => self.on_finished(ok),
            Event::Status(status) => self.on_status(status),
        }
    }
}

/// Every expected event keeps the invariant.
pub proof fn law_trace_invariant(s: Trace, ev: Event)
    requires
        trace_wf(s),
        expects(s, ev),
    ensures
        trace_wf(trace_step(s, ev).0),
{
}

/// The state after a run of events, where each was expected when it came.
pub open spec fn trace_run(s: Trace, evs: Seq<Event>) -> Option<Trace>
    decreases evs.len(),
{
    if evs.len() == 0 {
        Some(s)
    } else {
        match trace_run(s, evs.drop_last()) {
            Some(t) => if expects(t, evs.last()) {
                Some(trace_step(t, evs.last()).0)
            } else {
                None
            },
            None => None,
        }
    }
}

/// However tracing ends, the process is detached, the library is unmounted and
/// the file is gone.
pub proof fn law_nothing_is_left_behind(evs: Seq<Event>)
    ensures
        match trace_run(trace_start(), evs) {
            Some(s) => trace_wf(s) && (s.phase is Done ==> !s.seized && !s.created && !s.mounted),
            None => true,
        },
    decreases evs.len(),
{
    if evs.len() > 0 {
        law_nothing_is_left_behind(evs.drop_last());
        match trace_run(trace_start(), evs.drop_last()) {
            Some(t) => {
                if expects(t, evs.last()) {
                    law_trace_invariant(t, evs.last());
                }
            },
            None => {},
        }
    }
}

/// How many events may still come before tracing ends.
pub open spec fn steps_left(phase: Phase) -> nat {
    match phase {
        Phase::Seizing => 9,
        Phase::Stopping => 8,
        Phase::Creating => 7,
        Phase::Mounting => 6,
        Phase::Injecting => 5,
        Phase::Unmounting { .. } => 4,
        Phase::Continuing => 3,
        Phase::Removing => 2,
        Phase::Delivering => 2,
        Phase::Detaching { .. } => 1,
        Phase::Done(_) => 0,
    }
}

/// Every expected event brings tracing closer to its end.
pub proof fn law_trace_ends(s: Trace, ev: Event)
    requires
        expects(s, ev),
    ensures
        steps_left(trace_step(s, ev).0.phase) < steps_left(s.phase),
{
}

/// What happens where every step succeeds, where the process stops with these
/// statuses.
pub open spec fn smooth_events(stopped: i32, continued: i32, delivered: i32) -> Seq<Event> {
    seq![
        Event::Finished(true),
        Event::Status(stopped),
        Event::Finished(true),
        Event::Finished(true),
        Event::Finished(true),
        Event::Finished(true),
        Event::Status(continued),
        Event::Status(delivered),
        Event::Finished(true),
    ]
}

/// Tracing succeeds where every step does and the process stops as it is meant
/// to: first because it was told to stop, then because it was told to go on.
pub proof fn law_smooth_tracing_succeeds(delivered: i32)
    ensures
        trace_run(
            trace_start(),
            smooth_events(
                stopped_status(SIGSTOP, EVENT_STOP as i32),
                stopped_status(SIGTRAP, EVENT_STOP as i32),
                delivered,
            ),
        ) == Some(Trace { phase: Phase::Done(true), ..trace_start() }),
{
    law_stop_is_understood(SIGSTOP, EVENT_STOP as i32);
    law_stop_is_understood(SIGTRAP, EVENT_STOP as i32);
    let evs = smooth_events(
        stopped_status(SIGSTOP, EVENT_STOP as i32),
        stopped_status(SIGTRAP, EVENT_STOP as i32),
        delivered,
    );
    lemma_run_step(evs, 0);
    lemma_run_step(evs, 1);
    lemma_run_step(evs, 2);
    lemma_run_step(evs, 3);
    lemma_run_step(evs, 4);
    lemma_run_step(evs, 5);
    lemma_run_step(evs, 6);
    lemma_run_step(evs, 7);
    lemma_run_step(evs, 8);
    assert(evs.take(0) =~= Seq::empty());
    assert(evs.take(9) =~= evs);
}

proof fn lemma_run_step(evs: Seq<Event>, n: int)
    requires
        0 <= n < evs.len(),
    ensures
        trace_run(trace_start(), evs.take(n + 1)) == match trace_run(trace_start(), evs.take(n)) {
            Some(t) => if expects(t, evs[n]) {
                Some(trace_step(t, evs[n]).0)
            } else {
                None
            },
            None => None,
        },
{
    assert(evs.take(n + 1).drop_last() =~= evs.take(n));
}

/// Waiting that a signal interrupts is tried again, and that fails otherwise loses
/// the process. Without a failure, a process whose status ends in 127 stopped, and
/// any other is lost.
pub proof fn law_waiting(interrupted: bool, status: i32, high: i32, low: i32)
    requires
        0 <= high < 0x100_0000,
        0 <= low < 128,
        status == high * 128 + low,
    ensures
        waited_spec(true, true, status) == Waited::Again,
        waited_spec(true, false, status) == Waited::Abort,
        waited_spec(false, interrupted, status) == (if low == 127 {
            Waited::Stopped(status)
        } else {
            Waited::Abort
        }),
{
    assert(status & 0x7f == low) by (bit_vector)
        requires
            0 <= high < 0x100_0000,
            0 <= low < 128,
            status == high * 128 + low,
    ;
}

/// What a process' stop leads to. When it is to be stopped, it must stop on signal
/// 19 with event 128. When it is to go on, it must stop on signal 5 with that
/// event. Whatever then comes it is let go; signal 18, without an event, is
/// delivered with that.
pub proof fn law_stops_that_count(s: Trace, status: i32, signal: i32, event: i32)
    requires
        0 <= signal < 256,
        0 <= event < 256,
        status == event * 65536 + signal * 256 + 127,
    ensures
        s.phase is Stopping ==> trace_step(s, Event::Status(status)) == (if signal == 19 && event
            == 128 {
            (Trace { phase: Phase::Creating, ..s }, Action::Create)
        } else {
            (Trace { phase: Phase::Detaching { ok: false }, ..s }, Action::Detach(0))
        }),
        s.phase is Continuing ==> trace_step(s, Event::Status(status)) == (if signal == 5 && event
            == 128 {
            (Trace { phase: Phase::Delivering, ..s }, Action::Run)
        } else {
            (Trace { phase: Phase::Detaching { ok: false }, ..s }, Action::Detach(0))
        }),
        s.phase is Delivering ==> trace_step(s, Event::Status(status)) == (
            Trace { phase: Phase::Detaching { ok: true }, ..s },
            Action::Detach(
                if signal == 18 && event == 0 {
                    18
                } else {
                    0
                },
            ),
        ),
{
    assert((status >> 8) & 0xff == signal && (status >> 16) == event) by (bit_vector)
        requires
            0 <= signal < 256,
            0 <= event < 256,
            status == event * 65536 + signal * 256 + 127,
    ;
}

/// The steps follow each other: a process that was seized is waited for, the file
/// is mounted on once it is made, and the library injected once it is mounted. What
/// was mounted is undone however injecting went; only then is the process let go,
/// and it is told to go on exactly where the library was injected.
pub proof fn law_steps_follow(s: Trace, ok: bool, injected: bool)
    ensures
        ({
            let next = trace_step(s, Event::Finished(ok));
            let gone = (
                Trace { phase: Phase::Detaching { ok: false }, created: false, ..s },
                Action::Detach(0),
            );
            &&& s.phase is Seizing && ok ==> next == (
                Trace { phase: Phase::Stopping, seized: true, ..s },
                Action::Wait,
            )
            &&& s.phase is Seizing && !ok ==> next == (
                Trace { phase: Phase::Done(false), ..s },
                Action::Finish(false),
            )
            &&& s.phase is Creating && ok ==> next == (
                Trace { phase: Phase::Mounting, created: true, ..s },
                Action::Mount,
            )
            &&& s.phase is Creating && !ok ==> next == (
                Trace { phase: Phase::Detaching { ok: false }, ..s },
                Action::Detach(0),
            )
            &&& s.phase is Mounting && ok ==> next == (
                Trace { phase: Phase::Injecting, mounted: true, ..s },
                Action::Inject,
            )
            &&& s.phase is Mounting && !ok ==> next == (
                Trace { phase: Phase::Removing, ..s },
                Action::Remove,
            )
            &&& s.phase is Removing ==> next == gone
            &&& s.phase is Injecting ==> next == (
                Trace { phase: Phase::Unmounting { injected: ok }, ..s },
                Action::UnmountAndRemove,
            )
            &&& s.phase == (Phase::Unmounting { injected: true }) ==> next == (
                Trace { phase: Phase::Continuing, created: false, mounted: false, ..s },
                Action::Continue,
            )
            &&& s.phase == (Phase::Unmounting { injected: false }) ==> next == (
                Trace {
                    phase: Phase::Detaching { ok: false },
                    created: false,
                    mounted: false,
                    ..s
                },
                Action::Detach(0),
            )
            &&& s.phase == (Phase::Detaching { ok: injected }) ==> next == (
                Trace { phase: Phase::Done(injected), seized: false, ..s },
                Action::Finish(injected),
            )
        }),
{
}

/// The file that the library is mounted on is named by the number that was drawn.
pub proof fn law_bind_path(random: u64)
    ensures
        bind_path_spec(random).len() == 12 + decimal(random as nat).len(),
        bind_path_spec(random).take(12) == "/dev/zygisk."@,
        bind_path_spec(random).skip(12) == decimal(random as nat),
{
    reveal_strlit("/dev/zygisk.");
    assert(bind_path_spec(random).take(12) =~= "/dev/zygisk."@);
    assert(bind_path_spec(random).skip(12) =~= decimal(random as nat));
}

} // verus!
