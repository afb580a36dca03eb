//! The companion: a root process that serves the modules in injected processes.

use vstd::prelude::*;
use vstd::string::*;

use crate::bytes::append_bytes;
use crate::num::{decimal_int, decimal_text_i32};
use crate::text::concat_text;
use crate::zygisk::remote_call::c_string;

verus! {

/// `POLLERR` of `poll(2)`.
pub const POLLERR: i16 = 8;

/// `POLLHUP` of `poll(2)`.
pub const POLLHUP: i16 = 16;

/// The path of one of the caller's own descriptors.
pub open spec fn fd_path(fd: i32) -> Seq<char> {
    "/proc/self/fd/"@ + decimal_int(fd as int)
}

/// The path of one of the caller's own descriptors, as C sees it.
pub fn fd_path_bytes(fd: i32) -> (r: Vec<u8>)
    requires
        fd > i32::MIN,
    ensures
        r@ == c_string(fd_path(fd)),
{
    let path = concat_text("/proc/self/fd/", decimal_text_i32(fd).as_str());
    let mut out: Vec<u8> = Vec::new();
    append_bytes(&mut out, path.as_str().as_bytes());
    out.push(0);
    assert(out@ =~= c_string(fd_path(fd)));
    out
}

/// A companion has something to do.
pub open spec fn companion_starts_spec(virtual_phone: bool, uid: u32, socket_open: bool) -> bool {
    !virtual_phone && uid == 0 && socket_open
}

/// Tells whether a companion has anything to do: not in a virtual phone, only as
/// root, and only with a socket that is open.
pub fn companion_starts(virtual_phone: bool, uid: u32, socket_open: bool) -> (r: bool)
    ensures
        r == (!virtual_phone && uid == 0 && socket_open),
        r == companion_starts_spec(virtual_phone, uid, socket_open),
{
    !virtual_phone && uid == 0 && socket_open
}

/// What identifies an open file.
#[derive(Clone, Copy, PartialEq, Eq, Structural)]
pub struct OpenFile {
    pub dev: u64,
    pub ino: u64,
}

/// Where a companion stands.
#[derive(Clone, Copy, PartialEq, Eq, Structural)]
pub enum Phase {
    /// The modules are being received.
    Receiving,
    /// Module `i` of `n` is being loaded.
    Loading { i: usize, n: usize },
    /// The daemon is being told that the companion is ready.
    Acknowledging,
    /// Waiting for a client.
    Polling,
    /// A client is being received.
    Accepting,
    /// The module that the client wants is being read.
    Reading { client: i32 },
    /// A module serves the client.
    Serving { client: i32 },
    /// The companion ended.
    Ended,
}

/// What happened.
#[derive(Clone, Copy, PartialEq, Eq, Structural)]
pub enum Event {
    /// So many modules were received.
    Received(usize),
    /// A module was looked at; whether it serves clients.
    Loaded(bool),
    /// The last action is over.
    Finished,
    /// What waiting gave.
    Polled { ret: i32, revents: i16 },
    /// The client, where one was received.
    Client(Option<i32>),
    /// The module that the client wants, where it was read.
    Wants(Option<i32>),
    /// A module served the client: what the client's descriptor was before, and
    /// what it is now, where it is open.
    Served { before: OpenFile, after: Option<OpenFile> },
}

/// What is to be done next.
#[derive(Clone, Copy, PartialEq, Eq, Structural)]
pub enum Action {
    /// Receive the modules.
    Receive,
    /// Load module `i` and look whether it serves clients; then close its
    /// descriptor.
    Load(usize),
    /// Tell the daemon that the companion is ready.
    Acknowledge,
    /// Wait for a client.
    Poll,
    /// Receive a client.
    Accept,
    /// Read which module the client wants.
    Read(i32),
    /// Have a module serve the client.
    Serve { client: i32, module: usize },
    /// Close the client, and wait for the next one.
    CloseAndPoll(i32),
    Exit,
}

/// The state of a companion.
pub struct Companion {
    phase: Phase,
    serves: Vec<bool>,
}

/// What a [`Companion`] holds.
#[verifier::ext_equal]
pub struct CompanionModel {
    pub phase: Phase,
    /// Which modules serve clients.
    pub serves: Seq<bool>,
}

impl View for Companion {
    type V = CompanionModel;

    closed spec fn view(&self) -> CompanionModel {
        CompanionModel { phase: self.phase, serves: self.serves@ }
    }
}

/// The events that can come in a phase.
pub open spec fn expects(phase: Phase, ev: Event) -> bool {
    match phase {
        Phase::Receiving => ev is Received,
        Phase::Loading { .. } => ev is Loaded,
        Phase::Acknowledging => ev is Finished,
        Phase::Polling => ev is Polled,
        Phase::Accepting => ev is Client,
        Phase::Reading { .. } => ev is Wants,
        Phase::Serving { .. } => ev is Served,
        Phase::Ended => false,
    }
}

/// A module can serve clients.
pub open spec fn can_serve(serves: Seq<bool>, module: int) -> bool {
    0 <= module < serves.len() && serves[module]
}

/// The state after an event, and what to do.
pub open spec fn companion_step(m: CompanionModel, ev: Event) -> (CompanionModel, Action) {
    let polling = CompanionModel { phase: Phase::Polling, ..m };
    let ended = CompanionModel { phase: Phase::Ended, ..m };
    match (m.phase, ev) {
        (Phase::Receiving, Event::Received(n)) => if n == 0 {
            (ended, Action::Exit)
        } else {
            (CompanionModel { phase: Phase::Loading { i: 0, n }, ..m }, Action::Load(0))
        },
        (Phase::Loading { i, n }, Event::Loaded(serves)) => {
            let next = CompanionModel { serves: m.serves.push(serves), ..m };
            if i + 1 < n {
                (
                    CompanionModel { phase: Phase::Loading { i: (i + 1) as usize, n }, ..next },
                    Action::Load((i + 1) as usize),
                )
            } else {
                (CompanionModel { phase: Phase::Acknowledging, ..next }, Action::Acknowledge)
            }
        },
        (Phase::Acknowledging, _) => (polling, Action::Poll),
        (Phase::Polling, Event::Polled { ret, revents }) => if ret < 0 || revents & (POLLHUP
            | POLLERR) != 0 {
            (ended, Action::Exit)
        } else {
            (CompanionModel { phase: Phase::Accepting, ..m }, Action::Accept)
        },
        (Phase::Accepting, Event::Client(c)) => match c {
            Some(client) => (
                CompanionModel { phase: Phase::Reading { client }, ..m },
                Action::Read(client),
            ),
            None => (ended, Action::Exit),
        },
        (Phase::Reading { client }, Event::Wants(id)) => if id is Some && can_serve(
            m.serves,
            id.unwrap() as int,
        ) {
            (
                CompanionModel { phase: Phase::Serving { client }, ..m },
                Action::Serve { client, module: id.unwrap() as usize },
            )
        } else {
            (polling, Action::CloseAndPoll(client))
        },
        (Phase::Serving { client }, Event::Served { before, after }) => (
            polling,
            if after == Some(before) {
                Action::CloseAndPoll(client)
            } else {
                Action::Poll
            },
        ),
        _ => (ended, Action::Exit),
    }
}

/// What holds of every state that a companion reaches: the modules that were
/// looked at so far are known.
pub open spec fn companion_wf(m: CompanionModel) -> bool {
    match m.phase {
        Phase::Receiving => m.serves.len() == 0,
        Phase::Loading { i, n } => i < n && m.serves.len() == i,
        _ => true,
    }
}

impl Companion {
    /// A companion that is about to receive its modules.
    pub fn new() -> (r: Companion)
        ensures
            r@.phase == Phase::Receiving,
            r@.serves == Seq::<bool>::empty(),
            companion_wf(r@),
    {
        Companion { phase: Phase::Receiving, serves: Vec::new() }
    }

    fn go(&mut self, phase: Phase, action: Action) -> (r: Action)
        ensures
            final(self)@ == (CompanionModel { phase, ..old(self)@ }),
            r == action,
    {
        self.phase = phase;
        action
    }

    /// Takes one event and tells what to do.
    pub fn zygisk_companion_entry(&mut self, ev: Event) -> (r: Action)
        requires
            companion_wf(old(self)@),
            expects(old(self)@.phase, ev),
        ensures
            (final(self)@, r) == companion_step(old(self)@, ev),
            companion_wf(final(self)@),
    {
        match (self.phase, ev) {
            (Phase::Receiving, Event::Received(n)) => {
                if n == 0 {
                    self.go(Phase::Ended, Action::Exit)
                } else {
                    self.go(Phase::Loading { i: 0, n }, Action::Load(0))
                }
            },
            (Phase::Loading { i, n }, Event::Loaded(serves)) => {
                self.serves.push(serves);
                if i + 1 < n {
                    self.go(Phase::Loading { i: i + 1, n }, Action::Load(i + 1))
                } else {
                    self.go(Phase::Acknowledging, Action::Acknowledge)
                }
            },
            (Phase::Acknowledging, _) => self.go(Phase::Polling, Action::Poll),
            (Phase::Polling, Event::Polled { ret, revents }) => {
                if ret < 0 || revents & (POLLHUP | POLLERR) != 0 {
                    self.go(Phase::Ended, Action::Exit)
                } else {
                    self.go(Phase::Accepting, Action::Accept)
                }
            },
            (Phase::Accepting, Event::Client(c)) => {
                match c {
                    Some(client) => self.go(Phase::Reading { client }, Action::Read(client)),
                    None => self.go(Phase::Ended, Action::Exit),
                }
            },
            (Phase::Reading { client }, Event::Wants(id)) => {
                match id {
                    Some(module) => {
                        if module >= 0 && (module as usize) < self.serves.len()
                            && self.serves[module as usize] {
                            self.go(
                                Phase::Serving { client },
                                Action::Serve { client, module: module as usize },
                            )
                        } else {
                            self.go(Phase::Polling, Action::CloseAndPoll(client))
                        }
                    },
                    None => self.go(Phase::Polling, Action::CloseAndPoll(client)),
                }
            },
            (Phase::Serving { client }, Event::Served { before, after }) => {
                let same = match after {
                    Some(a) => a.dev == before.dev && a.ino == before.ino,
                    None => false,
                };
                if same {
                    self.go(Phase::Polling, Action::CloseAndPoll(client))
                } else {
                    self.go(Phase::Polling, Action::Poll)
                }
            },
            _ => self.go(Phase::Ended, Action::Exit),
        }
    }
}

/// A client is handed only to a module that serves clients, and otherwise it is
/// closed.
pub proof fn law_clients_reach_their_module(m: CompanionModel, client: i32, id: Option<i32>)
    requires
        m.phase == (Phase::Reading { client }),
    ensures
        ({
            let a = companion_step(m, Event::Wants(id)).1;
            &&& (a matches Action::Serve { client: c, module } ==> c == client && id is Some
                && module == id.unwrap() && can_serve(m.serves, module as int))
            &&& a !is Serve ==> a == Action::CloseAndPoll(client)
        }),
{
}

/// A client that a module closed, and whose number another file got since, is
/// not closed again.
pub proof fn law_served_client_closed_once(
    m: CompanionModel,
    client: i32,
    before: OpenFile,
    after: Option<OpenFile>,
)
    requires
        m.phase == (Phase::Serving { client }),
    ensures
        companion_step(m, Event::Served { before, after }).1 == Action::CloseAndPoll(client)
            <==> after == Some(before),
{
}

/// The state after a run of events, where each was expected when it came.
pub open spec fn companion_run(m: CompanionModel, evs: Seq<Event>) -> Option<CompanionModel>
    decreases evs.len(),
{
    if evs.len() == 0 {
        Some(m)
    } else {
        match companion_run(m, evs.drop_last()) {
            Some(n) => if expects(n.phase, evs.last()) {
                Some(companion_step(n, evs.last()).0)
            } else {
                None
            },
            None => None,
        }
    }
}

/// The daemon is told that the companion is ready once every module was looked
/// at, and what was found is kept in the modules' order.
pub proof fn law_every_module_is_loaded(m: CompanionModel, found: Seq<bool>)
    requires
        m.phase is Receiving,
        m.serves.len() == 0,
        0 < found.len() <= usize::MAX,
    ensures
        companion_run(
            m,
            seq![Event::Received(found.len() as usize)] + found.map_values(
                |b: bool| Event::Loaded(b),
            ),
        ) == Some(CompanionModel { phase: Phase::Acknowledging, serves: found }),
{
    lemma_loading(m, found, found.len());
    assert(found.take(found.len() as int) =~= found);
}

proof fn lemma_loading(m: CompanionModel, found: Seq<bool>, k: nat)
    requires
        m.phase is Receiving,
        m.serves.len() == 0,
        0 < found.len() <= usize::MAX,
        k <= found.len(),
    ensures
        companion_run(
            m,
            seq![Event::Received(found.len() as usize)] + found.take(k as int).map_values(
                |b: bool| Event::Loaded(b),
            ),
        ) == Some(
            CompanionModel {
                phase: if k < found.len() {
                    Phase::Loading { i: k as usize, n: found.len() as usize }
                } else {
                    Phase::Acknowledging
                },
                serves: found.take(k as int),
            },
        ),
    decreases k,
{
    let n = found.len();
    let f = |b: bool| Event::Loaded(b);
    let first = seq![Event::Received(n as usize)];
    let evs = first + found.take(k as int).map_values(f);
    if k == 0 {
        assert(evs =~= first);
        assert(evs.drop_last() =~= Seq::empty());
        reveal_with_fuel(companion_run, 2);
        assert(m.serves =~= found.take(0));
    } else {
        lemma_loading(m, found, (k - 1) as nat);
        assert(evs.drop_last() =~= first + found.take(k - 1).map_values(f));
        assert(evs.last() == Event::Loaded(found[k - 1]));
        assert(found.take(k - 1).push(found[k - 1]) =~= found.take(k as int));
    }
}

/// Each of three things keeps a companion from running: a virtual phone, a user
/// other than root, and a socket that is not open. Nothing else does.
pub proof fn law_companion_starts(virtual_phone: bool, uid: u32, socket_open: bool)
    ensures
        !companion_starts_spec(true, uid, socket_open),
        !companion_starts_spec(virtual_phone, uid, false),
        uid != 0 ==> !companion_starts_spec(virtual_phone, uid, socket_open),
        companion_starts_spec(false, 0, true),
{
}

/// A companion that received no module ends at once, and one that received some
/// loads the first.
pub proof fn law_modules_are_received(m: CompanionModel, n: usize)
    requires
        m.phase is Receiving,
    ensures
        n == 0 ==> companion_step(m, Event::Received(n)) == (
            CompanionModel { phase: Phase::Ended, serves: m.serves },
            Action::Exit,
        ),
        n > 0 ==> companion_step(m, Event::Received(n)).1 == Action::Load(0),
{
}

/// Modules are loaded one after the other; after the last one, and not before,
/// the daemon is told, and then clients are waited for.
pub proof fn law_modules_are_loaded_in_turn(m: CompanionModel, i: usize, n: usize, found: bool)
    requires
        m.phase == (Phase::Loading { i, n }),
        i < n,
    ensures
        companion_step(m, Event::Loaded(found)).0.serves == m.serves.push(found),
        i + 1 < n ==> companion_step(m, Event::Loaded(found)).1 == Action::Load((i + 1) as usize),
        i + 1 == n ==> companion_step(m, Event::Loaded(found)).1 == Action::Acknowledge
            && companion_step(companion_step(m, Event::Loaded(found)).0, Event::Finished) == (
            CompanionModel { phase: Phase::Polling, serves: m.serves.push(found) },
            Action::Poll,
        ),
{
}

/// Waiting ends the companion exactly where it fails or bit 3 or bit 4 of what it
/// gave is set; otherwise a client is received.
pub proof fn law_waiting_for_clients(m: CompanionModel, ret: i32, revents: i16)
    requires
        m.phase is Polling,
        revents >= 0,
    ensures
        ({
            let a = companion_step(m, Event::Polled { ret, revents }).1;
            &&& a == Action::Exit || a == Action::Accept
            &&& a == Action::Exit <==> ret < 0 || (revents as int / 8) % 2 == 1 || (revents as int
                / 16) % 2 == 1
        }),
{
    assert((revents & (16i16 | 8i16) != 0) == ((revents / 8) % 2 == 1 || (revents / 16) % 2 == 1))
        by (bit_vector)
        requires
            revents >= 0,
    ;
}

/// A client that wants a module that serves clients is served by it; any other is
/// closed. Without a client the companion ends.
pub proof fn law_client_is_served(m: CompanionModel, client: i32, id: i32)
    requires
        m.phase is Accepting,
    ensures
        companion_step(m, Event::Client(None)).1 == Action::Exit,
        companion_step(m, Event::Client(Some(client))).1 == Action::Read(client),
        ({
            let t = companion_step(m, Event::Client(Some(client))).0;
            &&& t.serves == m.serves
            &&& companion_step(t, Event::Wants(None)) == (
                CompanionModel { phase: Phase::Polling, serves: m.serves },
                Action::CloseAndPoll(client),
            )
            &&& 0 <= id < m.serves.len() && m.serves[id as int] ==> companion_step(
                t,
                Event::Wants(Some(id)),
            ) == (
                CompanionModel { phase: Phase::Serving { client }, serves: m.serves },
                Action::Serve { client, module: id as usize },
            )
            &&& id < 0 || id >= m.serves.len() || !m.serves[id as int] ==> companion_step(
                t,
                Event::Wants(Some(id)),
            ) == (
                CompanionModel { phase: Phase::Polling, serves: m.serves },
                Action::CloseAndPoll(client),
            )
        }),
{
}

/// After a module served a client the companion waits for the next one. The
/// client's descriptor is closed exactly where it is still open as the file that
/// it was, by device and by number.
pub proof fn law_after_serving(
    m: CompanionModel,
    client: i32,
    before: OpenFile,
    dev: u64,
    ino: u64,
)
    requires
        m.phase == (Phase::Serving { client }),
    ensures
        ({
            let gone = companion_step(m, Event::Served { before, after: None });
            let open = companion_step(
                m,
                Event::Served { before, after: Some(OpenFile { dev, ino }) },
            );
            &&& gone == (CompanionModel { phase: Phase::Polling, serves: m.serves }, Action::Poll)
            &&& open.0 == (CompanionModel { phase: Phase::Polling, serves: m.serves })
            &&& open.1 == (if dev == before.dev && ino == before.ino {
                Action::CloseAndPoll(client)
            } else {
                Action::Poll
            })
        }),
{
}

/// The path of a descriptor is its number behind the directory of the process'
/// own descriptors.
pub proof fn law_descriptor_path(fd: i32)
    ensures
        fd_path(fd).len() == 14 + decimal_int(fd as int).len(),
        fd_path(fd).take(14) == "/proc/self/fd/"@,
        fd_path(fd).skip(14) == decimal_int(fd as int),
{
    reveal_strlit("/proc/self/fd/");
    assert(fd_path(fd).take(14) =~= "/proc/self/fd/"@);
    assert(fd_path(fd).skip(14) =~= decimal_int(fd as int));
}

} // verus!
