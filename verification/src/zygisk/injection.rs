//! Loading a library into a zygote that is about to start.
//!
//! The process stands before its first instruction. Its entry point is found in
//! the auxiliary vector on its stack and replaced by an address that traps; when
//! it traps, the dynamic linker has done its work, the entry point is put back,
//! and the library is opened by calls into the process.

use vstd::prelude::*;

use super::remote_call::SIGSEGV;

verus! {

/// `RTLD_NOW` of `dlopen(3)`.
pub const RTLD_NOW: u64 = 2;

/// The auxiliary vector's entry for the program's entry point.
pub const AT_ENTRY: u64 = 9;

/// The end of the auxiliary vector.
pub const AT_NULL: u64 = 0;

/// A function that is called in the process.
#[derive(Clone, Copy, PartialEq, Eq, Structural)]
pub enum Symbol {
    Dlopen,
    Dlerror,
    Strlen,
    Dlsym,
}

/// The module that holds a function.
pub open spec fn symbol_module(symbol: Symbol) -> Seq<char> {
    if symbol == Symbol::Strlen {
        "libc.so"@
    } else {
        "libdl.so"@
    }
}

/// A function's name.
pub open spec fn symbol_name(symbol: Symbol) -> Seq<char> {
    match symbol {
        Symbol::Dlopen => "dlopen"@,
        Symbol::Dlerror => "dlerror"@,
        Symbol::Strlen => "strlen"@,
        Symbol::Dlsym => "dlsym"@,
    }
}

impl Symbol {
    /// The module that holds the function.
    pub fn module(&self) -> (r: &'static str)
        ensures
            r@ == (if *self == Symbol::Strlen {
                "libc.so"@
            } else {
                "libdl.so"@
            }),
            r@ == symbol_module(*self),
    {
        match self {
            Symbol::Strlen => "libc.so",
            _ => "libdl.so",
        }
    }

    /// The function's name.
    pub fn name(&self) -> (r: &'static str)
        ensures
            r@ == match *self {
                Symbol::Dlopen => "dlopen"@,
                Symbol::Dlerror => "dlerror"@,
                Symbol::Strlen => "strlen"@,
                Symbol::Dlsym => "dlsym"@,
            },
            r@ == symbol_name(*self),
    {
        match self {
            Symbol::Dlopen => "dlopen",
            Symbol::Dlerror => "dlerror",
            Symbol::Strlen => "strlen",
            Symbol::Dlsym => "dlsym",
        }
    }
}

/// The module in which the address is looked up that called functions return to.
pub fn return_module() -> (r: &'static str)
    ensures
        r@ == "libc.so"@,
{
    "libc.so"
}

/// The name of the library's entry function.
pub fn entry_name() -> (r: &'static str)
    ensures
        r@ == "zygisk_inject_entry"@,
{
    "zygisk_inject_entry"
}

/// Where an injection stands.
#[derive(Clone, Copy, PartialEq, Eq, Structural)]
pub enum Phase {
    /// The registers are being read.
    Starting,
    /// The argument count at the stack pointer is being read.
    Argc { sp: u64 },
    /// The environment is being skipped.
    Env { at: u64 },
    /// The auxiliary vector is being searched.
    Auxv { at: u64 },
    /// The trapping address is being written.
    Patching,
    /// The process runs into the trap.
    Trapping,
    /// The registers at the trap are being read.
    Trapped,
    /// The entry point is being put back.
    Unpatching,
    /// An address to return to is being looked up.
    Locating,
    /// A function is being looked up.
    Resolving(Symbol),
    /// The library's path is being pushed, to be opened by the function at this
    /// address.
    PushingPath(u64),
    /// The library is being opened.
    Opening,
    /// The reason of a failure is being asked for.
    Erring,
    /// The reason's length is being asked for.
    Measuring,
    /// The entry function's name is being pushed, to be looked up by the
    /// function at this address.
    PushingName(u64),
    /// The entry function is being looked up in the library.
    Finding,
    /// The entry function runs.
    Entering,
    /// The first registers are being put back.
    Restoring,
    /// The injection succeeded or failed.
    Done(bool),
}

/// What happened.
#[derive(Clone, Copy)]
pub enum Event {
    /// The stack pointer and the instruction pointer, where they could be read.
    Regs(Option<(u64, u64)>),
    /// The word, where it could be read.
    Word(Option<u64>),
    /// The type and the value of an entry of the auxiliary vector, a word each,
    /// where they could be read.
    Auxv(Option<(u64, u64)>),
    /// Whether memory or registers could be written.
    Written(bool),
    /// The status in which the process stopped.
    Status(i32),
    /// The address that was looked up, where it was found.
    Found(Option<u64>),
    /// Where the string was pushed.
    Pushed(u64),
    /// What the called function returned.
    Returned(u64),
}

/// What is to be done next.
#[derive(Clone, Copy, PartialEq, Eq, Structural)]
pub enum Action {
    /// Read the registers.
    ReadRegs,
    /// Read a word.
    ReadWord(u64),
    /// Read an entry of the auxiliary vector.
    ReadAuxv(u64),
    /// Write a word.
    WriteWord { addr: u64, value: u64 },
    /// Let the process run until it stops.
    Run,
    /// Look up an address that holds no code, in [`return_module`].
    FindReturn,
    /// Look up a function.
    Resolve(Symbol),
    /// Push the library's path.
    PushPath,
    /// Push the name of the library's entry function, [`entry_name`].
    PushName,
    /// Call a function that returns to `ret`.
    Call { func: u64, ret: u64, first: Option<u64>, second: Option<u64> },
    /// Report the reason of a failure, so many bytes at this address.
    Report { addr: u64, len: u64 },
    /// Put the first registers back, with this instruction pointer.
    Restore(u64),
    /// Nothing is left to do.
    Finish(bool),
}

/// The state of an injection.
#[derive(Clone, Copy, PartialEq, Eq, Structural)]
pub struct Injection {
    /// Bytes in a word of the process.
    pub word: u64,
    pub phase: Phase,
    /// The program's entry point, 0 while it is not known.
    pub entry: u64,
    /// Where the auxiliary vector holds the entry point.
    pub slot: u64,
    /// The auxiliary vector holds the trapping address.
    pub patched: bool,
    /// Where called functions return to, 0 while that is not known.
    pub ret: u64,
    /// The library, 0 while it is not open.
    pub handle: u64,
    /// The reason of a failure, 0 while there is none.
    pub reason: u64,
}

/// The highest address of a process with words of `word` bytes.
pub open spec fn max_address(word: u64) -> u64 {
    if word == 8 {
        0xffff_ffff_ffff_ffff
    } else {
        0xffff_ffff
    }
}

/// What a word keeps of `v`.
pub open spec fn fit_word(word: u64, v: u64) -> u64 {
    if word == 8 {
        v
    } else {
        v as u32 as u64
    }
}

/// An even address that holds no code, in a process with words of `word` bytes.
pub open spec fn trap_base(word: u64) -> u64 {
    if word == 8 {
        0xffff_ffff_fa13_e300
    } else {
        0xfa13_e300
    }
}

/// The address that stands in for the entry point; it keeps the entry point's
/// lowest bit, which tells instruction sets apart.
pub open spec fn break_address(word: u64, entry: u64) -> u64 {
    trap_base(word) | (entry & 1)
}

/// The signal in the status of a process that stopped.
pub open spec fn status_signal(status: i32) -> i32 {
    (status >> 8) & 0xff
}

/// Where the environment starts: behind the argument count, the arguments and
/// the null that ends them.
pub open spec fn env_start(word: u64, sp: u64, argc: u64) -> int {
    sp + word + (argc + 1) * word
}

/// The events that can come in a phase. Addresses that are computed from what
/// was read must be addresses of the process.
pub open spec fn expects(s: Injection, ev: Event) -> bool {
    match s.phase {
        Phase::Starting | Phase::Trapped => ev is Regs,
        Phase::Argc { sp } => match ev {
            Event::Word(Some(argc)) => argc < max_address(s.word) && env_start(s.word, sp, argc)
                <= max_address(s.word),
            Event::Word(None) => true,
            _ => false,
        },
        Phase::Env { at } => match ev {
            Event::Word(Some(_)) => at + s.word <= max_address(s.word),
            Event::Word(None) => true,
            _ => false,
        },
        Phase::Auxv { at } => match ev {
            Event::Auxv(Some((kind, _))) => if kind == AT_ENTRY {
                at + s.word <= max_address(s.word)
            } else {
                kind == AT_NULL || at + 2 * s.word <= max_address(s.word)
            },
            Event::Auxv(None) => true,
            _ => false,
        },
        Phase::Patching | Phase::Unpatching | Phase::Restoring => ev is Written,
        Phase::Trapping => ev is Status,
        Phase::Locating | Phase::Resolving(_) => ev is Found,
        Phase::PushingPath(_) | Phase::PushingName(_) => ev is Pushed,
        Phase::Opening | Phase::Erring | Phase::Measuring | Phase::Finding | Phase::Entering => ev
            is Returned,
        Phase::Done(_) => false,
    }
}

/// The injection in another phase.
pub open spec fn at_phase(s: Injection, phase: Phase) -> Injection {
    Injection { phase, ..s }
}

/// The injection failed.
pub open spec fn failed(s: Injection) -> (Injection, Action) {
    (at_phase(s, Phase::Done(false)), Action::Finish(false))
}

/// The search of the auxiliary vector is over.
pub open spec fn searched(s: Injection) -> (Injection, Action) {
    if s.entry == 0 {
        failed(s)
    } else {
        (
            at_phase(s, Phase::Patching),
            Action::WriteWord { addr: s.slot, value: break_address(s.word, s.entry) },
        )
    }
}

/// The state after a function was looked up, and what to do.
pub open spec fn resolved(s: Injection, symbol: Symbol, addr: u64) -> (Injection, Action) {
    match symbol {
        Symbol::Dlopen => (at_phase(s, Phase::PushingPath(addr)), Action::PushPath),
        Symbol::Dlerror => (
            at_phase(s, Phase::Erring),
            Action::Call { func: addr, ret: s.ret, first: None, second: None },
        ),
        Symbol::Strlen => (
            at_phase(s, Phase::Measuring),
            Action::Call { func: addr, ret: s.ret, first: Some(s.reason), second: None },
        ),
        Symbol::Dlsym => (at_phase(s, Phase::PushingName(addr)), Action::PushName),
    }
}

/// The state after a called function returned, and what to do.
pub open spec fn returned(s: Injection, value: u64) -> (Injection, Action) {
    match s.phase {
        Phase::Opening => if value == 0 {
            (
                at_phase(s, Phase::Resolving(Symbol::Dlerror)),
                Action::Resolve(Symbol::Dlerror),
            )
        } else {
            (
                Injection { handle: value, phase: Phase::Resolving(Symbol::Dlsym), ..s },
                Action::Resolve(Symbol::Dlsym),
            )
        },
        Phase::Erring => if value == 0 {
            failed(s)
        } else {
            (
                Injection { reason: value, phase: Phase::Resolving(Symbol::Strlen), ..s },
                Action::Resolve(Symbol::Strlen),
            )
        },
        Phase::Measuring => if value == 0 {
            failed(s)
        } else {
            (
                at_phase(s, Phase::Done(false)),
                Action::Report { addr: s.reason, len: value },
            )
        },
        Phase::Finding => if value == 0 {
            failed(s)
        } else {
            (
                at_phase(s, Phase::Entering),
                Action::Call { func: value, ret: s.ret, first: Some(s.handle), second: None },
            )
        },
        _ => (at_phase(s, Phase::Restoring), Action::Restore(s.entry)),
    }
}

/// The state after an event, and what to do.
pub open spec fn injection_step(s: Injection, ev: Event) -> (Injection, Action) {
    match (s.phase, ev) {
        (Phase::Starting, Event::Regs(Some((sp, _)))) => (
            at_phase(s, Phase::Argc { sp }),
            Action::ReadWord(sp),
        ),
        (Phase::Argc { sp }, Event::Word(Some(argc))) => {
            let at = env_start(s.word, sp, argc) as u64;
            (at_phase(s, Phase::Env { at }), Action::ReadWord(at))
        },
        (Phase::Env { at }, Event::Word(None)) => (
            at_phase(s, Phase::Auxv { at }),
            Action::ReadAuxv(at),
        ),
        (Phase::Env { at }, Event::Word(Some(value))) => {
            let next = (at + s.word) as u64;
            if value == 0 {
                (at_phase(s, Phase::Auxv { at: next }), Action::ReadAuxv(next))
            } else {
                (at_phase(s, Phase::Env { at: next }), Action::ReadWord(next))
            }
        },
        (Phase::Auxv { .. }, Event::Auxv(None)) => searched(s),
        (Phase::Auxv { at }, Event::Auxv(Some((kind, value)))) => if kind == AT_ENTRY {
            searched(Injection { entry: fit_word(s.word, value), slot: (at + s.word) as u64, ..s })
        } else if kind == AT_NULL {
            searched(s)
        } else {
            let next = (at + 2 * s.word) as u64;
            (at_phase(s, Phase::Auxv { at: next }), Action::ReadAuxv(next))
        },
        (Phase::Patching, Event::Written(true)) => (
            Injection { patched: true, phase: Phase::Trapping, ..s },
            Action::Run,
        ),
        (Phase::Trapping, Event::Status(status)) => if status_signal(status) == SIGSEGV {
            (at_phase(s, Phase::Trapped), Action::ReadRegs)
        } else {
            failed(s)
        },
        (Phase::Trapped, Event::Regs(Some((_, ip)))) => if ip & !1u64 == break_address(
            s.word,
            s.entry,
        ) & !1u64 {
            (
                at_phase(s, Phase::Unpatching),
                Action::WriteWord { addr: s.slot, value: s.entry },
            )
        } else {
            failed(s)
        },
        (Phase::Unpatching, Event::Written(true)) => (
            Injection { patched: false, phase: Phase::Locating, ..s },
            Action::FindReturn,
        ),
        (Phase::Locating, Event::Found(Some(ret))) => (
            Injection { ret, phase: Phase::Resolving(Symbol::Dlopen), ..s },
            Action::Resolve(Symbol::Dlopen),
        ),
        (Phase::Resolving(symbol), Event::Found(Some(addr))) => resolved(s, symbol, addr),
        (Phase::PushingPath(func), Event::Pushed(addr)) => (
            at_phase(s, Phase::Opening),
            Action::Call { func, ret: s.ret, first: Some(addr), second: Some(RTLD_NOW) },
        ),
        (Phase::PushingName(func), Event::Pushed(addr)) => (
            at_phase(s, Phase::Finding),
            Action::Call { func, ret: s.ret, first: Some(s.handle), second: Some(addr) },
        ),
        (_, Event::Returned(value)) => returned(s, value),
        (Phase::Restoring, Event::Written(ok)) => (
            at_phase(s, Phase::Done(ok)),
            Action::Finish(ok),
        ),
        _ => failed(s),
    }
}

/// The state in which an injection starts.
pub open spec fn injection_start(word: u64) -> Injection {
    Injection {
        word,
        phase: Phase::Starting,
        entry: 0,
        slot: 0,
        patched: false,
        ret: 0,
        handle: 0,
        reason: 0,
    }
}

/// The entry point is put back and known from this phase on.
pub open spec fn past_trap(phase: Phase) -> bool {
    match phase {
        Phase::Locating
        | Phase::Resolving(_)
        | Phase::PushingPath(_)
        | Phase::Opening
        | Phase::Erring
        | Phase::Measuring
        | Phase::PushingName(_)
        | Phase::Finding
        | Phase::Entering
        | Phase::Restoring
        | Phase::Done(true) => true,
        _ => false,
    }
}

/// The library is open in this phase.
pub open spec fn library_open(phase: Phase) -> bool {
    match phase {
        Phase::Resolving(symbol) => symbol == Symbol::Dlsym,
        Phase::PushingName(_)
        | Phase::Finding
        | Phase::Entering
        | Phase::Restoring
        | Phase::Done(true) => true,
        _ => false,
    }
}

/// What holds of every state that an injection reaches.
pub open spec fn injection_wf(s: Injection) -> bool {
    &&& s.word == 4 || s.word == 8
    &&& past_trap(s.phase) ==> !s.patched && s.entry != 0
    &&& library_open(s.phase) ==> s.handle != 0
    &&& s.phase is Patching || s.phase is Trapping || s.phase is Trapped || s.phase is Unpatching
        ==> s.entry != 0
    &&& s.phase is Trapping || s.phase is Trapped || s.phase is Unpatching ==> s.patched
    &&& s.phase is Starting || s.phase is Argc || s.phase is Env || s.phase is Auxv
        || s.phase is Patching ==> !s.patched
    &&& s.phase is Starting || s.phase is Argc || s.phase is Env || s.phase is Auxv ==> s.entry == 0
}

impl Injection {
    /// An injection into a process with words of `word` bytes.
    pub fn new(word: u64) -> (r: Injection)
        requires
            word == 4 || word == 8,
        ensures
            r == injection_start(word),
            injection_wf(r),
    {
        Injection {
            word,
            phase: Phase::Starting,
            entry: 0,
            slot: 0,
            patched: false,
            ret: 0,
            handle: 0,
            reason: 0,
        }
    }

    fn go(&mut self, phase: Phase, action: Action) -> (r: Action)
        ensures
            *final(self) == at_phase(*old(self), phase),
            r == action,
    {
        self.phase = phase;
        action
    }

    fn fail(&mut self) -> (r: Action)
        ensures
            (*final(self), r) == failed(*old(self)),
    {
        self.go(Phase::Done(false), Action::Finish(false))
    }

    fn end_search(&mut self) -> (r: Action)
        requires
            old(self).word == 4 || old(self).word == 8,
        ensures
            (*final(self), r) == searched(*old(self)),
    {
        if self.entry == 0 {
            return self.fail();
        }
        let value: u64 = self.break_address();
        let addr: u64 = self.slot;
        self.go(Phase::Patching, Action::WriteWord { addr, value })
    }

    /// The address that stands in for the entry point.
    pub fn break_address(&self) -> (r: u64)
        ensures
            r == break_address(self.word, self.entry),
    {
        let base: u64 = if self.word == 8 {
            0xffff_ffff_fa13_e300
        } else {
            0xfa13_e300
        };
        base | (self.entry & 1)
    }

    fn on_resolved(&mut self, symbol: Symbol, addr: u64) -> (r: Action)
        ensures
            (*final(self), r) == resolved(*old(self), symbol, addr),
    {
        let ret: u64 = self.ret;
        match symbol {
            Symbol::Dlopen => self.go(Phase::PushingPath(addr), Action::PushPath),
            Symbol::Dlerror => self.go(
                Phase::Erring,
                Action::Call { func: addr, ret, first: None, second: None },
            ),
            Symbol::Strlen => {
                let reason: u64 = self.reason;
                self.go(
                    Phase::Measuring,
                    Action::Call { func: addr, ret, first: Some(reason), second: None },
                )
            },
            Symbol::Dlsym => self.go(Phase::PushingName(addr), Action::PushName),
        }
    }

    fn on_returned(&mut self, value: u64) -> (r: Action)
        ensures
            (*final(self), r) == returned(*old(self), value),
    {
        match self.phase {
            Phase::Opening => {
                if value == 0 {
                    self.go(
                        Phase::Resolving(Symbol::Dlerror),
                        Action::Resolve(Symbol::Dlerror),
                    )
                } else {
                    self.handle = value;
                    self.go(Phase::Resolving(Symbol::Dlsym), Action::Resolve(Symbol::Dlsym))
                }
            },
            Phase::Erring => {
                if value == 0 {
                    self.fail()
                } else {
                    self.reason = value;
                    self.go(Phase::Resolving(Symbol::Strlen), Action::Resolve(Symbol::Strlen))
                }
            },
            Phase::Measuring => {
                if value == 0 {
                    self.fail()
                } else {
                    let addr: u64 = self.reason;
                    self.go(Phase::Done(false), Action::Report { addr, len: value })
                }
            },
            Phase::Finding => {
                if value == 0 {
                    self.fail()
                } else {
                    let ret: u64 = self.ret;
                    let handle: u64 = self.handle;
                    self.go(
                        Phase::Entering,
                        Action::Call { func: value, ret, first: Some(handle), second: None },
                    )
                }
            },
            _ => {
                let entry: u64 = self.entry;
                self.go(Phase::Restoring, Action::Restore(entry))
            },
        }
    }

    fn on_word(&mut self, word: Option<u64>) -> (r: Action)
        requires
            injection_wf(*old(self)),
            expects(*old(self), Event::Word(word)),
        ensures
            (*final(self), r) == injection_step(*old(self), Event::Word(word)),
    {
        match (self.phase, word) {
            (Phase::Argc { sp }, Some(argc)) => {
                proof {
                    let w = self.word;
                    assert((argc + 1) * w >= 0) by (nonlinear_arith)
                        requires
                            w >= 0,
                    ;
                }
                let at: u64 = sp + self.word + (argc + 1) * self.word;
                self.go(Phase::Env { at }, Action::ReadWord(at))
            },
            (Phase::Env { at }, None) => self.go(Phase::Auxv { at }, Action::ReadAuxv(at)),
            (Phase::Env { at }, Some(value)) => {
                let next: u64 = at + self.word;
                if value == 0 {
                    self.go(Phase::Auxv { at: next }, Action::ReadAuxv(next))
                } else {
                    self.go(Phase::Env { at: next }, Action::ReadWord(next))
                }
            },
            _ => self.fail(),
        }
    }

    fn on_auxv(&mut self, entry: Option<(u64, u64)>) -> (r: Action)
        requires
            injection_wf(*old(self)),
            expects(*old(self), Event::Auxv(entry)),
        ensures
            (*final(self), r) == injection_step(*old(self), Event::Auxv(entry)),
    {
        match (self.phase, entry) {
            (Phase::Auxv { .. }, None) => self.end_search(),
            (Phase::Auxv { at }, Some((kind, value))) => {
                if kind == AT_ENTRY {
                    self.entry = if self.word == 8 {
                        value
                    } else {
                        value as u32 as u64
                    };
                    self.slot = at + self.word;
                    self.end_search()
                } else if kind == AT_NULL {
                    self.end_search()
                } else {
                    let next: u64 = at + 2 * self.word;
                    self.go(Phase::Auxv { at: next }, Action::ReadAuxv(next))
                }
            },
            _ => self.fail(),
        }
    }

    fn on_written(&mut self, ok: bool) -> (r: Action)
        ensures
            (*final(self), r) == injection_step(*old(self), Event::Written(ok)),
    {
        match self.phase {
            Phase::Restoring => self.go(Phase::Done(ok), Action::Finish(ok)),
            Phase::Patching => {
                if !ok {
                    return self.fail();
                }
                self.patched = true;
                self.go(Phase::Trapping, Action::Run)
            },
            Phase::Unpatching => {
                if !ok {
                    return self.fail();
                }
                self.patched = false;
                self.go(Phase::Locating, Action::FindReturn)
            },
            _ => self.fail(),
        }
    }

    fn on_regs(&mut self, regs: Option<(u64, u64)>) -> (r: Action)
        ensures
            (*final(self), r) == injection_step(*old(self), Event::Regs(regs)),
    {
        match (self.phase, regs) {
            (Phase::Starting, Some((sp, _))) => self.go(
                Phase::Argc { sp },
                Action::ReadWord(sp),
            ),
            (Phase::Trapped, Some((_, ip))) => {
                if ip & !1u64 == self.break_address() & !1u64 {
                    let addr: u64 = self.slot;
                    let value: u64 = self.entry;
                    self.go(Phase::Unpatching, Action::WriteWord { addr, value })
                } else {
                    self.fail()
                }
            },
            _ => self.fail(),
        }
    }

    /// Takes one event and tells what to do.
    pub fn step(&mut self, ev: Event) -> (r: Action)
        requires
            injection_wf(*old(self)),
            expects(*old(self), ev),
        ensures
            (*final(self), r) == injection_step(*old(self), ev),
            injection_wf(*final(self)),
    {
        proof {
            law_injection_invariant(*self, ev);
        }
        match ev {
            Event::Regs(regs) => self.on_regs(regs),
            Event::Word(word) => self.on_word(word),
            Event::Auxv(entry) => self.on_auxv(entry),
            Event::Written(ok) => self.on_written(ok),
            Event::Status(status) => {
                match self.phase {
                    Phase::Trapping => {
                        if (status >> 8) & 0xff == SIGSEGV {
                            self.go(Phase::Trapped, Action::ReadRegs)
                        } else {
                            self.fail()
                        }
                    },
                    _ => self.fail(),
                }
            },
            Event::Found(found) => {
                match (self.phase, found) {
                    (Phase::Locating, Some(ret)) => {
                        self.ret = ret;
                        self.go(Phase::Resolving(Symbol::Dlopen), Action::Resolve(Symbol::Dlopen))
                    },
                    (Phase::Resolving(symbol), Some(addr)) => self.on_resolved(symbol, addr),
                    _ => self.fail(),
                }
            },
            Event::Pushed(addr) => {
                let ret: u64 = self.ret;
                match self.phase {
                    Phase::PushingPath(func) => self.go(
                        Phase::Opening,
                        Action::Call { func, ret, first: Some(addr), second: Some(RTLD_NOW) },
                    ),
                    Phase::PushingName(func) => {
                        let handle: u64 = self.handle;
                        self.go(
                            Phase::Finding,
                            Action::Call { func, ret, first: Some(handle), second: Some(addr) },
                        )
                    },
                    _ => self.fail(),
                }
            },
            Event::Returned(value) => self.on_returned(value),
        }
    }
}

/// Every expected event keeps the invariant: no function is called in the
/// process before its entry point was put back, the library's functions are
/// asked for only once it is open, and success leaves the entry point in place.
pub proof fn law_injection_invariant(s: Injection, ev: Event)
    requires
        injection_wf(s),
        expects(s, ev),
    ensures
        injection_wf(injection_step(s, ev).0),
{
}

/// Functions are called in the process only while its entry point is in place.
pub proof fn law_calls_only_when_restored(s: Injection, ev: Event)
    requires
        injection_wf(s),
        expects(s, ev),
    ensures
        injection_step(s, ev).1 is Call ==> !s.patched && s.entry != 0,
{
}

/// Every call returns to the address that was looked up for it, which no other
/// event changes.
pub proof fn law_calls_return_where_found(s: Injection, ev: Event)
    requires
        injection_wf(s),
        expects(s, ev),
    ensures
        injection_step(s, ev).1 matches Action::Call { ret, .. } ==> ret == s.ret,
        s.phase is Locating ==> (ev matches Event::Found(Some(ret)) ==> injection_step(s, ev).0.ret
            == ret),
        s.phase !is Locating ==> injection_step(s, ev).0.ret == s.ret,
{
}

/// An injection succeeds only by putting the first registers back, with the
/// program's entry point as the next instruction.
pub proof fn law_success_comes_last(s: Injection, ev: Event)
    requires
        injection_wf(s),
        expects(s, ev),
    ensures
        injection_step(s, ev).0.phase == Phase::Done(true) ==> s.phase is Restoring && ev
            == Event::Written(true),
        injection_step(s, ev).0.phase is Restoring ==> injection_step(s, ev).1 == Action::Restore(
            s.entry,
        ) && s.entry != 0,
{
}

/// The state after a run of events, where each was expected when it came.
pub open spec fn injection_run(s: Injection, evs: Seq<Event>) -> Option<Injection>
    decreases evs.len(),
{
    if evs.len() == 0 {
        Some(s)
    } else {
        match injection_run(s, evs.drop_last()) {
            Some(t) => if expects(t, evs.last()) {
                Some(injection_step(t, evs.last()).0)
            } else {
                None
            },
            None => None,
        }
    }
}

/// Words as they are read.
pub open spec fn word_events(words: Seq<u64>) -> Seq<Event> {
    words.map_values(|w: u64| Event::Word(Some(w)))
}

/// Entries of the auxiliary vector as they are read.
pub open spec fn auxv_events(entries: Seq<(u64, u64)>) -> Seq<Event> {
    entries.map_values(|e: (u64, u64)| Event::Auxv(Some(e)))
}

/// An environment of words that are not null, ended by a null, is skipped as a
/// whole: the search goes on right behind the null.
pub proof fn law_environment_is_skipped(s: Injection, at: u64, env: Seq<u64>)
    requires
        injection_wf(s),
        s.phase == (Phase::Env { at }),
        forall|i: int| 0 <= i < env.len() ==> env[i] != 0,
        at + (env.len() + 1) * s.word <= max_address(s.word),
    ensures
        injection_run(s, word_events(env.push(0))) == Some(
            at_phase(s, Phase::Auxv { at: (at + (env.len() + 1) * s.word) as u64 }),
        ),
{
    let w = s.word;
    let n = env.len();
    assert((n + 1) * w == n * w + w) by (nonlinear_arith);
    lemma_env_run(s, at, env);
    let evs = word_events(env.push(0));
    assert(evs.drop_last() =~= word_events(env));
}

proof fn lemma_env_run(s: Injection, at: u64, env: Seq<u64>)
    requires
        injection_wf(s),
        s.phase == (Phase::Env { at }),
        forall|i: int| 0 <= i < env.len() ==> env[i] != 0,
        at + env.len() * s.word <= max_address(s.word),
    ensures
        injection_run(s, word_events(env)) == Some(
            at_phase(s, Phase::Env { at: (at + env.len() * s.word) as u64 }),
        ),
    decreases env.len(),
{
    let w = s.word;
    let n = env.len();
    if n > 0 {
        assert(n * w == (n - 1) * w + w) by (nonlinear_arith);
        assert((n - 1) * w >= 0) by (nonlinear_arith)
            requires
                n > 0,
                w >= 0,
        ;
        lemma_env_run(s, at, env.drop_last());
        assert(word_events(env).drop_last() =~= word_events(env.drop_last()));
    }
}

/// The search of the auxiliary vector passes over every entry of another type
/// and takes the first entry point: its value is replaced where it stands.
pub proof fn law_first_entry_is_taken(
    s: Injection,
    at: u64,
    others: Seq<(u64, u64)>,
    entry: u64,
)
    requires
        injection_wf(s),
        s.phase == (Phase::Auxv { at }),
        forall|i: int|
            0 <= i < others.len() ==> (#[trigger] others[i]).0 != AT_ENTRY && others[i].0
                != AT_NULL,
        fit_word(s.word, entry) != 0,
        at + others.len() * (2 * s.word) + s.word <= max_address(s.word),
    ensures
        injection_run(s, auxv_events(others.push((AT_ENTRY, entry)))) == Some(
            Injection {
                entry: fit_word(s.word, entry),
                slot: (at + others.len() * (2 * s.word) + s.word) as u64,
                phase: Phase::Patching,
                ..s
            },
        ),
{
    lemma_auxv_run(s, at, others);
    let evs = auxv_events(others.push((AT_ENTRY, entry)));
    assert(evs.drop_last() =~= auxv_events(others));
}

proof fn lemma_auxv_run(s: Injection, at: u64, others: Seq<(u64, u64)>)
    requires
        injection_wf(s),
        s.phase == (Phase::Auxv { at }),
        forall|i: int|
            0 <= i < others.len() ==> (#[trigger] others[i]).0 != AT_ENTRY && others[i].0
                != AT_NULL,
        at + others.len() * (2 * s.word) <= max_address(s.word),
    ensures
        injection_run(s, auxv_events(others)) == Some(
            at_phase(s, Phase::Auxv { at: (at + others.len() * (2 * s.word)) as u64 }),
        ),
    decreases others.len(),
{
    let w = s.word;
    let n = others.len();
    assert(0 * (2 * w) == 0) by (nonlinear_arith);
    if n > 0 {
        assert(n * (2 * w) == (n - 1) * (2 * w) + 2 * w) by (nonlinear_arith);
        assert((n - 1) * (2 * w) >= 0) by (nonlinear_arith)
            requires
                n > 0,
                w >= 0,
        ;
        lemma_auxv_run(s, at, others.drop_last());
        assert(auxv_events(others).drop_last() =~= auxv_events(others.drop_last()));
        assert(others.last() == others[others.len() - 1]);
    }
}

/// What happens where every step succeeds, from when the entry point was replaced
/// on: the process faults at the address that stands in for it, and is found to
/// hold the functions and the library's entry function.
pub open spec fn smooth_events(
    status: i32,
    regs: (u64, u64),
    ret: u64,
    dlopen: u64,
    path: u64,
    handle: u64,
    dlsym: u64,
    name: u64,
    entry: u64,
    result: u64,
) -> Seq<Event> {
    seq![
        Event::Written(true),
        Event::Status(status),
        Event::Regs(Some(regs)),
        Event::Written(true),
        Event::Found(Some(ret)),
        Event::Found(Some(dlopen)),
        Event::Pushed(path),
        Event::Returned(handle),
        Event::Found(Some(dlsym)),
        Event::Pushed(name),
        Event::Returned(entry),
        Event::Returned(result),
        Event::Written(true),
    ]
}

/// An injection whose every step succeeds succeeds, in a process of either word
/// size, with the entry point back in place.
pub proof fn law_smooth_injection_succeeds(
    s: Injection,
    status: i32,
    regs: (u64, u64),
    ret: u64,
    dlopen: u64,
    path: u64,
    handle: u64,
    dlsym: u64,
    name: u64,
    entry: u64,
    result: u64,
)
    requires
        injection_wf(s),
        s.phase is Patching,
        status_signal(status) == SIGSEGV,
        regs.1 & !1u64 == break_address(s.word, s.entry) & !1u64,
        handle != 0,
        entry != 0,
    ensures
        injection_run(
            s,
            smooth_events(
                status,
                regs,
                ret,
                dlopen,
                path,
                handle,
                dlsym,
                name,
                entry,
                result,
            ),
        ) == Some(Injection { phase: Phase::Done(true), patched: false, ret, handle, ..s }),
{
    let evs = smooth_events(
        status,
        regs,
        ret,
        dlopen,
        path,
        handle,
        dlsym,
        name,
        entry,
        result,
    );
    let back = Injection { patched: false, ..s };
    let located = Injection { ret, ..back };
    let open = Injection { handle, ..located };
    assert(evs.take(0) =~= Seq::empty());
    lemma_run_step(s, evs, 0, s);
    lemma_run_step(s, evs, 1, Injection { patched: true, phase: Phase::Trapping, ..s });
    lemma_run_step(s, evs, 2, Injection { patched: true, phase: Phase::Trapped, ..s });
    lemma_run_step(s, evs, 3, Injection { patched: true, phase: Phase::Unpatching, ..s });
    lemma_run_step(s, evs, 4, at_phase(back, Phase::Locating));
    lemma_run_step(s, evs, 5, at_phase(located, Phase::Resolving(Symbol::Dlopen)));
    lemma_run_step(s, evs, 6, at_phase(located, Phase::PushingPath(dlopen)));
    lemma_run_step(s, evs, 7, at_phase(located, Phase::Opening));
    lemma_run_step(s, evs, 8, at_phase(open, Phase::Resolving(Symbol::Dlsym)));
    lemma_run_step(s, evs, 9, at_phase(open, Phase::PushingName(dlsym)));
    lemma_run_step(s, evs, 10, at_phase(open, Phase::Finding));
    lemma_run_step(s, evs, 11, at_phase(open, Phase::Entering));
    lemma_run_step(s, evs, 12, at_phase(open, Phase::Restoring));
    assert(evs.take(13) =~= evs);
}

proof fn lemma_run_step(s: Injection, evs: Seq<Event>, n: int, t: Injection)
    requires
        0 <= n < evs.len(),
        injection_run(s, evs.take(n)) == Some(t),
        expects(t, evs[n]),
    ensures
        injection_run(s, evs.take(n + 1)) == Some(injection_step(t, evs[n]).0),
{
    assert(evs.take(n + 1).drop_last() =~= evs.take(n));
}

/// The functions of the dynamic linker, whose names start with `dl`, are looked up
/// in its library, and the one that measures text in the C library.
pub proof fn law_where_functions_are_found(symbol: Symbol)
    ensures
        symbol_module(symbol) == "libdl.so"@ <==> symbol_name(symbol).take(2) == "dl"@,
        symbol_module(symbol) == "libc.so"@ <==> symbol_name(symbol) == "strlen"@,
        symbol is Dlopen <==> symbol_name(symbol) == "dlopen"@,
        symbol is Dlerror <==> symbol_name(symbol) == "dlerror"@,
        symbol is Dlsym <==> symbol_name(symbol) == "dlsym"@,
{
    reveal_strlit("libdl.so");
    reveal_strlit("libc.so");
    reveal_strlit("dl");
    reveal_strlit("dlopen");
    reveal_strlit("dlerror");
    reveal_strlit("strlen");
    reveal_strlit("dlsym");
    assert("libdl.so"@.len() != "libc.so"@.len());
    assert("dlopen"@.take(2) =~= "dl"@);
    assert("dlerror"@.take(2) =~= "dl"@);
    assert("dlsym"@.take(2) =~= "dl"@);
    assert("strlen"@.take(2)[0] != "dl"@[0]);
    assert("dlopen"@[0] != "strlen"@[0]);
    assert("dlopen"@.len() == 6 && "dlerror"@.len() == 7 && "dlsym"@.len() == 5);
}

/// The address that stands in for an entry point differs from a fixed one at most
/// in the lowest bit, which is the entry point's.
pub proof fn law_break_address(entry: u64)
    ensures
        break_address(8, entry) == 0xffff_ffff_fa13_e300 + entry % 2,
        break_address(4, entry) == 0xfa13_e300 + entry % 2,
{
    assert(0xffff_ffff_fa13_e300u64 | (entry & 1) == 0xffff_ffff_fa13_e300u64 + entry % 2
        && 0xfa13_e300u64 | (entry & 1) == 0xfa13_e300u64 + entry % 2) by (bit_vector);
}

/// A word of eight bytes keeps all of a number, and one of four what is left after
/// division by 2^32; the highest address is what fills a word.
pub proof fn law_words_of_a_process(v: u64)
    ensures
        fit_word(8, v) == v,
        fit_word(4, v) == v % 0x1_0000_0000,
        max_address(8) == 0x1_0000_0000_0000_0000 - 1,
        max_address(4) == 0x1_0000_0000 - 1,
{
    assert(v as u32 as u64 == v % 0x1_0000_0000) by (bit_vector);
}

/// The stack is read from its pointer on: first the number of arguments; then,
/// behind as many words and one more, the environment. An environment that cannot
/// be read counts as none.
pub proof fn law_stack_is_read(s: Injection, sp: u64, ip: u64, argc: u64, at: u64)
    ensures
        s.phase is Starting ==> injection_step(s, Event::Regs(Some((sp, ip)))) == (
            Injection { phase: Phase::Argc { sp }, ..s },
            Action::ReadWord(sp),
        ),
        s.phase == (Phase::Argc { sp }) && expects(s, Event::Word(Some(argc))) && at == sp + (argc
            + 2) * s.word ==> injection_step(s, Event::Word(Some(argc))) == (
            Injection { phase: Phase::Env { at }, ..s },
            Action::ReadWord(at),
        ),
        s.phase == (Phase::Env { at }) ==> injection_step(s, Event::Word(None)) == (
            Injection { phase: Phase::Auxv { at }, ..s },
            Action::ReadAuxv(at),
        ),
{
    let w = s.word;
    assert(w + (argc + 1) * w == (argc + 2) * w) by (nonlinear_arith);
}

/// In the auxiliary vector an entry of type 9 holds the entry point, a word behind
/// the entry's start, and there the standing-in address is written; an entry of
/// type 0, or one that cannot be read, ends the search without success, and any
/// other is passed over.
pub proof fn law_entry_point_is_replaced(s: Injection, at: u64, kind: u64, value: u64)
    requires
        s.word == 8 || s.word == 4,
        s.phase == (Phase::Auxv { at }),
        s.entry == 0,
        expects(s, Event::Auxv(Some((kind, value)))),
        s.word == 4 ==> value <= 0xffff_ffff,
    ensures
        ({
            let next = injection_step(s, Event::Auxv(Some((kind, value))));
            &&& kind == 9 && value != 0 ==> next.0.entry == value && next.0.phase is Patching
                && next.1 == (Action::WriteWord {
                addr: (at + s.word) as u64,
                value: break_address(s.word, value),
            })
            &&& kind == 9 && value == 0 ==> next.1 == Action::Finish(false)
            &&& kind == 0 ==> next.1 == Action::Finish(false)
            &&& kind != 9 && kind != 0 ==> next.1 == Action::ReadAuxv((at + 2 * s.word) as u64)
                && next.0.entry == 0
        }),
        injection_step(s, Event::Auxv(None)).1 == Action::Finish(false),
{
    if s.word == 4 {
        assert(value as u32 as u64 == value) by (bit_vector)
            requires
                value <= 0xffff_ffffu64,
        ;
    }
}

/// A process that runs into the trap stops on signal 11, at the standing-in
/// address but for the lowest bit; then the entry point is written back where it
/// stood. A stop on another signal, or elsewhere, is a failure.
pub proof fn law_trap_is_recognised(
    s: Injection,
    status: i32,
    signal: i32,
    event: i32,
    sp: u64,
    ip: u64,
)
    requires
        0 <= signal < 256,
        0 <= event < 256,
        status == event * 65536 + signal * 256 + 127,
    ensures
        s.phase is Patching ==> injection_step(s, Event::Written(true)).1 == Action::Run,
        s.phase is Trapping ==> injection_step(s, Event::Status(status)).1 == (if signal == 11 {
            Action::ReadRegs
        } else {
            Action::Finish(false)
        }),
        s.phase is Trapped ==> injection_step(s, Event::Regs(Some((sp, ip)))).1 == (if ip / 2
            == break_address(s.word, s.entry) / 2 {
            Action::WriteWord { addr: s.slot, value: s.entry }
        } else {
            Action::Finish(false)
        }),
        s.phase is Unpatching ==> injection_step(s, Event::Written(true)).1 == Action::FindReturn,
{
    assert((status >> 8) & 0xff == signal) by (bit_vector)
        requires
            0 <= signal < 256,
            0 <= event < 256,
            status == event * 65536 + signal * 256 + 127,
    ;
    let b = break_address(s.word, s.entry);
    assert((ip & !1u64 == b & !1u64) == (ip / 2 == b / 2)) by (bit_vector);
}

/// The library is opened by its path and the number 2; its entry function is looked
/// up by name in it, and called with the library itself. Where the library does
/// not open, the reason is asked for, measured and reported.
pub proof fn law_calls_into_the_process(s: Injection, addr: u64, value: u64)
    ensures
        s.phase is Locating ==> injection_step(s, Event::Found(Some(addr))) == (
            Injection { ret: addr, phase: Phase::Resolving(Symbol::Dlopen), ..s },
            Action::Resolve(Symbol::Dlopen),
        ),
        s.phase == Phase::Resolving(Symbol::Dlopen) ==> ({
            let (t, a) = injection_step(s, Event::Found(Some(addr)));
            &&& a == Action::PushPath
            &&& injection_step(t, Event::Pushed(value)).1 == (Action::Call {
                func: addr,
                ret: s.ret,
                first: Some(value),
                second: Some(2),
            })
            &&& injection_step(t, Event::Pushed(value)).0 == (Injection {
                phase: Phase::Opening,
                ..s
            })
        }),
        s.phase is Opening && value != 0 ==> injection_step(s, Event::Returned(value)) == (
            Injection { handle: value, phase: Phase::Resolving(Symbol::Dlsym), ..s },
            Action::Resolve(Symbol::Dlsym),
        ),
        s.phase is Opening ==> injection_step(s, Event::Returned(0)) == (
            Injection { phase: Phase::Resolving(Symbol::Dlerror), ..s },
            Action::Resolve(Symbol::Dlerror),
        ),
        s.phase == Phase::Resolving(Symbol::Dlsym) ==> ({
            let (t, a) = injection_step(s, Event::Found(Some(addr)));
            &&& a == Action::PushName
            &&& injection_step(t, Event::Pushed(value)) == (
                Injection { phase: Phase::Finding, ..s },
                Action::Call { func: addr, ret: s.ret, first: Some(s.handle), second: Some(value) },
            )
        }),
        s.phase is Finding && value != 0 ==> injection_step(s, Event::Returned(value)) == (
            Injection { phase: Phase::Entering, ..s },
            Action::Call { func: value, ret: s.ret, first: Some(s.handle), second: None },
        ),
        s.phase is Entering ==> injection_step(s, Event::Returned(value)) == (
            Injection { phase: Phase::Restoring, ..s },
            Action::Restore(s.entry),
        ),
        s.phase == Phase::Resolving(Symbol::Dlerror) ==> injection_step(
            s,
            Event::Found(Some(addr)),
        ) == (
            Injection { phase: Phase::Erring, ..s },
            Action::Call { func: addr, ret: s.ret, first: None, second: None },
        ),
        s.phase is Erring && value != 0 ==> injection_step(s, Event::Returned(value)) == (
            Injection { reason: value, phase: Phase::Resolving(Symbol::Strlen), ..s },
            Action::Resolve(Symbol::Strlen),
        ),
        s.phase == Phase::Resolving(Symbol::Strlen) ==> injection_step(
            s,
            Event::Found(Some(addr)),
        ) == (
            Injection { phase: Phase::Measuring, ..s },
            Action::Call { func: addr, ret: s.ret, first: Some(s.reason), second: None },
        ),
        s.phase is Measuring && value != 0 ==> injection_step(s, Event::Returned(value)) == (
            Injection { phase: Phase::Done(false), ..s },
            Action::Report { addr: s.reason, len: value },
        ),
{
}

/// What cannot be read, written or found ends the injection without success, and
/// so does a function that gives nothing back, except where the library does not
/// open, of which the reason is asked for.
pub proof fn law_what_stops_an_injection(s: Injection)
    ensures
        s.phase is Starting || s.phase is Trapped ==> injection_step(s, Event::Regs(None)).1
            == Action::Finish(false),
        s.phase is Argc ==> injection_step(s, Event::Word(None)).1 == Action::Finish(false),
        s.phase is Patching || s.phase is Unpatching || s.phase is Restoring ==> injection_step(
            s,
            Event::Written(false),
        ).1 == Action::Finish(false),
        s.phase is Restoring ==> injection_step(s, Event::Written(true)) == (
            Injection { phase: Phase::Done(true), ..s },
            Action::Finish(true),
        ),
        s.phase is Locating || s.phase is Resolving ==> injection_step(s, Event::Found(None)).1
            == Action::Finish(false),
        s.phase is Erring || s.phase is Measuring || s.phase is Finding ==> injection_step(
            s,
            Event::Returned(0),
        ).1 == Action::Finish(false),
{
}

} // verus!
