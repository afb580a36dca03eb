//! Replacing the functions that native code calls in the Java machine.

use vstd::prelude::*;
use vstd::string::*;

use crate::text::same_text;

verus! {

/// The functions in a table.
pub const JNI_TABLE_ENTRIES: usize = 256;

/// Where functions stand in the table.
#[derive(Clone, Copy, PartialEq, Eq, Structural)]
pub struct JniOffsets {
    pub get_object_class: usize,
    pub get_method_id: usize,
    pub call_object_method: usize,
    pub get_string_utf_chars: usize,
    pub release_string_utf_chars: usize,
}

/// Where functions stand in the table, once that is known.
#[derive(Clone, Copy, PartialEq, Eq, Structural)]
pub struct JniOffsetsCell {
    data: Option<JniOffsets>,
}

impl View for JniOffsetsCell {
    type V = Option<JniOffsets>;

    closed spec fn view(&self) -> Option<JniOffsets> {
        self.data
    }
}

impl JniOffsetsCell {
    /// Nothing is known.
    pub fn new() -> (r: JniOffsetsCell)
        ensures
            r@ is None,
    {
        JniOffsetsCell { data: None }
    }

    /// Notes where functions stand.
    pub fn init(&mut self, offsets: JniOffsets)
        ensures
            final(self)@ == Some(offsets),
    {
        self.data = Some(offsets);
    }

    /// Tells where functions stand, where that is known.
    pub fn get(&self) -> (r: Option<JniOffsets>)
        ensures
            r == self@,
    {
        self.data
    }
}

/// Entry `i` of the table is the first that holds `addr`.
pub open spec fn is_first(table: Seq<usize>, addr: usize, i: int) -> bool {
    0 <= i < table.len() && i < JNI_TABLE_ENTRIES && table[i] == addr && forall|k: int|
        0 <= k < i ==> table[k] != addr
}

/// Finds the first entry of the table that holds `addr`. A function at 0 was not
/// found and is not looked for.
pub fn find_jni_function_offset(table: &[usize], addr: usize) -> (r: Option<usize>)
    ensures
        match r {
            Some(i) => addr != 0 && is_first(table@, addr, i as int),
            None => addr == 0 || forall|i: int| !is_first(table@, addr, i),
        },
{
    if addr == 0 {
        return None;
    }
    let mut i: usize = 0;
    while i < table.len() && i < JNI_TABLE_ENTRIES
        invariant
            addr != 0,
            i <= table@.len(),
            i <= JNI_TABLE_ENTRIES,
            forall|k: int| 0 <= k < i ==> table@[k] != addr,
        decreases table@.len() - i,
    {
        if table[i] == addr {
            return Some(i);
        }
        i = i + 1;
    }
    None
}

/// `v`, or where a function stands by the standard.
pub open spec fn or_standard(v: Option<usize>, standard: usize) -> usize {
    match v {
        Some(o) => o,
        None => standard,
    }
}

fn or_else(v: Option<usize>, standard: usize) -> (r: usize)
    ensures
        r == or_standard(v, standard),
{
    match v {
        Some(o) => o,
        None => standard,
    }
}

/// Where functions stand, by the standard for those that were not found.
pub open spec fn jni_offsets_spec(
    get_object_class: Option<usize>,
    get_method_id: Option<usize>,
    call_object_method: Option<usize>,
    get_string_utf_chars: Option<usize>,
    release_string_utf_chars: Option<usize>,
) -> JniOffsets {
    JniOffsets {
        get_object_class: or_standard(get_object_class, 31),
        get_method_id: or_standard(get_method_id, 33),
        call_object_method: or_standard(call_object_method, 34),
        get_string_utf_chars: or_standard(get_string_utf_chars, 169),
        release_string_utf_chars: or_standard(release_string_utf_chars, 170),
    }
}

/// Notes where functions stand, by the standard for those that were not found.
pub fn init_jni_offsets(
    get_object_class: Option<usize>,
    get_method_id: Option<usize>,
    call_object_method: Option<usize>,
    get_string_utf_chars: Option<usize>,
    release_string_utf_chars: Option<usize>,
) -> (r: JniOffsets)
    ensures
        r == (JniOffsets {
            get_object_class: or_standard(get_object_class, 31),
            get_method_id: or_standard(get_method_id, 33),
            call_object_method: or_standard(call_object_method, 34),
            get_string_utf_chars: or_standard(get_string_utf_chars, 169),
            release_string_utf_chars: or_standard(release_string_utf_chars, 170),
        }),
        r == jni_offsets_spec(
            get_object_class,
            get_method_id,
            call_object_method,
            get_string_utf_chars,
            release_string_utf_chars,
        ),
{
    JniOffsets {
        get_object_class: or_else(get_object_class, 31),
        get_method_id: or_else(get_method_id, 33),
        call_object_method: or_else(call_object_method, 34),
        get_string_utf_chars: or_else(get_string_utf_chars, 169),
        release_string_utf_chars: or_else(release_string_utf_chars, 170),
    }
}

/// The native methods of the class of this name are replaced.
pub open spec fn is_zygote_class(class_name: Option<Seq<char>>) -> bool {
    class_name == Some("com.android.internal.os.Zygote"@)
}

/// The arguments of a call that registers native methods: addresses, and how many
/// methods there are.
#[derive(Clone, Copy, PartialEq, Eq, Structural)]
pub struct RegisterCall {
    pub env: usize,
    pub class: usize,
    pub methods: usize,
    pub count: i32,
}

/// What is done when native methods are registered.
#[derive(Clone, Copy, PartialEq, Eq, Structural)]
pub enum RegisterStep {
    /// Put other functions in place of those in the table.
    ReplaceMethods { env: usize, methods: usize, count: i32 },
    /// Call the function at `func` with these arguments, and return what it
    /// returns.
    CallAndReturn { func: usize, args: RegisterCall },
    /// Return this.
    Return(i32),
}

/// What is done, in this order, when native methods of a class are registered;
/// `orig` is the function that registers them, or 0 where that is not known.
pub open spec fn register_steps(
    orig: usize,
    class_name: Option<Seq<char>>,
    args: RegisterCall,
) -> Seq<RegisterStep> {
    if orig == 0 {
        seq![RegisterStep::Return(0)]
    } else if is_zygote_class(class_name) {
        seq![
            RegisterStep::ReplaceMethods {
                env: args.env,
                methods: args.methods,
                count: args.count,
            },
            RegisterStep::CallAndReturn { func: orig, args },
        ]
    } else {
        seq![RegisterStep::CallAndReturn { func: orig, args }]
    }
}

/// Tells what to do when native methods of a class are registered: a list of
/// steps, of which the last one returns. `class_name` is the name of the class,
/// where it could be found.
pub fn hook_register_natives(orig: usize, class_name: Option<&str>, args: RegisterCall) -> (r: Vec<
    RegisterStep,
>)
    ensures
        r@ == register_steps(
            orig,
            match class_name {
                Some(n) => Some(n@),
                None => None,
            },
            args,
        ),
{
    let mut steps: Vec<RegisterStep> = Vec::new();
    if orig == 0 {
        steps.push(RegisterStep::Return(0));
        return steps;
    }
    let replace = match class_name {
        Some(n) => same_text(n, "com.android.internal.os.Zygote"),
        None => false,
    };
    if replace {
        steps.push(
            RegisterStep::ReplaceMethods {
                env: args.env,
                methods: args.methods,
                count: args.count,
            },
        );
    }
    steps.push(RegisterStep::CallAndReturn { func: orig, args });
    steps
}

/// Where the function that registers native methods is known, it is called
/// exactly once, with the arguments that came, as the last thing that is done;
/// methods are replaced before that, and only those of a zygote's class.
pub proof fn law_registering_goes_on(
    orig: usize,
    class_name: Option<Seq<char>>,
    args: RegisterCall,
)
    requires
        orig != 0,
    ensures
        ({
            let s = register_steps(orig, class_name, args);
            &&& s.last() == (RegisterStep::CallAndReturn { func: orig, args })
            &&& forall|i: int|
                0 <= i < s.len() - 1 ==> is_zygote_class(class_name) && #[trigger] s[i]
                    == (RegisterStep::ReplaceMethods {
                    env: args.env,
                    methods: args.methods,
                    count: args.count,
                })
        }),
        is_zygote_class(class_name) <==> exists|i: int|
            0 <= i < register_steps(orig, class_name, args).len() && #[trigger] register_steps(
                orig,
                class_name,
                args,
            )[i] is ReplaceMethods,
{
    let s = register_steps(orig, class_name, args);
    if is_zygote_class(class_name) {
        assert(s[0] is ReplaceMethods);
    }
}

/// Puts `hook` in place of the first entry that holds `addr`.
pub fn replace_entry(table: &mut Vec<usize>, addr: usize, hook: usize) -> (r: Option<usize>)
    ensures
        match r {
            Some(i) => addr != 0 && is_first(old(table)@, addr, i as int) && final(table)@
                == old(table)@.update(i as int, hook),
            None => (addr == 0 || forall|i: int| !is_first(old(table)@, addr, i)) && final(table)@
                == old(table)@,
        },
{
    match find_jni_function_offset(table.as_slice(), addr) {
        Some(i) => {
            table.set(i, hook);
            Some(i)
        },
        None => None,
    }
}

/// Where replacing the functions stands.
#[derive(Clone, Copy, PartialEq, Eq, Structural)]
pub enum Phase {
    /// The function that lists machines is being looked up.
    FindingList,
    /// The machine is being asked for.
    FindingVm,
    /// The environment is being asked for.
    FindingEnv,
    /// The environment's table is being read.
    ReadingTable,
    /// Memory for a copy of the table is being mapped.
    Allocating,
    /// The table is being copied, and functions are being looked up in it.
    Copying,
    /// The function that registers methods is being looked up.
    FindingRegister,
    /// The function is being replaced in the copy.
    Replacing,
    /// The copy is being put in the table's place.
    Installing,
    /// The functions are replaced, or not.
    Done(bool),
}

/// What happened.
#[derive(Clone, Copy, PartialEq, Eq, Structural)]
pub enum Event {
    /// The address that was looked up, 0 where it was not found.
    Address(usize),
    /// What asking for the machine gave: the result, how many there are, and the
    /// first.
    Vm { ret: i32, count: i32, vm: usize },
    /// What asking for the environment gave.
    Env { ret: i32, env: usize },
    /// Whether the last action succeeded.
    Finished(bool),
}

/// What is to be done next.
#[derive(Clone, Copy, PartialEq, Eq, Structural)]
pub enum Action {
    FindList,
    /// Ask for the machine, by the function at this address.
    FindVm(usize),
    /// Ask this machine for the environment.
    FindEnv(usize),
    /// Read the table of this environment.
    ReadTable(usize),
    /// Map memory for the copy.
    Allocate,
    /// Copy this table, and note where functions stand.
    Copy(usize),
    FindRegister,
    /// Replace the function at this address in the copy.
    Replace(usize),
    /// Put the copy in the place of the environment's table.
    Install,
    Finish(bool),
}

/// The state of replacing the functions.
#[derive(Clone, Copy, PartialEq, Eq, Structural)]
pub struct JniHook {
    pub phase: Phase,
    /// Replacing is not to be tried again: the functions are replaced or being
    /// replaced, or no memory could be mapped for the copy.
    pub hooked: bool,
    pub vm: usize,
    pub env: usize,
    /// The table before it was replaced.
    pub orig_functions: usize,
    /// The function that registered methods before.
    pub orig_register: usize,
}

/// The events that can come in a phase.
pub open spec fn expects(phase: Phase, ev: Event) -> bool {
    match phase {
        Phase::FindingList | Phase::ReadingTable | Phase::FindingRegister => ev is Address,
        Phase::FindingVm => ev is Vm,
        Phase::FindingEnv => ev is Env,
        Phase::Done(_) => false,
        _ => ev is Finished,
    }
}

/// Replacing failed, and may be tried again.
pub open spec fn released(s: JniHook) -> (JniHook, Action) {
    (JniHook { phase: Phase::Done(false), hooked: false, ..s }, Action::Finish(false))
}

/// The state after an event, and what to do.
pub open spec fn jni_step(s: JniHook, ev: Event) -> (JniHook, Action) {
    match (s.phase, ev) {
        (Phase::FindingList, Event::Address(sym)) => if sym == 0 {
            released(s)
        } else {
            (JniHook { phase: Phase::FindingVm, ..s }, Action::FindVm(sym))
        },
        (Phase::FindingVm, Event::Vm { ret, count, vm }) => if ret != 0 || count == 0 || vm == 0 {
            released(s)
        } else {
            (JniHook { phase: Phase::FindingEnv, vm, ..s }, Action::FindEnv(vm))
        },
        (Phase::FindingEnv, Event::Env { ret, env }) => if ret != 0 || env == 0 {
            released(s)
        } else {
            (JniHook { phase: Phase::ReadingTable, env, ..s }, Action::ReadTable(env))
        },
        (Phase::ReadingTable, Event::Address(table)) => if table == 0 {
            released(s)
        } else {
            (
                JniHook { phase: Phase::Allocating, orig_functions: table, ..s },
                Action::Allocate,
            )
        },
        (Phase::Allocating, Event::Finished(ok)) => if ok {
            (JniHook { phase: Phase::Copying, ..s }, Action::Copy(s.orig_functions))
        } else {
            (JniHook { phase: Phase::Done(false), ..s }, Action::Finish(false))
        },
        (Phase::Copying, Event::Finished(_)) => (
            JniHook { phase: Phase::FindingRegister, ..s },
            Action::FindRegister,
        ),
        (Phase::FindingRegister, Event::Address(sym)) => if sym == 0 {
            released(s)
        } else {
            (JniHook { phase: Phase::Replacing, orig_register: sym, ..s }, Action::Replace(sym))
        },
        (Phase::Replacing, Event::Finished(ok)) => if ok {
            (JniHook { phase: Phase::Installing, ..s }, Action::Install)
        } else {
            released(JniHook { orig_register: 0, ..s })
        },
        (Phase::Installing, Event::Finished(_)) => (
            JniHook { phase: Phase::Done(true), ..s },
            Action::Finish(true),
        ),
        _ => released(s),
    }
}

/// What holds of every state: what was found so far is known.
pub open spec fn jni_wf(s: JniHook) -> bool {
    &&& s.phase !is Done ==> s.hooked
    &&& s.phase == Phase::Done(true) ==> s.hooked
    &&& (match s.phase {
        Phase::FindingEnv => s.vm != 0,
        Phase::ReadingTable => s.vm != 0 && s.env != 0,
        Phase::Allocating | Phase::Copying | Phase::FindingRegister => s.vm != 0 && s.env != 0
            && s.orig_functions != 0,
        Phase::Replacing | Phase::Installing | Phase::Done(true) => s.vm != 0 && s.env != 0
            && s.orig_functions != 0 && s.orig_register != 0,
        _ => true,
    })
}

impl JniHook {
    /// Starts replacing the functions; `None` where that is not to be tried again,
    /// because they are replaced already or being replaced, or because no memory
    /// could be mapped for the copy when it was tried.
    pub fn start(hooked: bool) -> (r: Option<JniHook>)
        ensures
            r is None <==> hooked,
            r matches Some(s) ==> jni_wf(s) && s == (JniHook {
                phase: Phase::FindingList,
                hooked: true,
                vm: 0,
                env: 0,
                orig_functions: 0,
                orig_register: 0,
            }),
    {
        if hooked {
            None
        } else {
            Some(
                JniHook {
                    phase: Phase::FindingList,
                    hooked: true,
                    vm: 0,
                    env: 0,
                    orig_functions: 0,
                    orig_register: 0,
                },
            )
        }
    }

    fn release(&mut self) -> (r: Action)
        ensures
            (*final(self), r) == released(*old(self)),
    {
        self.phase = Phase::Done(false);
        self.hooked = false;
        Action::Finish(false)
    }

    /// Takes one event and tells what to do.
    pub fn hook_jni_env(&mut self, ev: Event) -> (r: Action)
        requires
            jni_wf(*old(self)),
            expects(old(self).phase, ev),
        ensures
            (*final(self), r) == jni_step(*old(self), ev),
            jni_wf(*final(self)),
    {
        match (self.phase, ev) {
            (Phase::FindingList, Event::Address(sym)) => {
                if sym == 0 {
                    return self.release();
                }
                self.phase = Phase::FindingVm;
                Action::FindVm(sym)
            },
            (Phase::FindingVm, Event::Vm { ret, count, vm }) => {
                if ret != 0 || count == 0 || vm == 0 {
                    return self.release();
                }
                self.vm = vm;
                self.phase = Phase::FindingEnv;
                Action::FindEnv(vm)
            },
            (Phase::FindingEnv, Event::Env { ret, env }) => {
                if ret != 0 || env == 0 {
                    return self.release();
                }
                self.env = env;
                self.phase = Phase::ReadingTable;
                Action::ReadTable(env)
            },
            (Phase::ReadingTable, Event::Address(table)) => {
                if table == 0 {
                    return self.release();
                }
                self.orig_functions = table;
                self.phase = Phase::Allocating;
                Action::Allocate
            },
            (Phase::Allocating, Event::Finished(ok)) => {
                if ok {
                    self.phase = Phase::Copying;
                    Action::Copy(self.orig_functions)
                } else {
                    self.phase = Phase::Done(false);
                    Action::Finish(false)
                }
            },
            (Phase::Copying, Event::Finished(_)) => {
                self.phase = Phase::FindingRegister;
                Action::FindRegister
            },
            (Phase::FindingRegister, Event::Address(sym)) => {
                if sym == 0 {
                    return self.release();
                }
                self.orig_register = sym;
                self.phase = Phase::Replacing;
                Action::Replace(sym)
            },
            (Phase::Replacing, Event::Finished(ok)) => {
                if ok {
                    self.phase = Phase::Installing;
                    Action::Install
                } else {
                    self.orig_register = 0;
                    self.release()
                }
            },
            (Phase::Installing, Event::Finished(_)) => {
                self.phase = Phase::Done(true);
                Action::Finish(true)
            },
            _ => self.release(),
        }
    }
}

/// A failure lets replacing be tried again, unless it was the memory for the
/// copy that could not be mapped; success is claimed only with the table and the
/// function known that were there before.
pub proof fn law_failed_hook_can_be_retried(s: JniHook, ev: Event)
    requires
        jni_wf(s),
        expects(s.phase, ev),
    ensures
        ({
            let t = jni_step(s, ev).0;
            &&& t.phase == Phase::Done(false) ==> t.hooked == (s.phase is Allocating)
            &&& t.phase == Phase::Done(true) ==> t.hooked && t.orig_functions != 0
                && t.orig_register != 0 && s.phase is Installing
        }),
{
}

/// Replacing an entry and putting it back leaves the table as it was.
pub proof fn law_replaced_entry_can_be_put_back(table: Seq<usize>, addr: usize, hook: usize, i: int)
    requires
        is_first(table, addr, i),
    ensures
        table.update(i, hook).update(i, addr) == table,
        forall|k: int| 0 <= k < table.len() && k != i ==> table.update(i, hook)[k] == table[k],
{
    assert(table.update(i, hook).update(i, addr) =~= table);
}

/// The table of an environment is put back.
pub open spec fn restores_env(orig_functions: usize, env: usize) -> bool {
    orig_functions != 0 && env != 0
}

/// Tells whether the table of an environment is put back.
pub fn restore_jni_env(orig_functions: usize, env: usize) -> (r: bool)
    ensures
        r == (orig_functions != 0 && env != 0),
        r == restores_env(orig_functions, env),
{
    orig_functions != 0 && env != 0
}

/// A function that was found stands where it was found, whatever became of the
/// others; those that were not found stand where the standard has them.
pub proof fn law_offsets(
    a: Option<usize>,
    b: Option<usize>,
    c: Option<usize>,
    d: Option<usize>,
    e: Option<usize>,
)
    ensures
        ({
            let o = jni_offsets_spec(a, b, c, d, e);
            &&& a is Some ==> o.get_object_class == a.unwrap()
            &&& b is Some ==> o.get_method_id == b.unwrap()
            &&& c is Some ==> o.call_object_method == c.unwrap()
            &&& d is Some ==> o.get_string_utf_chars == d.unwrap()
            &&& e is Some ==> o.release_string_utf_chars == e.unwrap()
            &&& a is None ==> o.get_object_class == 31
            &&& b is None ==> o.get_method_id == 33
            &&& c is None ==> o.call_object_method == 34
            &&& d is None ==> o.get_string_utf_chars == 169
            &&& e is None ==> o.release_string_utf_chars == 170
        }),
{
}

/// In a table that starts with entries other than `addr` and goes on with `addr`,
/// that entry is found and no other, as long as it is one of the first 256.
pub proof fn law_entry_is_found(before: Seq<usize>, addr: usize, after: Seq<usize>, i: int)
    requires
        !before.contains(addr),
    ensures
        is_first(before + seq![addr] + after, addr, i) <==> i == before.len() && i < 256,
        !is_first(before, addr, i),
{
    let t = before + seq![addr] + after;
    assert(t[before.len() as int] == addr);
    assert forall|k: int| 0 <= k < before.len() implies t[k] != addr by {
        assert(t[k] == before[k]);
    }
}

/// Methods are replaced for the class `com.android.internal.os.Zygote` and no
/// other; where the function that registers methods is not known, 0 is returned
/// and nothing else done.
pub proof fn law_whose_methods_are_replaced(orig: usize, name: Seq<char>, args: RegisterCall)
    ensures
        register_steps(0, Some(name), args) == seq![RegisterStep::Return(0)],
        register_steps(0, None, args) == seq![RegisterStep::Return(0)],
        orig != 0 ==> register_steps(orig, None, args) == seq![
            RegisterStep::CallAndReturn { func: orig, args },
        ],
        orig != 0 && name != "com.android.internal.os.Zygote"@ ==> register_steps(
            orig,
            Some(name),
            args,
        ) == seq![RegisterStep::CallAndReturn { func: orig, args }],
        orig != 0 && name == "com.android.internal.os.Zygote"@ ==> register_steps(
            orig,
            Some(name),
            args,
        ) == seq![
            RegisterStep::ReplaceMethods {
                env: args.env,
                methods: args.methods,
                count: args.count,
            },
            RegisterStep::CallAndReturn { func: orig, args },
        ],
{
}

/// The state after a run of events, where each was expected when it came, and
/// what was to be done after each.
pub open spec fn jni_run(s: JniHook, evs: Seq<Event>) -> Option<(JniHook, Seq<Action>)>
    decreases evs.len(),
{
    if evs.len() == 0 {
        Some((s, Seq::empty()))
    } else {
        match jni_run(s, evs.drop_last()) {
            Some((t, done)) => if expects(t.phase, evs.last()) {
                Some((jni_step(t, evs.last()).0, done.push(jni_step(t, evs.last()).1)))
            } else {
                None
            },
            None => None,
        }
    }
}

/// Where every step succeeds, the first machine's environment gets a copy of its
/// table in which the function that registers methods is replaced; the table and
/// the function that were there are remembered.
pub proof fn law_smooth_replacing_succeeds(
    s: JniHook,
    list: usize,
    count: i32,
    vm: usize,
    env: usize,
    table: usize,
    register: usize,
)
    requires
        s.phase is FindingList,
        list != 0,
        count != 0,
        vm != 0,
        env != 0,
        table != 0,
        register != 0,
    ensures
        jni_run(
            s,
            seq![
                Event::Address(list),
                Event::Vm { ret: 0, count, vm },
                Event::Env { ret: 0, env },
                Event::Address(table),
                Event::Finished(true),
                Event::Finished(true),
                Event::Address(register),
                Event::Finished(true),
                Event::Finished(true),
            ],
        ) == Some(
            (
                JniHook {
                    phase: Phase::Done(true),
                    hooked: s.hooked,
                    vm,
                    env,
                    orig_functions: table,
                    orig_register: register,
                },
                seq![
                    Action::FindVm(list),
                    Action::FindEnv(vm),
                    Action::ReadTable(env),
                    Action::Allocate,
                    Action::Copy(table),
                    Action::FindRegister,
                    Action::Replace(register),
                    Action::Install,
                    Action::Finish(true),
                ],
            ),
        ),
{
    let s1 = JniHook { phase: Phase::FindingVm, ..s };
    let s2 = JniHook { phase: Phase::FindingEnv, vm, ..s1 };
    let s3 = JniHook { phase: Phase::ReadingTable, env, ..s2 };
    let s4 = JniHook { phase: Phase::Allocating, orig_functions: table, ..s3 };
    let s5 = JniHook { phase: Phase::Copying, ..s4 };
    let s6 = JniHook { phase: Phase::FindingRegister, ..s5 };
    let s7 = JniHook { phase: Phase::Replacing, orig_register: register, ..s6 };
    let s8 = JniHook { phase: Phase::Installing, ..s7 };
    let s9 = JniHook { phase: Phase::Done(true), ..s8 };
    let e0 = Seq::<Event>::empty();
    let a0 = Seq::<Action>::empty();
    lemma_one_event_more(s, e0, Event::Address(list), s, a0, s1, Action::FindVm(list));
    let e1 = e0.push(Event::Address(list));
    let a1 = a0.push(Action::FindVm(list));
    lemma_one_event_more(s, e1, Event::Vm { ret: 0, count, vm }, s1, a1, s2, Action::FindEnv(vm));
    let e2 = e1.push(Event::Vm { ret: 0, count, vm });
    let a2 = a1.push(Action::FindEnv(vm));
    lemma_one_event_more(s, e2, Event::Env { ret: 0, env }, s2, a2, s3, Action::ReadTable(env));
    let e3 = e2.push(Event::Env { ret: 0, env });
    let a3 = a2.push(Action::ReadTable(env));
    lemma_one_event_more(s, e3, Event::Address(table), s3, a3, s4, Action::Allocate);
    let e4 = e3.push(Event::Address(table));
    let a4 = a3.push(Action::Allocate);
    lemma_one_event_more(s, e4, Event::Finished(true), s4, a4, s5, Action::Copy(table));
    let e5 = e4.push(Event::Finished(true));
    let a5 = a4.push(Action::Copy(table));
    lemma_one_event_more(s, e5, Event::Finished(true), s5, a5, s6, Action::FindRegister);
    let e6 = e5.push(Event::Finished(true));
    let a6 = a5.push(Action::FindRegister);
    lemma_one_event_more(s, e6, Event::Address(register), s6, a6, s7, Action::Replace(register));
    let e7 = e6.push(Event::Address(register));
    let a7 = a6.push(Action::Replace(register));
    lemma_one_event_more(s, e7, Event::Finished(true), s7, a7, s8, Action::Install);
    let e8 = e7.push(Event::Finished(true));
    let a8 = a7.push(Action::Install);
    lemma_one_event_more(s, e8, Event::Finished(true), s8, a8, s9, Action::Finish(true));
    assert(e8.push(Event::Finished(true)) =~= seq![
        Event::Address(list),
        Event::Vm { ret: 0, count, vm },
        Event::Env { ret: 0, env },
        Event::Address(table),
        Event::Finished(true),
        Event::Finished(true),
        Event::Address(register),
        Event::Finished(true),
        Event::Finished(true),
    ]);
    assert(a8.push(Action::Finish(true)) =~= seq![
        Action::FindVm(list),
        Action::FindEnv(vm),
        Action::ReadTable(env),
        Action::Allocate,
        Action::Copy(table),
        Action::FindRegister,
        Action::Replace(register),
        Action::Install,
        Action::Finish(true),
    ]);
}

proof fn lemma_one_event_more(
    s: JniHook,
    evs: Seq<Event>,
    ev: Event,
    t: JniHook,
    done: Seq<Action>,
    u: JniHook,
    action: Action,
)
    requires
        jni_run(s, evs) == Some((t, done)),
        expects(t.phase, ev),
        jni_step(t, ev) == (u, action),
    ensures
        jni_run(s, evs.push(ev)) == Some((u, done.push(action))),
{
    assert(evs.push(ev).drop_last() =~= evs);
}

/// Replacing ends in failure exactly where something that is looked up is
/// missing, a call fails, or no memory can be mapped.
pub proof fn law_what_stops_replacing(s: JniHook, ev: Event)
    requires
        s.phase !is Done,
        expects(s.phase, ev),
    ensures
        jni_step(s, ev).1 == Action::Finish(false) <==> (match ev {
            Event::Address(a) => a == 0,
            Event::Vm { ret, count, vm } => ret != 0 || count == 0 || vm == 0,
            Event::Env { ret, env } => ret != 0 || env == 0,
            Event::Finished(ok) => !ok && (s.phase is Allocating || s.phase is Replacing),
        }),
        jni_step(s, ev).1 == Action::Finish(false) <==> jni_step(s, ev).0.phase == Phase::Done(
            false,
        ),
        s.phase is Replacing && ev == Event::Finished(false) ==> jni_step(s, ev).0.orig_register
            == 0,
{
}

/// A table is put back only where it is known, and there is an environment to put it
/// in.
pub proof fn law_table_is_put_back(table: usize, env: usize)
    ensures
        !restores_env(0, env),
        !restores_env(table, 0),
        table > 0 && env > 0 ==> restores_env(table, env),
{
}

} // verus!
