//! The calls that are redirected in a zygote.

use vstd::prelude::*;
use vstd::string::*;

verus! {

/// A call that is redirected.
#[derive(Clone, Copy, PartialEq, Eq, Structural)]
pub enum HookSlot {
    Unshare,
    Setcontext,
    Strdup,
    LogClose,
    Dlclose,
    AndroidSetCreateThread,
    PthreadAttrDestroy,
}

/// How many calls are redirected.
pub const HOOK_SLOTS: usize = 7;

/// The number of a call.
pub open spec fn slot_index(slot: HookSlot) -> int {
    match slot {
        HookSlot::Unshare => 0,
        HookSlot::Setcontext => 1,
        HookSlot::Strdup => 2,
        HookSlot::LogClose => 3,
        HookSlot::Dlclose => 4,
        HookSlot::AndroidSetCreateThread => 5,
        HookSlot::PthreadAttrDestroy => 6,
    }
}

/// The functions that were called before, by their addresses.
pub struct OrigFuncs {
    funcs: [usize; 7],
}

impl View for OrigFuncs {
    type V = Seq<usize>;

    closed spec fn view(&self) -> Seq<usize> {
        self.funcs@
    }
}

impl OrigFuncs {
    /// No function is known.
    pub fn new() -> (r: OrigFuncs)
        ensures
            r@ == Seq::new(7, |i: int| 0usize),
    {
        let r = OrigFuncs { funcs: [0;7] };
        assert(r@ =~= Seq::new(7, |i: int| 0usize));
        r
    }

    fn index(slot: HookSlot) -> (r: usize)
        ensures
            r == slot_index(slot),
            r < 7,
    {
        match slot {
            HookSlot::Unshare => 0,
            HookSlot::Setcontext => 1,
            HookSlot::Strdup => 2,
            HookSlot::LogClose => 3,
            HookSlot::Dlclose => 4,
            HookSlot::AndroidSetCreateThread => 5,
            HookSlot::PthreadAttrDestroy => 6,
        }
    }

    /// Notes the function that was called before.
    pub fn set(&mut self, slot: HookSlot, func: usize)
        ensures
            final(self)@ == old(self)@.update(slot_index(slot), func),
    {
        let i: usize = OrigFuncs::index(slot);
        self.funcs[i] = func;
    }

    /// The function that was called before, where it is known.
    pub fn orig_fn(&self, slot: HookSlot) -> (r: Option<usize>)
        ensures
            r == (if self@[slot_index(slot)] == 0 {
                None
            } else {
                Some(self@[slot_index(slot)])
            }),
    {
        let f: usize = self.funcs[OrigFuncs::index(slot)];
        if f == 0 {
            None
        } else {
            Some(f)
        }
    }
}

/// What is returned where the function that was called before is not known: -1,
/// no memory, or nothing.
#[derive(Clone, Copy, PartialEq, Eq, Structural)]
pub enum Missing {
    Failure,
    NoMemory,
    Nothing,
}

/// What is returned where the function that was called before is not known.
pub open spec fn missing_spec(slot: HookSlot) -> Missing {
    match slot {
        HookSlot::Strdup => Missing::NoMemory,
        HookSlot::LogClose => Missing::Nothing,
        HookSlot::AndroidSetCreateThread => Missing::Nothing,
        _ => Missing::Failure,
    }
}

/// Tells what is returned where the function that was called before is not known.
pub fn missing(slot: HookSlot) -> (r: Missing)
    ensures
        r == (match slot {
            HookSlot::Strdup => Missing::NoMemory,
            HookSlot::LogClose => Missing::Nothing,
            HookSlot::AndroidSetCreateThread => Missing::Nothing,
            _ => Missing::Failure,
        }),
        r == missing_spec(slot),
{
    match slot {
        HookSlot::Strdup => Missing::NoMemory,
        HookSlot::LogClose => Missing::Nothing,
        HookSlot::AndroidSetCreateThread => Missing::Nothing,
        _ => Missing::Failure,
    }
}

/// A call to be redirected: the library that makes it, and the function.
#[derive(Clone, Copy)]
pub struct HookTarget {
    pub lib: &'static str,
    pub symbol: &'static str,
    pub slot: HookSlot,
}

/// What a [`HookTarget`] holds.
pub open spec fn target_view(t: HookTarget) -> (Seq<char>, Seq<char>, HookSlot) {
    (t.lib@, t.symbol@, t.slot)
}

/// The calls that are redirected, in order.
pub open spec fn hook_list_spec() -> Seq<(Seq<char>, Seq<char>, HookSlot)> {
    seq![
        ("/libnativebridge.so"@, "dlclose"@, HookSlot::Dlclose),
        ("/libandroid_runtime.so"@, "unshare"@, HookSlot::Unshare),
        ("/libandroid_runtime.so"@, "selinux_android_setcontext"@, HookSlot::Setcontext),
        ("/libandroid_runtime.so"@, "strdup"@, HookSlot::Strdup),
        ("/libandroid_runtime.so"@, "__android_log_close"@, HookSlot::LogClose),
        (
            "/libandroid_runtime.so"@,
            "androidSetCreateThread"@,
            HookSlot::AndroidSetCreateThread,
        ),
        ("/libc.so"@, "pthread_attr_destroy"@, HookSlot::PthreadAttrDestroy),
    ]
}

/// Lists the calls that are redirected: none where no library is mapped.
pub fn hook_plt(has_maps: bool) -> (r: Vec<HookTarget>)
    ensures
        !has_maps ==> r@.len() == 0,
        has_maps ==> Seq::new(r@.len(), |i: int| target_view(r@[i])) == hook_list_spec(),
{
    let mut out: Vec<HookTarget> = Vec::new();
    if !has_maps {
        return out;
    }
    out.push(HookTarget { lib: "/libnativebridge.so", symbol: "dlclose", slot: HookSlot::Dlclose });
    out.push(
        HookTarget { lib: "/libandroid_runtime.so", symbol: "unshare", slot: HookSlot::Unshare },
    );
    out.push(
        HookTarget {
            lib: "/libandroid_runtime.so",
            symbol: "selinux_android_setcontext",
            slot: HookSlot::Setcontext,
        },
    );
    out.push(
        HookTarget { lib: "/libandroid_runtime.so", symbol: "strdup", slot: HookSlot::Strdup },
    );
    out.push(
        HookTarget {
            lib: "/libandroid_runtime.so",
            symbol: "__android_log_close",
            slot: HookSlot::LogClose,
        },
    );
    out.push(
        HookTarget {
            lib: "/libandroid_runtime.so",
            symbol: "androidSetCreateThread",
            slot: HookSlot::AndroidSetCreateThread,
        },
    );
    out.push(
        HookTarget {
            lib: "/libc.so",
            symbol: "pthread_attr_destroy",
            slot: HookSlot::PthreadAttrDestroy,
        },
    );
    assert(Seq::new(out@.len(), |i: int| target_view(out@[i])) =~= hook_list_spec());
    out
}

/// No call is redirected twice, and every one has its place.
pub proof fn law_hooks_are_distinct(i: int, j: int)
    requires
        0 <= i < hook_list_spec().len(),
        0 <= j < hook_list_spec().len(),
        i != j,
    ensures
        hook_list_spec()[i].2 != hook_list_spec()[j].2,
        slot_index(hook_list_spec()[i].2) != slot_index(hook_list_spec()[j].2),
        0 <= slot_index(hook_list_spec()[i].2) < HOOK_SLOTS,
{
}

/// Every call has a place of its own among the seven.
pub proof fn law_places_are_distinct(a: HookSlot, b: HookSlot)
    ensures
        0 <= slot_index(a) < 7,
        slot_index(a) == slot_index(b) <==> a == b,
{
}

/// Each call is redirected in the library that makes it, and under the name of the
/// function that it stands for: closing libraries in the native bridge, destroying
/// thread attributes in the C library, and the rest in the runtime.
pub proof fn law_where_calls_are_redirected(i: int)
    requires
        0 <= i < hook_list_spec().len(),
    ensures
        hook_list_spec().len() == 7,
        ({
            let (lib, symbol, slot) = hook_list_spec()[i];
            &&& lib == (match slot {
                HookSlot::Dlclose => "/libnativebridge.so"@,
                HookSlot::PthreadAttrDestroy => "/libc.so"@,
                _ => "/libandroid_runtime.so"@,
            })
            &&& symbol == (match slot {
                HookSlot::Unshare => "unshare"@,
                HookSlot::Setcontext => "selinux_android_setcontext"@,
                HookSlot::Strdup => "strdup"@,
                HookSlot::LogClose => "__android_log_close"@,
                HookSlot::Dlclose => "dlclose"@,
                HookSlot::AndroidSetCreateThread => "androidSetCreateThread"@,
                HookSlot::PthreadAttrDestroy => "pthread_attr_destroy"@,
            })
        }),
{
}

/// A function that is not known returns no memory where it would copy text, nothing
/// where it returns nothing, and otherwise -1.
pub proof fn law_missing_functions(slot: HookSlot)
    ensures
        missing_spec(slot) == Missing::NoMemory <==> slot == HookSlot::Strdup,
        missing_spec(slot) == Missing::Nothing <==> slot == HookSlot::LogClose || slot
            == HookSlot::AndroidSetCreateThread,
        missing_spec(slot) == Missing::Failure <==> slot == HookSlot::Unshare || slot
            == HookSlot::Setcontext || slot == HookSlot::Dlclose || slot
            == HookSlot::PthreadAttrDestroy,
{
}

} // verus!
