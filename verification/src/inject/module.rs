//! Loading modules into a process.

use vstd::prelude::*;
use vstd::string::*;
use vstd::utf8::{decode_utf8, encode_utf8, valid_utf8};

use super::companion::{fd_path, fd_path_bytes};
use crate::bytes::{append_bytes, find_byte};
use crate::text::{append, decode, lemma_index_of_item};
use crate::zygisk::remote_call::c_string;

verus! {

/// A module that was loaded.
pub struct ZygiskModule {
    /// The library.
    pub handle: usize,
    /// The table that the module was given.
    pub api_handle: usize,
    pub id: String,
}

/// The library of a module, by its path.
pub open spec fn library_path(id: Seq<char>) -> Seq<char> {
    "/data/adb/modules/"@ + id + "/zygisk/zygisk.so"@
}

/// The library of a module, by its path, as C sees it; `None` where the path
/// holds a zero.
pub fn library_path_bytes(id: &str) -> (r: Option<Vec<u8>>)
    ensures
        match r {
            Some(b) => b@ == c_string(library_path(id@)) && !encode_utf8(
                library_path(id@),
            ).contains(0),
            None => encode_utf8(library_path(id@)).contains(0),
        },
{
    let mut path = "/data/adb/modules/".to_owned();
    append(&mut path, id);
    append(&mut path, "/zygisk/zygisk.so");
    let bytes = path.as_str().as_bytes();
    proof {
        lemma_index_of_item(bytes@, 0);
    }
    let zero: usize = find_byte(bytes, 0);
    if zero < bytes.len() {
        assert(bytes@[zero as int] == 0);
        return None;
    }
    let mut out: Vec<u8> = Vec::new();
    append_bytes(&mut out, bytes);
    out.push(0);
    assert(out@ =~= c_string(library_path(id@)));
    Some(out)
}

/// Where loading a module stands.
#[derive(Clone, Copy, PartialEq, Eq, Structural)]
pub enum LoadPhase {
    /// The library is being opened by its descriptor.
    ByDescriptor,
    /// The library is being opened by its path.
    ByPath,
    /// The library's entry function is being looked up.
    Finding,
    /// The entry function runs.
    Entering,
    /// The library is being closed.
    Closing,
    /// The module was loaded, or not.
    Done(bool),
}

/// What is to be done next.
#[derive(Clone, Copy, PartialEq, Eq, Structural)]
pub enum LoadAction {
    /// Open the library by its descriptor.
    OpenDescriptor,
    /// Open the library by its path.
    OpenPath,
    /// Look up the library's entry function.
    Find,
    /// Fill the module's table, and run the entry function.
    Enter,
    /// Close the library.
    Close,
    Finish(bool),
}

/// Loading a module.
#[derive(Clone, Copy, PartialEq, Eq, Structural)]
pub struct Loading {
    pub phase: LoadPhase,
    /// The library is open.
    pub open: bool,
}

/// The state after the last action succeeded or failed, and what to do.
pub open spec fn load_step(s: Loading, ok: bool) -> (Loading, LoadAction) {
    match s.phase {
        LoadPhase::ByDescriptor => if ok {
            (Loading { phase: LoadPhase::Finding, open: true }, LoadAction::Find)
        } else {
            (Loading { phase: LoadPhase::ByPath, ..s }, LoadAction::OpenPath)
        },
        LoadPhase::ByPath => if ok {
            (Loading { phase: LoadPhase::Finding, open: true }, LoadAction::Find)
        } else {
            (Loading { phase: LoadPhase::Done(false), ..s }, LoadAction::Finish(false))
        },
        LoadPhase::Finding => if ok {
            (Loading { phase: LoadPhase::Entering, ..s }, LoadAction::Enter)
        } else {
            (Loading { phase: LoadPhase::Closing, ..s }, LoadAction::Close)
        },
        LoadPhase::Entering => if ok {
            (Loading { phase: LoadPhase::Done(true), ..s }, LoadAction::Finish(true))
        } else {
            (Loading { phase: LoadPhase::Closing, ..s }, LoadAction::Close)
        },
        LoadPhase::Closing => (
            Loading { phase: LoadPhase::Done(false), open: false },
            LoadAction::Finish(false),
        ),
        LoadPhase::Done(done) => (s, LoadAction::Finish(done)),
    }
}

/// The library is open exactly from when it was opened until the module was
/// loaded or the library closed.
pub open spec fn load_wf(s: Loading) -> bool {
    s.open == (match s.phase {
        LoadPhase::ByDescriptor | LoadPhase::ByPath | LoadPhase::Done(false) => false,
        _ => true,
    })
}

impl Loading {
    /// Starts loading a module: by its descriptor where it has one, and otherwise
    /// by its path.
    pub fn start(fd: i32) -> (r: (Loading, LoadAction))
        ensures
            load_wf(r.0),
            fd > 0 ==> r == (
                Loading { phase: LoadPhase::ByDescriptor, open: false },
                LoadAction::OpenDescriptor,
            ),
            fd <= 0 ==> r == (
                Loading { phase: LoadPhase::ByPath, open: false },
                LoadAction::OpenPath,
            ),
    {
        if fd > 0 {
            (
                Loading { phase: LoadPhase::ByDescriptor, open: false },
                LoadAction::OpenDescriptor,
            )
        } else {
            (Loading { phase: LoadPhase::ByPath, open: false }, LoadAction::OpenPath)
        }
    }

    /// Tells what to do after the last action succeeded or failed.
    pub fn load(&mut self, ok: bool) -> (r: LoadAction)
        requires
            load_wf(*old(self)),
            old(self).phase !is Done,
        ensures
            (*final(self), r) == load_step(*old(self), ok),
            load_wf(*final(self)),
    {
        match self.phase {
            LoadPhase::ByDescriptor => {
                if ok {
                    self.phase = LoadPhase::Finding;
                    self.open = true;
                    LoadAction::Find
                } else {
                    self.phase = LoadPhase::ByPath;
                    LoadAction::OpenPath
                }
            },
            LoadPhase::ByPath => {
                if ok {
                    self.phase = LoadPhase::Finding;
                    self.open = true;
                    LoadAction::Find
                } else {
                    self.phase = LoadPhase::Done(false);
                    LoadAction::Finish(false)
                }
            },
            LoadPhase::Finding => {
                if ok {
                    self.phase = LoadPhase::Entering;
                    LoadAction::Enter
                } else {
                    self.phase = LoadPhase::Closing;
                    LoadAction::Close
                }
            },
            LoadPhase::Entering => {
                if ok {
                    self.phase = LoadPhase::Done(true);
                    LoadAction::Finish(true)
                } else {
                    self.phase = LoadPhase::Closing;
                    LoadAction::Close
                }
            },
            LoadPhase::Closing => {
                self.phase = LoadPhase::Done(false);
                self.open = false;
                LoadAction::Finish(false)
            },
            LoadPhase::Done(done) => LoadAction::Finish(done),
        }
    }
}

/// A module that could not be loaded leaves no library open, and one that was
/// loaded keeps its library.
pub proof fn law_failed_module_is_closed(s: Loading, ok: bool)
    requires
        load_wf(s),
    ensures
        load_wf(load_step(s, ok).0),
        load_step(s, ok).0.phase == LoadPhase::Done(false) ==> !load_step(s, ok).0.open,
        load_step(s, ok).0.phase == LoadPhase::Done(true) ==> load_step(s, ok).0.open,
{
}

/// A library is opened by its path only where it could not be opened by its
/// descriptor.
pub proof fn law_descriptor_is_preferred(s: Loading, ok: bool)
    requires
        s.phase is ByDescriptor,
    ensures
        load_step(s, ok).1 == LoadAction::OpenPath <==> !ok,
{
}

/// A module to be loaded: its descriptor, -1 where it has none, and its name.
pub struct ModuleSource {
    pub fd: i32,
    pub id: String,
}

/// What a [`ModuleSource`] holds.
pub open spec fn source_views(v: Seq<ModuleSource>) -> Seq<(i32, Seq<char>)> {
    Seq::new(v.len(), |i: int| (v[i].fd, v[i].id@))
}

/// An entry of the modules' directory is a module: its name is text, and does
/// not start with a dot.
pub open spec fn is_module_name(name: Seq<u8>) -> bool {
    !(name.len() > 0 && name[0] == 46) && valid_utf8(name)
}

/// The modules that are loaded, in the directory's order; each takes the next
/// descriptor.
pub open spec fn sources(entries: Seq<Seq<u8>>, fds: Seq<i32>) -> Seq<(i32, Seq<char>)>
    decreases entries.len(),
{
    if entries.len() == 0 {
        Seq::empty()
    } else {
        let before = sources(entries.drop_last(), fds);
        let name = entries.last();
        if is_module_name(name) {
            let fd = if before.len() < fds.len() {
                fds[before.len() as int]
            } else {
                -1i32
            };
            before.push((fd, decode_utf8(name)))
        } else {
            before
        }
    }
}

/// Lists the modules that are loaded: `entries` are the names in the modules'
/// directory, `fds` the descriptors that the daemon sent.
pub fn load_modules(entries: &[Vec<u8>], fds: &[i32]) -> (r: Vec<ModuleSource>)
    ensures
        source_views(r@) == sources(super::fd::names(entries@), fds@),
{
    let mut out: Vec<ModuleSource> = Vec::new();
    let ghost all = super::fd::names(entries@);
    for i in 0..entries.len()
        invariant
            all == super::fd::names(entries@),
            source_views(out@) == sources(all.take(i as int), fds@),
    {
        let ghost before = out@;
        assert(source_views(before).len() == before.len());
        assert(all.take(i + 1).drop_last() =~= all.take(i as int));
        let name = entries[i].as_slice();
        assert(all[i as int] == name@);
        if !(name.len() > 0 && name[0] == 46) {
            match decode(name) {
                Some(id) => {
                    let fd: i32 = if out.len() < fds.len() {
                        fds[out.len()]
                    } else {
                        -1
                    };
                    out.push(ModuleSource { fd, id });
                    assert(source_views(out@) =~= source_views(before).push((fd, id@)));
                },
                None => {},
            }
        }
    }
    assert(all.take(all.len() as int) =~= all);
    out
}

/// Modules are numbered as the daemon numbers them: the module with number `k`
/// gets descriptor `k`, as long as there are descriptors.
pub proof fn law_modules_get_their_descriptor(entries: Seq<Seq<u8>>, fds: Seq<i32>, k: int)
    requires
        0 <= k < sources(entries, fds).len(),
    ensures
        sources(entries, fds)[k].0 == (if k < fds.len() {
            fds[k]
        } else {
            -1i32
        }),
    decreases entries.len(),
{
    let before = sources(entries.drop_last(), fds);
    if k < before.len() {
        law_modules_get_their_descriptor(entries.drop_last(), fds, k);
    }
}

/// The path by which a library is opened by its descriptor, as C sees it.
pub fn descriptor_path(fd: i32) -> (r: Vec<u8>)
    requires
        fd > 0,
    ensures
        r@ == c_string(fd_path(fd)),
{
    fd_path_bytes(fd)
}

/// Tells whether the modules are to be loaded before they are told that an app
/// is about to be specialised.
pub fn run_modules_pre(modules: &[ZygiskModule]) -> (r: bool)
    ensures
        r == (modules@.len() == 0),
{
    modules.len() == 0
}

/// The library of a module stands in the module's directory, by a fixed name.
pub proof fn law_library_path(id: Seq<char>)
    ensures
        library_path(id).len() == 18 + id.len() + 17,
        library_path(id).take(18) == "/data/adb/modules/"@,
        library_path(id).subrange(18, 18 + id.len() as int) == id,
        library_path(id).skip(18 + id.len() as int) == "/zygisk/zygisk.so"@,
{
    reveal_strlit("/data/adb/modules/");
    reveal_strlit("/zygisk/zygisk.so");
    assert(library_path(id).take(18) =~= "/data/adb/modules/"@);
    assert(library_path(id).subrange(18, 18 + id.len() as int) =~= id);
    assert(library_path(id).skip(18 + id.len() as int) =~= "/zygisk/zygisk.so"@);
}

/// The state after the actions of a load succeeded or failed one after the other.
pub open spec fn load_run(s: Loading, oks: Seq<bool>) -> Loading
    decreases oks.len(),
{
    if oks.len() == 0 {
        s
    } else {
        load_step(load_run(s, oks.drop_last()), oks.last()).0
    }
}

/// A library that opens by its descriptor, and otherwise by its path, and whose
/// entry function is found and succeeds, makes a loaded module that stays open.
/// Where the function is not found or fails, the library is closed again; where
/// the library does not open there is nothing to close.
pub proof fn law_loading_a_module(opened: bool, by_path: bool, found: bool, entered: bool)
    ensures
        ({
            let s = Loading { phase: LoadPhase::ByDescriptor, open: false };
            let t = load_step(s, opened);
            let u = load_step(t.0, by_path);
            let o = if opened {
                t
            } else {
                u
            };
            let f = load_step(o.0, found);
            let e = load_step(f.0, entered);
            let closed = Loading { phase: LoadPhase::Done(false), open: false };
            &&& opened ==> t.1 == LoadAction::Find
            &&& !opened ==> t.1 == LoadAction::OpenPath
            &&& !opened && by_path ==> u.1 == LoadAction::Find
            &&& !opened && !by_path ==> u == (closed, LoadAction::Finish(false))
            &&& opened || by_path ==> o.0.open && f.0.open && {
                &&& found ==> f.1 == LoadAction::Enter
                &&& !found ==> f.1 == LoadAction::Close && load_step(f.0, true) == (
                    closed,
                    LoadAction::Finish(false),
                )
                &&& found && entered ==> e == (
                    Loading { phase: LoadPhase::Done(true), open: true },
                    LoadAction::Finish(true),
                )
                &&& found && !entered ==> e.1 == LoadAction::Close && load_step(e.0, true) == (
                    closed,
                    LoadAction::Finish(false),
                )
            }
        }),
{
}

/// Loading a module takes at most five actions, however they turn out.
pub proof fn law_loading_ends(s: Loading, oks: Seq<bool>)
    requires
        s.phase is ByDescriptor || s.phase is ByPath,
        oks.len() == 5,
    ensures
        load_run(s, oks).phase is Done,
{
    reveal_with_fuel(load_run, 6);
}

/// An entry more of the directory is a module more exactly where its name is text
/// that does not start with a dot; it gets the first descriptor that is not given
/// away, or none.
pub proof fn law_one_entry_more(entries: Seq<Seq<u8>>, name: Seq<u8>, fds: Seq<i32>)
    ensures
        sources(Seq::empty(), fds) == Seq::<(i32, Seq<char>)>::empty(),
        ({
            let before = sources(entries, fds);
            let after = sources(entries.push(name), fds);
            let fd = if before.len() < fds.len() {
                fds[before.len() as int]
            } else {
                -1i32
            };
            &&& !valid_utf8(name) ==> after == before
            &&& name.len() > 0 && name[0] == 46 ==> after == before
            &&& valid_utf8(name) && (name.len() == 0 || name[0] != 46) ==> after == before.push(
                (fd, decode_utf8(name)),
            )
        }),
{
    assert(entries.push(name).drop_last() =~= entries);
}

} // verus!
