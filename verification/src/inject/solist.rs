//! Hiding where loaded modules come from.

use vstd::prelude::*;
use vstd::string::*;
use vstd::utf8::{decode_utf8, valid_utf8};

use super::plt::{fields_spec, law_fields, parse_perms, parse_range, perms_spec, range_spec};
use crate::num::unsigned_spec;
use crate::text::{
    contains_text, decode, is_space, law_first_pieces, law_lines, law_occurs, law_trimming, lines,
    lines_spec, occurs, splitn_char, splitn_spec, to_chars, trim, trim_spec, views,
};
use crate::zygisk::ptrace_inject::{PROT_EXEC, PROT_READ, PROT_WRITE};

verus! {

/// Whether modules are hidden, once that is known.
#[derive(Clone, Copy, PartialEq, Eq, Structural)]
pub struct HideState {
    pub initialized: bool,
    pub needs_hide: bool,
}

impl HideState {
    /// Nothing is known yet.
    pub fn new() -> (r: HideState)
        ensures
            r == (HideState { initialized: false, needs_hide: true }),
    {
        HideState { initialized: false, needs_hide: true }
    }
}

/// What is known of hiding after it was asked for.
pub open spec fn hide_state_spec(s: HideState, virtual_phone: bool) -> HideState {
    if s.initialized {
        s
    } else {
        HideState { initialized: true, needs_hide: !virtual_phone }
    }
}

/// Tells whether modules are hidden: not in a virtual phone. Only the first call
/// looks at `virtual_phone`.
pub fn initialize(state: &mut HideState, virtual_phone: bool) -> (r: bool)
    ensures
        r == final(state).needs_hide,
        final(state).initialized,
        old(state).initialized ==> *final(state) == *old(state),
        !old(state).initialized ==> r == !virtual_phone,
        *final(state) == hide_state_spec(*old(state), virtual_phone),
{
    if state.initialized {
        return state.needs_hide;
    }
    state.needs_hide = !virtual_phone;
    state.initialized = true;
    !virtual_phone
}

/// A mapping that is to be replaced by a copy.
#[derive(Clone, Copy, PartialEq, Eq, Structural)]
pub struct MapEntry {
    pub start: usize,
    pub end: usize,
    pub perms: u32,
}

/// A path shows a module, or code that was injected.
pub open spec fn is_revealing(path: Seq<char>) -> bool {
    occurs(path, "/memfd:jit-zygisk-cache"@) || occurs(path, "/modules/"@)
}

/// The mapping that a line of a `maps` file describes, where it is to be
/// replaced.
pub open spec fn hidden_line(line: Seq<char>) -> Option<MapEntry> {
    let f = fields_spec(line);
    let range = range_spec(f[0]);
    if f.len() == 6 && is_revealing(trim_spec(f[5])) && range is Some {
        Some(
            MapEntry {
                start: range.unwrap().0,
                end: range.unwrap().1,
                perms: perms_spec(f[1]),
            },
        )
    } else {
        None
    }
}

/// The mappings that lines describe and that are to be replaced, in their order.
pub open spec fn hidden_lines(lines: Seq<Seq<char>>) -> Seq<MapEntry>
    decreases lines.len(),
{
    if lines.len() == 0 {
        Seq::empty()
    } else {
        let before = hidden_lines(lines.drop_last());
        match hidden_line(lines.last()) {
            Some(e) => before.push(e),
            None => before,
        }
    }
}

/// The mappings that are to be replaced, by the contents of a `maps` file; none
/// where the contents are not text.
pub open spec fn hidden_maps(data: Seq<u8>) -> Seq<MapEntry> {
    if valid_utf8(data) {
        hidden_lines(lines_spec(decode_utf8(data)))
    } else {
        Seq::empty()
    }
}

fn parse_hidden(line: &[char]) -> (r: Option<MapEntry>)
    ensures
        r == hidden_line(line@),
{
    let f = splitn_char(trim(line), 6, ' ');
    assert(views(f@) == fields_spec(line@));
    assert(views(f@).len() == f@.len());
    if f.len() != 6 {
        return None;
    }
    assert(forall|i: int| 0 <= i < 6 ==> #[trigger] fields_spec(line@)[i] == f@[i]@);
    let path = trim(f[5]);
    if !contains_text(path, "/memfd:jit-zygisk-cache") && !contains_text(path, "/modules/") {
        return None;
    }
    match parse_range(f[0]) {
        Some((start, end)) => Some(MapEntry { start, end, perms: parse_perms(f[1]) }),
        None => None,
    }
}

/// Lists the mappings that are to be replaced, by the contents of a `maps` file;
/// none where modules are not hidden.
pub fn hide_modules(state: &mut HideState, virtual_phone: bool, data: &[u8]) -> (r: Vec<MapEntry>)
    ensures
        final(state).initialized,
        old(state).initialized ==> *final(state) == *old(state),
        !old(state).initialized ==> final(state).needs_hide == !virtual_phone,
        final(state).needs_hide ==> r@ == hidden_maps(data@),
        !final(state).needs_hide ==> r@.len() == 0,
{
    if initialize(state, virtual_phone) {
        list_hidden(data)
    } else {
        Vec::new()
    }
}

fn list_hidden(data: &[u8]) -> (r: Vec<MapEntry>)
    ensures
        r@ == hidden_maps(data@),
{
    let mut out: Vec<MapEntry> = Vec::new();
    let text = match decode(data) {
        Some(t) => t,
        None => {
            return out;
        },
    };
    let chars = to_chars(text.as_str());
    let all = lines(chars.as_slice());
    let ghost full = views(all@);
    for i in 0..all.len()
        invariant
            full == views(all@),
            full == lines_spec(text@),
            out@ == hidden_lines(full.take(i as int)),
    {
        assert(full.take(i + 1).drop_last() =~= full.take(i as int));
        assert(full[i as int] == all@[i as int]@);
        match parse_hidden(all[i]) {
            Some(e) => {
                out.push(e);
            },
            None => {},
        }
    }
    assert(full.take(full.len() as int) =~= full);
    out
}

/// Where the replacement of a mapping stands.
#[derive(Clone, Copy, PartialEq, Eq, Structural)]
pub enum HidePhase {
    /// Memory for the copy is being mapped.
    Allocating,
    /// The mapping is being made readable.
    Exposing,
    /// The mapping is being copied.
    Copying,
    /// The copy is being moved over the mapping.
    Moving,
    /// The copy is being given the mapping's protection.
    Protecting,
    /// The copy is being given back.
    Releasing,
    /// The mapping was replaced, or left as it is.
    Done(bool),
}

/// What is to be done next.
#[derive(Clone, Copy, PartialEq, Eq, Structural)]
pub enum HideAction {
    /// Map so many writable bytes.
    Allocate(usize),
    /// Set the protection of the mapping.
    Protect(u32),
    /// Copy the mapping.
    Copy,
    /// Move the copy over the mapping.
    Move,
    /// Unmap the copy.
    Release,
    Finish(bool),
}

/// The phase after the last action succeeded or failed, and what to do. Setting
/// the protection and copying count as done in any case.
pub open spec fn hide_step(e: MapEntry, phase: HidePhase, ok: bool) -> (HidePhase, HideAction) {
    match phase {
        HidePhase::Allocating => if !ok {
            (HidePhase::Done(false), HideAction::Finish(false))
        } else if e.perms & PROT_READ == 0 {
            (HidePhase::Exposing, HideAction::Protect(PROT_READ))
        } else {
            (HidePhase::Copying, HideAction::Copy)
        },
        HidePhase::Exposing => (HidePhase::Copying, HideAction::Copy),
        HidePhase::Copying => (HidePhase::Moving, HideAction::Move),
        HidePhase::Moving => if ok {
            (HidePhase::Protecting, HideAction::Protect(e.perms))
        } else {
            (HidePhase::Releasing, HideAction::Release)
        },
        HidePhase::Protecting => (HidePhase::Done(true), HideAction::Finish(true)),
        HidePhase::Releasing => (HidePhase::Done(false), HideAction::Finish(false)),
        HidePhase::Done(done) => (HidePhase::Done(done), HideAction::Finish(done)),
    }
}

impl MapEntry {
    /// The first thing to do to replace a mapping.
    pub fn begin_hide(&self) -> (r: (HidePhase, HideAction))
        requires
            self.start <= self.end,
        ensures
            r == (HidePhase::Allocating, HideAction::Allocate((self.end - self.start) as usize)),
    {
        (HidePhase::Allocating, HideAction::Allocate(self.end - self.start))
    }

    /// Tells what to do after the last action succeeded or failed.
    pub fn hide_step(&self, phase: HidePhase, ok: bool) -> (r: (HidePhase, HideAction))
        ensures
            r == hide_step(*self, phase, ok),
    {
        match phase {
            HidePhase::Allocating => {
                if !ok {
                    (HidePhase::Done(false), HideAction::Finish(false))
                } else if self.perms & PROT_READ == 0 {
                    (HidePhase::Exposing, HideAction::Protect(PROT_READ))
                } else {
                    (HidePhase::Copying, HideAction::Copy)
                }
            },
            HidePhase::Exposing => (HidePhase::Copying, HideAction::Copy),
            HidePhase::Copying => (HidePhase::Moving, HideAction::Move),
            HidePhase::Moving => {
                if ok {
                    (HidePhase::Protecting, HideAction::Protect(self.perms))
                } else {
                    (HidePhase::Releasing, HideAction::Release)
                }
            },
            HidePhase::Protecting => (HidePhase::Done(true), HideAction::Finish(true)),
            HidePhase::Releasing => (HidePhase::Done(false), HideAction::Finish(false)),
            HidePhase::Done(done) => (HidePhase::Done(done), HideAction::Finish(done)),
        }
    }
}

/// A mapping that was replaced has the protection it had, and the copy is given
/// back unless it took the mapping's place.
pub proof fn law_hiding_keeps_protection(e: MapEntry, phase: HidePhase, ok: bool)
    ensures
        hide_step(e, phase, ok).0 == HidePhase::Done(true) && phase !is Done ==> phase
            is Protecting,
        hide_step(e, phase, ok).0 is Protecting ==> hide_step(e, phase, ok).1
            == HideAction::Protect(e.perms) && phase is Moving && ok,
        phase is Moving && !ok ==> hide_step(e, phase, ok).1 is Release,
{
}

/// What a mapping is like: its bytes, its protection, and whether it shows where
/// it comes from.
pub struct Mapped {
    pub bytes: Seq<u8>,
    pub perms: u32,
    pub named: bool,
}

/// A mapping, and the copy of it where there is one, after an action succeeded.
pub open spec fn hide_effect(m: (Mapped, Option<Seq<u8>>), action: HideAction) -> (
    Mapped,
    Option<Seq<u8>>,
) {
    match action {
        HideAction::Allocate(len) => (m.0, Some(Seq::new(len as nat, |i: int| 0u8))),
        HideAction::Protect(perms) => (Mapped { perms, ..m.0 }, m.1),
        HideAction::Copy => (m.0, Some(m.0.bytes)),
        HideAction::Move => (
            Mapped { bytes: m.1.unwrap(), perms: PROT_WRITE, named: false },
            None,
        ),
        HideAction::Release => (m.0, None),
        HideAction::Finish(_) => m,
    }
}

/// A mapping and its copy after `n` actions, all of which succeed.
pub open spec fn hide_run(
    e: MapEntry,
    phase: HidePhase,
    action: HideAction,
    m: (Mapped, Option<Seq<u8>>),
    n: nat,
) -> (HidePhase, (Mapped, Option<Seq<u8>>))
    decreases n,
{
    if n == 0 {
        (phase, m)
    } else {
        let (next, then_do) = hide_step(e, phase, true);
        hide_run(e, next, then_do, hide_effect(m, action), (n - 1) as nat)
    }
}

/// Where every action succeeds, a mapping keeps its bytes and its protection, and
/// no longer shows where it comes from; no copy is left.
pub proof fn law_hidden_mapping_keeps_contents(e: MapEntry, m: Mapped)
    requires
        e.start <= e.end,
        m.perms == e.perms,
    ensures
        hide_run(
            e,
            HidePhase::Allocating,
            HideAction::Allocate((e.end - e.start) as usize),
            (m, None),
            6,
        ) == (
            HidePhase::Done(true),
            (Mapped { named: false, ..m }, None::<Seq<u8>>),
        ),
{
    reveal_with_fuel(hide_run, 7);
}

/// A line that shows no module is left alone.
pub proof fn law_other_mappings_stay(line: Seq<char>)
    requires
        !is_revealing(trim_spec(fields_spec(line)[5])),
    ensures
        hidden_line(line) is None,
{
}

/// The permissions of a mapping that is replaced are made of the three bits that
/// its line can show.
pub proof fn law_hidden_perms(field: Seq<char>)
    ensures
        perms_spec(field) & PROT_READ != 0 <==> field.contains('r'),
        perms_spec(field) & PROT_WRITE != 0 <==> field.contains('w'),
        perms_spec(field) & PROT_EXEC != 0 <==> field.contains('x'),
        perms_spec(field) <= 7,
{
    assert(forall|a: u32, b: u32, c: u32|
        (a == 0 || a == 1) && (b == 0 || b == 2) && (c == 0 || c == 4) ==> (#[trigger] (a | b | c)
            & 1 != 0 <==> a == 1) && ((a | b | c) & 2 != 0 <==> b == 2) && ((a | b | c) & 4 != 0
            <==> c == 4) && (a | b | c) <= 7) by (bit_vector);
}

/// A path shows a module exactly where it mentions the directory of modules, or the
/// memory that injected code is loaded from.
pub proof fn law_revealing_paths(path: Seq<char>)
    ensures
        is_revealing(path) <==> (exists|a: Seq<char>, b: Seq<char>|
            path == #[trigger] (a + "/memfd:jit-zygisk-cache"@ + b)) || (exists|
            a: Seq<char>,
            b: Seq<char>,
        | path == #[trigger] (a + "/modules/"@ + b)),
{
    let m = "/memfd:jit-zygisk-cache"@;
    let n = "/modules/"@;
    law_occurs(path, m, Seq::empty(), Seq::empty());
    law_occurs(path, n, Seq::empty(), Seq::empty());
    if exists|a: Seq<char>, b: Seq<char>| path == #[trigger] (a + m + b) {
        let (a, b) = choose|a: Seq<char>, b: Seq<char>| path == #[trigger] (a + m + b);
        law_occurs(path, m, a, b);
    }
    if exists|a: Seq<char>, b: Seq<char>| path == #[trigger] (a + n + b) {
        let (a, b) = choose|a: Seq<char>, b: Seq<char>| path == #[trigger] (a + n + b);
        law_occurs(path, n, a, b);
    }
}

/// A mapping whose path shows a module is replaced as a whole, with the protection
/// that its line gives, and one whose path shows none is not.
pub proof fn law_revealing_mapping_is_replaced(
    from: Seq<char>,
    to: Seq<char>,
    perms: Seq<char>,
    offset: Seq<char>,
    device: Seq<char>,
    inode: Seq<char>,
    blanks: Seq<char>,
    path: Seq<char>,
    start: usize,
    end: usize,
)
    requires
        from.len() > 0 && !is_space(from[0]),
        !from.contains('-') && !from.contains(' ') && !to.contains(' '),
        !perms.contains(' ') && !offset.contains(' ') && !device.contains(' ') && !inode.contains(
            ' ',
        ),
        forall|i: int| 0 <= i < blanks.len() ==> #[trigger] blanks[i] == ' ',
        path.len() > 0 && !is_space(path[0]) && !is_space(path.last()),
        unsigned_spec(from, 16, usize::MAX as nat) == Some(start as nat),
        unsigned_spec(to, 16, usize::MAX as nat) == Some(end as nat),
    ensures
        ({
            let r = hidden_line(
                (from.push('-') + to).push(' ') + (perms.push(' ') + (offset.push(' ') + (
                device.push(' ') + (inode.push(' ') + (blanks + path))))),
            );
            &&& is_revealing(path) ==> r is Some && r.unwrap().start == start && r.unwrap().end
                == end && (r.unwrap().perms & 1 != 0 <==> perms.contains('r')) && (r.unwrap().perms
                & 2 != 0 <==> perms.contains('w')) && (r.unwrap().perms & 4 != 0 <==> perms.contains(
                'x',
            )) && r.unwrap().perms <= 7
            &&& !is_revealing(path) ==> r is None
        }),
{
    let f0 = from.push('-') + to;
    let f5 = blanks + path;
    if f0.contains(' ') {
        let k = choose|k: int| 0 <= k < f0.len() && f0[k] == ' ';
        if k < from.len() {
            assert(from[k] == ' ');
        } else if k > from.len() {
            assert(to[k - from.len() - 1] == ' ');
        }
    }
    assert(f0[0] == from[0]);
    assert(f5.last() == path.last());
    law_fields(f0, perms, offset, device, inode, f5);
    let none = Seq::<char>::empty();
    assert forall|i: int| 0 <= i < blanks.len() implies is_space(#[trigger] blanks[i]) by {
        assert(blanks[i] == ' ');
    }
    law_trimming(blanks, path, none);
    assert(blanks + path + none =~= f5);
    law_first_pieces(from, '-', to, 2);
    assert(splitn_spec(to, 1, '-') == seq![to]);
    assert(splitn_spec(f0, 2, '-') =~= seq![from, to]);
    law_hidden_perms(perms);
}

/// A line more: what it calls for comes last.
pub proof fn law_one_line_more(lines: Seq<Seq<char>>, line: Seq<char>)
    ensures
        hidden_lines(Seq::empty()) == Seq::<MapEntry>::empty(),
        hidden_lines(lines.push(line)) == (match hidden_line(line) {
            Some(e) => hidden_lines(lines).push(e),
            None => hidden_lines(lines),
        }),
{
    assert(lines.push(line).drop_last() =~= lines);
}

/// A file whose contents are text shows the mappings that its lines do, one line
/// after the other; of one that is not text nothing is hidden.
pub proof fn law_text_is_searched(data: Seq<u8>, line: Seq<char>, rest: Seq<char>)
    requires
        !line.contains('\n'),
        line.len() == 0 || line.last() != '\r',
    ensures
        !valid_utf8(data) ==> hidden_maps(data).len() == 0,
        valid_utf8(data) && decode_utf8(data) == line.push('\n') + rest ==> hidden_maps(data)
            == hidden_lines(seq![line] + lines_spec(rest)),
{
    law_lines(line, rest);
}

/// A mapping that can be read, which the lowest bit of its protection tells, is
/// copied as soon as there is memory for it, and one that cannot is made readable
/// first. Then the copy is moved over it. Memory that cannot be had leaves it as
/// it is, and so does a copy that cannot be moved, which is given back.
pub proof fn law_hiding_in_steps(e: MapEntry, ok: bool)
    ensures
        hide_step(e, HidePhase::Allocating, false) == (
            HidePhase::Done(false),
            HideAction::Finish(false),
        ),
        e.perms % 2 == 1 ==> hide_step(e, HidePhase::Allocating, true) == (
            HidePhase::Copying,
            HideAction::Copy,
        ),
        e.perms % 2 == 0 ==> hide_step(e, HidePhase::Allocating, true) == (
            HidePhase::Exposing,
            HideAction::Protect(1),
        ),
        hide_step(e, HidePhase::Exposing, ok) == (HidePhase::Copying, HideAction::Copy),
        hide_step(e, HidePhase::Copying, ok) == (HidePhase::Moving, HideAction::Move),
        hide_step(e, HidePhase::Moving, true) == (
            HidePhase::Protecting,
            HideAction::Protect(e.perms),
        ),
        hide_step(e, HidePhase::Moving, false) == (HidePhase::Releasing, HideAction::Release),
        hide_step(e, HidePhase::Protecting, ok) == (HidePhase::Done(true), HideAction::Finish(true)),
        hide_step(e, HidePhase::Releasing, ok) == (
            HidePhase::Done(false),
            HideAction::Finish(false),
        ),
{
    let p = e.perms;
    assert((p & 1 == 0) == (p % 2 == 0)) by (bit_vector);
}

/// The first answer stands: modules are hidden unless the phone was virtual when
/// that was first asked for, whatever is said later.
pub proof fn law_first_answer_stands(needs: bool, first: bool, later: bool)
    ensures
        ({
            let s = hide_state_spec(HideState { initialized: false, needs_hide: needs }, first);
            &&& s.initialized
            &&& s.needs_hide <==> !first
            &&& hide_state_spec(s, later) == s
        }),
{
}

} // verus!
