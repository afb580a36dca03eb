//! Memory maps and symbol addresses of a traced process.

use vstd::prelude::*;
use vstd::slice::slice_subrange;
use vstd::string::*;
use vstd::utf8::{encode_utf8, is_ascii_chars, is_ascii_chars_encode_utf8};

use crate::num::{decimal_int, decimal_text_i32, parse_u64, parse_usize, unsigned_spec};
use crate::text::{
    append, ends_with, has_suffix, is_space, join, join_spec, law_ends, law_pieces, law_words,
    split_char, split_spec, split_whitespace, texts, to_chars, to_text, views, words_spec,
};

verus! {

/// `PROT_READ` of `mmap(2)`.
pub const PROT_READ: u32 = 1;

/// `PROT_WRITE` of `mmap(2)`.
pub const PROT_WRITE: u32 = 2;

/// `PROT_EXEC` of `mmap(2)`.
pub const PROT_EXEC: u32 = 4;

/// One line of `/proc/<pid>/maps`.
pub struct MapInfo {
    pub start: usize,
    pub end: usize,
    pub perms: u32,
    pub is_private: bool,
    pub offset: u64,
    pub dev: u64,
    pub inode: u64,
    pub path: String,
}

/// What a [`MapInfo`] holds.
pub struct MapModel {
    pub start: usize,
    pub end: usize,
    pub perms: u32,
    pub is_private: bool,
    pub offset: u64,
    pub dev: u64,
    pub inode: u64,
    pub path: Seq<char>,
}

impl View for MapInfo {
    type V = MapModel;

    open spec fn view(&self) -> MapModel {
        MapModel {
            start: self.start,
            end: self.end,
            perms: self.perms,
            is_private: self.is_private,
            offset: self.offset,
            dev: self.dev,
            inode: self.inode,
            path: self.path@,
        }
    }
}

impl MapInfo {
    /// Tells whether `addr` lies in this mapping.
    pub fn contains(&self, addr: usize) -> (r: bool)
        ensures
            r == (self.start <= addr < self.end),
    {
        self.start <= addr && addr < self.end
    }
}

/// The models of a list of mappings.
pub open spec fn map_views(v: Seq<MapInfo>) -> Seq<MapModel> {
    Seq::new(v.len(), |i: int| v[i]@)
}

/// Byte `i` of the permission field is `c`.
pub open spec fn perm_at(field: Seq<char>, i: int, c: u8) -> bool {
    i < encode_utf8(field).len() && encode_utf8(field)[i] == c
}

/// The protection bits that a permission field such as `r-xp` grants.
pub open spec fn perm_bits(field: Seq<char>) -> u32 {
    (if perm_at(field, 0, 114) {
        PROT_READ
    } else {
        0
    }) | (if perm_at(field, 1, 119) {
        PROT_WRITE
    } else {
        0
    }) | (if perm_at(field, 2, 120) {
        PROT_EXEC
    } else {
        0
    })
}

/// A hexadecimal `u64`, zero where the text writes none.
pub open spec fn hex_or_zero(s: Seq<char>) -> u64 {
    match unsigned_spec(s, 16, u64::MAX as nat) {
        Some(v) => v as u64,
        None => 0,
    }
}

/// The device number of a field such as `fe:01`, zero for any other shape.
pub open spec fn dev_number(field: Seq<char>) -> u64 {
    let p = split_spec(field, ':');
    if p.len() == 2 {
        (hex_or_zero(p[0]) << 8u64) | hex_or_zero(p[1])
    } else {
        0
    }
}

/// The mapping that a line of `/proc/<pid>/maps` describes.
///
/// The line needs five fields: an address range of two hexadecimal numbers, the
/// permissions, a hexadecimal offset, a device, and a decimal inode. What
/// follows is the path, its words joined by single blanks.
pub open spec fn map_line_spec(line: Seq<char>) -> Option<MapModel> {
    let f = words_spec(line);
    let range = split_spec(f[0], '-');
    let start = unsigned_spec(range[0], 16, usize::MAX as nat);
    let end = unsigned_spec(range[1], 16, usize::MAX as nat);
    let offset = unsigned_spec(f[2], 16, u64::MAX as nat);
    let inode = unsigned_spec(f[4], 10, u64::MAX as nat);
    if f.len() >= 5 && range.len() == 2 && start is Some && end is Some && offset is Some
        && inode is Some {
        Some(
            MapModel {
                start: start.unwrap() as usize,
                end: end.unwrap() as usize,
                perms: perm_bits(f[1]),
                is_private: perm_at(f[1], 3, 112),
                offset: offset.unwrap() as u64,
                dev: dev_number(f[3]),
                inode: inode.unwrap() as u64,
                path: join_spec(f.skip(5), ' '),
            },
        )
    } else {
        None
    }
}

fn byte_is(b: &[u8], i: usize, c: u8) -> (r: bool)
    ensures
        r == (i < b@.len() && b@[i as int] == c),
{
    i < b.len() && b[i] == c
}

fn hex_u64_or_zero(s: &[char]) -> (r: u64)
    ensures
        r == hex_or_zero(s@),
{
    match parse_u64(s, 16) {
        Some(v) => v,
        None => 0,
    }
}

/// Reads one line of `/proc/<pid>/maps`.
pub fn parse_map_line(line: &str) -> (r: Option<MapInfo>)
    ensures
        match r {
            Some(m) => map_line_spec(line@) == Some(m@),
            None => map_line_spec(line@) is None,
        },
{
    let chars = to_chars(line);
    let parts = split_whitespace(chars.as_slice());
    assert(views(parts@) == words_spec(line@));
    if parts.len() < 5 {
        return None;
    }
    assert(forall|i: int| 0 <= i < parts@.len() ==> #[trigger] words_spec(line@)[i] == parts@[i]@);
    let range = split_char(parts[0], '-');
    if range.len() != 2 {
        return None;
    }
    assert(forall|i: int|
        0 <= i < range@.len() ==> #[trigger] split_spec(parts@[0]@, '-')[i] == range@[i]@);
    let start: usize = match parse_usize(range[0], 16) {
        Some(v) => v,
        None => {
            return None;
        },
    };
    let end: usize = match parse_usize(range[1], 16) {
        Some(v) => v,
        None => {
            return None;
        },
    };

    let field = to_text(parts[1]);
    let bytes = field.as_str().as_bytes();
    let r: u32 = if byte_is(bytes, 0, 114) {
        PROT_READ
    } else {
        0
    };
    let w: u32 = if byte_is(bytes, 1, 119) {
        PROT_WRITE
    } else {
        0
    };
    let x: u32 = if byte_is(bytes, 2, 120) {
        PROT_EXEC
    } else {
        0
    };
    let is_private = byte_is(bytes, 3, 112);

    let offset: u64 = match parse_u64(parts[2], 16) {
        Some(v) => v,
        None => {
            return None;
        },
    };

    let dev_parts = split_char(parts[3], ':');
    assert(forall|i: int|
        0 <= i < dev_parts@.len() ==> #[trigger] split_spec(parts@[3]@, ':')[i] == dev_parts@[i]@);
    let dev: u64 = if dev_parts.len() == 2 {
        (hex_u64_or_zero(dev_parts[0]) << 8u64) | hex_u64_or_zero(dev_parts[1])
    } else {
        0
    };

    let inode: u64 = match parse_u64(parts[4], 10) {
        Some(v) => v,
        None => {
            return None;
        },
    };

    let tail = slice_subrange(parts.as_slice(), 5, parts.len());
    assert(views(tail@) =~= words_spec(line@).skip(5));
    let path = join(tail, ' ');
    Some(MapInfo { start, end, perms: r | w | x, is_private, offset, dev, inode, path })
}

/// The mappings that the lines of a `maps` file describe, in their order; other
/// lines are passed over.
pub open spec fn maps_spec(lines: Seq<Seq<char>>) -> Seq<MapModel>
    decreases lines.len(),
{
    if lines.len() == 0 {
        Seq::empty()
    } else {
        let before = maps_spec(lines.drop_last());
        match map_line_spec(lines.last()) {
            Some(m) => before.push(m),
            None => before,
        }
    }
}

/// The `maps` file of a process; process 0 is the caller.
pub open spec fn maps_path_spec(pid: i32) -> Seq<char> {
    "/proc/"@ + (if pid == 0 {
        "self"@
    } else {
        decimal_int(pid as int)
    }) + "/maps"@
}

/// Names the `maps` file of a process.
pub fn maps_path(pid: i32) -> (r: String)
    ensures
        r@ == maps_path_spec(pid),
{
    let mut path = "/proc/".to_owned();
    if pid == 0 {
        append(&mut path, "self");
    } else {
        append(&mut path, decimal_text_i32(pid).as_str());
    }
    append(&mut path, "/maps");
    path
}

/// Reads the lines of a `maps` file.
pub fn scan_proc_maps(lines: &[String]) -> (r: Vec<MapInfo>)
    ensures
        map_views(r@) == maps_spec(texts(lines@)),
{
    let mut maps: Vec<MapInfo> = Vec::new();
    for i in 0..lines.len()
        invariant
            map_views(maps@) == maps_spec(texts(lines@).take(i as int)),
    {
        let ghost before = maps@;
        assert(texts(lines@).take(i + 1).drop_last() =~= texts(lines@).take(i as int));
        match parse_map_line(lines[i].as_str()) {
            Some(m) => {
                maps.push(m);
                assert(map_views(maps@) =~= map_views(before).push(m@));
            },
            None => {},
        }
    }
    assert(texts(lines@).take(lines@.len() as int) =~= texts(lines@));
    maps
}

/// The start of the first mapping that `p` accepts.
pub open spec fn first_start(maps: Seq<MapModel>, p: spec_fn(MapModel) -> bool) -> Option<usize>
    decreases maps.len(),
{
    if maps.len() == 0 {
        None
    } else if p(maps[0]) {
        Some(maps[0].start)
    } else {
        first_start(maps.skip(1), p)
    }
}

proof fn lemma_first_start(maps: Seq<MapModel>, p: spec_fn(MapModel) -> bool, i: int)
    requires
        0 <= i <= maps.len(),
        forall|k: int| 0 <= k < i ==> !p(#[trigger] maps[k]),
    ensures
        i < maps.len() && p(maps[i]) ==> first_start(maps, p) == Some(maps[i].start),
        i == maps.len() ==> first_start(maps, p) is None,
    decreases i,
{
    if i > 0 {
        let rest = maps.skip(1);
        assert(!p(maps[0]));
        assert forall|k: int| 0 <= k < i - 1 implies !p(#[trigger] rest[k]) by {
            assert(rest[k] == maps[k + 1]);
        }
        lemma_first_start(rest, p, i - 1);
    }
}

/// A mapping is the first of a file whose path ends in `suffix`.
pub open spec fn is_base(m: MapModel, suffix: Seq<char>) -> bool {
    m.offset == 0 && has_suffix(m.path, suffix)
}

/// A mapping holds no code, and its path ends in `suffix`.
pub open spec fn is_return(m: MapModel, suffix: Seq<char>) -> bool {
    m.perms & PROT_EXEC == 0 && has_suffix(m.path, suffix)
}

/// Where the file whose path ends in `suffix` is loaded.
pub open spec fn module_base(maps: Seq<MapModel>, suffix: Seq<char>) -> Option<usize> {
    first_start(maps, |m: MapModel| is_base(m, suffix))
}

/// An address in the file whose path ends in `suffix` that traps when it is
/// returned to.
pub open spec fn module_return_addr(maps: Seq<MapModel>, suffix: Seq<char>) -> Option<usize> {
    first_start(maps, |m: MapModel| is_return(m, suffix))
}

fn path_ends_with(m: &MapInfo, suffix: &[char]) -> (r: bool)
    ensures
        r == has_suffix(m.path@, suffix@),
{
    let path = to_chars(m.path.as_str());
    ends_with(path.as_slice(), suffix)
}

/// Finds where the file whose path ends in `suffix` is loaded.
pub fn find_module_base(maps: &[MapInfo], suffix: &str) -> (r: Option<usize>)
    ensures
        r == module_base(map_views(maps@), suffix@),
{
    let chars = to_chars(suffix);
    let ghost p = |m: MapModel| is_base(m, suffix@);
    let ghost views = map_views(maps@);
    for i in 0..maps.len()
        invariant
            chars@ == suffix@,
            views == map_views(maps@),
            p == (|m: MapModel| is_base(m, suffix@)),
            forall|k: int| 0 <= k < i ==> !p(#[trigger] views[k]),
    {
        let m = &maps[i];
        assert(views[i as int] == m@);
        if m.offset == 0 && path_ends_with(m, chars.as_slice()) {
            proof {
                lemma_first_start(views, p, i as int);
            }
            return Some(m.start);
        }
    }
    proof {
        lemma_first_start(views, p, views.len() as int);
    }
    None
}

/// Finds an address in the file whose path ends in `suffix` that holds no code.
pub fn find_module_return_addr(maps: &[MapInfo], suffix: &str) -> (r: Option<usize>)
    ensures
        r == module_return_addr(map_views(maps@), suffix@),
{
    let chars = to_chars(suffix);
    let ghost p = |m: MapModel| is_return(m, suffix@);
    let ghost views = map_views(maps@);
    for i in 0..maps.len()
        invariant
            chars@ == suffix@,
            views == map_views(maps@),
            p == (|m: MapModel| is_return(m, suffix@)),
            forall|k: int| 0 <= k < i ==> !p(#[trigger] views[k]),
    {
        let m = &maps[i];
        assert(views[i as int] == m@);
        if m.perms & PROT_EXEC == 0 && path_ends_with(m, chars.as_slice()) {
            proof {
                lemma_first_start(views, p, i as int);
            }
            return Some(m.start);
        }
    }
    proof {
        lemma_first_start(views, p, views.len() as int);
    }
    None
}

/// The address in the remote process of a symbol that the local process has at
/// `sym`: as far behind the base of its module there as here. A symbol at 0 was
/// not found.
pub open spec fn func_addr_spec(
    local: Seq<MapModel>,
    remote: Seq<MapModel>,
    module: Seq<char>,
    sym: Option<usize>,
) -> Option<int> {
    match (sym, module_base(local, module), module_base(remote, module)) {
        (Some(s), Some(l), Some(r)) => if s != 0 {
            Some((s - l) + r)
        } else {
            None
        },
        _ => None,
    }
}

/// Finds the address in the remote process of a symbol of `module` that the
/// local process has at `sym`.
pub fn find_func_addr(
    local_maps: &[MapInfo],
    remote_maps: &[MapInfo],
    module: &str,
    sym: Option<usize>,
) -> (r: Option<usize>)
    requires
        func_addr_spec(map_views(local_maps@), map_views(remote_maps@), module@, sym) is Some
            ==> module_base(map_views(local_maps@), module@).unwrap() <= sym.unwrap()
            && func_addr_spec(
            map_views(local_maps@),
            map_views(remote_maps@),
            module@,
            sym,
        ).unwrap() <= usize::MAX,
    ensures
        match r {
            Some(a) => func_addr_spec(
                map_views(local_maps@),
                map_views(remote_maps@),
                module@,
                sym,
            ) == Some(a as int),
            None => func_addr_spec(
                map_views(local_maps@),
                map_views(remote_maps@),
                module@,
                sym,
            ) is None,
        },
{
    let s: usize = match sym {
        Some(s) => s,
        None => {
            return None;
        },
    };
    if s == 0 {
        return None;
    }
    let local_base: usize = match find_module_base(local_maps, module) {
        Some(b) => b,
        None => {
            return None;
        },
    };
    let remote_base: usize = match find_module_base(remote_maps, module) {
        Some(b) => b,
        None => {
            return None;
        },
    };
    Some((s - local_base) + remote_base)
}

/// A symbol keeps its distance from the base of its module: translating an
/// address from one process to another and back gives the address.
pub proof fn law_func_addr_translates_back(
    local: Seq<MapModel>,
    remote: Seq<MapModel>,
    module: Seq<char>,
    sym: usize,
)
    requires
        func_addr_spec(local, remote, module, Some(sym)) is Some,
        0 < func_addr_spec(local, remote, module, Some(sym)).unwrap() <= usize::MAX,
    ensures
        func_addr_spec(
            remote,
            local,
            module,
            Some(func_addr_spec(local, remote, module, Some(sym)).unwrap() as usize),
        ) == Some(sym as int),
{
}

/// `w` is a word: it is not empty and holds no white space.
pub open spec fn is_word(w: Seq<char>) -> bool {
    w.len() > 0 && forall|i: int| 0 <= i < w.len() ==> !is_space(#[trigger] w[i])
}

/// A line gives the mapping that its fields write: the range in hexadecimal, the
/// permissions, the offset, the device, the inode in decimal, and the path, which may
/// be missing.
pub proof fn law_mapping_is_read(
    from: Seq<char>,
    to: Seq<char>,
    perms: Seq<char>,
    offset: Seq<char>,
    major: Seq<char>,
    minor: Seq<char>,
    inode: Seq<char>,
    path: Seq<char>,
    m: MapModel,
)
    requires
        !from.contains('-') && !to.contains('-'),
        !major.contains(':') && !minor.contains(':'),
        is_word(from.push('-') + to) && is_word(perms) && is_word(offset) && is_word(
            major.push(':') + minor,
        ) && is_word(inode) && is_word(path),
        unsigned_spec(from, 16, usize::MAX as nat) == Some(m.start as nat),
        unsigned_spec(to, 16, usize::MAX as nat) == Some(m.end as nat),
        unsigned_spec(offset, 16, u64::MAX as nat) == Some(m.offset as nat),
        unsigned_spec(inode, 10, u64::MAX as nat) == Some(m.inode as nat),
    ensures
        ({
            let head = (from.push('-') + to).push(' ') + (perms.push(' ') + (offset.push(' ') + ((
            major.push(':') + minor).push(' ') + inode)));
            let with_path = map_line_spec(head.push(' ') + path);
            let without = map_line_spec(head);
            &&& with_path is Some && without is Some
            &&& with_path.unwrap().start == m.start && with_path.unwrap().end == m.end
            &&& with_path.unwrap().offset == m.offset && with_path.unwrap().inode == m.inode
            &&& with_path.unwrap().path == path
            &&& with_path.unwrap().perms == perm_bits(perms)
            &&& with_path.unwrap().is_private == perm_at(perms, 3, 112)
            &&& with_path.unwrap().dev == (hex_or_zero(major) << 8u64) | hex_or_zero(minor)
            &&& without.unwrap() == (MapModel { path: Seq::empty(), ..with_path.unwrap() })
        }),
{
    let f0 = from.push('-') + to;
    let f3 = major.push(':') + minor;
    let none = Seq::<char>::empty();
    let t3 = f3.push(' ') + inode;
    let t2 = offset.push(' ') + t3;
    let t1 = perms.push(' ') + t2;
    let head = f0.push(' ') + t1;
    let f = seq![f0, perms, offset, f3, inode];
    law_words(none, inode, ' ', none);
    assert(none + inode =~= inode);
    lemma_first_word(f3, inode);
    lemma_first_word(offset, t3);
    lemma_first_word(perms, t2);
    lemma_first_word(f0, t1);
    assert(words_spec(head) =~= f);
    let p4 = inode.push(' ') + path;
    law_words(none, path, ' ', none);
    assert(none + path =~= path);
    lemma_first_word(inode, path);
    let p3 = f3.push(' ') + p4;
    let p2 = offset.push(' ') + p3;
    let p1 = perms.push(' ') + p2;
    lemma_first_word(f3, p4);
    lemma_first_word(offset, p3);
    lemma_first_word(perms, p2);
    lemma_first_word(f0, p1);
    assert(head.push(' ') + path =~= f0.push(' ') + p1);
    let g = words_spec(head.push(' ') + path);
    assert(g =~= f.push(path));
    law_pieces(from, '-', to);
    law_pieces(to, '-', none);
    assert(split_spec(f0, '-') =~= seq![from, to]);
    law_pieces(major, ':', minor);
    law_pieces(minor, ':', none);
    assert(split_spec(f3, ':') =~= seq![major, minor]);
    assert(f.skip(5) =~= Seq::<Seq<char>>::empty());
    assert(g.skip(5) =~= seq![path]);
    assert(join_spec(seq![path], ' ') == path);
}

proof fn lemma_first_word(w: Seq<char>, rest: Seq<char>)
    requires
        is_word(w),
    ensures
        words_spec(w.push(' ') + rest) == seq![w] + words_spec(rest),
{
    law_words(Seq::empty(), w, ' ', rest);
    assert(Seq::<char>::empty() + w.push(' ') + rest =~= w.push(' ') + rest);
}

/// The four letters of a permission field grant reading, writing and executing, and
/// tell whether the mapping is private.
pub proof fn law_permissions(r: bool, w: bool, x: bool, p: bool)
    ensures
        ({
            let field = seq![
                if r {
                    'r'
                } else {
                    '-'
                },
                if w {
                    'w'
                } else {
                    '-'
                },
                if x {
                    'x'
                } else {
                    '-'
                },
                if p {
                    'p'
                } else {
                    's'
                },
            ];
            &&& perm_bits(field) & 1 != 0 <==> r
            &&& perm_bits(field) & 2 != 0 <==> w
            &&& perm_bits(field) & 4 != 0 <==> x
            &&& perm_bits(field) <= 7
            &&& perm_at(field, 3, 112) <==> p
        }),
{
    let field = seq![
        if r {
            'r'
        } else {
            '-'
        },
        if w {
            'w'
        } else {
            '-'
        },
        if x {
            'x'
        } else {
            '-'
        },
        if p {
            'p'
        } else {
            's'
        },
    ];
    assert(is_ascii_chars(field));
    is_ascii_chars_encode_utf8(field);
    let b = encode_utf8(field);
    assert(b.len() == 4);
    assert(b[0] == field[0] as u8 && b[1] == field[1] as u8 && b[2] == field[2] as u8 && b[3]
        == field[3] as u8);
    assert(forall|a: u32, b: u32, c: u32|
        (a == 0 || a == 1) && (b == 0 || b == 2) && (c == 0 || c == 4) ==> (#[trigger] (a | b | c)
            & 1 != 0 <==> a == 1) && ((a | b | c) & 2 != 0 <==> b == 2) && ((a | b | c) & 4 != 0
            <==> c == 4) && (a | b | c) <= 7) by (bit_vector);
}

/// A line more: what it describes comes last, and a line that describes nothing is
/// passed over.
pub proof fn law_one_line_more(lines: Seq<Seq<char>>, line: Seq<char>)
    ensures
        maps_spec(Seq::empty()) == Seq::<MapModel>::empty(),
        maps_spec(lines.push(line)) == (match map_line_spec(line) {
            Some(m) => maps_spec(lines).push(m),
            None => maps_spec(lines),
        }),
{
    assert(lines.push(line).drop_last() =~= lines);
}

/// A module is loaded where the start of the first file is mapped whose path ends in
/// its name. Functions that return are made to return to the first mapping of it that
/// holds no code.
pub proof fn law_module_addresses(
    before: Seq<MapModel>,
    m: MapModel,
    behind: Seq<MapModel>,
    dir: Seq<char>,
    name: Seq<char>,
)
    requires
        m.path == dir + name,
    ensures
        m.offset == 0 && (forall|i: int, d: Seq<char>|
            0 <= i < before.len() ==> (#[trigger] before[i]).offset != 0 || before[i].path
                != #[trigger] (d + name)) ==> module_base(before.push(m) + behind, name) == Some(
            m.start,
        ) && module_base(before, name) is None,
        m.perms & 4 == 0 && (forall|i: int, d: Seq<char>|
            0 <= i < before.len() ==> (#[trigger] before[i]).perms & 4 != 0 || before[i].path
                != #[trigger] (d + name)) ==> module_return_addr(before.push(m) + behind, name)
            == Some(m.start) && module_return_addr(before, name) is None,
{
    let all = before.push(m) + behind;
    let n = before.len() as int;
    assert(all[n] == m);
    law_ends(dir, name, m.path);
    let p = |m: MapModel| is_base(m, name);
    let q = |m: MapModel| is_return(m, name);
    if m.offset == 0 && (forall|i: int, d: Seq<char>|
        0 <= i < before.len() ==> (#[trigger] before[i]).offset != 0 || before[i].path
            != #[trigger] (d + name)) {
        assert forall|k: int| 0 <= k < n implies !p(#[trigger] before[k]) by {
            law_ends(Seq::empty(), name, before[k].path);
        }
        assert forall|k: int| 0 <= k < n implies !p(#[trigger] all[k]) by {
            assert(all[k] == before[k]);
        }
        lemma_first_start(all, p, n);
        lemma_first_start(before, p, n);
    }
    if m.perms & 4 == 0 && (forall|i: int, d: Seq<char>|
        0 <= i < before.len() ==> (#[trigger] before[i]).perms & 4 != 0 || before[i].path
            != #[trigger] (d + name)) {
        assert forall|k: int| 0 <= k < n implies !q(#[trigger] before[k]) by {
            law_ends(Seq::empty(), name, before[k].path);
        }
        assert forall|k: int| 0 <= k < n implies !q(#[trigger] all[k]) by {
            assert(all[k] == before[k]);
        }
        lemma_first_start(all, q, n);
        lemma_first_start(before, q, n);
    }
}

/// A function is as far behind the start of its module in one process as in another.
pub proof fn law_functions_keep_their_distance(
    local: Seq<MapModel>,
    remote: Seq<MapModel>,
    module: Seq<char>,
    sym: usize,
    here: usize,
    there: usize,
)
    requires
        module_base(local, module) == Some(here),
        module_base(remote, module) == Some(there),
        sym != 0,
    ensures
        func_addr_spec(local, remote, module, Some(sym)) is Some,
        func_addr_spec(local, remote, module, Some(sym)).unwrap() - there == sym - here,
        func_addr_spec(local, remote, module, None) is None,
        func_addr_spec(local, remote, module, Some(0)) is None,
        func_addr_spec(local, Seq::empty(), module, Some(sym)) is None,
        func_addr_spec(Seq::empty(), remote, module, Some(sym)) is None,
{
}

/// The `maps` file of a process stands in its directory of `/proc`.
pub proof fn law_maps_path(pid: i32)
    ensures
        pid == 0 ==> maps_path_spec(pid) == "/proc/self/maps"@,
        pid != 0 ==> maps_path_spec(pid) == "/proc/"@ + decimal_int(pid as int) + "/maps"@,
{
    reveal_strlit("/proc/");
    reveal_strlit("self");
    reveal_strlit("/maps");
    reveal_strlit("/proc/self/maps");
    assert("/proc/"@ + "self"@ + "/maps"@ =~= "/proc/self/maps"@);
}

/// A device's numbers are read in base sixteen, the first in units of 256; what is
/// no such number counts as zero, and a field of any other shape as device zero.
pub proof fn law_device_numbers(major: Seq<char>, minor: Seq<char>, other: Seq<char>, a: u64, b: u64)
    requires
        !major.contains(':') && !minor.contains(':') && !other.contains(':'),
        a < 0x100_0000_0000,
        b < 256,
    ensures
        unsigned_spec(major, 16, 0xffff_ffff_ffff_ffff) == Some(a as nat) && unsigned_spec(
            minor,
            16,
            0xffff_ffff_ffff_ffff,
        ) == Some(b as nat) ==> dev_number(major.push(':') + minor) == a * 256 + b,
        unsigned_spec(major, 16, 0xffff_ffff_ffff_ffff) is None ==> hex_or_zero(major) == 0,
        dev_number(other) == 0,
        dev_number(major.push(':') + (minor.push(':') + other)) == 0,
{
    law_pieces(major, ':', minor);
    law_pieces(minor, ':', Seq::empty());
    law_pieces(other, ':', Seq::empty());
    law_pieces(minor, ':', other);
    law_pieces(major, ':', minor.push(':') + other);
    assert((a << 8u64) | b == a * 256 + b) by (bit_vector)
        requires
            a < 0x100_0000_0000u64,
            b < 256,
    ;
}

} // verus!
