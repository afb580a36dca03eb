//! Redirecting the calls that loaded libraries make.

use vstd::prelude::*;
use vstd::slice::slice_subrange;
use vstd::string::*;
use vstd::utf8::{decode_utf8, valid_utf8};

use super::elf::{find_got_offset, got_offset};
use crate::bytes::{append_bytes, find_byte};
use crate::num::{parse_u64, parse_usize, unsigned_spec};
use crate::text::{
    decode, ends_with, find_char, has_suffix, index_of_item, is_space, law_ends, law_first_pieces,
    law_lines, law_trimming, lemma_index_of_item, lines, lines_spec, splitn_char, splitn_spec,
    to_chars, to_text, trim, trim_spec, views,
};
use crate::zygisk::ptrace_inject::{PROT_EXEC, PROT_READ, PROT_WRITE};

verus! {

/// A mapping of a file.
pub struct MapInfo {
    pub addr_start: usize,
    pub addr_end: usize,
    pub perms: String,
    pub offset: u64,
    pub dev_major: u64,
    pub dev_minor: u64,
    pub inode: u64,
    pub path: String,
}

/// What a [`MapInfo`] holds.
pub struct MapModel {
    pub addr_start: usize,
    pub addr_end: usize,
    pub perms: Seq<char>,
    pub offset: u64,
    pub dev_major: u64,
    pub dev_minor: u64,
    pub inode: u64,
    pub path: Seq<char>,
}

impl View for MapInfo {
    type V = MapModel;

    open spec fn view(&self) -> MapModel {
        MapModel {
            addr_start: self.addr_start,
            addr_end: self.addr_end,
            perms: self.perms@,
            offset: self.offset,
            dev_major: self.dev_major,
            dev_minor: self.dev_minor,
            inode: self.inode,
            path: self.path@,
        }
    }
}

/// The models of a list of mappings.
pub open spec fn map_views(v: Seq<MapInfo>) -> Seq<MapModel> {
    Seq::new(v.len(), |i: int| v[i]@)
}

/// The fields of a line of a `maps` file: five end at single blanks, and the
/// path is the rest, without blanks around it.
pub open spec fn fields_spec(line: Seq<char>) -> Seq<Seq<char>> {
    splitn_spec(trim_spec(line), 6, ' ')
}

/// The two numbers of an address range.
pub open spec fn range_spec(field: Seq<char>) -> Option<(usize, usize)> {
    let p = splitn_spec(field, 2, '-');
    if p.len() == 2 {
        match (
            unsigned_spec(p[0], 16, usize::MAX as nat),
            unsigned_spec(p[1], 16, usize::MAX as nat),
        ) {
            (Some(a), Some(b)) => Some((a as usize, b as usize)),
            _ => None,
        }
    } else {
        None
    }
}

/// The two numbers of a device.
pub open spec fn device_spec(field: Seq<char>) -> Option<(u64, u64)> {
    let p = splitn_spec(field, 2, ':');
    if p.len() == 2 {
        match (
            unsigned_spec(p[0], 16, u64::MAX as nat),
            unsigned_spec(p[1], 16, u64::MAX as nat),
        ) {
            (Some(a), Some(b)) => Some((a as u64, b as u64)),
            _ => None,
        }
    } else {
        None
    }
}

/// The mapping of a file that a line of a `maps` file describes; other mappings
/// have no inode or no path.
pub open spec fn file_map_spec(line: Seq<char>) -> Option<MapModel> {
    let f = fields_spec(line);
    let range = range_spec(f[0]);
    let offset = unsigned_spec(f[2], 16, u64::MAX as nat);
    let device = device_spec(f[3]);
    let inode = unsigned_spec(f[4], 10, u64::MAX as nat);
    if f.len() == 6 && range is Some && offset is Some && device is Some && inode is Some
        && inode.unwrap() != 0 && trim_spec(f[5]).len() > 0 {
        Some(
            MapModel {
                addr_start: range.unwrap().0,
                addr_end: range.unwrap().1,
                perms: f[1],
                offset: offset.unwrap() as u64,
                dev_major: device.unwrap().0,
                dev_minor: device.unwrap().1,
                inode: inode.unwrap() as u64,
                path: trim_spec(f[5]),
            },
        )
    } else {
        None
    }
}

/// The mappings of files that lines describe, in their order.
pub open spec fn file_maps(lines: Seq<Seq<char>>) -> Seq<MapModel>
    decreases lines.len(),
{
    if lines.len() == 0 {
        Seq::empty()
    } else {
        let before = file_maps(lines.drop_last());
        match file_map_spec(lines.last()) {
            Some(m) => before.push(m),
            None => before,
        }
    }
}

/// The mappings of files that the contents of a `maps` file describe; none where
/// the contents are not text.
pub open spec fn scan_spec(data: Seq<u8>) -> Seq<MapModel> {
    if valid_utf8(data) {
        file_maps(lines_spec(decode_utf8(data)))
    } else {
        Seq::empty()
    }
}

/// Reads the two numbers of an address range.
pub fn parse_range(field: &[char]) -> (r: Option<(usize, usize)>)
    ensures
        r == range_spec(field@),
{
    let p = splitn_char(field, 2, '-');
    assert(views(p@).len() == p@.len());
    if p.len() != 2 {
        return None;
    }
    assert(splitn_spec(field@, 2, '-')[0] == p@[0]@);
    assert(splitn_spec(field@, 2, '-')[1] == p@[1]@);
    match (parse_usize(p[0], 16), parse_usize(p[1], 16)) {
        (Some(a), Some(b)) => Some((a, b)),
        _ => None,
    }
}

fn parse_device(field: &[char]) -> (r: Option<(u64, u64)>)
    ensures
        r == device_spec(field@),
{
    let p = splitn_char(field, 2, ':');
    assert(views(p@).len() == p@.len());
    if p.len() != 2 {
        return None;
    }
    assert(splitn_spec(field@, 2, ':')[0] == p@[0]@);
    assert(splitn_spec(field@, 2, ':')[1] == p@[1]@);
    match (parse_u64(p[0], 16), parse_u64(p[1], 16)) {
        (Some(a), Some(b)) => Some((a, b)),
        _ => None,
    }
}

fn parse_file_map(line: &[char]) -> (r: Option<MapInfo>)
    ensures
        match r {
            Some(m) => file_map_spec(line@) == Some(m@),
            None => file_map_spec(line@) is None,
        },
{
    let f = splitn_char(trim(line), 6, ' ');
    assert(views(f@) == fields_spec(line@));
    assert(views(f@).len() == f@.len());
    if f.len() != 6 {
        return None;
    }
    assert(forall|i: int| 0 <= i < 6 ==> #[trigger] fields_spec(line@)[i] == f@[i]@);
    let (addr_start, addr_end): (usize, usize) = match parse_range(f[0]) {
        Some(v) => v,
        None => {
            return None;
        },
    };
    let offset: u64 = match parse_u64(f[2], 16) {
        Some(v) => v,
        None => {
            return None;
        },
    };
    let (dev_major, dev_minor): (u64, u64) = match parse_device(f[3]) {
        Some(v) => v,
        None => {
            return None;
        },
    };
    let inode: u64 = match parse_u64(f[4], 10) {
        Some(v) => v,
        None => {
            return None;
        },
    };
    let path = trim(f[5]);
    if inode == 0 || path.len() == 0 {
        return None;
    }
    Some(
        MapInfo {
            addr_start,
            addr_end,
            perms: to_text(f[1]),
            offset,
            dev_major,
            dev_minor,
            inode,
            path: to_text(path),
        },
    )
}

/// Reads the mappings of files from the contents of a `maps` file.
pub fn scan_maps(data: &[u8]) -> (r: Vec<MapInfo>)
    ensures
        map_views(r@) == scan_spec(data@),
{
    let mut maps: Vec<MapInfo> = Vec::new();
    let text = match decode(data) {
        Some(t) => t,
        None => {
            assert(map_views(maps@) =~= Seq::empty());
            return maps;
        },
    };
    let chars = to_chars(text.as_str());
    let all = lines(chars.as_slice());
    let ghost full = views(all@);
    for i in 0..all.len()
        invariant
            full == views(all@),
            full == lines_spec(text@),
            map_views(maps@) == file_maps(full.take(i as int)),
    {
        let ghost before = maps@;
        assert(full.take(i + 1).drop_last() =~= full.take(i as int));
        assert(full[i as int] == all@[i as int]@);
        match parse_file_map(all[i]) {
            Some(m) => {
                maps.push(m);
                assert(map_views(maps@) =~= map_views(before).push(m@));
            },
            None => {},
        }
    }
    assert(full.take(full.len() as int) =~= full);
    maps
}

/// The protection that a permission field grants.
pub open spec fn perms_spec(field: Seq<char>) -> u32 {
    (if field.contains('r') {
        PROT_READ
    } else {
        0
    }) | (if field.contains('w') {
        PROT_WRITE
    } else {
        0
    }) | (if field.contains('x') {
        PROT_EXEC
    } else {
        0
    })
}

fn has_char(s: &[char], c: char) -> (r: bool)
    ensures
        r == s@.contains(c),
{
    proof {
        lemma_index_of_item(s@, c);
    }
    let i: usize = find_char(s, c);
    if i < s.len() {
        assert(s@[i as int] == c);
        true
    } else {
        false
    }
}

/// Tells the protection that a permission field grants.
pub fn parse_perms(field: &[char]) -> (r: u32)
    ensures
        r == perms_spec(field@),
{
    let read: u32 = if has_char(field, 'r') {
        PROT_READ
    } else {
        0
    };
    let write: u32 = if has_char(field, 'w') {
        PROT_WRITE
    } else {
        0
    };
    let exec: u32 = if has_char(field, 'x') {
        PROT_EXEC
    } else {
        0
    };
    read | write | exec
}

/// The protection of the first mapping that holds an address.
pub open spec fn page_perms(maps: Seq<MapModel>, page: usize) -> Option<u32>
    decreases maps.len(),
{
    if maps.len() == 0 {
        None
    } else if maps[0].addr_start <= page < maps[0].addr_end {
        Some(perms_spec(maps[0].perms))
    } else {
        page_perms(maps.skip(1), page)
    }
}

/// Tells the protection of an address; `None` where nothing is mapped there.
pub fn get_page_perms(maps: &[MapInfo], page: usize) -> (r: Option<u32>)
    ensures
        r == page_perms(map_views(maps@), page),
{
    let ghost full = map_views(maps@);
    assert(full.skip(0) =~= full);
    for i in 0..maps.len()
        invariant
            full == map_views(maps@),
            page_perms(full, page) == page_perms(full.skip(i as int), page),
    {
        assert(full.skip(i as int)[0] == maps@[i as int]@);
        assert(full.skip(i as int).skip(1) =~= full.skip(i + 1));
        if maps[i].addr_start <= page && page < maps[i].addr_end {
            let perms = to_chars(maps[i].perms.as_str());
            return Some(parse_perms(perms.as_slice()));
        }
    }
    assert(full.skip(full.len() as int) =~= Seq::empty());
    None
}

/// A mapping is the readable start of a library.
pub open spec fn is_lib_base(m: MapModel, suffix: Seq<char>) -> bool {
    m.offset == 0 && has_suffix(m.path, suffix) && m.perms.contains('r')
}

/// The place of the first mapping of the library whose path ends in `suffix`, or
/// the number of mappings where there is none.
pub open spec fn lib_index(maps: Seq<MapModel>, suffix: Seq<char>) -> int
    decreases maps.len(),
{
    if maps.len() == 0 || is_lib_base(maps[0], suffix) {
        0
    } else {
        1 + lib_index(maps.skip(1), suffix)
    }
}

/// Where the library whose path ends in `suffix` starts.
pub open spec fn lib_base(maps: Seq<MapModel>, suffix: Seq<char>) -> Option<usize> {
    let i = lib_index(maps, suffix);
    if i < maps.len() {
        Some(maps[i].addr_start)
    } else {
        None
    }
}

fn find_lib(maps: &[MapInfo], lib_suffix: &str) -> (r: usize)
    ensures
        r == lib_index(map_views(maps@), lib_suffix@),
        r <= maps@.len(),
{
    let suffix = to_chars(lib_suffix);
    let ghost full = map_views(maps@);
    assert(full.skip(0) =~= full);
    for i in 0..maps.len()
        invariant
            suffix@ == lib_suffix@,
            full == map_views(maps@),
            lib_index(full, lib_suffix@) == i + lib_index(full.skip(i as int), lib_suffix@),
    {
        assert(full.skip(i as int)[0] == maps@[i as int]@);
        assert(full.skip(i as int).skip(1) =~= full.skip(i + 1));
        let path = to_chars(maps[i].path.as_str());
        let perms = to_chars(maps[i].perms.as_str());
        if maps[i].offset == 0 && ends_with(path.as_slice(), suffix.as_slice()) && has_char(
            perms.as_slice(),
            'r',
        ) {
            return i;
        }
    }
    assert(full.skip(full.len() as int) =~= Seq::empty());
    maps.len()
}

/// Finds where the library whose path ends in `lib_suffix` starts.
pub fn find_lib_base(maps: &[MapInfo], lib_suffix: &str) -> (r: Option<usize>)
    ensures
        r == lib_base(map_views(maps@), lib_suffix@),
{
    let i: usize = find_lib(maps, lib_suffix);
    if i < maps.len() {
        Some(maps[i].addr_start)
    } else {
        None
    }
}

/// A part of a library in memory.
#[derive(Clone, Copy, PartialEq, Eq, Structural)]
pub struct ImagePart {
    pub addr: usize,
    /// How far behind the library's start it stands.
    pub at: usize,
    pub len: usize,
}

/// A library in memory: `len` bytes, of which those outside of `parts` cannot be
/// read.
pub struct LibImage {
    pub len: usize,
    pub parts: Vec<ImagePart>,
}

/// Two mappings are of the same file.
pub open spec fn same_file(a: MapModel, b: MapModel) -> bool {
    a.dev_major == b.dev_major && a.dev_minor == b.dev_minor && a.inode == b.inode
}

/// The part of a library that a mapping holds, where the library starts at `base`.
pub open spec fn image_part(m: MapModel, base: usize) -> ImagePart {
    ImagePart {
        addr: m.addr_start,
        at: (m.addr_start - base) as usize,
        len: (m.addr_end - m.addr_start) as usize,
    }
}

/// A mapping holds a part that can be read of the library whose first mapping is
/// `first`.
pub open spec fn is_part(m: MapModel, first: MapModel) -> bool {
    same_file(m, first) && m.perms.contains('r') && first.addr_start <= m.addr_start <= m.addr_end
}

/// The parts of the library whose first mapping is `first` that the mappings
/// behind that one hold, up to where the file is mapped from its start again.
pub open spec fn parts_behind(maps: Seq<MapModel>, first: MapModel) -> Seq<ImagePart>
    decreases maps.len(),
{
    if maps.len() == 0 || (same_file(maps[0], first) && maps[0].offset == 0) {
        Seq::empty()
    } else if is_part(maps[0], first) {
        seq![image_part(maps[0], first.addr_start)] + parts_behind(maps.skip(1), first)
    } else {
        parts_behind(maps.skip(1), first)
    }
}

/// The parts of a library that can be read; none where the library is not mapped.
pub open spec fn image_parts(maps: Seq<MapModel>, suffix: Seq<char>) -> Seq<ImagePart> {
    let i = lib_index(maps, suffix);
    if i >= maps.len() {
        Seq::empty()
    } else {
        let behind = parts_behind(maps.skip(i + 1), maps[i]);
        if maps[i].addr_start <= maps[i].addr_end {
            seq![image_part(maps[i], maps[i].addr_start)] + behind
        } else {
            behind
        }
    }
}

/// How far parts of a library reach.
pub open spec fn image_len(parts: Seq<ImagePart>) -> nat
    decreases parts.len(),
{
    if parts.len() == 0 {
        0
    } else {
        let before = image_len(parts.drop_last());
        let end = (parts.last().at + parts.last().len) as nat;
        if end > before {
            end
        } else {
            before
        }
    }
}

/// No part of a library stands behind its end.
pub proof fn law_parts_fit(parts: Seq<ImagePart>)
    ensures
        forall|i: int|
            0 <= i < parts.len() ==> (#[trigger] parts[i]).at + parts[i].len <= image_len(parts),
    decreases parts.len(),
{
    if parts.len() > 0 {
        let rest = parts.drop_last();
        law_parts_fit(rest);
        assert forall|i: int| 0 <= i < parts.len() implies (#[trigger] parts[i]).at + parts[i].len
            <= image_len(parts) by {
            if i < rest.len() {
                assert(rest[i] == parts[i]);
            }
        }
    }
}

impl LibImage {
    fn add_part(&mut self, m: &MapInfo, base: usize)
        requires
            base <= m@.addr_start <= m@.addr_end,
            old(self).len == image_len(old(self).parts@),
        ensures
            final(self).parts@ == old(self).parts@.push(image_part(m@, base)),
            final(self).len == image_len(final(self).parts@),
    {
        let part = ImagePart {
            addr: m.addr_start,
            at: m.addr_start - base,
            len: m.addr_end - m.addr_start,
        };
        self.parts.push(part);
        assert(self.parts@.drop_last() =~= old(self).parts@);
        if part.at + part.len > self.len {
            self.len = part.at + part.len;
        }
    }
}

/// Tells where the library whose path ends in `lib_suffix` can be read.
pub fn lib_image(maps: &[MapInfo], lib_suffix: &str) -> (r: LibImage)
    ensures
        r.parts@ == image_parts(map_views(maps@), lib_suffix@),
        r.len == image_len(r.parts@),
{
    let ghost full = map_views(maps@);
    let mut image = LibImage { len: 0, parts: Vec::new() };
    let first: usize = find_lib(maps, lib_suffix);
    if first >= maps.len() {
        return image;
    }
    let base: usize = maps[first].addr_start;
    let ghost top = full[first as int];
    assert(top == maps@[first as int]@);
    if base <= maps[first].addr_end {
        image.add_part(&maps[first], base);
    }
    let ghost all = image_parts(full, lib_suffix@);
    let mut i: usize = first + 1;
    assert(image.parts@ + parts_behind(full.skip(i as int), top) =~= all);
    while i < maps.len()
        invariant
            first < i <= maps@.len(),
            full == map_views(maps@),
            all == image_parts(full, lib_suffix@),
            top == maps@[first as int]@,
            base == top.addr_start,
            image.parts@ + parts_behind(full.skip(i as int), top) == all,
            image.len == image_len(image.parts@),
        decreases maps@.len() - i,
    {
        let m = &maps[i];
        let ghost before = image.parts@;
        assert(full.skip(i as int)[0] == m@);
        assert(full.skip(i as int).skip(1) =~= full.skip(i + 1));
        let same = m.dev_major == maps[first].dev_major && m.dev_minor == maps[first].dev_minor
            && m.inode == maps[first].inode;
        if same && m.offset == 0 {
            assert(image.parts@ =~= all);
            return image;
        }
        let perms = to_chars(m.perms.as_str());
        if same && has_char(perms.as_slice(), 'r') && base <= m.addr_start && m.addr_start
            <= m.addr_end {
            image.add_part(m, base);
            assert(before + (seq![image_part(m@, base)] + parts_behind(full.skip(i + 1), top))
                =~= image.parts@ + parts_behind(full.skip(i + 1), top));
        }
        i = i + 1;
    }
    assert(full.skip(full.len() as int) =~= Seq::empty());
    assert(image.parts@ =~= all);
    image
}

/// Where the library at `base`, whose bytes are `img`, calls `symbol` through.
pub open spec fn got_address(base: Option<usize>, img: Seq<u8>, symbol: Seq<u8>) -> Option<int> {
    match (base, got_offset(img, symbol)) {
        (Some(b), Some(o)) => Some(b + o),
        _ => None,
    }
}

/// Finds the address of the slot through which a library calls `symbol`: `img`
/// are the bytes that are mapped from the library's base on.
pub fn find_got_addr(maps: &[MapInfo], lib_suffix: &str, img: &[u8], symbol: &[u8]) -> (r: Option<
    usize,
>)
    requires
        got_address(lib_base(map_views(maps@), lib_suffix@), img@, symbol@) matches Some(a) ==> a
            <= usize::MAX,
    ensures
        match r {
            Some(a) => got_address(lib_base(map_views(maps@), lib_suffix@), img@, symbol@) == Some(
                a as int,
            ),
            None => got_address(lib_base(map_views(maps@), lib_suffix@), img@, symbol@) is None,
        },
{
    let base: usize = match find_lib_base(maps, lib_suffix) {
        Some(b) => b,
        None => {
            return None;
        },
    };
    match find_got_offset(img, symbol) {
        Some(o) => Some(base + o as usize),
        None => None,
    }
}

/// The page of an address.
pub open spec fn page_of_spec(addr: usize) -> usize {
    addr & !0xfffusize
}

/// Tells the page of an address.
pub fn page_of(addr: usize) -> (r: usize)
    ensures
        r == page_of_spec(addr),
{
    addr & !0xfffusize
}

/// A page starts at a multiple of 4096, and every address is in its page.
pub proof fn law_page_of(addr: usize)
    ensures
        page_of_spec(addr) % 4096 == 0,
        page_of_spec(addr) <= addr < page_of_spec(addr) + 4096,
{
    assert((addr & !0xfffusize) % 4096 == 0 && (addr & !0xfffusize) <= addr && addr - (addr
        & !0xfffusize) < 4096) by (bit_vector);
}

/// A call that was redirected.
pub struct PltHookEntry {
    pub dev: u64,
    pub ino: u64,
    /// The slot that was changed.
    pub addr: usize,
    /// The protection of the slot's page.
    pub perms: u32,
    pub sym: Vec<u8>,
    /// What the slot held before.
    pub orig: usize,
}

/// How a call is redirected.
pub struct HookPlan {
    /// The slot to be changed.
    pub got: usize,
    /// The slot's page, which is made writable for the change.
    pub page: usize,
    /// The protection that the page gets back.
    pub perms: u32,
    /// The symbol's name.
    pub sym: Vec<u8>,
}

/// The protection of a page, readable where it is not known.
pub open spec fn perms_or_read(maps: Seq<MapModel>, page: usize) -> u32 {
    match page_perms(maps, page) {
        Some(p) => p,
        None => PROT_READ,
    }
}

/// Plans how a library's calls of `symbol` are redirected: `found` where the
/// symbol exists at all, `img` the bytes that are mapped from the library's base
/// on. `None` where they cannot be.
pub fn find_and_hook(
    maps: &[MapInfo],
    lib_suffix: &str,
    symbol: &[u8],
    found: bool,
    img: &[u8],
) -> (r: Option<HookPlan>)
    requires
        got_address(lib_base(map_views(maps@), lib_suffix@), img@, symbol@) matches Some(a) ==> a
            <= usize::MAX,
    ensures
        r is Some <==> symbol@.contains(0) && found && got_address(
            lib_base(map_views(maps@), lib_suffix@),
            img@,
            symbol@,
        ) is Some,
        r matches Some(p) ==> {
            &&& got_address(lib_base(map_views(maps@), lib_suffix@), img@, symbol@) == Some(
                p.got as int,
            )
            &&& p.page == page_of_spec(p.got)
            &&& p.perms == perms_or_read(map_views(maps@), p.page)
            &&& p.sym@ == symbol@.take(index_of_item(symbol@, 0))
        },
{
    proof {
        lemma_index_of_item(symbol@, 0);
    }
    let end: usize = find_byte(symbol, 0);
    if end >= symbol.len() {
        return None;
    }
    assert(symbol@[end as int] == 0);
    if !found {
        return None;
    }
    let got: usize = match find_got_addr(maps, lib_suffix, img, symbol) {
        Some(a) => a,
        None => {
            return None;
        },
    };
    let page: usize = page_of(got);
    let perms: u32 = match get_page_perms(maps, page) {
        Some(p) => p,
        None => PROT_READ,
    };
    let mut sym: Vec<u8> = Vec::new();
    let name = slice_subrange(symbol, 0, end);
    append_bytes(&mut sym, name);
    assert(sym@ =~= symbol@.take(end as int));
    Some(HookPlan { got, page, perms, sym })
}

/// Where changing a slot stands.
#[derive(Clone, Copy, PartialEq, Eq, Structural)]
pub enum SlotPhase {
    /// The slot's page is made writable.
    Opening,
    /// The slot is written.
    Writing,
    /// The slot's page is protected again.
    Closing,
    Done(bool),
}

/// What is to be done to change a slot.
#[derive(Clone, Copy, PartialEq, Eq, Structural)]
pub enum SlotAction {
    /// Give the slot's page this protection, and tell whether that succeeded.
    Protect(u32),
    /// Write this to the slot.
    Write(usize),
    /// Tell whether the slot was changed.
    Finish(bool),
}

/// The protection of a page that is written to.
pub const WRITABLE: u32 = 3;

/// The protection that a page gets when calls were put back.
pub const RESTORED: u32 = 5;

/// How changing a slot begins.
pub open spec fn slot_start() -> (SlotPhase, SlotAction) {
    (SlotPhase::Opening, SlotAction::Protect(WRITABLE))
}

/// How changing a slot goes on, where `ok` tells whether what was to be done
/// succeeded: `value` is written, and the page then gets the protection `perms`.
/// Where the page cannot be made writable nothing is written; `strict` where it
/// counts whether the page could be protected again.
pub open spec fn slot_step(phase: SlotPhase, ok: bool, value: usize, perms: u32, strict: bool) -> (
    SlotPhase,
    SlotAction,
) {
    match phase {
        SlotPhase::Opening => if ok {
            (SlotPhase::Writing, SlotAction::Write(value))
        } else {
            (SlotPhase::Done(false), SlotAction::Finish(false))
        },
        SlotPhase::Writing => (SlotPhase::Closing, SlotAction::Protect(perms)),
        SlotPhase::Closing => (
            SlotPhase::Done(ok || !strict),
            SlotAction::Finish(ok || !strict),
        ),
        SlotPhase::Done(done) => (SlotPhase::Done(done), SlotAction::Finish(done)),
    }
}

fn change_slot(phase: SlotPhase, ok: bool, value: usize, perms: u32, strict: bool) -> (r: (
    SlotPhase,
    SlotAction,
))
    ensures
        r == slot_step(phase, ok, value, perms, strict),
{
    match phase {
        SlotPhase::Opening => {
            if ok {
                (SlotPhase::Writing, SlotAction::Write(value))
            } else {
                (SlotPhase::Done(false), SlotAction::Finish(false))
            }
        },
        SlotPhase::Writing => (SlotPhase::Closing, SlotAction::Protect(perms)),
        SlotPhase::Closing => (
            SlotPhase::Done(ok || !strict),
            SlotAction::Finish(ok || !strict),
        ),
        SlotPhase::Done(done) => (SlotPhase::Done(done), SlotAction::Finish(done)),
    }
}

/// Begins to change a slot.
pub fn begin_change() -> (r: (SlotPhase, SlotAction))
    ensures
        r == slot_start(),
{
    (SlotPhase::Opening, SlotAction::Protect(WRITABLE))
}

impl HookPlan {
    /// Tells how redirecting a call to `hook` goes on. It has succeeded only where
    /// both changes of the page's protection have.
    pub fn write_hook(&self, phase: SlotPhase, ok: bool, hook: usize) -> (r: (
        SlotPhase,
        SlotAction,
    ))
        ensures
            r == slot_step(phase, ok, hook, self.perms, true),
    {
        change_slot(phase, ok, hook, self.perms, true)
    }
}

/// The slot is written exactly where its page could be made writable; changing it
/// has succeeded exactly where, besides, the page could be protected again, or
/// that does not count.
pub proof fn law_slot_changes(
    opened: bool,
    written: bool,
    closed: bool,
    value: usize,
    perms: u32,
    strict: bool,
)
    ensures
        ({
            let (p1, a1) = slot_step(slot_start().0, opened, value, perms, strict);
            let (p2, a2) = slot_step(p1, written, value, perms, strict);
            let (p3, a3) = slot_step(p2, closed, value, perms, strict);
            &&& a1 == SlotAction::Write(value) <==> opened
            &&& opened ==> a2 == SlotAction::Protect(perms)
            &&& a2 !is Write && a3 !is Write
            &&& p3 == SlotPhase::Done(opened && (closed || !strict))
            &&& a3 == SlotAction::Finish(opened && (closed || !strict))
        }),
{
}

/// Notes a call that was redirected; `orig` is what its slot held before.
pub fn push_plt_hook(list: &mut Vec<PltHookEntry>, plan: HookPlan, orig: usize)
    ensures
        final(list)@ == old(list)@.push(
            (PltHookEntry {
                dev: 0,
                ino: 0,
                addr: plan.got,
                perms: plan.perms,
                sym: plan.sym,
                orig,
            }),
        ),
{
    list.push(
        PltHookEntry { dev: 0, ino: 0, addr: plan.got, perms: plan.perms, sym: plan.sym, orig },
    );
}

/// Redirected calls take effect at once; nothing is left to be done.
pub fn commit_all() -> (r: bool)
    ensures
        r,
{
    true
}

/// How a call that was redirected is put back.
#[derive(Clone, Copy, PartialEq, Eq, Structural)]
pub struct Restore {
    pub addr: usize,
    /// The slot's page, which is made writable for the change.
    pub page: usize,
    pub orig: usize,
}

impl Restore {
    /// Tells how putting a call back goes on.
    pub fn restore_hook(&self, phase: SlotPhase, ok: bool) -> (r: (SlotPhase, SlotAction))
        ensures
            r == slot_step(phase, ok, self.orig, RESTORED, false),
    {
        change_slot(phase, ok, self.orig, RESTORED, false)
    }
}

/// A call that was redirected can be put back: its page is still mapped.
pub open spec fn restorable(e: PltHookEntry, maps: Seq<MapModel>) -> bool {
    e.addr != 0 && page_perms(maps, page_of_spec(e.addr)) is Some
}

/// How the calls of a list are put back, in their order.
pub open spec fn restores(list: Seq<PltHookEntry>, maps: Seq<MapModel>) -> Seq<Restore>
    decreases list.len(),
{
    if list.len() == 0 {
        Seq::empty()
    } else {
        let before = restores(list.drop_last(), maps);
        let e = list.last();
        if restorable(e, maps) {
            before.push(Restore { addr: e.addr, page: page_of_spec(e.addr), orig: e.orig })
        } else {
            before
        }
    }
}

/// Plans how the calls that were redirected are put back.
pub fn restore_all_hooks(list: &[PltHookEntry], maps: &[MapInfo]) -> (r: Vec<Restore>)
    ensures
        r@ == restores(list@, map_views(maps@)),
{
    let mut out: Vec<Restore> = Vec::new();
    for i in 0..list.len()
        invariant
            out@ == restores(list@.take(i as int), map_views(maps@)),
    {
        assert(list@.take(i + 1).drop_last() =~= list@.take(i as int));
        let addr: usize = list[i].addr;
        if addr != 0 {
            let page: usize = page_of(addr);
            if get_page_perms(maps, page).is_some() {
                out.push(Restore { addr, page, orig: list[i].orig });
            }
        }
    }
    assert(list@.take(list@.len() as int) =~= list@);
    out
}

/// Memory after the calls of a list were redirected to `hooks`.
pub open spec fn hooked(mem: Map<usize, usize>, list: Seq<PltHookEntry>, hooks: Seq<usize>) -> Map<
    usize,
    usize,
>
    decreases list.len(),
{
    if list.len() == 0 {
        mem
    } else {
        hooked(mem, list.drop_last(), hooks).insert(list.last().addr, hooks[list.len() - 1])
    }
}

/// Memory after calls were put back, where `writable` tells which pages can be
/// made writable. A slot in another page keeps what it holds.
pub open spec fn restored(
    mem: Map<usize, usize>,
    plan: Seq<Restore>,
    writable: spec_fn(usize) -> bool,
) -> Map<usize, usize>
    decreases plan.len(),
{
    if plan.len() == 0 {
        mem
    } else {
        let before = restored(mem, plan.drop_last(), writable);
        if writable(plan.last().page) {
            before.insert(plan.last().addr, plan.last().orig)
        } else {
            before
        }
    }
}

/// A call that was redirected is put back: its page is still mapped, and can be
/// made writable.
pub open spec fn put_back(
    e: PltHookEntry,
    maps: Seq<MapModel>,
    writable: spec_fn(usize) -> bool,
) -> bool {
    restorable(e, maps) && writable(page_of_spec(e.addr))
}

/// Each entry of a list holds what its slot held.
pub open spec fn records(mem: Map<usize, usize>, list: Seq<PltHookEntry>) -> bool {
    forall|i: int|
        0 <= i < list.len() ==> mem.contains_key((#[trigger] list[i]).addr) && mem[list[i].addr]
            == list[i].orig
}

/// Where calls of distinct slots were redirected, every call whose page is mapped
/// and can be made writable is put back, and nothing else in memory changes.
pub proof fn law_unhooking(
    mem: Map<usize, usize>,
    list: Seq<PltHookEntry>,
    maps: Seq<MapModel>,
    writable: spec_fn(usize) -> bool,
)
    requires
        forall|i: int| 0 <= i < list.len() ==> mem.contains_key((#[trigger] list[i]).addr),
        forall|i: int, j: int|
            0 <= i < j < list.len() ==> (#[trigger] list[i]).addr != (#[trigger] list[j]).addr,
    ensures
        ({
            let r = restored(mem, restores(list, maps), writable);
            &&& r.dom() == mem.dom()
            &&& forall|i: int|
                0 <= i < list.len() ==> r[(#[trigger] list[i]).addr] == (if put_back(
                    list[i],
                    maps,
                    writable,
                ) {
                    list[i].orig
                } else {
                    mem[list[i].addr]
                })
            &&& forall|a: usize|
                (forall|i: int| 0 <= i < list.len() ==> (#[trigger] list[i]).addr != a)
                    ==> #[trigger] r[a] == mem[a]
        }),
{
    lemma_restored(mem, list, maps, writable);
    let r = restored(mem, restores(list, maps), writable);
    assert forall|i: int| 0 <= i < list.len() implies r[(#[trigger] list[i]).addr] == (if put_back(
        list[i],
        maps,
        writable,
    ) {
        list[i].orig
    } else {
        mem[list[i].addr]
    }) by {
        if !put_back(list[i], maps, writable) {
            let a = list[i].addr;
            assert forall|j: int|
                0 <= j < list.len() && put_back(#[trigger] list[j], maps, writable) implies
                list[j].addr != a by {
                if i < j {
                    assert(list[i].addr != list[j].addr);
                } else if j < i {
                    assert(list[j].addr != list[i].addr);
                }
            }
            assert(r[a] == mem[a]);
        }
    }
}

/// Redirecting calls and putting them back gives every slot whose page is mapped
/// and can be made writable what it held before any call was redirected, as long
/// as this is what its entries recorded. Every other slot keeps what it holds.
pub proof fn law_unhooking_undoes_hooking(
    mem: Map<usize, usize>,
    list: Seq<PltHookEntry>,
    hooks: Seq<usize>,
    maps: Seq<MapModel>,
    writable: spec_fn(usize) -> bool,
)
    requires
        hooks.len() == list.len(),
        records(mem, list),
    ensures
        ({
            let now = hooked(mem, list, hooks);
            let r = restored(now, restores(list, maps), writable);
            &&& r.dom() == mem.dom()
            &&& forall|i: int|
                0 <= i < list.len() && put_back(#[trigger] list[i], maps, writable)
                    ==> r[list[i].addr] == mem[list[i].addr]
            &&& forall|a: usize|
                (forall|i: int|
                    0 <= i < list.len() && put_back(#[trigger] list[i], maps, writable)
                        ==> list[i].addr != a) ==> #[trigger] r[a] == now[a]
            &&& (forall|i: int|
                0 <= i < list.len() ==> put_back(#[trigger] list[i], maps, writable)) ==> r == mem
        }),
{
    let now = hooked(mem, list, hooks);
    lemma_hooked(mem, list, hooks);
    assert forall|i: int, j: int|
        0 <= i < list.len() && 0 <= j < list.len() && (#[trigger] list[i]).addr == (
        #[trigger] list[j]).addr implies list[i].orig == list[j].orig by {
        assert(mem[list[i].addr] == list[i].orig);
        assert(mem[list[j].addr] == list[j].orig);
    }
    lemma_restored(now, list, maps, writable);
    let r = restored(now, restores(list, maps), writable);
    if forall|i: int| 0 <= i < list.len() ==> put_back(#[trigger] list[i], maps, writable) {
        assert forall|a: usize| mem.contains_key(a) implies #[trigger] r[a] == mem[a] by {
            if exists|i: int| 0 <= i < list.len() && (#[trigger] list[i]).addr == a {
                let i = choose|i: int| 0 <= i < list.len() && (#[trigger] list[i]).addr == a;
                assert(put_back(list[i], maps, writable));
            } else {
                assert(now[a] == mem[a]);
            }
        }
        assert(r =~= mem);
    }
}

proof fn lemma_hooked(mem: Map<usize, usize>, list: Seq<PltHookEntry>, hooks: Seq<usize>)
    requires
        hooks.len() == list.len(),
        records(mem, list),
    ensures
        hooked(mem, list, hooks).dom() == mem.dom(),
        forall|a: usize|
            (forall|i: int| 0 <= i < list.len() ==> (#[trigger] list[i]).addr != a)
                ==> #[trigger] hooked(mem, list, hooks)[a] == mem[a],
    decreases list.len(),
{
    if list.len() > 0 {
        let l = list.drop_last();
        let h = hooks.drop_last();
        assert(records(mem, l));
        lemma_hooked(mem, l, h);
        lemma_hooked_prefix(mem, l, hooks, h);
        let before = hooked(mem, l, hooks);
        let after = hooked(mem, list, hooks);
        assert(list.last() == list[list.len() - 1]);
        assert(after.dom() =~= mem.dom());
        assert forall|a: usize|
            (forall|i: int| 0 <= i < list.len() ==> (#[trigger] list[i]).addr
                != a) implies #[trigger] after[a] == mem[a] by {
            assert(list[list.len() - 1].addr != a);
            assert forall|i: int| 0 <= i < l.len() implies (#[trigger] l[i]).addr != a by {
                assert(l[i] == list[i]);
            }
            assert(before[a] == mem[a]);
        }
    }
}

proof fn lemma_hooked_prefix(
    mem: Map<usize, usize>,
    list: Seq<PltHookEntry>,
    a: Seq<usize>,
    b: Seq<usize>,
)
    requires
        list.len() <= a.len(),
        list.len() <= b.len(),
        forall|i: int| 0 <= i < list.len() ==> a[i] == b[i],
    ensures
        hooked(mem, list, a) == hooked(mem, list, b),
    decreases list.len(),
{
    if list.len() > 0 {
        lemma_hooked_prefix(mem, list.drop_last(), a, b);
    }
}

proof fn lemma_restored(
    now: Map<usize, usize>,
    list: Seq<PltHookEntry>,
    maps: Seq<MapModel>,
    writable: spec_fn(usize) -> bool,
)
    requires
        forall|i: int| 0 <= i < list.len() ==> now.contains_key((#[trigger] list[i]).addr),
        forall|i: int, j: int|
            0 <= i < list.len() && 0 <= j < list.len() && (#[trigger] list[i]).addr == (
            #[trigger] list[j]).addr ==> list[i].orig == list[j].orig,
    ensures
        ({
            let r = restored(now, restores(list, maps), writable);
            &&& r.dom() == now.dom()
            &&& forall|i: int|
                0 <= i < list.len() && put_back(#[trigger] list[i], maps, writable)
                    ==> r[list[i].addr] == list[i].orig
            &&& forall|a: usize|
                (forall|i: int|
                    0 <= i < list.len() && put_back(#[trigger] list[i], maps, writable)
                        ==> list[i].addr != a) ==> #[trigger] r[a] == now[a]
        }),
    decreases list.len(),
{
    if list.len() > 0 {
        let l = list.drop_last();
        assert(forall|i: int| 0 <= i < l.len() ==> #[trigger] l[i] == list[i]);
        lemma_restored(now, l, maps, writable);
        let e = list.last();
        assert(e == list[list.len() - 1]);
        let before = restored(now, restores(l, maps), writable);
        let plan = restores(list, maps);
        let r = restored(now, plan, writable);
        if restorable(e, maps) {
            assert(plan.drop_last() =~= restores(l, maps));
        }
        assert(r == (if put_back(e, maps, writable) {
            before.insert(e.addr, e.orig)
        } else {
            before
        }));
        assert(r.dom() =~= now.dom());
        assert forall|i: int|
            0 <= i < list.len() && put_back(#[trigger] list[i], maps, writable) implies
            r[list[i].addr] == list[i].orig by {
            if i < l.len() {
                assert(l[i] == list[i]);
                assert(before[l[i].addr] == l[i].orig);
            }
        }
        assert forall|a: usize|
            (forall|i: int|
                0 <= i < list.len() && put_back(#[trigger] list[i], maps, writable)
                    ==> list[i].addr != a) implies #[trigger] r[a] == now[a] by {
            assert forall|i: int|
                0 <= i < l.len() && put_back(#[trigger] l[i], maps, writable) implies l[i].addr
                != a by {
                assert(l[i] == list[i]);
            }
            assert(before[a] == now[a]);
        }
    }
}

/// A line gives the mapping of a file that its fields write: five fields that end at
/// single blanks, and the path, which may hold blanks itself and has any number of
/// them before it.
pub proof fn law_file_mapping_is_read(
    from: Seq<char>,
    to: Seq<char>,
    perms: Seq<char>,
    offset: Seq<char>,
    major: Seq<char>,
    minor: Seq<char>,
    inode: Seq<char>,
    blanks: Seq<char>,
    path: Seq<char>,
    m: MapModel,
)
    requires
        !from.contains('-') && !from.contains(' ') && !to.contains(' '),
        from.len() > 0 && !is_space(from[0]),
        !major.contains(':') && !major.contains(' ') && !minor.contains(' '),
        !perms.contains(' ') && !offset.contains(' ') && !inode.contains(' '),
        forall|i: int| 0 <= i < blanks.len() ==> #[trigger] blanks[i] == ' ',
        path.len() > 0 && !is_space(path[0]) && !is_space(path.last()),
        unsigned_spec(from, 16, usize::MAX as nat) == Some(m.addr_start as nat),
        unsigned_spec(to, 16, usize::MAX as nat) == Some(m.addr_end as nat),
        unsigned_spec(offset, 16, u64::MAX as nat) == Some(m.offset as nat),
        unsigned_spec(major, 16, u64::MAX as nat) == Some(m.dev_major as nat),
        unsigned_spec(minor, 16, u64::MAX as nat) == Some(m.dev_minor as nat),
        unsigned_spec(inode, 10, u64::MAX as nat) == Some(m.inode as nat),
        m.perms == perms,
        m.path == path,
    ensures
        file_map_spec(
            (from.push('-') + to).push(' ') + (perms.push(' ') + (offset.push(' ') + ((major.push(
                ':',
            ) + minor).push(' ') + (inode.push(' ') + (blanks + path))))),
        ) == (if m.inode == 0 {
            None
        } else {
            Some(m)
        }),
{
    let f0 = from.push('-') + to;
    let f3 = major.push(':') + minor;
    let f5 = blanks + path;
    let t4 = inode.push(' ') + f5;
    let t3 = f3.push(' ') + t4;
    let t2 = offset.push(' ') + t3;
    let t1 = perms.push(' ') + t2;
    let line = f0.push(' ') + t1;
    let none = Seq::<char>::empty();
    lemma_no_blank(from, '-', to);
    lemma_no_blank(major, ':', minor);
    assert(line[0] == from[0]);
    assert(line.last() == path.last());
    law_trimming(none, line, none);
    assert(none + line + none =~= line);
    law_first_pieces(f0, ' ', t1, 6);
    law_first_pieces(perms, ' ', t2, 5);
    law_first_pieces(offset, ' ', t3, 4);
    law_first_pieces(f3, ' ', t4, 3);
    law_first_pieces(inode, ' ', f5, 2);
    assert(splitn_spec(f5, 1, ' ') == seq![f5]);
    assert(fields_spec(line) =~= seq![f0, perms, offset, f3, inode, f5]);
    assert forall|i: int| 0 <= i < blanks.len() implies is_space(#[trigger] blanks[i]) by {
        assert(blanks[i] == ' ');
    }
    law_trimming(blanks, path, none);
    assert(blanks + path + none =~= f5);
    law_first_pieces(from, '-', to, 2);
    assert(splitn_spec(to, 1, '-') == seq![to]);
    assert(splitn_spec(f0, 2, '-') =~= seq![from, to]);
    law_first_pieces(major, ':', minor, 2);
    assert(splitn_spec(minor, 1, ':') == seq![minor]);
    assert(splitn_spec(f3, 2, ':') =~= seq![major, minor]);
}

proof fn lemma_no_blank(a: Seq<char>, c: char, b: Seq<char>)
    requires
        c != ' ',
        !a.contains(' '),
        !b.contains(' '),
    ensures
        !(a.push(c) + b).contains(' '),
{
    let s = a.push(c) + b;
    if s.contains(' ') {
        let k = choose|k: int| 0 <= k < s.len() && s[k] == ' ';
        if k < a.len() {
            assert(a[k] == ' ');
        } else if k > a.len() {
            assert(b[k - a.len() - 1] == ' ');
        }
    }
}

/// A line more: what it describes comes last, and a line that describes no mapping of
/// a file is passed over.
pub proof fn law_one_line_more(lines: Seq<Seq<char>>, line: Seq<char>)
    ensures
        file_maps(Seq::empty()) == Seq::<MapModel>::empty(),
        file_maps(lines.push(line)) == (match file_map_spec(line) {
            Some(m) => file_maps(lines).push(m),
            None => file_maps(lines),
        }),
{
    assert(lines.push(line).drop_last() =~= lines);
}

/// A page has the protection of the mapping that it lies in, from its first byte to
/// before its end, and none where it lies in no mapping.
pub proof fn law_page_protection(
    before: Seq<MapModel>,
    m: MapModel,
    behind: Seq<MapModel>,
    page: usize,
)
    requires
        forall|i: int|
            0 <= i < before.len() ==> page < (#[trigger] before[i]).addr_start || before[i].addr_end
                <= page,
    ensures
        m.addr_start <= page < m.addr_end ==> page_perms(before.push(m) + behind, page) == Some(
            perms_spec(m.perms),
        ),
        page_perms(before, page) is None,
    decreases before.len(),
{
    let all = before.push(m) + behind;
    if before.len() > 0 {
        assert(all[0] == before[0]);
        let rest = before.skip(1);
        assert forall|i: int| 0 <= i < rest.len() implies page < (#[trigger] rest[i]).addr_start
            || rest[i].addr_end <= page by {
            assert(rest[i] == before[i + 1]);
        }
        law_page_protection(rest, m, behind, page);
        assert(all.skip(1) =~= rest.push(m) + behind);
    } else {
        assert(all[0] == m);
    }
}

/// A library starts where the start of the first file is mapped readable whose path
/// ends in its name.
pub proof fn law_library_start(
    before: Seq<MapModel>,
    m: MapModel,
    behind: Seq<MapModel>,
    dir: Seq<char>,
    name: Seq<char>,
)
    requires
        m.offset == 0,
        m.path == dir + name,
        m.perms.contains('r'),
        forall|i: int, d: Seq<char>|
            0 <= i < before.len() ==> (#[trigger] before[i]).offset != 0
                || !before[i].perms.contains('r') || before[i].path != #[trigger] (d + name),
    ensures
        lib_base(before.push(m) + behind, name) == Some(m.addr_start),
        lib_index(before.push(m) + behind, name) == before.len(),
        lib_base(before, name) is None,
    decreases before.len(),
{
    let all = before.push(m) + behind;
    if before.len() > 0 {
        assert(all[0] == before[0]);
        law_ends(Seq::empty(), name, before[0].path);
        let rest = before.skip(1);
        assert forall|i: int, d: Seq<char>| 0 <= i < rest.len() implies (
        #[trigger] rest[i]).offset != 0 || !rest[i].perms.contains('r') || rest[i].path
            != #[trigger] (d + name) by {
            assert(rest[i] == before[i + 1]);
        }
        law_library_start(rest, m, behind, dir, name);
        assert(all.skip(1) =~= rest.push(m) + behind);
        assert(all[before.len() as int] == m);
    } else {
        assert(all[0] == m);
        law_ends(dir, name, m.path);
    }
}

/// The slot of a call stands as far behind the library's start as its relocation says.
pub proof fn law_slot_address(base: usize, img: Seq<u8>, symbol: Seq<u8>)
    ensures
        got_address(None, img, symbol) is None,
        got_address(Some(base), img, symbol) is None <==> got_offset(img, symbol) is None,
        got_address(Some(base), img, symbol) is Some ==> got_address(Some(base), img, symbol).unwrap()
            - base == got_offset(img, symbol).unwrap(),
{
}

/// The parts of a library are read from where they are mapped, each as far behind the
/// library's start as it is mapped behind it. The first part starts the library where
/// its mapping is not turned around.
pub proof fn law_parts_stand_in_place(maps: Seq<MapModel>, suffix: Seq<char>, i: int)
    requires
        0 <= i < image_parts(maps, suffix).len(),
    ensures
        ({
            let p = image_parts(maps, suffix)[i];
            &&& lib_base(maps, suffix) is Some
            &&& p.addr == lib_base(maps, suffix).unwrap() + p.at
            &&& exists|k: int|
                0 <= k < maps.len() && (#[trigger] maps[k]).addr_start == p.addr && maps[k].addr_end
                    == p.addr + p.len && maps[k].perms.contains('r')
        }),
{
    let n = lib_index(maps, suffix);
    lemma_lib_index(maps, suffix);
    let first = maps[n];
    let behind = parts_behind(maps.skip(n + 1), first);
    let all = image_parts(maps, suffix);
    if first.addr_start <= first.addr_end && i == 0 {
        assert(maps[n].addr_start == all[0].addr);
    } else {
        let k = if first.addr_start <= first.addr_end {
            i - 1
        } else {
            i
        };
        assert(all[i] == behind[k]);
        let m = lemma_part_behind(maps.skip(n + 1), first, k);
        assert(maps.skip(n + 1)[m] == maps[n + 1 + m]);
    }
}

proof fn lemma_lib_index(maps: Seq<MapModel>, suffix: Seq<char>)
    ensures
        0 <= lib_index(maps, suffix) <= maps.len(),
        lib_index(maps, suffix) < maps.len() ==> is_lib_base(maps[lib_index(maps, suffix)], suffix),
    decreases maps.len(),
{
    if maps.len() > 0 && !is_lib_base(maps[0], suffix) {
        lemma_lib_index(maps.skip(1), suffix);
    }
}

proof fn lemma_part_behind(maps: Seq<MapModel>, first: MapModel, k: int) -> (m: int)
    requires
        0 <= k < parts_behind(maps, first).len(),
    ensures
        0 <= m < maps.len(),
        is_part(maps[m], first),
        parts_behind(maps, first)[k] == image_part(maps[m], first.addr_start),
    decreases maps.len(),
{
    let rest = parts_behind(maps.skip(1), first);
    if is_part(maps[0], first) {
        if k == 0 {
            0
        } else {
            assert(parts_behind(maps, first)[k] == rest[k - 1]);
            let m = lemma_part_behind(maps.skip(1), first, k - 1);
            m + 1
        }
    } else {
        let m = lemma_part_behind(maps.skip(1), first, k);
        m + 1
    }
}

/// The permissions of a mapping are the letters that its field shows.
pub proof fn law_protection_letters(field: Seq<char>)
    ensures
        perms_spec(field) & 1 != 0 <==> field.contains('r'),
        perms_spec(field) & 2 != 0 <==> field.contains('w'),
        perms_spec(field) & 4 != 0 <==> field.contains('x'),
        perms_spec(field) <= 7,
{
    assert(forall|a: u32, b: u32, c: u32|
        (a == 0 || a == 1) && (b == 0 || b == 2) && (c == 0 || c == 4) ==> (#[trigger] (a | b | c)
            & 1 != 0 <==> a == 1) && ((a | b | c) & 2 != 0 <==> b == 2) && ((a | b | c) & 4 != 0
            <==> c == 4) && (a | b | c) <= 7) by (bit_vector);
}

/// A page that is written to is readable and writable meanwhile; a page where calls
/// were put back is readable and executable.
pub proof fn law_slot_protections()
    ensures
        slot_start() == (SlotPhase::Opening, SlotAction::Protect(3)),
        RESTORED == 5,
{
}

/// Every readable mapping of the library's file is one of its parts, from the
/// library's first mapping up to where the file is mapped from its start again.
pub proof fn law_no_part_is_missing(maps: Seq<MapModel>, suffix: Seq<char>, k: int)
    requires
        lib_index(maps, suffix) < k < maps.len(),
        same_file(maps[k], maps[lib_index(maps, suffix)]),
        maps[k].perms.contains('r'),
        maps[lib_index(maps, suffix)].addr_start <= maps[k].addr_start <= maps[k].addr_end,
        forall|j: int|
            lib_index(maps, suffix) < j <= k ==> !(same_file(
                #[trigger] maps[j],
                maps[lib_index(maps, suffix)],
            ) && maps[j].offset == 0),
    ensures
        exists|i: int|
            0 <= i < image_parts(maps, suffix).len() && (#[trigger] image_parts(
                maps,
                suffix,
            )[i]).addr == maps[k].addr_start && image_parts(maps, suffix)[i].len
                == maps[k].addr_end - maps[k].addr_start,
        maps[lib_index(maps, suffix)].addr_start <= maps[lib_index(maps, suffix)].addr_end
            ==> image_parts(maps, suffix)[0] == (ImagePart {
            addr: maps[lib_index(maps, suffix)].addr_start,
            at: 0,
            len: (maps[lib_index(maps, suffix)].addr_end - maps[lib_index(
                maps,
                suffix,
            )].addr_start) as usize,
        }),
{
    lemma_lib_index(maps, suffix);
    let n = lib_index(maps, suffix);
    let rest = maps.skip(n + 1);
    assert forall|j: int| 0 <= j <= k - n - 1 implies !(same_file(#[trigger] rest[j], maps[n])
        && rest[j].offset == 0) by {
        assert(rest[j] == maps[n + 1 + j]);
    }
    assert(rest[k - n - 1] == maps[k]);
    let i = lemma_part_found(rest, maps[n], k - n - 1);
    let all = image_parts(maps, suffix);
    if maps[n].addr_start <= maps[n].addr_end {
        assert(all[i + 1] == parts_behind(rest, maps[n])[i]);
    } else {
        assert(all[i] == parts_behind(rest, maps[n])[i]);
    }
}

proof fn lemma_part_found(maps: Seq<MapModel>, first: MapModel, k: int) -> (i: int)
    requires
        0 <= k < maps.len(),
        is_part(maps[k], first),
        forall|j: int|
            0 <= j <= k ==> !(same_file(#[trigger] maps[j], first) && maps[j].offset == 0),
    ensures
        0 <= i < parts_behind(maps, first).len(),
        parts_behind(maps, first)[i] == image_part(maps[k], first.addr_start),
    decreases maps.len(),
{
    assert(!(same_file(maps[0], first) && maps[0].offset == 0));
    if k == 0 {
        0
    } else {
        let rest = maps.skip(1);
        assert forall|j: int| 0 <= j <= k - 1 implies !(same_file(#[trigger] rest[j], first)
            && rest[j].offset == 0) by {
            assert(rest[j] == maps[j + 1]);
        }
        assert(rest[k - 1] == maps[k]);
        let i = lemma_part_found(rest, first, k - 1);
        if is_part(maps[0], first) {
            i + 1
        } else {
            i
        }
    }
}

/// The fields of a line: five that end at single blanks, and the path.
pub proof fn law_fields(
    f0: Seq<char>,
    f1: Seq<char>,
    f2: Seq<char>,
    f3: Seq<char>,
    f4: Seq<char>,
    f5: Seq<char>,
)
    requires
        f0.len() > 0 && !is_space(f0[0]),
        !f0.contains(' ') && !f1.contains(' ') && !f2.contains(' ') && !f3.contains(' ')
            && !f4.contains(' '),
        f5.len() > 0 && !is_space(f5.last()),
    ensures
        fields_spec(
            f0.push(' ') + (f1.push(' ') + (f2.push(' ') + (f3.push(' ') + (f4.push(' ') + f5)))),
        ) == seq![f0, f1, f2, f3, f4, f5],
{
    let t4 = f4.push(' ') + f5;
    let t3 = f3.push(' ') + t4;
    let t2 = f2.push(' ') + t3;
    let t1 = f1.push(' ') + t2;
    let line = f0.push(' ') + t1;
    let none = Seq::<char>::empty();
    assert(line[0] == f0[0]);
    assert(line.last() == f5.last());
    law_trimming(none, line, none);
    assert(none + line + none =~= line);
    law_first_pieces(f0, ' ', t1, 6);
    law_first_pieces(f1, ' ', t2, 5);
    law_first_pieces(f2, ' ', t3, 4);
    law_first_pieces(f3, ' ', t4, 3);
    law_first_pieces(f4, ' ', f5, 2);
    assert(splitn_spec(f5, 1, ' ') == seq![f5]);
    assert(fields_spec(line) =~= seq![f0, f1, f2, f3, f4, f5]);
}

/// A file whose contents are text describes the mappings of its lines, one line
/// after the other; of one that is not text nothing is read.
pub proof fn law_text_is_scanned(data: Seq<u8>, line: Seq<char>, rest: Seq<char>)
    requires
        !line.contains('\n'),
        line.len() == 0 || line.last() != '\r',
    ensures
        !valid_utf8(data) ==> scan_spec(data).len() == 0,
        valid_utf8(data) && decode_utf8(data) == line.push('\n') + rest ==> scan_spec(data)
            == file_maps(seq![line] + lines_spec(rest)),
{
    law_lines(line, rest);
}

} // verus!
