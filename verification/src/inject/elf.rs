//! Finding the slot through which a library calls a function.
//!
//! A library is given as the bytes that are mapped from its base on. Offsets in
//! it are relative to the base.

use vstd::prelude::*;
use vstd::slice::slice_subrange;

use crate::bytes::{
    find_byte, law_le_round_trip, le_encode, le_number, lemma_le_encode_len,
    lemma_le_number_bound, pow256, read_le, same_bytes,
};
use crate::text::{index_of_item, lemma_index_of_item};

verus! {

/// The program header of the dynamic section.
pub const PT_DYNAMIC: u64 = 2;

/// The end of the dynamic section.
pub const DT_NULL: u64 = 0;

/// The size of the relocations of called functions.
pub const DT_PLTRELSZ: u64 = 2;

/// The string table.
pub const DT_STRTAB: u64 = 5;

/// The symbol table.
pub const DT_SYMTAB: u64 = 6;

/// The relocations of called functions.
pub const DT_JMPREL: u64 = 23;

/// Bytes in an entry of the dynamic section.
pub const DYN_SIZE: u128 = 16;

/// Bytes in a relocation.
pub const RELA_SIZE: u128 = 24;

/// Bytes in a symbol.
pub const SYM_SIZE: u128 = 24;

/// The little-endian number in the `n` bytes at `at`, where the library reaches
/// that far.
pub open spec fn number_at(img: Seq<u8>, at: nat, n: nat) -> Option<nat> {
    if at + n <= img.len() {
        Some(le_number(img.subrange(at as int, (at + n) as int)))
    } else {
        None
    }
}

proof fn lemma_number_bound(s: Seq<u8>)
    requires
        s.len() <= 8,
    ensures
        le_number(s) <= 0xffff_ffff_ffff_ffff,
        s.len() <= 4 ==> le_number(s) <= 0xffff_ffff,
        s.len() <= 2 ==> le_number(s) <= 0xffff,
{
    lemma_le_number_bound(s);
    reveal_with_fuel(pow256, 9);
}

fn read_at(img: &[u8], at: u128, n: usize) -> (r: Option<u64>)
    requires
        n <= 8,
        at <= 0xffff_ffff_ffff_ffff_ffff,
    ensures
        match r {
            Some(v) => number_at(img@, at as nat, n as nat) == Some(v as nat),
            None => number_at(img@, at as nat, n as nat) is None,
        },
        n <= 4 ==> (r matches Some(v) ==> v <= 0xffff_ffff),
        n <= 2 ==> (r matches Some(v) ==> v <= 0xffff),
{
    if at + n as u128 <= img.len() as u128 {
        let start: usize = at as usize;
        let field = slice_subrange(img, start, start + n);
        proof {
            lemma_number_bound(field@);
        }
        Some(read_le(field))
    } else {
        None
    }
}

/// The offset of the dynamic section, from program header `i` on: 0 where no
/// header tells it, `None` where the library ends before that is known.
pub open spec fn find_dynamic(img: Seq<u8>, phoff: nat, size: nat, count: nat, i: nat) -> Option<nat>
    decreases count - i,
{
    if i >= count {
        Some(0)
    } else {
        let at = phoff + i * size;
        match number_at(img, at, 4) {
            None => None,
            Some(kind) => if kind == PT_DYNAMIC {
                number_at(img, at + 16, 8)
            } else {
                find_dynamic(img, phoff, size, count, i + 1)
            },
        }
    }
}

/// What the dynamic section tells.
#[derive(Clone, Copy, PartialEq, Eq, Structural)]
pub struct DynTable {
    pub jmprel: u64,
    pub pltrelsz: u64,
    pub symtab: u64,
    pub strtab: u64,
}

/// The table with what an entry tells.
pub open spec fn with_entry(t: DynTable, tag: nat, value: u64) -> DynTable {
    if tag == DT_JMPREL {
        DynTable { jmprel: value, ..t }
    } else if tag == DT_PLTRELSZ {
        DynTable { pltrelsz: value, ..t }
    } else if tag == DT_SYMTAB {
        DynTable { symtab: value, ..t }
    } else if tag == DT_STRTAB {
        DynTable { strtab: value, ..t }
    } else {
        t
    }
}

/// What the dynamic section tells from the entry at `at` on; `None` where the
/// library ends before the section does.
pub open spec fn read_dynamic(img: Seq<u8>, at: nat, t: DynTable) -> Option<DynTable>
    decreases img.len() - at,
{
    if at >= img.len() {
        None
    } else {
        match number_at(img, at, 8) {
            None => None,
            Some(tag) => if tag == DT_NULL {
                Some(t)
            } else {
                match number_at(img, at + 8, 8) {
                    None => None,
                    Some(value) => read_dynamic(img, at + 16, with_entry(t, tag, value as u64)),
                }
            },
        }
    }
}

/// The bytes of the string at `at`, with the zero that ends it; `None` where the
/// library ends before the string does.
pub open spec fn string_at(img: Seq<u8>, at: nat) -> Option<Seq<u8>> {
    if at <= img.len() && index_of_item(img.skip(at as int), 0) < img.len() - at {
        Some(img.skip(at as int).take(index_of_item(img.skip(at as int), 0) + 1))
    } else {
        None
    }
}

/// The name of the symbol of relocation `j`.
pub open spec fn rela_symbol(img: Seq<u8>, t: DynTable, j: nat) -> Option<Seq<u8>> {
    match number_at(img, t.jmprel as nat + j * 24 + 8, 8) {
        None => None,
        Some(info) => match number_at(img, t.symtab as nat + (info / 0x1_0000_0000) * 24, 4) {
            None => None,
            Some(name) => string_at(img, t.strtab as nat + name),
        },
    }
}

/// The offset that the first relocation of `symbol` fills, from relocation `j`
/// on; `None` where there is none, or the library ends before it is found.
pub open spec fn find_rela(img: Seq<u8>, t: DynTable, count: nat, symbol: Seq<u8>, j: nat) -> Option<
    nat,
>
    decreases count - j,
{
    if j >= count {
        None
    } else {
        match rela_symbol(img, t, j) {
            None => None,
            Some(name) => if name == symbol {
                number_at(img, t.jmprel as nat + j * 24, 8)
            } else {
                find_rela(img, t, count, symbol, j + 1)
            },
        }
    }
}

/// The empty table.
pub open spec fn no_table() -> DynTable {
    DynTable { jmprel: 0, pltrelsz: 0, symtab: 0, strtab: 0 }
}

/// The bytes that an ELF file starts with.
pub open spec fn is_elf(img: Seq<u8>) -> bool {
    img.len() >= 4 && img[0] == 0x7f && img[1] == 0x45 && img[2] == 0x4c && img[3] == 0x46
}

/// What the dynamic section of a library tells.
pub open spec fn dynamic_table(img: Seq<u8>) -> Option<DynTable> {
    match (number_at(img, 32, 8), number_at(img, 54, 2), number_at(img, 56, 2)) {
        (Some(phoff), Some(size), Some(count)) => match find_dynamic(img, phoff, size, count, 0) {
            Some(at) => if at == 0 {
                None
            } else {
                read_dynamic(img, at, no_table())
            },
            None => None,
        },
        _ => None,
    }
}

/// The offset of the slot through which a library calls `symbol`, which is
/// written with the zero that ends it.
pub open spec fn got_offset(img: Seq<u8>, symbol: Seq<u8>) -> Option<nat> {
    if !is_elf(img) {
        None
    } else {
        match dynamic_table(img) {
            Some(t) => if t.jmprel == 0 || t.pltrelsz == 0 || t.symtab == 0 || t.strtab == 0 {
                None
            } else {
                find_rela(img, t, (t.pltrelsz / 24) as nat, symbol, 0)
            },
            None => None,
        }
    }
}

fn locate_dynamic(img: &[u8], phoff: u64, size: u64, count: u64) -> (r: Option<u64>)
    requires
        size <= 0xffff,
        count <= 0xffff,
    ensures
        match r {
            Some(v) => find_dynamic(img@, phoff as nat, size as nat, count as nat, 0) == Some(
                v as nat,
            ),
            None => find_dynamic(img@, phoff as nat, size as nat, count as nat, 0) is None,
        },
{
    let mut i: u64 = 0;
    while i < count
        invariant
            i <= count,
            size <= 0xffff,
            count <= 0xffff,
            find_dynamic(img@, phoff as nat, size as nat, count as nat, 0) == find_dynamic(
                img@,
                phoff as nat,
                size as nat,
                count as nat,
                i as nat,
            ),
        decreases count - i,
    {
        assert(0 <= i * size <= 0xffff * 0xffff) by (nonlinear_arith)
            requires
                0 <= i <= 0xffff,
                0 <= size <= 0xffff,
        ;
        let at: u128 = phoff as u128 + (i * size) as u128;
        let kind: u64 = match read_at(img, at, 4) {
            Some(k) => k,
            None => {
                return None;
            },
        };
        if kind == PT_DYNAMIC {
            return read_at(img, at + 16, 8);
        }
        i = i + 1;
    }
    Some(0)
}

fn load_dynamic(img: &[u8], start: u64) -> (r: Option<DynTable>)
    ensures
        r == read_dynamic(img@, start as nat, no_table()),
{
    let mut t = DynTable { jmprel: 0, pltrelsz: 0, symtab: 0, strtab: 0 };
    let mut at: u128 = start as u128;
    while at < img.len() as u128
        invariant
            at <= 0xffff_ffff_ffff_ffff + 16,
            img.len() <= 0xffff_ffff_ffff_ffff,
            read_dynamic(img@, start as nat, no_table()) == read_dynamic(img@, at as nat, t),
        decreases img@.len() + 32 - at,
    {
        let tag: u64 = match read_at(img, at, 8) {
            Some(v) => v,
            None => {
                return None;
            },
        };
        if tag == DT_NULL {
            return Some(t);
        }
        let value: u64 = match read_at(img, at + 8, 8) {
            Some(v) => v,
            None => {
                return None;
            },
        };
        if tag == DT_JMPREL {
            t.jmprel = value;
        } else if tag == DT_PLTRELSZ {
            t.pltrelsz = value;
        } else if tag == DT_SYMTAB {
            t.symtab = value;
        } else if tag == DT_STRTAB {
            t.strtab = value;
        }
        at = at + DYN_SIZE;
    }
    None
}

fn name_at<'a>(img: &'a [u8], at: u128) -> (r: Option<&'a [u8]>)
    ensures
        match r {
            Some(s) => string_at(img@, at as nat) == Some(s@),
            None => string_at(img@, at as nat) is None,
        },
{
    if at <= img.len() as u128 {
        let rest = slice_subrange(img, at as usize, img.len());
        assert(rest@ =~= img@.skip(at as int));
        let end: usize = find_byte(rest, 0);
        if end < rest.len() {
            let s = slice_subrange(rest, 0, end + 1);
            assert(s@ =~= rest@.take(end + 1));
            return Some(s);
        }
    }
    None
}

fn symbol_of_rela<'a>(img: &'a [u8], t: &DynTable, j: u64) -> (r: Option<&'a [u8]>)
    ensures
        match r {
            Some(s) => rela_symbol(img@, *t, j as nat) == Some(s@),
            None => rela_symbol(img@, *t, j as nat) is None,
        },
{
    let at: u128 = t.jmprel as u128 + j as u128 * RELA_SIZE;
    let info: u64 = match read_at(img, at + 8, 8) {
        Some(v) => v,
        None => {
            return None;
        },
    };
    let index: u64 = info / 0x1_0000_0000;
    let name: u64 = match read_at(img, t.symtab as u128 + index as u128 * SYM_SIZE, 4) {
        Some(v) => v,
        None => {
            return None;
        },
    };
    name_at(img, t.strtab as u128 + name as u128)
}

/// Finds the offset of the slot through which a library calls `symbol`, which
/// is written with the zero that ends it. `None` where the library does not call
/// it, or ends before that is known.
pub fn find_got_offset(img: &[u8], symbol: &[u8]) -> (r: Option<u64>)
    ensures
        match r {
            Some(v) => got_offset(img@, symbol@) == Some(v as nat),
            None => got_offset(img@, symbol@) is None,
        },
{
    if img.len() < 4 || img[0] != 0x7f || img[1] != 0x45 || img[2] != 0x4c || img[3] != 0x46 {
        return None;
    }
    let (phoff, size, count): (u64, u64, u64) = match (
        read_at(img, 32, 8),
        read_at(img, 54, 2),
        read_at(img, 56, 2),
    ) {
        (Some(p), Some(s), Some(c)) => (p, s, c),
        _ => {
            return None;
        },
    };
    let start: u64 = match locate_dynamic(img, phoff, size, count) {
        Some(v) => v,
        None => {
            return None;
        },
    };
    if start == 0 {
        return None;
    }
    let t = match load_dynamic(img, start) {
        Some(t) => t,
        None => {
            return None;
        },
    };
    if t.jmprel == 0 || t.pltrelsz == 0 || t.symtab == 0 || t.strtab == 0 {
        return None;
    }
    let relas: u64 = t.pltrelsz / 24;
    let mut j: u64 = 0;
    while j < relas
        invariant
            j <= relas,
            relas == t.pltrelsz / 24,
            got_offset(img@, symbol@) == find_rela(img@, t, relas as nat, symbol@, j as nat),
        decreases relas - j,
    {
        match symbol_of_rela(img, &t, j) {
            Some(name) => {
                if same_bytes(name, symbol) {
                    return read_at(img, t.jmprel as u128 + j as u128 * RELA_SIZE, 8);
                }
            },
            None => {
                return None;
            },
        }
        j = j + 1;
    }
    None
}

/// The slot that is found belongs to a relocation of the symbol, and no earlier
/// relocation is of that symbol.
pub proof fn law_first_relocation(img: Seq<u8>, t: DynTable, count: nat, symbol: Seq<u8>, j: nat)
    requires
        find_rela(img, t, count, symbol, j) is Some,
        j <= count,
    ensures
        exists|k: nat|
            j <= k < count && #[trigger] rela_symbol(img, t, k) == Some(symbol) && find_rela(
                img,
                t,
                count,
                symbol,
                j,
            ) == number_at(img, t.jmprel as nat + k * 24, 8) && forall|i: nat|
                j <= i < k ==> #[trigger] rela_symbol(img, t, i) != Some(symbol),
    decreases count - j,
{
    if rela_symbol(img, t, j) != Some(symbol) {
        law_first_relocation(img, t, count, symbol, j + 1);
        let k = choose|k: nat|
            j + 1 <= k < count && #[trigger] rela_symbol(img, t, k) == Some(symbol) && find_rela(
                img,
                t,
                count,
                symbol,
                j + 1,
            ) == number_at(img, t.jmprel as nat + k * 24, 8) && forall|i: nat|
                j + 1 <= i < k ==> #[trigger] rela_symbol(img, t, i) != Some(symbol);
        assert(rela_symbol(img, t, k) == Some(symbol));
    }
}

/// A number is read where its bytes stand, the lowest first.
pub proof fn law_number_is_read(a: Seq<u8>, v: nat, n: nat, b: Seq<u8>)
    requires
        v < pow256(n),
    ensures
        number_at(a + le_encode(v, n) + b, a.len(), n) == Some(v),
        number_at(a, (a.len() + 1) as nat, n) is None,
        n > 0 ==> number_at(a, a.len(), n) is None,
{
    lemma_le_encode_len(v, n);
    law_le_round_trip(v, n);
    let s = a + le_encode(v, n) + b;
    assert(s.subrange(a.len() as int, a.len() as int + n) =~= le_encode(v, n));
}

/// A relocation: the slot that it fills, the index of its symbol, its type, and the
/// symbol's name, which stands so far behind the start of the string table.
pub struct RelaModel {
    pub offset: nat,
    pub index: nat,
    pub kind: nat,
    pub name_at: nat,
    pub name: Seq<u8>,
}

/// What the bytes of a library hold.
pub struct ElfModel {
    /// The program headers: where they start, how long each is, and the type and
    /// the offset that each gives.
    pub phoff: nat,
    pub phsize: nat,
    pub headers: Seq<(nat, nat)>,
    /// The dynamic section: where it starts, and the tag and the value of each of
    /// its entries.
    pub dynamic: nat,
    pub entries: Seq<(nat, nat)>,
    /// Where the relocations, the symbols and the strings start.
    pub jmprel: nat,
    pub symtab: nat,
    pub strtab: nat,
    /// The size of the relocations.
    pub size: nat,
    pub relas: Seq<RelaModel>,
}

/// The bytes of a library start as those of an ELF file, and their header and its
/// program headers are these.
pub open spec fn has_headers(img: Seq<u8>, e: ElfModel) -> bool {
    &&& img.len() >= 4
    &&& img.take(4) == seq![0x7fu8, 0x45u8, 0x4cu8, 0x46u8]
    &&& number_at(img, 32, 8) == Some(e.phoff)
    &&& number_at(img, 54, 2) == Some(e.phsize)
    &&& number_at(img, 56, 2) == Some(e.headers.len())
    &&& forall|i: int|
        0 <= i < e.headers.len() ==> number_at(img, (e.phoff + i * e.phsize) as nat, 4) == Some(
            (#[trigger] e.headers[i]).0,
        ) && number_at(img, (e.phoff + i * e.phsize + 16) as nat, 8) == Some(e.headers[i].1)
}

/// The dynamic section is this, with an empty entry at its end.
pub open spec fn has_dynamic(img: Seq<u8>, e: ElfModel) -> bool {
    &&& number_at(img, (e.dynamic + 16 * e.entries.len()) as nat, 8) == Some(0nat)
    &&& forall|i: int|
        0 <= i < e.entries.len() ==> (#[trigger] e.entries[i]).0 != 0 && number_at(
            img,
            (e.dynamic + 16 * i) as nat,
            8,
        ) == Some(e.entries[i].0) && number_at(img, (e.dynamic + 16 * i + 8) as nat, 8) == Some(
            e.entries[i].1,
        )
}

/// Some entry of the dynamic section has this tag, and every such entry this value.
pub open spec fn tells(entries: Seq<(nat, nat)>, tag: nat, value: nat) -> bool {
    &&& exists|i: int| 0 <= i < entries.len() && (#[trigger] entries[i]).0 == tag
    &&& forall|i: int|
        0 <= i < entries.len() && (#[trigger] entries[i]).0 == tag ==> entries[i].1 == value
}

/// Relocation `j`, its symbol and its name are these.
pub open spec fn has_rela(img: Seq<u8>, e: ElfModel, j: int) -> bool {
    let r = e.relas[j];
    let at = e.strtab + r.name_at;
    &&& r.kind < 0x1_0000_0000
    &&& number_at(img, (e.jmprel + 24 * j) as nat, 8) == Some(r.offset)
    &&& number_at(img, (e.jmprel + 24 * j + 8) as nat, 8) == Some(
        (r.index * 0x1_0000_0000 + r.kind) as nat,
    )
    &&& number_at(img, (e.symtab + 24 * r.index) as nat, 4) == Some(r.name_at)
    &&& at + r.name.len() < img.len()
    &&& img.subrange(at as int, at as int + r.name.len()) == r.name
    &&& img[at as int + r.name.len()] == 0
    &&& !r.name.contains(0)
}

/// A library holds all this. Its dynamic section tells where the relocations of
/// called functions, the symbols and the strings are.
pub open spec fn holds(img: Seq<u8>, e: ElfModel) -> bool {
    &&& has_headers(img, e)
    &&& has_dynamic(img, e)
    &&& tells(e.entries, 23, e.jmprel)
    &&& tells(e.entries, 2, e.size)
    &&& tells(e.entries, 6, e.symtab)
    &&& tells(e.entries, 5, e.strtab)
    &&& e.jmprel != 0 && e.symtab != 0 && e.strtab != 0 && e.size != 0
    &&& e.relas.len() == e.size / 24
    &&& forall|j: int| 0 <= j < e.relas.len() ==> #[trigger] has_rela(img, e, j)
}

/// The slot that is found for a name is that of the first relocation whose symbol,
/// by the index that the relocation carries, goes by that name.
pub proof fn law_slot_belongs_to_name(img: Seq<u8>, e: ElfModel, h: int, name: Seq<u8>, k: int)
    requires
        holds(img, e),
        0 <= h < e.headers.len(),
        e.headers[h] == (2nat, e.dynamic),
        e.dynamic != 0,
        forall|i: int| 0 <= i < h ==> (#[trigger] e.headers[i]).0 != 2,
        0 <= k <= e.relas.len(),
        forall|j: int| 0 <= j < k ==> (#[trigger] e.relas[j]).name != name,
        k < e.relas.len() ==> e.relas[k].name == name,
        !name.contains(0),
    ensures
        got_offset(img, name.push(0)) == (if k < e.relas.len() {
            Some(e.relas[k].offset)
        } else {
            None
        }),
{
    assert(img.take(4)[0] == img[0] && img.take(4)[1] == img[1] && img.take(4)[2] == img[2]
        && img.take(4)[3] == img[3]);
    assert(is_elf(img));
    lemma_headers(img, e, h, 0);
    lemma_entries(img, e, 0, no_table());
    let t = read_dynamic(img, e.dynamic, no_table()).unwrap();
    lemma_value_fits(img, e);
    lemma_relas(img, e, t, name, k, 0);
}

/// A library without a dynamic section, or one of another kind of file, calls
/// nothing through a slot.
pub proof fn law_no_slot_without_dynamic_section(img: Seq<u8>, e: ElfModel, symbol: Seq<u8>)
    requires
        has_headers(img, e),
        forall|i: int| 0 <= i < e.headers.len() ==> (#[trigger] e.headers[i]).0 != 2,
    ensures
        got_offset(img, symbol) is None,
{
    lemma_no_header(img, e, 0);
}

proof fn lemma_no_header(img: Seq<u8>, e: ElfModel, i: nat)
    requires
        has_headers(img, e),
        forall|i: int| 0 <= i < e.headers.len() ==> (#[trigger] e.headers[i]).0 != 2,
        i <= e.headers.len(),
    ensures
        find_dynamic(img, e.phoff, e.phsize, e.headers.len(), i) == Some(0nat),
    decreases e.headers.len() - i,
{
    if i < e.headers.len() {
        assert(e.headers[i as int].0 != 2);
        lemma_no_header(img, e, i + 1);
    }
}

proof fn lemma_headers(img: Seq<u8>, e: ElfModel, h: int, i: nat)
    requires
        has_headers(img, e),
        i <= h < e.headers.len(),
        e.headers[h] == (2nat, e.dynamic),
        forall|i: int| 0 <= i < h ==> (#[trigger] e.headers[i]).0 != 2,
    ensures
        find_dynamic(img, e.phoff, e.phsize, e.headers.len(), i) == Some(e.dynamic),
    decreases h - i,
{
    assert(number_at(img, (e.phoff + i * e.phsize) as nat, 4) == Some(e.headers[i as int].0));
    if i < h {
        assert(e.headers[i as int].0 != 2);
        lemma_headers(img, e, h, i + 1);
    }
}

proof fn lemma_value_fits(img: Seq<u8>, e: ElfModel)
    requires
        has_dynamic(img, e),
    ensures
        forall|i: int| 0 <= i < e.entries.len() ==> (#[trigger] e.entries[i]).1 <= u64::MAX,
{
    assert forall|i: int| 0 <= i < e.entries.len() implies (#[trigger] e.entries[i]).1
        <= u64::MAX by {
        let at = (e.dynamic + 16 * i + 8) as nat;
        assert(number_at(img, at, 8) == Some(e.entries[i].1));
        lemma_number_bound(img.subrange(at as int, at as int + 8));
    }
}

proof fn lemma_entries(img: Seq<u8>, e: ElfModel, k: nat, t: DynTable)
    requires
        has_dynamic(img, e),
        k <= e.entries.len(),
        tells(e.entries, 23, e.jmprel),
        tells(e.entries, 2, e.size),
        tells(e.entries, 6, e.symtab),
        tells(e.entries, 5, e.strtab),
        forall|i: int| 0 <= i < k && (#[trigger] e.entries[i]).0 == 23 ==> t.jmprel == e.jmprel,
        forall|i: int| 0 <= i < k && (#[trigger] e.entries[i]).0 == 2 ==> t.pltrelsz == e.size,
        forall|i: int| 0 <= i < k && (#[trigger] e.entries[i]).0 == 6 ==> t.symtab == e.symtab,
        forall|i: int| 0 <= i < k && (#[trigger] e.entries[i]).0 == 5 ==> t.strtab == e.strtab,
    ensures
        ({
            let r = read_dynamic(img, (e.dynamic + 16 * k) as nat, t);
            &&& r is Some
            &&& r.unwrap().jmprel == e.jmprel
            &&& r.unwrap().pltrelsz == e.size
            &&& r.unwrap().symtab == e.symtab
            &&& r.unwrap().strtab == e.strtab
        }),
    decreases e.entries.len() - k,
{
    if k < e.entries.len() {
        lemma_value_fits(img, e);
        let (tag, value) = e.entries[k as int];
        assert(e.entries[k as int].0 != 0);
        lemma_entries(img, e, k + 1, with_entry(t, tag, value as u64));
    } else {
        let a = choose|i: int| 0 <= i < e.entries.len() && (#[trigger] e.entries[i]).0 == 23;
        let b = choose|i: int| 0 <= i < e.entries.len() && (#[trigger] e.entries[i]).0 == 2;
        let c = choose|i: int| 0 <= i < e.entries.len() && (#[trigger] e.entries[i]).0 == 6;
        let d = choose|i: int| 0 <= i < e.entries.len() && (#[trigger] e.entries[i]).0 == 5;
        assert(e.entries[a].0 == 23 && e.entries[b].0 == 2 && e.entries[c].0 == 6
            && e.entries[d].0 == 5);
    }
}

proof fn lemma_string(img: Seq<u8>, at: nat, name: Seq<u8>)
    requires
        at + name.len() < img.len(),
        img.subrange(at as int, at as int + name.len()) == name,
        img[at as int + name.len()] == 0,
        !name.contains(0),
    ensures
        string_at(img, at) == Some(name.push(0)),
{
    let rest = img.skip(at as int);
    lemma_index_of_item(rest, 0);
    let i = index_of_item(rest, 0);
    assert(rest[name.len() as int] == 0);
    assert forall|m: int| 0 <= m < name.len() implies rest[m] == name[m] by {
        assert(img.subrange(at as int, at as int + name.len())[m] == img[at + m]);
    }
    if i < name.len() {
        assert(name[i] == 0);
    }
    assert(i == name.len());
    assert(rest.take(i + 1) =~= name.push(0));
}

proof fn lemma_relas(img: Seq<u8>, e: ElfModel, t: DynTable, name: Seq<u8>, k: int, j: nat)
    requires
        holds(img, e),
        t.jmprel == e.jmprel,
        t.symtab == e.symtab,
        t.strtab == e.strtab,
        j <= k <= e.relas.len(),
        forall|j: int| 0 <= j < k ==> (#[trigger] e.relas[j]).name != name,
        k < e.relas.len() ==> e.relas[k].name == name,
    ensures
        find_rela(img, t, e.relas.len(), name.push(0), j) == (if k < e.relas.len() {
            Some(e.relas[k].offset)
        } else {
            None
        }),
    decreases k - j,
{
    if j < e.relas.len() {
        assert(has_rela(img, e, j as int));
        let r = e.relas[j as int];
        assert((r.index * 0x1_0000_0000 + r.kind) as nat / 0x1_0000_0000 == r.index);
        lemma_string(img, e.strtab + r.name_at, r.name);
        assert(rela_symbol(img, t, j) == Some(r.name.push(0)));
        if j < k {
            assert(r.name != name);
            assert(r.name.push(0).drop_last() =~= r.name);
            assert(name.push(0).drop_last() =~= name);
            lemma_relas(img, e, t, name, k, j + 1);
        }
    }
}

} // verus!
