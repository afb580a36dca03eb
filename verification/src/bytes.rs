//! Little-endian numbers in byte sequences.

use vstd::arithmetic::div_mod::{lemma_fundamental_div_mod, lemma_mod_multiples_vanish};
use vstd::prelude::*;
use vstd::slice::slice_subrange;

use crate::text::{index_of_item, split_spec};

verus! {

/// 256 to the power of `n`.
pub open spec fn pow256(n: nat) -> nat
    decreases n,
{
    if n == 0 {
        1
    } else {
        256 * pow256((n - 1) as nat)
    }
}

/// The number whose little-endian bytes are `s`.
pub open spec fn le_number(s: Seq<u8>) -> nat
    decreases s.len(),
{
    if s.len() == 0 {
        0
    } else {
        s[0] as nat + 256 * le_number(s.skip(1))
    }
}

/// The `n` lowest bytes of `v`, lowest first.
pub open spec fn le_encode(v: nat, n: nat) -> Seq<u8>
    decreases n,
{
    if n == 0 {
        Seq::empty()
    } else {
        seq![(v % 256) as u8] + le_encode(v / 256, (n - 1) as nat)
    }
}

/// The unsigned number that an `i32` is written as.
pub open spec fn word_of_i32(v: i32) -> nat {
    if v < 0 {
        (v + 0x1_0000_0000) as nat
    } else {
        v as nat
    }
}

/// The `i32` that a 32-bit number is read as.
pub open spec fn i32_of_word(v: nat) -> int {
    if v >= 0x8000_0000 {
        v - 0x1_0000_0000
    } else {
        v as int
    }
}

/// An encoding has the length asked for.
pub proof fn lemma_le_encode_len(v: nat, n: nat)
    ensures
        le_encode(v, n).len() == n,
    decreases n,
{
    if n > 0 {
        lemma_le_encode_len(v / 256, (n - 1) as nat);
    }
}

/// Reading back what was written gives the number, up to the bytes it was
/// given.
pub proof fn law_le_round_trip(v: nat, n: nat)
    ensures
        le_number(le_encode(v, n)) == v % pow256(n),
        v < pow256(n) ==> le_number(le_encode(v, n)) == v,
        pow256(n) > 0,
    decreases n,
{
    if n == 0 {
        assert(v % 1 == 0);
    } else {
        let m = (n - 1) as nat;
        law_le_round_trip(v / 256, m);
        let e = le_encode(v, n);
        assert(e.skip(1) =~= le_encode(v / 256, m));
        let p = pow256(m);
        let q = v / 256;
        assert(p > 0);
        // v == 256 * q + v % 256 and q == p * (q / p) + q % p
        lemma_fundamental_div_mod(q as int, p as int);
        let low = v % 256 + 256 * (q % p);
        assert(0 <= q % p < p) by (nonlinear_arith)
            requires
                p > 0,
        ;
        assert(low < 256 * p);
        let k = q / p;
        let r = q % p;
        assert(256 * (p * k + r) == (256 * p) * k + 256 * r) by (nonlinear_arith);
        assert(v == (256 * p) * k + low);
        lemma_mod_multiples_vanish((q / p) as int, low as int, (256 * p) as int);
        assert(v % (256 * p) == low) by {
            vstd::arithmetic::div_mod::lemma_small_mod(low, (256 * p) as nat);
        }
        if v < pow256(n) {
            vstd::arithmetic::div_mod::lemma_small_mod(v, pow256(n));
        }
    }
}

/// A number of `n` bytes is below 256 to the power of `n`.
pub proof fn lemma_le_number_bound(s: Seq<u8>)
    ensures
        le_number(s) < pow256(s.len()),
    decreases s.len(),
{
    if s.len() > 0 {
        lemma_le_number_bound(s.skip(1));
    }
}

proof fn lemma_pow256_values()
    ensures
        pow256(0) == 1,
        pow256(1) == 0x100,
        pow256(2) == 0x1_0000,
        pow256(4) == 0x1_0000_0000,
        pow256(8) == 0x1_0000_0000_0000_0000,
        forall|a: nat, b: nat| a <= b ==> #[trigger] pow256(a) <= #[trigger] pow256(b),
{
    assert(pow256(8) == 0x1_0000_0000_0000_0000) by {
        reveal_with_fuel(pow256, 9);
    }
    reveal_with_fuel(pow256, 5);
    assert forall|a: nat, b: nat| a <= b implies #[trigger] pow256(a) <= #[trigger] pow256(b) by {
        lemma_pow256_monotone(a, b);
    }
}

proof fn lemma_pow256_monotone(a: nat, b: nat)
    requires
        a <= b,
    ensures
        pow256(a) <= pow256(b),
    decreases b,
{
    if a < b {
        lemma_pow256_monotone(a, (b - 1) as nat);
    }
}

/// Reads a little-endian number of at most eight bytes.
pub fn read_le(s: &[u8]) -> (r: u64)
    requires
        s@.len() <= 8,
    ensures
        r == le_number(s@),
{
    let n: usize = s.len();
    let mut acc: u64 = 0;
    let mut i: usize = n;
    assert(s@.skip(n as int) =~= Seq::empty());
    while i > 0
        invariant
            i <= n,
            n == s@.len(),
            n <= 8,
            acc == le_number(s@.skip(i as int)),
        decreases i,
    {
        i = i - 1;
        proof {
            lemma_le_number_bound(s@.skip(i as int));
            lemma_pow256_values();
            assert(s@.skip(i as int).skip(1) =~= s@.skip(i + 1));
            assert(pow256((n - i) as nat) <= pow256(8));
        }
        acc = acc * 256 + s[i] as u64;
    }
    assert(s@.skip(0) =~= s@);
    acc
}

/// Writes the `n` lowest bytes of `v`, lowest first.
pub fn write_le(v: u64, n: usize) -> (r: Vec<u8>)
    ensures
        r@ == le_encode(v as nat, n as nat),
{
    let mut out: Vec<u8> = Vec::new();
    let mut rest: u64 = v;
    let mut i: usize = 0;
    while i < n
        invariant
            i <= n,
            out@ + le_encode(rest as nat, (n - i) as nat) == le_encode(v as nat, n as nat),
        decreases n - i,
    {
        let ghost before = out@;
        let low: u8 = (rest % 256) as u8;
        out.push(low);
        proof {
            assert(out@ + le_encode((rest / 256) as nat, (n - i - 1) as nat) =~= before
                + le_encode(rest as nat, (n - i) as nat));
        }
        rest = rest / 256;
        i = i + 1;
    }
    assert(out@ + le_encode(rest as nat, 0) =~= out@);
    out
}

/// The number that an `i32` is written as.
pub fn i32_to_word(v: i32) -> (r: u64)
    ensures
        r == word_of_i32(v),
        r < 0x1_0000_0000,
{
    if v < 0 {
        (v as i64 + 0x1_0000_0000) as u64
    } else {
        v as u64
    }
}

/// The `i32` that a 32-bit number is read as.
pub fn word_to_i32(v: u64) -> (r: i32)
    requires
        v < 0x1_0000_0000,
    ensures
        r == i32_of_word(v as nat),
{
    if v >= 0x8000_0000 {
        (v as i64 - 0x1_0000_0000) as i32
    } else {
        v as i32
    }
}

/// Writes an `i32` as four little-endian bytes.
pub fn write_i32(v: i32) -> (r: Vec<u8>)
    ensures
        r@ == le_encode(word_of_i32(v), 4),
        r@.len() == 4,
{
    proof {
        lemma_le_encode_len(word_of_i32(v), 4);
    }
    write_le(i32_to_word(v), 4)
}

/// Reads an `i32` from four little-endian bytes.
pub fn read_i32(s: &[u8]) -> (r: i32)
    requires
        s@.len() == 4,
    ensures
        r == i32_of_word(le_number(s@)),
{
    proof {
        lemma_le_number_bound(s@);
        lemma_pow256_values();
    }
    word_to_i32(read_le(s))
}

/// Reading an `i32` back gives the one that was written.
pub proof fn law_i32_round_trip(v: i32)
    ensures
        i32_of_word(le_number(le_encode(word_of_i32(v), 4))) == v,
{
    lemma_pow256_values();
    law_le_round_trip(word_of_i32(v), 4);
}

/// Appends the bytes of `s` to `out`.
pub fn append_bytes(out: &mut Vec<u8>, s: &[u8])
    ensures
        final(out)@ == old(out)@ + s@,
{
    let ghost start = out@;
    for i in 0..s.len()
        invariant
            out@ == start + s@.take(i as int),
    {
        out.push(s[i]);
        assert(s@.take(i + 1) =~= s@.take(i as int).push(s@[i as int]));
    }
    assert(s@.take(s@.len() as int) =~= s@);
}

/// The contents of a list of slices of bytes.
pub open spec fn byte_views(v: Seq<&[u8]>) -> Seq<Seq<u8>> {
    Seq::new(v.len(), |i: int| v[i]@)
}

/// Finds the first `c`.
pub fn find_byte(s: &[u8], c: u8) -> (r: usize)
    ensures
        r == index_of_item(s@, c),
        r <= s@.len(),
{
    let mut i: usize = 0;
    assert(s@.skip(0) =~= s@);
    while i < s.len() && s[i] != c
        invariant
            i <= s@.len(),
            index_of_item(s@, c) == i + index_of_item(s@.skip(i as int), c),
        decreases s@.len() - i,
    {
        assert(s@.skip(i as int).skip(1) =~= s@.skip(i + 1));
        i = i + 1;
    }
    i
}

/// Splits at every `c`.
pub fn split_bytes<'a>(s: &'a [u8], c: u8) -> (r: Vec<&'a [u8]>)
    ensures
        byte_views(r@) == split_spec(s@, c),
{
    let mut out: Vec<&'a [u8]> = Vec::new();
    let mut rest: &'a [u8] = s;
    assert(byte_views(out@) + split_spec(rest@, c) =~= split_spec(s@, c));
    loop
        invariant_except_break
            byte_views(out@) + split_spec(rest@, c) == split_spec(s@, c),
        ensures
            byte_views(out@) == split_spec(s@, c),
        decreases rest@.len(),
    {
        let i: usize = find_byte(rest, c);
        let ghost before = out@;
        if i >= rest.len() {
            out.push(rest);
            assert(byte_views(out@) =~= byte_views(before) + seq![rest@]);
            break;
        }
        let head = slice_subrange(rest, 0, i);
        let tail = slice_subrange(rest, i + 1, rest.len());
        assert(head@ =~= rest@.take(i as int));
        assert(tail@ =~= rest@.skip(i + 1));
        out.push(head);
        assert(byte_views(out@) + split_spec(tail@, c) =~= byte_views(before) + (seq![head@]
            + split_spec(tail@, c)));
        rest = tail;
    }
    out
}

/// Compares two slices of bytes.
pub fn same_bytes(a: &[u8], b: &[u8]) -> (r: bool)
    ensures
        r == (a@ == b@),
{
    if a.len() != b.len() {
        return false;
    }
    for i in 0..a.len()
        invariant
            a@.len() == b@.len(),
            forall|k: int| 0 <= k < i ==> a@[k] == b@[k],
    {
        if a[i] != b[i] {
            return false;
        }
    }
    assert(a@ =~= b@);
    true
}

/// The bytes of a number weigh 1, 256, and so on: the lowest comes first.
pub proof fn law_bytes_weigh(a: Seq<u8>, b: Seq<u8>)
    ensures
        le_number(a + b) == le_number(a) + pow256(a.len()) * le_number(b),
        a.len() == 1 ==> le_number(a) == a[0],
    decreases a.len(),
{
    if a.len() > 0 {
        assert((a + b)[0] == a[0]);
        assert((a + b).skip(1) =~= a.skip(1) + b);
        law_bytes_weigh(a.skip(1), b);
        let p = pow256((a.len() - 1) as nat);
        let n = le_number(b);
        assert(256 * (p * n) == (256 * p) * n) by (nonlinear_arith);
        if a.len() == 1 {
            assert(le_number(a.skip(1)) == 0);
        }
    } else {
        assert(a + b =~= b);
        let p = pow256(a.len());
        let n = le_number(b);
        assert(p * n == n) by (nonlinear_arith)
            requires
                p == 1,
        ;
    }
}

/// Numbers of up to 64 bits by their bytes.
pub proof fn law_four_and_eight_bytes(s: Seq<u8>)
    ensures
        s.len() == 2 ==> le_number(s) == s[0] + 0x100 * s[1],
        s.len() == 4 ==> le_number(s) == s[0] + 0x100 * s[1] + 0x1_0000 * s[2] + 0x100_0000 * s[3],
        s.len() == 8 ==> le_number(s) == s[0] + 0x100 * s[1] + 0x1_0000 * s[2] + 0x100_0000 * s[3]
            + 0x1_0000_0000 * s[4] + 0x100_0000_0000 * s[5] + 0x1_0000_0000_0000 * s[6]
            + 0x100_0000_0000_0000 * s[7],
{
    reveal_with_fuel(le_number, 9);
}

/// A signed number and its bits are the same up to 2^32, and every number of 32
/// bits is one of them.
pub proof fn law_signed_words(v: i32, w: nat)
    requires
        w <= 0xffff_ffff,
    ensures
        word_of_i32(v) <= 0xffff_ffff,
        v >= 0 ==> word_of_i32(v) == v,
        v < 0 ==> word_of_i32(v) == v + 0x1_0000_0000,
        i32::MIN <= i32_of_word(w) <= i32::MAX,
        i32_of_word(word_of_i32(v)) == v,
        word_of_i32(i32_of_word(w) as i32) == w,
{
}

} // verus!
