//! Numbers written as text.

use vstd::prelude::*;
use vstd::slice::slice_subrange;

use crate::text::to_text;

verus! {

/// The value of `c` as a digit, or 99 where it is none in any base in use.
pub open spec fn digit_value(c: char) -> nat {
    if '0' <= c <= '9' {
        (c as u32 - '0' as u32) as nat
    } else if 'a' <= c <= 'f' {
        (c as u32 - 'a' as u32 + 10) as nat
    } else if 'A' <= c <= 'F' {
        (c as u32 - 'A' as u32 + 10) as nat
    } else {
        99
    }
}

/// Every character of `s` is a digit below `radix`.
pub open spec fn all_digits(s: Seq<char>, radix: nat) -> bool {
    forall|i: int| 0 <= i < s.len() ==> digit_value(#[trigger] s[i]) < radix
}

/// The number that the digits of `s` write in base `radix`.
pub open spec fn digits_value(s: Seq<char>, radix: nat) -> nat
    decreases s.len(),
{
    if s.len() == 0 {
        0
    } else {
        digits_value(s.drop_last(), radix) * radix + digit_value(s.last())
    }
}

/// `s` without one leading plus sign.
pub open spec fn strip_plus(s: Seq<char>) -> Seq<char> {
    if s.len() > 0 && s[0] == '+' {
        s.skip(1)
    } else {
        s
    }
}

/// The number at most `max` that `s` writes in base `radix`: one plus sign may
/// lead, at least one digit follows, and nothing else stands in `s`.
pub open spec fn unsigned_spec(s: Seq<char>, radix: nat, max: nat) -> Option<nat> {
    let d = strip_plus(s);
    if d.len() > 0 && all_digits(d, radix) && digits_value(d, radix) <= max {
        Some(digits_value(d, radix))
    } else {
        None
    }
}

/// The number between `min` and `max` that `s` writes in base ten, with an
/// optional sign.
pub open spec fn signed_spec(s: Seq<char>, min: int, max: int) -> Option<int> {
    if s.len() > 0 && s[0] == '-' {
        let d = s.skip(1);
        if d.len() > 0 && all_digits(d, 10) && -(digits_value(d, 10) as int) >= min {
            Some(-(digits_value(d, 10) as int))
        } else {
            None
        }
    } else {
        match unsigned_spec(s, 10, if max < 0 { 0 } else { max as nat }) {
            Some(v) => Some(v as int),
            None => None,
        }
    }
}

proof fn lemma_digits_value_prefix(s: Seq<char>, radix: nat, i: int)
    requires
        0 <= i <= s.len(),
        radix >= 1,
    ensures
        digits_value(s.take(i), radix) <= digits_value(s, radix),
    decreases s.len(),
{
    if i == s.len() {
        assert(s.take(i) =~= s);
    } else {
        let t = s.drop_last();
        lemma_digits_value_prefix(t, radix, i);
        assert(t.take(i) =~= s.take(i));
        let v = digits_value(t, radix);
        assert(v * radix >= v) by (nonlinear_arith)
            requires
                radix >= 1,
        ;
    }
}

/// Reads one digit; 99 stands for no digit.
pub fn digit(c: char) -> (r: u32)
    ensures
        r == digit_value(c),
{
    if '0' <= c && c <= '9' {
        c as u32 - '0' as u32
    } else if 'a' <= c && c <= 'f' {
        c as u32 - 'a' as u32 + 10
    } else if 'A' <= c && c <= 'F' {
        c as u32 - 'A' as u32 + 10
    } else {
        99
    }
}

fn parse_digits(d: &[char], radix: u32, max: u64) -> (r: Option<u64>)
    requires
        2 <= radix <= 16,
    ensures
        match r {
            Some(v) => d@.len() > 0 && all_digits(d@, radix as nat) && v == digits_value(
                d@,
                radix as nat,
            ) && v <= max,
            None => !(d@.len() > 0 && all_digits(d@, radix as nat) && digits_value(
                d@,
                radix as nat,
            ) <= max),
        },
{
    if d.len() == 0 {
        return None;
    }
    let mut acc: u64 = 0;
    for i in 0..d.len()
        invariant
            2 <= radix <= 16,
            acc <= max,
            acc == digits_value(d@.take(i as int), radix as nat),
            forall|k: int| 0 <= k < i ==> digit_value(#[trigger] d@[k]) < radix,
    {
        let v: u32 = digit(d[i]);
        if v >= radix {
            assert(!all_digits(d@, radix as nat)) by {
                assert(digit_value(d@[i as int]) >= radix);
            }
            return None;
        }
        assert(0 <= acc * radix <= 0xffff_ffff_ffff_ffff * 16) by (nonlinear_arith)
            requires
                0 <= acc <= 0xffff_ffff_ffff_ffff,
                2 <= radix <= 16,
        ;
        let wide: u128 = acc as u128 * radix as u128 + v as u128;
        assert(d@.take(i + 1).drop_last() =~= d@.take(i as int));
        assert(wide == digits_value(d@.take(i + 1), radix as nat));
        if wide > max as u128 {
            proof {
                lemma_digits_value_prefix(d@, radix as nat, i + 1);
            }
            return None;
        }
        acc = wide as u64;
    }
    assert(d@.take(d@.len() as int) =~= d@);
    Some(acc)
}

/// Reads an unsigned number at most `max`.
pub fn parse_unsigned(s: &[char], radix: u32, max: u64) -> (r: Option<u64>)
    requires
        2 <= radix <= 16,
    ensures
        match r {
            Some(v) => unsigned_spec(s@, radix as nat, max as nat) == Some(v as nat),
            None => unsigned_spec(s@, radix as nat, max as nat) is None,
        },
{
    if s.len() > 0 && s[0] == '+' {
        let d = slice_subrange(s, 1, s.len());
        assert(d@ =~= s@.skip(1));
        parse_digits(d, radix, max)
    } else {
        parse_digits(s, radix, max)
    }
}

/// Reads a `u64` in base `radix`.
pub fn parse_u64(s: &[char], radix: u32) -> (r: Option<u64>)
    requires
        2 <= radix <= 16,
    ensures
        match r {
            Some(v) => unsigned_spec(s@, radix as nat, u64::MAX as nat) == Some(v as nat),
            None => unsigned_spec(s@, radix as nat, u64::MAX as nat) is None,
        },
{
    parse_unsigned(s, radix, u64::MAX)
}

/// Reads a `usize` in base `radix`.
pub fn parse_usize(s: &[char], radix: u32) -> (r: Option<usize>)
    requires
        2 <= radix <= 16,
    ensures
        match r {
            Some(v) => unsigned_spec(s@, radix as nat, usize::MAX as nat) == Some(v as nat),
            None => unsigned_spec(s@, radix as nat, usize::MAX as nat) is None,
        },
{
    match parse_unsigned(s, radix, usize::MAX as u64) {
        Some(v) => Some(v as usize),
        None => None,
    }
}

/// Reads an `i32` in base ten.
pub fn parse_i32(s: &[char]) -> (r: Option<i32>)
    ensures
        match r {
            Some(v) => signed_spec(s@, i32::MIN as int, i32::MAX as int) == Some(v as int),
            None => signed_spec(s@, i32::MIN as int, i32::MAX as int) is None,
        },
{
    if s.len() > 0 && s[0] == '-' {
        let d = slice_subrange(s, 1, s.len());
        assert(d@ =~= s@.skip(1));
        match parse_digits(d, 10, 0x8000_0000) {
            Some(v) => Some((-(v as i64)) as i32),
            None => None,
        }
    } else {
        match parse_unsigned(s, 10, 0x7fff_ffff) {
            Some(v) => Some(v as i32),
            None => None,
        }
    }
}

/// The digit that writes `n`.
pub open spec fn digit_char(n: nat) -> char {
    ('0' as u32 + n) as char
}

/// `n` in base ten, without leading zeros.
pub open spec fn decimal(n: nat) -> Seq<char>
    decreases n,
{
    if n < 10 {
        seq![digit_char(n)]
    } else {
        decimal(n / 10).push(digit_char(n % 10))
    }
}

/// `n` in base ten, with a minus sign where it is negative.
pub open spec fn decimal_int(n: int) -> Seq<char> {
    if n < 0 {
        seq!['-'] + decimal((-n) as nat)
    } else {
        decimal(n as nat)
    }
}

/// Appends `n` in base ten.
pub fn push_decimal(out: &mut Vec<char>, n: u64)
    ensures
        final(out)@ == old(out)@ + decimal(n as nat),
    decreases n,
{
    if n >= 10 {
        push_decimal(out, n / 10);
    }
    let d: u8 = (n % 10) as u8;
    out.push((48 + d) as char);
}

/// Writes `n` in base ten.
pub fn decimal_text(n: u64) -> (r: String)
    ensures
        r@ == decimal(n as nat),
{
    let mut out: Vec<char> = Vec::new();
    push_decimal(&mut out, n);
    to_text(out.as_slice())
}

/// Appends a signed number in base ten.
pub fn push_decimal_i32(out: &mut Vec<char>, n: i32)
    ensures
        final(out)@ == old(out)@ + decimal_int(n as int),
{
    if n < 0 {
        out.push('-');
        push_decimal(out, (-(n as i64)) as u64);
        assert(out@ =~= old(out)@ + decimal_int(n as int));
    } else {
        push_decimal(out, n as u64);
    }
}

/// Writes a signed number in base ten.
pub fn decimal_text_i32(n: i32) -> (r: String)
    ensures
        r@ == decimal_int(n as int),
{
    let mut out: Vec<char> = Vec::new();
    push_decimal_i32(&mut out, n);
    assert(Seq::<char>::empty() + decimal_int(n as int) =~= decimal_int(n as int));
    to_text(out.as_slice())
}

pub proof fn lemma_decimal(n: nat)
    ensures
        decimal(n).len() > 0,
        all_digits(decimal(n), 10),
        digits_value(decimal(n), 10) == n,
    decreases n,
{
    if n >= 10 {
        lemma_decimal(n / 10);
        assert(decimal(n).drop_last() =~= decimal(n / 10));
        assert(digit_value(digit_char(n % 10)) == n % 10);
        assert(decimal(n).last() == digit_char(n % 10));
        let d = decimal(n);
        assert forall|i: int| 0 <= i < d.len() implies digit_value(#[trigger] d[i]) < 10 by {
            if i < d.len() - 1 {
                assert(d[i] == decimal(n / 10)[i]);
            }
        }
    } else {
        assert(decimal(n).drop_last() =~= Seq::<char>::empty());
        assert(digits_value(Seq::<char>::empty(), 10) == 0);
        assert(decimal(n).last() == digit_char(n));
        assert(digit_value(digit_char(n)) == n);
    }
}

/// Reading back what was written gives the number, for every `u64`.
pub proof fn law_unsigned_round_trip(n: nat, max: nat)
    requires
        n <= max,
    ensures
        unsigned_spec(decimal(n), 10, max) == Some(n),
{
    lemma_decimal(n);
    let d = decimal(n);
    assert(digit_value(d[0]) < 10);
    assert(strip_plus(d) == d);
}

/// Reading back what was written gives the number, with its sign.
pub proof fn law_signed_round_trip(n: int, min: int, max: int)
    requires
        min <= n <= max,
    ensures
        signed_spec(decimal_int(n), min, max) == Some(n),
{
    if n < 0 {
        lemma_decimal((-n) as nat);
        assert(decimal_int(n).skip(1) =~= decimal((-n) as nat));
    } else {
        law_unsigned_round_trip(n as nat, max as nat);
        lemma_decimal(n as nat);
        assert(digit_value(decimal(n as nat)[0]) < 10);
    }
}

/// Digits have their values, letters those above nine, in either case.
pub proof fn law_digits(n: nat)
    requires
        n < 16,
    ensures
        n < 10 ==> digit_value((48 + n) as char) == n,
        n >= 10 ==> digit_value((87 + n) as char) == n && digit_value((55 + n) as char) == n,
        digit_value('g') >= 16 && digit_value('G') >= 16 && digit_value('-') >= 16 && digit_value(' ')
            >= 16 && digit_value('/') >= 16 && digit_value(':') >= 16 && digit_value('@') >= 16
            && digit_value('`') >= 16 && digit_value('.') >= 16,
{
}

/// Another digit behind a number makes it so many times larger and adds the digit,
/// as long as the number may be so large; a plus sign before it changes nothing.
pub proof fn law_number_grows(s: Seq<char>, c: char, radix: nat, max: nat)
    requires
        s.len() > 0,
        s[0] != '+',
        radix == 10 || radix == 16,
    ensures
        unsigned_spec(Seq::empty(), radix, max) is None,
        unsigned_spec(seq!['+'], radix, max) is None,
        unsigned_spec(seq!['+'] + s, radix, max) == unsigned_spec(s, radix, max),
        digit_value(c) >= radix ==> unsigned_spec(s.push(c), radix, max) is None,
        c != '+' && digit_value(c) < radix && digit_value(c) <= max ==> unsigned_spec(
            seq![c],
            radix,
            max,
        ) == Some(digit_value(c)),
        digit_value(c) < radix ==> (match unsigned_spec(s, radix, max) {
            Some(v) => unsigned_spec(s.push(c), radix, max) == (if v * radix + digit_value(c)
                <= max {
                Some((v * radix + digit_value(c)) as nat)
            } else {
                None
            }),
            None => unsigned_spec(s.push(c), radix, max) is None,
        }),
{
    assert(strip_plus(Seq::<char>::empty()).len() == 0);
    assert(seq!['+'].skip(1) =~= Seq::<char>::empty());
    assert((seq!['+'] + s).skip(1) =~= s);
    let t = s.push(c);
    assert(t.last() == c);
    assert(t.drop_last() =~= s);
    assert(t[s.len() as int] == c);
    assert(all_digits(t, radix) <==> all_digits(s, radix) && digit_value(c) < radix) by {
        if all_digits(t, radix) {
            assert forall|i: int| 0 <= i < s.len() implies digit_value(#[trigger] s[i]) < radix by {
                assert(t[i] == s[i]);
            }
        }
        if all_digits(s, radix) && digit_value(c) < radix {
            assert forall|i: int| 0 <= i < t.len() implies digit_value(#[trigger] t[i]) < radix by {
                if i < s.len() {
                    assert(t[i] == s[i]);
                }
            }
        }
    }
    let v = digits_value(s, radix);
    assert(v * radix >= v) by (nonlinear_arith)
        requires
            radix >= 1,
    ;
    let one = seq![c];
    assert(one.drop_last() =~= Seq::<char>::empty());
    assert(one[0] == c && one.last() == c);
    assert(digits_value(Seq::<char>::empty(), radix) == 0);
    assert(0 * radix == 0);
}

/// A minus sign before a number negates it.
pub proof fn law_minus_negates(s: Seq<char>, v: nat, max: nat)
    requires
        s.len() > 0,
        s[0] != '+' && s[0] != '-',
        max <= i32::MAX,
    ensures
        unsigned_spec(s, 10, max) == Some(v) ==> signed_spec(
            seq!['-'] + s,
            i32::MIN as int,
            i32::MAX as int,
        ) == Some(-(v as int)) && signed_spec(s, i32::MIN as int, i32::MAX as int) == Some(v as int),
        unsigned_spec(s, 10, 0x8000_0000) is None ==> signed_spec(
            seq!['-'] + s,
            i32::MIN as int,
            i32::MAX as int,
        ) is None,
{
    assert((seq!['-'] + s).skip(1) =~= s);
}

} // verus!
