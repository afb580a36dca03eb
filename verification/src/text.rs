//! Text primitives over sequences of characters.
//!
//! Every routine works on a slice of characters and is specified against a
//! mathematical definition over `Seq<char>`.

use vstd::prelude::*;
use vstd::slice::slice_subrange;
use vstd::utf8::{decode_utf8, valid_utf8};

verus! {

/// `String::push` appends one character.
pub assume_specification[ String::push ](s: &mut String, c: char)
    ensures
        final(s)@ == old(s)@.push(c),
;

/// The contents of a list of slices.
pub open spec fn views(v: Seq<&[char]>) -> Seq<Seq<char>> {
    Seq::new(v.len(), |i: int| v[i]@)
}

/// Collects the characters of a string.
pub fn to_chars(s: &str) -> (r: Vec<char>)
    ensures
        r@ == s@,
{
    let mut out: Vec<char> = Vec::new();
    for c in it: s.chars()
        invariant
            out@ == it.seq().take(it.index()),
            it.seq() == s@,
    {
        out.push(c);
    }
    out
}

/// Builds a string out of characters.
pub fn to_text(v: &[char]) -> (r: String)
    ensures
        r@ == v@,
{
    let mut out = String::new();
    for i in 0..v.len()
        invariant
            out@ == v@.take(i as int),
    {
        out.push(v[i]);
        assert(v@.take(i + 1) =~= v@.take(i as int).push(v@[i as int]));
    }
    assert(v@.take(v@.len() as int) =~= v@);
    out
}

/// Position of the first `c` in `s`, or the length of `s` when there is none.
pub open spec fn index_of_item<T>(s: Seq<T>, c: T) -> int
    decreases s.len(),
{
    if s.len() == 0 || s[0] == c {
        0
    } else {
        1 + index_of_item(s.skip(1), c)
    }
}

/// The first `c` is a `c`, and none stands before it.
pub proof fn lemma_index_of_item<T>(s: Seq<T>, c: T)
    ensures
        0 <= index_of_item(s, c) <= s.len(),
        index_of_item(s, c) < s.len() ==> s[index_of_item(s, c)] == c,
        forall|k: int| 0 <= k < index_of_item(s, c) ==> s[k] != c,
    decreases s.len(),
{
    if s.len() != 0 && s[0] != c {
        let t = s.skip(1);
        lemma_index_of_item(t, c);
        assert forall|k: int| 0 <= k < index_of_item(s, c) implies s[k] != c by {
            if k > 0 {
                assert(s[k] == t[k - 1]);
            }
        }
    }
}

/// Finds the first `c`.
pub fn find_char(s: &[char], c: char) -> (r: usize)
    ensures
        r == index_of_item(s@, c),
        r <= s@.len(),
{
    let mut i: usize = 0;
    assert(s@.skip(0) =~= s@);
    while i < s.len() && s[i] != c
        invariant
            i <= s@.len(),
            index_of_item(s@, c) == i + index_of_item(s@.skip(i as int), c),
        decreases s@.len() - i,
    {
        assert(s@.skip(i as int).skip(1) =~= s@.skip(i + 1));
        i = i + 1;
    }
    i
}

/// The pieces of `s` between occurrences of `c`: always at least one.
pub open spec fn split_spec<T>(s: Seq<T>, c: T) -> Seq<Seq<T>>
    decreases s.len(),
{
    proof {
        lemma_index_of_item(s, c);
    }
    let i = index_of_item(s, c);
    if i >= s.len() {
        seq![s]
    } else {
        seq![s.take(i)] + split_spec(s.skip(i + 1), c)
    }
}

/// Splits at every `c`.
pub fn split_char<'a>(s: &'a [char], c: char) -> (r: Vec<&'a [char]>)
    ensures
        views(r@) == split_spec(s@, c),
        r@.len() >= 1,
{
    let mut out: Vec<&'a [char]> = Vec::new();
    let mut rest: &'a [char] = s;
    assert(views(out@) + split_spec(rest@, c) =~= split_spec(s@, c));
    loop
        invariant_except_break
            views(out@) + split_spec(rest@, c) == split_spec(s@, c),
        ensures
            views(out@) == split_spec(s@, c),
            out@.len() >= 1,
        decreases rest@.len(),
    {
        let i: usize = find_char(rest, c);
        let ghost before = out@;
        if i >= rest.len() {
            out.push(rest);
            assert(views(out@) =~= views(before) + seq![rest@]);
            break;
        }
        let head = slice_subrange(rest, 0, i);
        let tail = slice_subrange(rest, i + 1, rest.len());
        assert(head@ =~= rest@.take(i as int));
        assert(tail@ =~= rest@.skip(i + 1));
        out.push(head);
        assert(views(out@) + split_spec(tail@, c) =~= views(before) + (seq![head@] + split_spec(
            tail@,
            c,
        )));
        rest = tail;
    }
    out
}

/// At most `n` pieces of `s`: the last one keeps every further `c`.
pub open spec fn splitn_spec(s: Seq<char>, n: nat, c: char) -> Seq<Seq<char>>
    decreases n,
{
    let i = index_of_item(s, c);
    if n == 0 {
        Seq::empty()
    } else if n == 1 || i >= s.len() {
        seq![s]
    } else {
        seq![s.take(i)] + splitn_spec(s.skip(i + 1), (n - 1) as nat, c)
    }
}

/// Splits at the first `n - 1` occurrences of `c`.
pub fn splitn_char<'a>(s: &'a [char], n: usize, c: char) -> (r: Vec<&'a [char]>)
    requires
        n >= 1,
    ensures
        views(r@) == splitn_spec(s@, n as nat, c),
        1 <= r@.len() <= n,
{
    let mut out: Vec<&'a [char]> = Vec::new();
    let mut rest: &'a [char] = s;
    let mut left: usize = n;
    assert(views(out@) + splitn_spec(rest@, left as nat, c) =~= splitn_spec(s@, n as nat, c));
    loop
        invariant_except_break
            1 <= left <= n,
            out@.len() == n - left,
            views(out@) + splitn_spec(rest@, left as nat, c) == splitn_spec(s@, n as nat, c),
        ensures
            views(out@) == splitn_spec(s@, n as nat, c),
            1 <= out@.len() <= n,
        decreases left,
    {
        let i: usize = find_char(rest, c);
        let ghost before = out@;
        if left == 1 || i >= rest.len() {
            out.push(rest);
            assert(views(out@) =~= views(before) + seq![rest@]);
            break;
        }
        let head = slice_subrange(rest, 0, i);
        let tail = slice_subrange(rest, i + 1, rest.len());
        assert(head@ =~= rest@.take(i as int));
        assert(tail@ =~= rest@.skip(i + 1));
        out.push(head);
        left = left - 1;
        assert(views(out@) + splitn_spec(tail@, left as nat, c) =~= views(before) + (seq![head@]
            + splitn_spec(tail@, left as nat, c)));
        rest = tail;
    }
    out
}

/// The characters with the Unicode property `White_Space`.
pub open spec fn is_space(c: char) -> bool {
    ||| '\u{9}' <= c <= '\u{d}'
    ||| c == ' '
    ||| c == '\u{85}'
    ||| c == '\u{a0}'
    ||| c == '\u{1680}'
    ||| '\u{2000}' <= c <= '\u{200a}'
    ||| c == '\u{2028}'
    ||| c == '\u{2029}'
    ||| c == '\u{202f}'
    ||| c == '\u{205f}'
    ||| c == '\u{3000}'
}

/// Tells whether `c` is white space.
pub fn is_whitespace(c: char) -> (r: bool)
    ensures
        r == is_space(c),
{
    ('\u{9}' <= c && c <= '\u{d}') || c == ' ' || c == '\u{85}' || c == '\u{a0}' || c
        == '\u{1680}' || ('\u{2000}' <= c && c <= '\u{200a}') || c == '\u{2028}' || c == '\u{2029}'
        || c == '\u{202f}' || c == '\u{205f}' || c == '\u{3000}'
}

/// `s` without its leading white space.
pub open spec fn trim_start_spec(s: Seq<char>) -> Seq<char>
    decreases s.len(),
{
    if s.len() > 0 && is_space(s[0]) {
        trim_start_spec(s.skip(1))
    } else {
        s
    }
}

/// `s` without its trailing white space.
pub open spec fn trim_end_spec(s: Seq<char>) -> Seq<char>
    decreases s.len(),
{
    if s.len() > 0 && is_space(s.last()) {
        trim_end_spec(s.drop_last())
    } else {
        s
    }
}

/// `s` without white space on either side.
pub open spec fn trim_spec(s: Seq<char>) -> Seq<char> {
    trim_end_spec(trim_start_spec(s))
}

/// Removes leading white space.
pub fn trim_start<'a>(s: &'a [char]) -> (r: &'a [char])
    ensures
        r@ == trim_start_spec(s@),
        r@.len() <= s@.len(),
{
    let mut i: usize = 0;
    assert(s@.skip(0) =~= s@);
    while i < s.len() && is_whitespace(s[i])
        invariant
            i <= s@.len(),
            trim_start_spec(s@) == trim_start_spec(s@.skip(i as int)),
        decreases s@.len() - i,
    {
        assert(s@.skip(i as int).skip(1) =~= s@.skip(i + 1));
        i = i + 1;
    }
    let r = slice_subrange(s, i, s.len());
    assert(r@ =~= s@.skip(i as int));
    r
}

/// Removes trailing white space.
pub fn trim_end<'a>(s: &'a [char]) -> (r: &'a [char])
    ensures
        r@ == trim_end_spec(s@),
        r@.len() <= s@.len(),
{
    let mut i: usize = s.len();
    assert(s@.take(i as int) =~= s@);
    while i > 0 && is_whitespace(s[i - 1])
        invariant
            i <= s@.len(),
            trim_end_spec(s@) == trim_end_spec(s@.take(i as int)),
        decreases i,
    {
        assert(s@.take(i as int).drop_last() =~= s@.take(i - 1));
        i = i - 1;
    }
    let r = slice_subrange(s, 0, i);
    assert(r@ =~= s@.take(i as int));
    r
}

/// Removes white space on both sides.
pub fn trim<'a>(s: &'a [char]) -> (r: &'a [char])
    ensures
        r@ == trim_spec(s@),
{
    trim_end(trim_start(s))
}

/// Position of the first white space in `s`, or the length of `s`.
pub open spec fn index_of_space(s: Seq<char>) -> int
    decreases s.len(),
{
    if s.len() == 0 || is_space(s[0]) {
        0
    } else {
        1 + index_of_space(s.skip(1))
    }
}

proof fn lemma_index_of_space(s: Seq<char>)
    ensures
        0 <= index_of_space(s) <= s.len(),
        s.len() > 0 && !is_space(s[0]) ==> index_of_space(s) > 0,
    decreases s.len(),
{
    if s.len() != 0 && !is_space(s[0]) {
        lemma_index_of_space(s.skip(1));
    }
}

proof fn lemma_trim_start(s: Seq<char>)
    ensures
        trim_start_spec(s).len() <= s.len(),
        trim_start_spec(s).len() > 0 ==> !is_space(trim_start_spec(s)[0]),
    decreases s.len(),
{
    if s.len() > 0 && is_space(s[0]) {
        lemma_trim_start(s.skip(1));
    }
}

fn find_space(s: &[char]) -> (r: usize)
    ensures
        r == index_of_space(s@),
        r <= s@.len(),
{
    let mut i: usize = 0;
    assert(s@.skip(0) =~= s@);
    while i < s.len() && !is_whitespace(s[i])
        invariant
            i <= s@.len(),
            index_of_space(s@) == i + index_of_space(s@.skip(i as int)),
        decreases s@.len() - i,
    {
        assert(s@.skip(i as int).skip(1) =~= s@.skip(i + 1));
        i = i + 1;
    }
    i
}

/// The maximal runs of characters that are no white space, in order.
pub open spec fn words_spec(s: Seq<char>) -> Seq<Seq<char>>
    decreases s.len(),
    via words_decreases
{
    let t = trim_start_spec(s);
    if t.len() == 0 {
        Seq::empty()
    } else {
        let i = index_of_space(t);
        seq![t.take(i)] + words_spec(t.skip(i))
    }
}

#[via_fn]
proof fn words_decreases(s: Seq<char>) {
    lemma_trim_start(s);
    lemma_index_of_space(trim_start_spec(s));
}

/// Splits into words.
pub fn split_whitespace<'a>(s: &'a [char]) -> (r: Vec<&'a [char]>)
    ensures
        views(r@) == words_spec(s@),
{
    let mut out: Vec<&'a [char]> = Vec::new();
    let mut rest: &'a [char] = s;
    assert(views(out@) + words_spec(rest@) =~= words_spec(s@));
    loop
        invariant_except_break
            views(out@) + words_spec(rest@) == words_spec(s@),
        ensures
            views(out@) == words_spec(s@),
        decreases rest@.len(),
    {
        let t = trim_start(rest);
        if t.len() == 0 {
            assert(views(out@) + Seq::<Seq<char>>::empty() =~= views(out@));
            break;
        }
        let i: usize = find_space(t);
        proof {
            lemma_trim_start(rest@);
            lemma_index_of_space(t@);
        }
        let ghost before = out@;
        let head = slice_subrange(t, 0, i);
        let tail = slice_subrange(t, i, t.len());
        assert(head@ =~= t@.take(i as int));
        assert(tail@ =~= t@.skip(i as int));
        out.push(head);
        assert(views(out@) + words_spec(tail@) =~= views(before) + (seq![head@] + words_spec(
            tail@,
        )));
        rest = tail;
    }
    out
}

/// `s` without one carriage return at its end.
pub open spec fn strip_cr(s: Seq<char>) -> Seq<char> {
    if s.len() > 0 && s.last() == '\r' {
        s.drop_last()
    } else {
        s
    }
}

/// The lines of `s`: a line ends in `\n` or `\r\n`, the last one may end in
/// neither, and nothing follows a final line end.
pub open spec fn lines_spec(s: Seq<char>) -> Seq<Seq<char>>
    decreases s.len(),
    via lines_decreases
{
    let i = index_of_item(s, '\n');
    if s.len() == 0 {
        Seq::empty()
    } else if i >= s.len() {
        seq![s]
    } else {
        seq![strip_cr(s.take(i))] + lines_spec(s.skip(i + 1))
    }
}

#[via_fn]
proof fn lines_decreases(s: Seq<char>) {
    lemma_index_of_item(s, '\n');
}

/// Splits into lines.
pub fn lines<'a>(s: &'a [char]) -> (r: Vec<&'a [char]>)
    ensures
        views(r@) == lines_spec(s@),
{
    let mut out: Vec<&'a [char]> = Vec::new();
    let mut rest: &'a [char] = s;
    assert(views(out@) + lines_spec(rest@) =~= lines_spec(s@));
    loop
        invariant_except_break
            views(out@) + lines_spec(rest@) == lines_spec(s@),
        ensures
            views(out@) == lines_spec(s@),
        decreases rest@.len(),
    {
        let ghost before = out@;
        if rest.len() == 0 {
            assert(views(out@) + Seq::<Seq<char>>::empty() =~= views(out@));
            break;
        }
        let i: usize = find_char(rest, '\n');
        if i >= rest.len() {
            out.push(rest);
            assert(views(out@) =~= views(before) + seq![rest@]);
            break;
        }
        let end: usize = if i > 0 && rest[i - 1] == '\r' {
            i - 1
        } else {
            i
        };
        let head = slice_subrange(rest, 0, end);
        let tail = slice_subrange(rest, i + 1, rest.len());
        assert(head@ =~= strip_cr(rest@.take(i as int)));
        assert(tail@ =~= rest@.skip(i + 1));
        out.push(head);
        assert(views(out@) + lines_spec(tail@) =~= views(before) + (seq![head@] + lines_spec(
            tail@,
        )));
        rest = tail;
    }
    out
}

/// `p` stands at the start of `s`.
pub open spec fn has_prefix<T>(s: Seq<T>, p: Seq<T>) -> bool {
    p.len() <= s.len() && s.take(p.len() as int) == p
}

/// `p` stands at the end of `s`.
pub open spec fn has_suffix<T>(s: Seq<T>, p: Seq<T>) -> bool {
    p.len() <= s.len() && s.skip(s.len() - p.len()) == p
}

/// `p` stands in `s` at position `i`.
pub open spec fn occurs_at<T>(s: Seq<T>, p: Seq<T>, i: int) -> bool {
    0 <= i && i + p.len() <= s.len() && s.subrange(i, i + p.len()) == p
}

/// `p` stands somewhere in `s`.
pub open spec fn occurs<T>(s: Seq<T>, p: Seq<T>) -> bool {
    exists|i: int| occurs_at(s, p, i)
}

/// Compares two slices of characters.
pub fn same(a: &[char], b: &[char]) -> (r: bool)
    ensures
        r == (a@ == b@),
{
    assert(a@.subrange(0, a@.len() as int) =~= a@);
    a.len() == b.len() && matches_at(a, b, 0)
}

/// Tells whether `p` stands in `s` at position `at`.
pub fn matches_at(s: &[char], p: &[char], at: usize) -> (r: bool)
    ensures
        r == occurs_at(s@, p@, at as int),
{
    if at > s.len() || p.len() > s.len() - at {
        return false;
    }
    for k in 0..p.len()
        invariant
            at + p@.len() <= s.len(),
            forall|j: int| 0 <= j < k ==> s@[at + j] == p@[j],
    {
        if s[at + k] != p[k] {
            assert(s@.subrange(at as int, at + p@.len())[k as int] != p@[k as int]);
            return false;
        }
    }
    assert(s@.subrange(at as int, at + p@.len()) =~= p@);
    true
}

/// Tells whether `s` starts with `p`.
pub fn starts_with(s: &[char], p: &[char]) -> (r: bool)
    ensures
        r == has_prefix(s@, p@),
{
    if p.len() > s.len() {
        return false;
    }
    assert(s@.subrange(0, p@.len() as int) =~= s@.take(p@.len() as int));
    matches_at(s, p, 0)
}

/// Tells whether `s` ends with `p`.
pub fn ends_with(s: &[char], p: &[char]) -> (r: bool)
    ensures
        r == has_suffix(s@, p@),
{
    if p.len() > s.len() {
        return false;
    }
    assert(s@.subrange(s@.len() - p@.len(), s@.len() as int) =~= s@.skip(s@.len() - p@.len()));
    matches_at(s, p, s.len() - p.len())
}

/// Tells whether `p` stands somewhere in `s`.
pub fn contains(s: &[char], p: &[char]) -> (r: bool)
    ensures
        r == occurs(s@, p@),
{
    if p.len() > s.len() {
        return false;
    }
    let last: usize = s.len() - p.len();
    let mut i: usize = 0;
    loop
        invariant
            last == s@.len() - p@.len(),
            i <= last,
            forall|j: int| 0 <= j < i ==> !occurs_at(s@, p@, j),
        decreases last - i,
    {
        if matches_at(s, p, i) {
            return true;
        }
        if i == last {
            return false;
        }
        i = i + 1;
    }
}

/// Compares a slice with a string.
pub fn is_text(s: &[char], lit: &str) -> (r: bool)
    ensures
        r == (s@ == lit@),
{
    let l = to_chars(lit);
    same(s, l.as_slice())
}

/// Compares two strings.
pub fn same_text(a: &str, b: &str) -> (r: bool)
    ensures
        r == (a@ == b@),
{
    let l = to_chars(a);
    is_text(l.as_slice(), b)
}

/// Tells whether the string `lit` stands somewhere in `s`.
pub fn contains_text(s: &[char], lit: &str) -> (r: bool)
    ensures
        r == occurs(s@, lit@),
{
    let l = to_chars(lit);
    contains(s, l.as_slice())
}

/// The elements of `s` with `c` between neighbours.
pub open spec fn join_spec(s: Seq<Seq<char>>, c: char) -> Seq<char>
    decreases s.len(),
{
    if s.len() == 0 {
        Seq::empty()
    } else if s.len() == 1 {
        s[0]
    } else {
        join_spec(s.drop_last(), c).push(c) + s.last()
    }
}

/// Joins pieces with `c`.
pub fn join(v: &[&[char]], c: char) -> (r: String)
    ensures
        r@ == join_spec(views(v@), c),
{
    let mut out = String::new();
    for i in 0..v.len()
        invariant
            out@ == join_spec(views(v@.take(i as int)), c),
    {
        assert(views(v@.take(i + 1)).drop_last() =~= views(v@.take(i as int)));
        if i > 0 {
            out.push(c);
        }
        let piece = v[i];
        let ghost start = out@;
        for k in 0..piece.len()
            invariant
                out@ == start + piece@.take(k as int),
        {
            out.push(piece[k]);
            assert(piece@.take(k + 1) =~= piece@.take(k as int).push(piece@[k as int]));
        }
        assert(piece@.take(piece@.len() as int) =~= piece@);
        if i == 0 {
            assert(start + piece@ =~= piece@);
        }
    }
    assert(v@.take(v@.len() as int) =~= v@);
    out
}

/// What follows the last `c` in `s`, where there is one.
pub open spec fn after_last_spec(s: Seq<char>, c: char) -> Option<Seq<char>>
    decreases s.len(),
{
    if s.len() == 0 {
        None
    } else if s.last() == c {
        Some(Seq::empty())
    } else {
        match after_last_spec(s.drop_last(), c) {
            Some(t) => Some(t.push(s.last())),
            None => None,
        }
    }
}

proof fn lemma_after_last(s: Seq<char>, c: char, i: int)
    requires
        0 <= i <= s.len(),
        forall|k: int| i <= k < s.len() ==> s[k] != c,
    ensures
        i == 0 ==> after_last_spec(s, c) is None,
        i > 0 && s[i - 1] == c ==> after_last_spec(s, c) == Some(s.skip(i)),
    decreases s.len(),
{
    if s.len() > i {
        lemma_after_last(s.drop_last(), c, i);
        if i > 0 && s[i - 1] == c {
            assert(s.drop_last().skip(i).push(s.last()) =~= s.skip(i));
        }
    } else if s.len() > 0 && s.last() == c {
        assert(s.skip(i) =~= Seq::empty());
    }
}

/// Finds what follows the last `c` in `s`.
pub fn after_last<'a>(s: &'a [char], c: char) -> (r: Option<&'a [char]>)
    ensures
        match r {
            Some(t) => after_last_spec(s@, c) == Some(t@),
            None => after_last_spec(s@, c) is None,
        },
{
    let mut i: usize = s.len();
    while i > 0
        invariant
            i <= s@.len(),
            forall|k: int| i <= k < s@.len() ==> s@[k] != c,
        decreases i,
    {
        if s[i - 1] == c {
            let t = slice_subrange(s, i, s.len());
            proof {
                lemma_after_last(s@, c, i as int);
                assert(t@ =~= s@.skip(i as int));
            }
            return Some(t);
        }
        i = i - 1;
    }
    proof {
        lemma_after_last(s@, c, 0);
    }
    None
}

/// Calls `core::str::from_utf8`. It is claimed to accept exactly the sequences of
/// bytes that are valid UTF-8, and to give the characters that they encode.
#[verifier::external_body]
pub(crate) fn decode(v: &[u8]) -> (r: Option<String>)
    ensures
        match r {
            Some(s) => valid_utf8(v@) && s@ == decode_utf8(v@),
            None => !valid_utf8(v@),
        },
{
    match core::str::from_utf8(v) {
        Ok(s) => Some(String::from(s)),
        Err(_) => None,
    }
}

/// Appends the characters of `s` to `out`.
pub fn append(out: &mut String, s: &str)
    ensures
        final(out)@ == old(out)@ + s@,
{
    let chars = to_chars(s);
    let ghost start = out@;
    for i in 0..chars.len()
        invariant
            chars@ == s@,
            out@ == start + s@.take(i as int),
    {
        out.push(chars[i]);
        assert(s@.take(i + 1) =~= s@.take(i as int).push(s@[i as int]));
    }
    assert(s@.take(s@.len() as int) =~= s@);
}

/// `a` followed by `b`.
pub fn concat_text(a: &str, b: &str) -> (r: String)
    ensures
        r@ == a@ + b@,
{
    let mut out = a.to_owned();
    append(&mut out, b);
    out
}

/// The characters of each of a list of strings.
pub open spec fn texts(v: Seq<String>) -> Seq<Seq<char>> {
    Seq::new(v.len(), |i: int| v[i]@)
}

/// Tells whether `s` starts with the string `lit`.
pub fn starts_with_text(s: &[char], lit: &str) -> (r: bool)
    ensures
        r == has_prefix(s@, lit@),
{
    let l = to_chars(lit);
    starts_with(s, l.as_slice())
}

/// What follows `p` in a text that starts with it.
pub open spec fn strip_prefix_spec(s: Seq<char>, p: Seq<char>) -> Option<Seq<char>> {
    if has_prefix(s, p) {
        Some(s.skip(p.len() as int))
    } else {
        None
    }
}

/// Takes the string `lit` from the start of `s`.
pub fn strip_prefix<'a>(s: &'a [char], lit: &str) -> (r: Option<&'a [char]>)
    ensures
        match r {
            Some(t) => strip_prefix_spec(s@, lit@) == Some(t@),
            None => strip_prefix_spec(s@, lit@) is None,
        },
{
    let l = to_chars(lit);
    if starts_with(s, l.as_slice()) {
        let t = slice_subrange(s, l.len(), s.len());
        assert(t@ =~= s@.skip(lit@.len() as int));
        Some(t)
    } else {
        None
    }
}

/// `c` with an ASCII capital letter made small.
pub open spec fn ascii_lower(c: char) -> char {
    if 'A' <= c <= 'Z' {
        (c as u32 + 32) as char
    } else {
        c
    }
}

/// Two texts differ at most in the case of ASCII letters.
pub open spec fn same_letters(a: Seq<char>, b: Seq<char>) -> bool {
    &&& a.len() == b.len()
    &&& forall|i: int| 0 <= i < a.len() ==> ascii_lower(#[trigger] a[i]) == ascii_lower(b[i])
}

fn lower(c: char) -> (r: u32)
    ensures
        r == ascii_lower(c) as u32,
{
    if 'A' <= c && c <= 'Z' {
        c as u32 + 32
    } else {
        c as u32
    }
}

/// Compares two texts without regard to the case of ASCII letters.
pub fn eq_ignore_ascii_case(a: &[char], b: &[char]) -> (r: bool)
    ensures
        r == same_letters(a@, b@),
{
    if a.len() != b.len() {
        return false;
    }
    for i in 0..a.len()
        invariant
            a@.len() == b@.len(),
            forall|k: int| 0 <= k < i ==> ascii_lower(#[trigger] a@[k]) == ascii_lower(b@[k]),
    {
        if lower(a[i]) != lower(b[i]) {
            assert(ascii_lower(a@[i as int]) != ascii_lower(b@[i as int]));
            return false;
        }
    }
    true
}

/// Tells whether one of the pieces of `s` between `c`s is the string `lit`.
pub fn has_piece(s: &[char], c: char, lit: &str) -> (r: bool)
    ensures
        r == split_spec(s@, c).contains(lit@),
{
    let pieces = split_char(s, c);
    assert(views(pieces@) == split_spec(s@, c));
    for i in 0..pieces.len()
        invariant
            views(pieces@) == split_spec(s@, c),
            forall|k: int| 0 <= k < i ==> #[trigger] split_spec(s@, c)[k] != lit@,
    {
        assert(split_spec(s@, c)[i as int] == pieces@[i as int]@);
        if is_text(pieces[i], lit) {
            return true;
        }
    }
    false
}

/// What stands before and behind the first `c` in `s`, where there is one.
pub open spec fn split_once_spec(s: Seq<char>, c: char) -> Option<(Seq<char>, Seq<char>)> {
    let i = index_of_item(s, c);
    if i < s.len() {
        Some((s.take(i), s.skip(i + 1)))
    } else {
        None
    }
}

/// Splits `s` at the first `c`.
pub fn split_once<'a>(s: &'a [char], c: char) -> (r: Option<(&'a [char], &'a [char])>)
    ensures
        match r {
            Some((a, b)) => split_once_spec(s@, c) == Some((a@, b@)),
            None => split_once_spec(s@, c) is None,
        },
{
    let i: usize = find_char(s, c);
    proof {
        lemma_index_of_item(s@, c);
    }
    if i < s.len() {
        let a = slice_subrange(s, 0, i);
        let b = slice_subrange(s, i + 1, s.len());
        assert(a@ =~= s@.take(i as int));
        assert(b@ =~= s@.skip(i + 1));
        Some((a, b))
    } else {
        None
    }
}

/// Text that holds no `c` is one piece. Otherwise the pieces are what stands before
/// the first `c`, and the pieces of what stands behind it.
pub proof fn law_pieces<T>(a: Seq<T>, c: T, b: Seq<T>)
    requires
        !a.contains(c),
    ensures
        split_spec(a, c) == seq![a],
        split_spec(a.push(c) + b, c) == seq![a] + split_spec(b, c),
{
    lemma_index_before(a, c, b);
    lemma_index_of_item(a, c);
    if index_of_item(a, c) < a.len() {
        assert(a[index_of_item(a, c)] == c);
    }
    let s = a.push(c) + b;
    assert(s.take(a.len() as int) =~= a);
    assert(s.skip(a.len() as int + 1) =~= b);
}

proof fn lemma_index_before<T>(a: Seq<T>, c: T, b: Seq<T>)
    requires
        !a.contains(c),
    ensures
        index_of_item(a.push(c) + b, c) == a.len(),
{
    let s = a.push(c) + b;
    let i = index_of_item(s, c);
    lemma_index_of_item(s, c);
    assert(s[a.len() as int] == c);
    if i < a.len() {
        assert(s[i] == a[i]);
        assert(a.contains(s[i]));
    }
}

/// The pieces of two texts with a `c` between them are the pieces of both.
pub proof fn law_pieces_of_both<T>(a: Seq<T>, c: T, b: Seq<T>)
    ensures
        split_spec(a.push(c) + b, c) == split_spec(a, c) + split_spec(b, c),
    decreases a.len(),
{
    if !a.contains(c) {
        law_pieces(a, c, b);
    } else {
        lemma_index_of_item(a, c);
        let i = index_of_item(a, c);
        let k = choose|k: int| 0 <= k < a.len() && a[k] == c;
        assert(i < a.len());
        let x = a.take(i);
        let y = a.skip(i + 1);
        assert(!x.contains(c)) by {
            if x.contains(c) {
                let m = choose|m: int| 0 <= m < x.len() && x[m] == c;
                assert(a[m] == c);
            }
        }
        assert(a =~= x.push(c) + y);
        assert(a.push(c) + b =~= x.push(c) + (y.push(c) + b));
        law_pieces(x, c, y);
        law_pieces(x, c, y.push(c) + b);
        law_pieces_of_both(y, c, b);
        assert(seq![x] + (split_spec(y, c) + split_spec(b, c)) =~= (seq![x] + split_spec(y, c))
            + split_spec(b, c));
    }
}

/// At most `n` pieces are taken: the last one is all that is left.
pub proof fn law_first_pieces(a: Seq<char>, c: char, b: Seq<char>, n: nat)
    requires
        !a.contains(c),
    ensures
        splitn_spec(a.push(c) + b, 1, c) == seq![a.push(c) + b],
        n >= 2 ==> splitn_spec(a.push(c) + b, n, c) == seq![a] + splitn_spec(b, (n - 1) as nat, c),
        n >= 1 ==> splitn_spec(a, n, c) == seq![a],
{
    lemma_index_before(a, c, b);
    lemma_index_of_item(a, c);
    if index_of_item(a, c) < a.len() {
        assert(a[index_of_item(a, c)] == c);
    }
    let s = a.push(c) + b;
    assert(s.take(a.len() as int) =~= a);
    assert(s.skip(a.len() as int + 1) =~= b);
}

/// Text stands in another exactly where the other is made of it and of something
/// before and behind it.
pub proof fn law_occurs<T>(s: Seq<T>, p: Seq<T>, a: Seq<T>, b: Seq<T>)
    ensures
        occurs(a + p + b, p),
        occurs(s, p) ==> exists|x: Seq<T>, y: Seq<T>| s == #[trigger] (x + p + y),
{
    let t = a + p + b;
    assert(t.subrange(a.len() as int, a.len() as int + p.len()) =~= p);
    assert(occurs_at(t, p, a.len() as int));
    if occurs(s, p) {
        let i = choose|i: int| occurs_at(s, p, i);
        let x = s.take(i);
        let y = s.skip(i + p.len());
        assert(s =~= x + s.subrange(i, i + p.len()) + y);
        assert(s == x + p + y);
    }
}

/// Text starts with what it is continued from, and ends with what continues it, and
/// with nothing else of that length.
pub proof fn law_ends<T>(a: Seq<T>, b: Seq<T>, p: Seq<T>)
    ensures
        has_prefix(a + b, a),
        has_suffix(a + b, b),
        has_prefix(a + b, p) && p.len() == a.len() ==> p == a,
        has_suffix(a + b, p) && p.len() == b.len() ==> p == b,
        has_prefix(p, a) ==> p == a + p.skip(a.len() as int),
        has_suffix(p, b) ==> p == p.take(p.len() - b.len()) + b,
{
    let s = a + b;
    assert(s.take(a.len() as int) =~= a);
    assert(s.skip(s.len() - b.len()) =~= b);
    if has_prefix(p, a) {
        assert(p =~= p.take(a.len() as int) + p.skip(a.len() as int));
    }
    if has_suffix(p, b) {
        assert(p =~= p.take(p.len() - b.len()) + p.skip(p.len() - b.len()));
    }
}

/// What follows a prefix is what the text continues with.
pub proof fn law_prefix_is_stripped(p: Seq<char>, s: Seq<char>)
    ensures
        strip_prefix_spec(p + s, p) == Some(s),
        strip_prefix_spec(s, p) matches Some(rest) ==> s == p + rest,
{
    law_ends(p, s, s);
    assert((p + s).skip(p.len() as int) =~= s);
}

/// White space around text goes away, and nothing of what it stands around.
pub proof fn law_trimming(before: Seq<char>, s: Seq<char>, behind: Seq<char>)
    requires
        forall|i: int| 0 <= i < before.len() ==> is_space(#[trigger] before[i]),
        forall|i: int| 0 <= i < behind.len() ==> is_space(#[trigger] behind[i]),
        s.len() > 0,
        !is_space(s[0]),
        !is_space(s.last()),
    ensures
        trim_spec(before + s + behind) == s,
        trim_end_spec(before + s + behind) == before + s,
        trim_spec(before) == Seq::<char>::empty(),
{
    lemma_trim_end_all(before + s, behind);
    assert((before + s).last() == s.last());
    lemma_trim_start_all(before, s + behind);
    assert(before + (s + behind) =~= before + s + behind);
    lemma_trim_end_all(s, behind);
    lemma_trim_start_all(before, Seq::empty());
    assert(before + Seq::<char>::empty() =~= before);
}

proof fn lemma_trim_start_all(before: Seq<char>, s: Seq<char>)
    requires
        forall|i: int| 0 <= i < before.len() ==> is_space(#[trigger] before[i]),
        s.len() > 0 ==> !is_space(s[0]),
    ensures
        trim_start_spec(before + s) == s,
    decreases before.len(),
{
    if before.len() > 0 {
        assert((before + s)[0] == before[0]);
        assert((before + s).skip(1) =~= before.skip(1) + s);
        assert forall|i: int| 0 <= i < before.skip(1).len() implies is_space(
            #[trigger] before.skip(1)[i],
        ) by {
            assert(before.skip(1)[i] == before[i + 1]);
        }
        lemma_trim_start_all(before.skip(1), s);
    } else {
        assert(before + s =~= s);
    }
}

proof fn lemma_trim_end_all(s: Seq<char>, behind: Seq<char>)
    requires
        forall|i: int| 0 <= i < behind.len() ==> is_space(#[trigger] behind[i]),
        s.len() > 0 ==> !is_space(s.last()),
    ensures
        trim_end_spec(s + behind) == s,
    decreases behind.len(),
{
    if behind.len() > 0 {
        assert((s + behind).last() == behind[behind.len() - 1]);
        assert((s + behind).drop_last() =~= s + behind.drop_last());
        lemma_trim_end_all(s, behind.drop_last());
    } else {
        assert(s + behind =~= s);
    }
}

/// The blanks that ASCII has are white space; letters, digits and what file names
/// are otherwise made of are not.
pub proof fn law_spaces(c: char)
    ensures
        is_space(' ') && is_space('\t') && is_space('\n') && is_space('\r'),
        'a' <= c <= 'z' || 'A' <= c <= 'Z' || '0' <= c <= '9' || c == '/' || c == '.' || c == '-'
            || c == '_' || c == ':' || c == ',' || c == '\0' ==> !is_space(c),
{
}

/// A word behind white space is the first of the words; the others are those of
/// what stands behind the next white space.
pub proof fn law_words(before: Seq<char>, w: Seq<char>, c: char, rest: Seq<char>)
    requires
        forall|i: int| 0 <= i < before.len() ==> is_space(#[trigger] before[i]),
        w.len() > 0,
        forall|i: int| 0 <= i < w.len() ==> !is_space(#[trigger] w[i]),
        is_space(c),
    ensures
        words_spec(before) == Seq::<Seq<char>>::empty(),
        words_spec(before + w) == seq![w],
        words_spec(before + w.push(c) + rest) == seq![w] + words_spec(rest),
{
    lemma_trim_start_all(before, Seq::empty());
    assert(before + Seq::<char>::empty() =~= before);
    lemma_trim_start_all(before, w);
    lemma_space_after(w, Seq::empty());
    assert(w + Seq::<char>::empty() =~= w);
    assert(w.take(w.len() as int) =~= w);
    assert(w.skip(w.len() as int) =~= Seq::empty());
    assert(trim_start_spec(Seq::<char>::empty()) == Seq::<char>::empty());
    assert(words_spec(Seq::<char>::empty()) == Seq::<Seq<char>>::empty());
    assert(seq![w] + Seq::<Seq<char>>::empty() =~= seq![w]);
    let t = w.push(c) + rest;
    assert(before + w.push(c) + rest =~= before + t);
    lemma_trim_start_all(before, t);
    let tail = seq![c] + rest;
    assert(t =~= w + tail);
    lemma_space_after(w, tail);
    assert(t.take(w.len() as int) =~= w);
    assert(t.skip(w.len() as int) =~= tail);
    assert(tail.skip(1) =~= rest);
    assert(trim_start_spec(tail) == trim_start_spec(rest));
    assert(words_spec(tail) == words_spec(rest));
}

proof fn lemma_space_after(w: Seq<char>, tail: Seq<char>)
    requires
        forall|i: int| 0 <= i < w.len() ==> !is_space(#[trigger] w[i]),
        tail.len() > 0 ==> is_space(tail[0]),
    ensures
        index_of_space(w + tail) == w.len(),
    decreases w.len(),
{
    if w.len() > 0 {
        assert((w + tail)[0] == w[0]);
        assert((w + tail).skip(1) =~= w.skip(1) + tail);
        assert forall|i: int| 0 <= i < w.skip(1).len() implies !is_space(#[trigger] w.skip(1)[i]) by {
            assert(w.skip(1)[i] == w[i + 1]);
        }
        lemma_space_after(w.skip(1), tail);
    } else {
        assert(w + tail =~= tail);
    }
}

/// What stands before the first line end is the first line, without one carriage
/// return; the other lines are those of what stands behind it.
pub proof fn law_lines(a: Seq<char>, rest: Seq<char>)
    requires
        !a.contains('\n'),
    ensures
        a.len() > 0 ==> lines_spec(a) == seq![a],
        lines_spec(Seq::empty()) == Seq::<Seq<char>>::empty(),
        a.len() == 0 || a.last() != '\r' ==> lines_spec(a.push('\n') + rest) == seq![a] + lines_spec(
            rest,
        ),
        lines_spec(a.push('\r').push('\n') + rest) == seq![a] + lines_spec(rest),
{
    lemma_index_before(a, '\n', rest);
    lemma_index_of_item(a, '\n');
    if index_of_item(a, '\n') < a.len() {
        assert(a[index_of_item(a, '\n')] == '\n');
    }
    let s = a.push('\n') + rest;
    assert(s.take(a.len() as int) =~= a);
    assert(s.skip(a.len() as int + 1) =~= rest);
    let b = a.push('\r');
    assert(!b.contains('\n')) by {
        if b.contains('\n') {
            let m = choose|m: int| 0 <= m < b.len() && b[m] == '\n';
            assert(m < a.len() && a[m] == '\n');
        }
    }
    lemma_index_before(b, '\n', rest);
    let t = b.push('\n') + rest;
    assert(t.take(b.len() as int) =~= b);
    assert(t.skip(b.len() as int + 1) =~= rest);
    assert(b.drop_last() =~= a);
}

/// What follows the last `c` is what holds no `c` any more.
pub proof fn law_after_last(a: Seq<char>, c: char, b: Seq<char>)
    requires
        !b.contains(c),
    ensures
        after_last_spec(a.push(c) + b, c) == Some(b),
        after_last_spec(b, c) is None,
{
    let s = a.push(c) + b;
    assert forall|k: int| a.len() + 1 <= k < s.len() implies s[k] != c by {
        assert(s[k] == b[k - a.len() - 1]);
    }
    assert(s[a.len() as int] == c);
    lemma_after_last(s, c, a.len() as int + 1);
    assert(s.skip(a.len() as int + 1) =~= b);
    lemma_after_last(b, c, 0);
}

/// What stands before and behind the first `c` is found.
pub proof fn law_split_once(a: Seq<char>, c: char, b: Seq<char>)
    requires
        !a.contains(c),
    ensures
        split_once_spec(a.push(c) + b, c) == Some((a, b)),
        split_once_spec(a, c) is None,
{
    lemma_index_before(a, c, b);
    lemma_index_of_item(a, c);
    if index_of_item(a, c) < a.len() {
        assert(a[index_of_item(a, c)] == c);
    }
    let s = a.push(c) + b;
    assert(s.take(a.len() as int) =~= a);
    assert(s.skip(a.len() as int + 1) =~= b);
}

/// Joining the pieces of a text with what it was split at gives the text back.
pub proof fn law_joined_pieces(s: Seq<char>, c: char)
    ensures
        join_spec(split_spec(s, c), c) == s,
    decreases s.len(),
{
    lemma_index_of_item(s, c);
    let i = index_of_item(s, c);
    if i < s.len() {
        law_joined_pieces(s.skip(i + 1), c);
        let rest = split_spec(s.skip(i + 1), c);
        assert(rest.len() > 0);
        lemma_join_front(s.take(i), rest, c);
        assert(s =~= s.take(i).push(c) + s.skip(i + 1));
    } else {
        assert(split_spec(s, c)[0] == s);
    }
}

proof fn lemma_join_front(x: Seq<char>, rest: Seq<Seq<char>>, c: char)
    requires
        rest.len() > 0,
    ensures
        join_spec(seq![x] + rest, c) == x.push(c) + join_spec(rest, c),
    decreases rest.len(),
{
    let all = seq![x] + rest;
    assert(all.drop_last() =~= seq![x] + rest.drop_last());
    assert(all.last() == rest.last());
    if rest.len() == 1 {
        assert(all.drop_last() =~= seq![x]);
        assert(join_spec(all.drop_last(), c) == x);
        assert(join_spec(rest, c) == rest[0]);
    } else {
        lemma_join_front(x, rest.drop_last(), c);
        assert((x.push(c) + join_spec(rest.drop_last(), c)).push(c) + rest.last() =~= x.push(c) + (
        join_spec(rest.drop_last(), c).push(c) + rest.last()));
    }
}

/// Letters that differ in their case alone count as the same, and no others do.
pub proof fn law_letters(c: char, d: char)
    ensures
        same_letters(seq![c], seq![d]) <==> c == d || ('A' <= c <= 'Z' && d as u32 == c as u32 + 32)
            || ('A' <= d <= 'Z' && c as u32 == d as u32 + 32),
{
    let a = seq![c];
    let b = seq![d];
    assert(a[0] == c && b[0] == d);
    if same_letters(a, b) {
        assert(ascii_lower(a[0]) == ascii_lower(b[0]));
    }
}

/// Texts count as the same exactly where their letters do, one by one.
pub proof fn law_same_letters(a: Seq<char>, b: Seq<char>)
    ensures
        same_letters(a, b) <==> a.len() == b.len() && forall|i: int|
            0 <= i < a.len() ==> #[trigger] same_letters(seq![a[i]], seq![b[i]]),
        same_letters(a, a),
{
    if same_letters(a, b) {
        assert forall|i: int| 0 <= i < a.len() implies #[trigger] same_letters(
            seq![a[i]],
            seq![b[i]],
        ) by {
            assert(ascii_lower(a[i]) == ascii_lower(b[i]));
        }
    }
    if a.len() == b.len() && forall|i: int|
        0 <= i < a.len() ==> #[trigger] same_letters(seq![a[i]], seq![b[i]]) {
        assert forall|i: int| 0 <= i < a.len() implies ascii_lower(#[trigger] a[i]) == ascii_lower(
            b[i],
        ) by {
            assert(same_letters(seq![a[i]], seq![b[i]]));
            assert(ascii_lower(seq![a[i]][0]) == ascii_lower(seq![b[i]][0]));
        }
    }
}

} // verus!
