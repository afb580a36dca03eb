//! Talking to the daemon.

use vstd::prelude::*;
use vstd::slice::slice_subrange;
use vstd::string::*;
use vstd::utf8::{
    decode_utf8, decode_utf8_split, encode_utf8, is_char_boundary_iff_not_is_continuation_byte,
    is_continuation_byte, is_leading_byte_width_1, length_of_first_scalar, pop_first_scalar,
    valid_utf8, valid_utf8_split,
};

use crate::bytes::{
    append_bytes, byte_views, i32_of_word, i32_to_word, law_i32_round_trip, law_le_round_trip,
    le_encode, le_number, lemma_le_encode_len, pow256, read_i32, split_bytes, word_of_i32, write_i32,
    write_le,
};
use crate::text::{
    concat_text, decode, has_prefix, index_of_item, law_pieces, lemma_index_of_item, occurs,
    occurs_at, split_spec,
};
use crate::zygisk::daemon::{is_wide_spec, zygisk_code, ZygiskRequest};

verus! {

/// `needle` stands at `n` in `haystack`, and nowhere before.
pub open spec fn is_first_at(haystack: Seq<u8>, needle: Seq<u8>, n: int) -> bool {
    occurs_at(haystack, needle, n) && forall|k: int|
        0 <= k < n ==> !#[trigger] occurs_at(haystack, needle, k)
}

/// Finds the first place where `needle` stands in `haystack`.
pub fn find_subslice(haystack: &[u8], needle: &[u8]) -> (r: Option<usize>)
    ensures
        match r {
            Some(n) => n <= haystack@.len() && is_first_at(haystack@, needle@, n as int),
            None => !occurs(haystack@, needle@),
        },
{
    if needle.len() > haystack.len() {
        return None;
    }
    let last: usize = haystack.len() - needle.len();
    let mut i: usize = 0;
    loop
        invariant
            i <= last,
            last + needle.len() == haystack.len(),
            forall|k: int| 0 <= k < i ==> !#[trigger] occurs_at(haystack@, needle@, k),
        decreases last - i,
    {
        let window = slice_subrange(haystack, i, i + needle.len());
        if crate::bytes::same_bytes(window, needle) {
            assert(occurs_at(haystack@, needle@, i as int));
            return Some(i);
        }
        assert(!occurs_at(haystack@, needle@, i as int));
        if i == last {
            return None;
        }
        i = i + 1;
    }
}

/// Tells whether `needle` stands somewhere in `haystack`.
pub fn contains_subslice(haystack: &[u8], needle: &[u8]) -> (r: bool)
    ensures
        r == occurs(haystack@, needle@),
{
    match find_subslice(haystack, needle) {
        Some(n) => {
            assert(occurs_at(haystack@, needle@, n as int));
            true
        },
        None => false,
    }
}

/// The pieces of a line between blanks.
pub open spec fn blank_fields(line: Seq<u8>) -> Seq<Seq<u8>> {
    split_spec(line, 32u8).filter(|p: Seq<u8>| p.len() > 0)
}

/// The bytes of `.magisk`.
pub open spec fn magisk_bytes() -> Seq<u8> {
    seq![46, 109, 97, 103, 105, 115, 107]
}

/// What stands before the first place where `needle` stands in `s`; all of `s`
/// where that is nowhere.
pub open spec fn before_first(s: Seq<u8>, needle: Seq<u8>) -> Seq<u8>
    decreases s.len(),
{
    if s.len() == 0 || occurs_at(s, needle, 0) {
        Seq::empty()
    } else {
        seq![s[0]] + before_first(s.skip(1), needle)
    }
}

/// `path` without one slash at its end.
pub open spec fn without_slash(path: Seq<u8>) -> Seq<u8> {
    if path.len() > 0 && path.last() == 47 {
        path.drop_last()
    } else {
        path
    }
}

/// A line of a `mountinfo` file shows the daemon's directory: its fifth field,
/// the place of the mount, mentions `.magisk`.
pub open spec fn shows_magisk(line: Seq<u8>) -> bool {
    blank_fields(line).len() >= 5 && occurs(blank_fields(line)[4], magisk_bytes())
}

/// The daemon's directory, where a line of a `mountinfo` file shows it: what
/// stands before `.magisk` in the place of the mount, without one slash at its
/// end.
pub open spec fn magisk_mount(line: Seq<u8>) -> Option<Seq<u8>> {
    if shows_magisk(line) {
        Some(without_slash(before_first(blank_fields(line)[4], magisk_bytes())))
    } else {
        None
    }
}

/// The directory that the first of `lines` to do so shows.
pub open spec fn first_magisk_mount(lines: Seq<Seq<u8>>) -> Option<Seq<u8>>
    decreases lines.len(),
{
    if lines.len() == 0 {
        None
    } else {
        match magisk_mount(lines[0]) {
            Some(m) => Some(m),
            None => first_magisk_mount(lines.skip(1)),
        }
    }
}

/// The daemon's directory, by the contents of a `mountinfo` file; `None` where
/// no line shows it, or what the first one shows is not text.
pub open spec fn magisk_tmp_spec(content: Seq<u8>) -> Option<Seq<char>> {
    match first_magisk_mount(split_spec(content, 10u8)) {
        Some(m) => if valid_utf8(m) {
            Some(decode_utf8(m))
        } else {
            None
        },
        None => None,
    }
}

fn fields<'a>(line: &'a [u8]) -> (r: Vec<&'a [u8]>)
    ensures
        byte_views(r@) == blank_fields(line@),
{
    let pieces = split_bytes(line, 32);
    let mut out: Vec<&'a [u8]> = Vec::new();
    let ghost all = byte_views(pieces@);
    let ghost keep = |p: Seq<u8>| p.len() > 0;
    for i in 0..pieces.len()
        invariant
            all == byte_views(pieces@),
            keep == (|p: Seq<u8>| p.len() > 0),
            byte_views(out@) == all.take(i as int).filter(keep),
    {
        let ghost before = out@;
        let piece = pieces[i];
        assert(all[i as int] == piece@);
        assert(all.take(i + 1) =~= all.take(i as int).push(piece@));
        proof {
            reveal(Seq::filter);
            assert(all.take(i as int).push(piece@).drop_last() =~= all.take(i as int));
        }
        if piece.len() > 0 {
            out.push(piece);
            assert(byte_views(out@) =~= byte_views(before).push(piece@));
        }
    }
    assert(all.take(all.len() as int) =~= all);
    out
}

proof fn lemma_before_first(s: Seq<u8>, needle: Seq<u8>, n: int)
    requires
        is_first_at(s, needle, n),
        needle.len() > 0,
    ensures
        before_first(s, needle) == s.take(n),
    decreases n,
{
    if n == 0 {
        assert(s.take(0) =~= Seq::empty());
    } else {
        assert(!occurs_at(s, needle, 0));
        let t = s.skip(1);
        assert(t.subrange(n - 1, n - 1 + needle.len()) =~= s.subrange(n, n + needle.len()));
        assert forall|k: int| 0 <= k < n - 1 implies !#[trigger] occurs_at(t, needle, k) by {
            assert(!occurs_at(s, needle, k + 1));
            if k + needle.len() <= t.len() {
                assert(t.subrange(k, k + needle.len()) =~= s.subrange(
                    k + 1,
                    k + 1 + needle.len(),
                ));
            }
        }
        lemma_before_first(t, needle, n - 1);
        assert(s.take(n) =~= seq![s[0]] + t.take(n - 1));
    }
}

/// Finds the daemon's directory in the contents of a `mountinfo` file.
pub fn get_magisk_tmp(content: &[u8]) -> (r: Option<String>)
    ensures
        match r {
            Some(s) => magisk_tmp_spec(content@) == Some(s@),
            None => magisk_tmp_spec(content@) is None,
        },
{
    let needle: [u8; 7] = [46, 109, 97, 103, 105, 115, 107];
    let name: &[u8] = needle.as_slice();
    assert(name@ =~= magisk_bytes());
    let all = split_bytes(content, 10);
    let ghost full = byte_views(all@);
    assert(full.skip(0) =~= full);
    for i in 0..all.len()
        invariant
            name@ == magisk_bytes(),
            full == byte_views(all@),
            full == split_spec(content@, 10u8),
            first_magisk_mount(full) == first_magisk_mount(full.skip(i as int)),
    {
        assert(full.skip(i as int)[0] == all@[i as int]@);
        assert(full.skip(i as int).skip(1) =~= full.skip(i + 1));
        let f = fields(all[i]);
        assert(byte_views(f@).len() == f@.len());
        if f.len() >= 5 {
            assert(blank_fields(all@[i as int]@)[4] == f@[4]@);
            match find_subslice(f[4], name) {
                Some(n) => {
                    proof {
                        lemma_before_first(f@[4]@, name@, n as int);
                        assert(occurs(f@[4]@, name@));
                    }
                    let end: usize = if n > 0 && f[4][n - 1] == 47 {
                        n - 1
                    } else {
                        n
                    };
                    assert(f@[4]@.subrange(0, end as int) =~= without_slash(
                        f@[4]@.take(n as int),
                    ));
                    return decode(slice_subrange(f[4], 0, end));
                },
                None => {},
            }
        }
    }
    assert(full.skip(full.len() as int) =~= Seq::empty());
    None
}

proof fn lemma_cut_text(s: Seq<u8>, i: int)
    requires
        valid_utf8(s),
        0 <= i < s.len(),
        s[i] < 0x80,
    ensures
        valid_utf8(s.take(i)),
        valid_utf8(s.skip(i + 1)),
        has_prefix(decode_utf8(s), decode_utf8(s.take(i))),
{
    assert(!is_continuation_byte(s[i]));
    is_char_boundary_iff_not_is_continuation_byte(s, i);
    valid_utf8_split(s, i);
    decode_utf8_split(s, i);
    assert(s.subrange(0, i) =~= s.take(i));
    let rest = s.subrange(i, s.len() as int);
    assert(rest[0] == s[i]);
    assert(is_leading_byte_width_1(rest[0]));
    assert(length_of_first_scalar(rest) == 1);
    assert(pop_first_scalar(rest) =~= s.skip(i + 1));
    let a = decode_utf8(s.take(i));
    assert(decode_utf8(s).take(a.len() as int) =~= a);
}

proof fn lemma_pieces_are_text(s: Seq<u8>, c: u8)
    requires
        valid_utf8(s),
        c < 0x80,
    ensures
        forall|k: int| 0 <= k < split_spec(s, c).len() ==> valid_utf8(#[trigger] split_spec(s, c)[k]),
    decreases s.len(),
{
    lemma_index_of_item(s, c);
    let i = index_of_item(s, c);
    if i < s.len() {
        lemma_cut_text(s, i);
        let rest = split_spec(s.skip(i + 1), c);
        lemma_pieces_are_text(s.skip(i + 1), c);
        assert forall|k: int| 0 <= k < split_spec(s, c).len() implies valid_utf8(
            #[trigger] split_spec(s, c)[k],
        ) by {
            if k > 0 {
                assert(split_spec(s, c)[k] == rest[k - 1]);
            }
        }
    }
}

proof fn lemma_first_place(s: Seq<u8>, needle: Seq<u8>, i: int) -> (n: int)
    requires
        occurs_at(s, needle, i),
    ensures
        is_first_at(s, needle, n),
    decreases i,
{
    if exists|k: int| 0 <= k < i && #[trigger] occurs_at(s, needle, k) {
        let k = choose|k: int| 0 <= k < i && #[trigger] occurs_at(s, needle, k);
        lemma_first_place(s, needle, k)
    } else {
        i
    }
}

proof fn lemma_mount_is_text(line: Seq<u8>)
    requires
        valid_utf8(line),
        shows_magisk(line),
    ensures
        valid_utf8(blank_fields(line)[4]),
        valid_utf8(magisk_mount(line).unwrap()),
        has_prefix(decode_utf8(blank_fields(line)[4]), decode_utf8(magisk_mount(line).unwrap())),
{
    lemma_pieces_are_text(line, 32);
    let pieces = split_spec(line, 32u8);
    let field = blank_fields(line)[4];
    pieces.lemma_filter_contains_rev(|p: Seq<u8>| p.len() > 0, field);
    let k = choose|k: int| 0 <= k < pieces.len() && pieces[k] == field;
    assert(valid_utf8(pieces[k]));
    let i = choose|i: int| occurs_at(field, magisk_bytes(), i);
    let n = lemma_first_place(field, magisk_bytes(), i);
    lemma_before_first(field, magisk_bytes(), n);
    assert(field.subrange(n, n + 7)[0] == 46);
    lemma_cut_text(field, n);
    let before = field.take(n);
    if before.len() > 0 && before.last() == 47 {
        lemma_cut_text(field, n - 1);
        assert(before.drop_last() =~= field.take(n - 1));
    }
}

proof fn lemma_first_mount(lines: Seq<Seq<u8>>, i: int)
    requires
        0 <= i < lines.len(),
        shows_magisk(lines[i]),
        forall|k: int| 0 <= k < i ==> !shows_magisk(#[trigger] lines[k]),
    ensures
        first_magisk_mount(lines) == magisk_mount(lines[i]),
    decreases lines.len(),
{
    if i > 0 {
        assert(!shows_magisk(lines[0]));
        let rest = lines.skip(1);
        assert(rest[i - 1] == lines[i]);
        assert forall|k: int| 0 <= k < i - 1 implies !shows_magisk(#[trigger] rest[k]) by {
            assert(rest[k] == lines[k + 1]);
        }
        lemma_first_mount(rest, i - 1);
    }
}

proof fn lemma_no_mount(lines: Seq<Seq<u8>>)
    requires
        forall|k: int| 0 <= k < lines.len() ==> !shows_magisk(#[trigger] lines[k]),
    ensures
        first_magisk_mount(lines) is None,
    decreases lines.len(),
{
    if lines.len() > 0 {
        assert(!shows_magisk(lines[0]));
        let rest = lines.skip(1);
        assert forall|k: int| 0 <= k < rest.len() implies !shows_magisk(#[trigger] rest[k]) by {
            assert(rest[k] == lines[k + 1]);
        }
        lemma_no_mount(rest);
    }
}

/// Of a file that is text, a directory is found exactly where the place of some
/// mount mentions `.magisk`. It is then the beginning of the first such place.
pub proof fn law_magisk_tmp_is_found(content: Seq<u8>)
    requires
        valid_utf8(content),
    ensures
        ({
            let lines = split_spec(content, 10u8);
            &&& magisk_tmp_spec(content) is Some <==> exists|i: int|
                0 <= i < lines.len() && shows_magisk(#[trigger] lines[i])
            &&& forall|i: int|
                0 <= i < lines.len() && shows_magisk(#[trigger] lines[i]) && (forall|k: int|
                    0 <= k < i ==> !shows_magisk(#[trigger] lines[k])) ==> has_prefix(
                    decode_utf8(blank_fields(lines[i])[4]),
                    magisk_tmp_spec(content).unwrap(),
                )
        }),
{
    let lines = split_spec(content, 10u8);
    lemma_pieces_are_text(content, 10);
    assert forall|i: int|
        0 <= i < lines.len() && shows_magisk(#[trigger] lines[i]) && (forall|k: int|
            0 <= k < i ==> !shows_magisk(#[trigger] lines[k])) implies magisk_tmp_spec(content)
        is Some && has_prefix(
        decode_utf8(blank_fields(lines[i])[4]),
        magisk_tmp_spec(content).unwrap(),
    ) by {
        lemma_first_mount(lines, i);
        lemma_mount_is_text(lines[i]);
    }
    if exists|i: int| 0 <= i < lines.len() && shows_magisk(#[trigger] lines[i]) {
        let i = choose|i: int| 0 <= i < lines.len() && shows_magisk(#[trigger] lines[i]);
        let n = lemma_first_line(lines, i);
        assert(shows_magisk(lines[n]));
    } else {
        lemma_no_mount(lines);
    }
}

proof fn lemma_first_line(lines: Seq<Seq<u8>>, i: int) -> (n: int)
    requires
        0 <= i < lines.len(),
        shows_magisk(lines[i]),
    ensures
        0 <= n <= i,
        shows_magisk(lines[n]),
        forall|k: int| 0 <= k < n ==> !shows_magisk(#[trigger] lines[k]),
    decreases i,
{
    if exists|k: int| 0 <= k < i && shows_magisk(#[trigger] lines[k]) {
        let k = choose|k: int| 0 <= k < i && shows_magisk(#[trigger] lines[k]);
        lemma_first_line(lines, k)
    } else {
        i
    }
}

/// The longest path of a local socket.
pub const SOCKET_PATH_MAX: usize = 107;

/// The path of the daemon's socket.
pub open spec fn socket_path_spec(tmp: Seq<char>) -> Seq<u8> {
    encode_utf8(tmp + "/magiskd"@)
}

/// The path in the address of the daemon's socket: as much of it as fits.
pub open spec fn address_path_spec(tmp: Seq<char>) -> Seq<u8> {
    let path = socket_path_spec(tmp);
    if path.len() > SOCKET_PATH_MAX {
        path.take(SOCKET_PATH_MAX as int)
    } else {
        path
    }
}

/// The address of the daemon's socket.
pub struct SocketAddress {
    /// The path, as far as it fits.
    pub path: Vec<u8>,
    /// The length of the address: the path's, and two bytes for the family.
    pub len: usize,
}

/// Makes the address of the daemon's socket; `None` where its path holds a zero.
pub fn connect_daemon(tmp: &str) -> (r: Option<SocketAddress>)
    ensures
        r is None <==> socket_path_spec(tmp@).contains(0),
        r matches Some(a) ==> {
            let path = socket_path_spec(tmp@);
            &&& a.path@ == (if path.len() > SOCKET_PATH_MAX {
                path.take(SOCKET_PATH_MAX as int)
            } else {
                path
            })
            &&& a.len == a.path@.len() + 2
            &&& a.path@ == address_path_spec(tmp@)
        },
{
    let path = concat_text(tmp, "/magiskd");
    let bytes = path.as_str().as_bytes();
    let ghost full = socket_path_spec(tmp@);
    assert(bytes@ == full);
    proof {
        crate::text::lemma_index_of_item(full, 0);
    }
    let zero: usize = crate::bytes::find_byte(bytes, 0);
    if zero < bytes.len() {
        assert(full[zero as int] == 0);
        return None;
    }
    let n: usize = if bytes.len() > SOCKET_PATH_MAX {
        SOCKET_PATH_MAX
    } else {
        bytes.len()
    };
    let head = slice_subrange(bytes, 0, n);
    let mut out: Vec<u8> = Vec::new();
    append_bytes(&mut out, head);
    assert(out@ =~= full.take(n as int));
    assert(full.take(full.len() as int) =~= full);
    Some(SocketAddress { path: out, len: n + 2 })
}

/// `SOL_SOCKET`.
pub const SOL_SOCKET: i32 = 1;

/// `SCM_RIGHTS`.
pub const SCM_RIGHTS: i32 = 1;

/// The descriptor in the four bytes at `4 * i`.
pub open spec fn fd_at(data: Seq<u8>, i: int) -> int {
    i32_of_word(le_number(data.subrange(4 * i, 4 * i + 4)))
}

/// The descriptors in a control message of this level and type.
pub open spec fn fds_in(level: i32, kind: i32, data: Seq<u8>) -> Seq<i32> {
    if level == SOL_SOCKET && kind == SCM_RIGHTS {
        Seq::new(data.len() / 4, |i: int| fd_at(data, i) as i32)
    } else {
        Seq::empty()
    }
}

/// Reads the descriptors in a control message of this level and type; none where
/// it is not one that carries descriptors.
pub fn recv_fds(level: i32, kind: i32, data: &[u8]) -> (r: Vec<i32>)
    ensures
        level == SOL_SOCKET && kind == SCM_RIGHTS ==> r@.len() == data@.len() / 4 && forall|i: int|
            0 <= i < r@.len() ==> #[trigger] r@[i] == fd_at(data@, i),
        !(level == SOL_SOCKET && kind == SCM_RIGHTS) ==> r@.len() == 0,
        r@ == fds_in(level, kind, data@),
{
    let mut out: Vec<i32> = Vec::new();
    if level == SOL_SOCKET && kind == SCM_RIGHTS {
        let n: usize = data.len() / 4;
        for i in 0..n
            invariant
                n == data@.len() / 4,
                data.len() == data@.len(),
                out@.len() == i,
                forall|k: int| 0 <= k < i ==> #[trigger] out@[k] == fd_at(data@, k),
        {
            let field = slice_subrange(data, 4 * i, 4 * i + 4);
            out.push(read_i32(field));
        }
    }
    assert(out@ =~= fds_in(level, kind, data@));
    out
}

/// Reads the first descriptor in a control message of this level and type.
pub fn recv_fd(level: i32, kind: i32, data: &[u8]) -> (r: Option<i32>)
    ensures
        match r {
            Some(fd) => level == SOL_SOCKET && kind == SCM_RIGHTS && data@.len() >= 4 && fd
                == fd_at(data@, 0),
            None => !(level == SOL_SOCKET && kind == SCM_RIGHTS && data@.len() >= 4),
        },
{
    let fds = recv_fds(level, kind, data);
    if fds.len() > 0 {
        Some(fds[0])
    } else {
        None
    }
}

/// Reads a number from the bytes that were received; `None` where these are not
/// exactly a number.
pub fn read_int(data: &[u8]) -> (r: Option<i32>)
    ensures
        match r {
            Some(v) => data@.len() == 4 && v == i32_of_word(le_number(data@)),
            None => data@.len() != 4,
        },
{
    if data.len() == 4 {
        Some(read_i32(data))
    } else {
        None
    }
}

/// The bytes that a number is sent as.
pub open spec fn int_bytes(v: i32) -> Seq<u8> {
    le_encode(word_of_i32(v), 4)
}

/// Writes the bytes that a number is sent as.
pub fn write_int(v: i32) -> (r: Vec<u8>)
    ensures
        r@ == int_bytes(v),
        r@.len() == 4,
{
    write_i32(v)
}

/// The longest string that is received.
pub const MAX_STRING: i32 = 65536;

/// The string that a length and the bytes behind it stand for.
pub open spec fn string_spec(len: int, data: Seq<u8>) -> Option<Seq<char>> {
    if 0 < len <= MAX_STRING && data.len() == len && valid_utf8(data) {
        Some(decode_utf8(data))
    } else {
        None
    }
}

/// Tells how many bytes of a string follow its length; `None` for a length that
/// is not accepted.
pub fn string_len(len: i32) -> (r: Option<usize>)
    ensures
        match r {
            Some(n) => 0 < len <= MAX_STRING && n == len,
            None => len <= 0 || len > MAX_STRING,
        },
{
    if len <= 0 || len > MAX_STRING {
        None
    } else {
        Some(len as usize)
    }
}

/// Reads a string from its length and the bytes that were received behind it.
pub fn read_string(len: i32, data: &[u8]) -> (r: Option<String>)
    ensures
        match r {
            Some(s) => string_spec(len as int, data@) == Some(s@),
            None => string_spec(len as int, data@) is None,
        },
{
    match string_len(len) {
        Some(n) => {
            if data.len() == n {
                decode(data)
            } else {
                None
            }
        },
        None => None,
    }
}

/// The bytes that a string is sent as: the low four bytes of its length, and its
/// own bytes.
pub open spec fn string_bytes(s: Seq<char>) -> Seq<u8> {
    le_encode(encode_utf8(s).len(), 4) + encode_utf8(s)
}

/// Writes the bytes that a string is sent as.
pub fn write_string(s: &str) -> (r: Vec<u8>)
    ensures
        r@ == string_bytes(s@),
{
    let bytes = s.as_bytes();
    let mut out = write_le(bytes.len() as u64, 4);
    append_bytes(&mut out, bytes);
    out
}

/// A number that was sent is received.
pub proof fn law_int_round_trip(v: i32)
    ensures
        int_bytes(v).len() == 4,
        i32_of_word(le_number(int_bytes(v))) == v,
{
    lemma_le_encode_len(word_of_i32(v), 4);
    law_i32_round_trip(v);
}

/// A string that was sent is received, unless it is empty or too long.
pub proof fn law_string_round_trip(s: Seq<char>)
    requires
        0 < encode_utf8(s).len() <= MAX_STRING,
    ensures
        ({
            let sent = string_bytes(s);
            let len = i32_of_word(le_number(sent.take(4)));
            &&& sent.len() == 4 + encode_utf8(s).len()
            &&& len == encode_utf8(s).len()
            &&& string_spec(len, sent.skip(4)) == Some(s)
        }),
{
    let bytes = encode_utf8(s);
    let n = bytes.len();
    lemma_le_encode_len(n, 4);
    law_le_round_trip(n, 4);
    reveal_with_fuel(pow256, 5);
    let sent = string_bytes(s);
    assert(sent.take(4) =~= le_encode(n, 4));
    assert(sent.skip(4) =~= bytes);
    vstd::utf8::encode_utf8_valid_utf8(s);
    vstd::utf8::encode_utf8_decode_utf8(s);
}

/// What injected code asks the daemon for.
#[derive(Clone, Copy, PartialEq, Eq, Structural)]
pub enum DaemonCommand {
    RemoteGetInfo,
    ConnectCompanion,
    RequestSulist,
    RequestUmount,
}

/// The code of a command.
pub open spec fn command_code_spec(c: DaemonCommand) -> i32 {
    match c {
        DaemonCommand::RemoteGetInfo => 0,
        DaemonCommand::ConnectCompanion => 1,
        DaemonCommand::RequestSulist => 3,
        DaemonCommand::RequestUmount => 4,
    }
}

/// The code of a command.
pub fn command_code(c: DaemonCommand) -> (r: i32)
    ensures
        r == command_code_spec(c),
{
    match c {
        DaemonCommand::RemoteGetInfo => 0,
        DaemonCommand::ConnectCompanion => 1,
        DaemonCommand::RequestSulist => 3,
        DaemonCommand::RequestUmount => 4,
    }
}

/// The request that the daemon takes a command for.
pub open spec fn request_of_command(c: DaemonCommand) -> ZygiskRequest {
    match c {
        DaemonCommand::RemoteGetInfo => ZygiskRequest::GetInfo,
        DaemonCommand::ConnectCompanion => ZygiskRequest::ConnectCompanion,
        DaemonCommand::RequestSulist => ZygiskRequest::SulistRootNs,
        DaemonCommand::RequestUmount => ZygiskRequest::RevertUmount,
    }
}

/// The daemon understands every command as the request of its kind.
pub proof fn law_commands_are_understood(c: DaemonCommand)
    ensures
        command_code_spec(c) == zygisk_code(request_of_command(c)),
{
}

/// The number that tells a 64-bit process from a 32-bit one.
pub open spec fn width_code(wide: bool) -> i32 {
    if wide {
        1
    } else {
        0
    }
}

/// The bytes with which a process asks for what the daemon knows of it.
pub open spec fn info_request_spec(uid: i32, process: Seq<char>, wide: bool) -> Seq<u8> {
    int_bytes(0) + int_bytes(uid) + string_bytes(process) + int_bytes(
        width_code(wide),
    )
}

/// Writes the bytes with which a process asks for what the daemon knows of it;
/// `wide` for a 64-bit process.
pub fn info_request(uid: i32, process: &str, wide: bool) -> (r: Vec<u8>)
    ensures
        r@ == info_request_spec(uid, process@, wide),
{
    let mut out = write_int(command_code(DaemonCommand::RemoteGetInfo));
    append_bytes(&mut out, write_int(uid).as_slice());
    append_bytes(&mut out, write_string(process).as_slice());
    if wide {
        append_bytes(&mut out, write_int(1).as_slice());
    } else {
        append_bytes(&mut out, write_int(0).as_slice());
    }
    out
}

/// The daemon reads from a request whether it came from a 64-bit process.
pub proof fn law_width_is_understood(uid: i32, process: Seq<char>, wide: bool)
    ensures
        ({
            let sent = info_request_spec(uid, process, wide);
            let code = i32_of_word(le_number(sent.skip(sent.len() - 4)));
            &&& code == width_code(wide)
            &&& is_wide_spec(code) == wide
        }),
{
    law_int_round_trip(width_code(wide));
    let sent = info_request_spec(uid, process, wide);
    assert(sent.skip(sent.len() - 4) =~= int_bytes(width_code(wide)));
}

/// What the daemon knows of a process.
#[derive(Clone, Copy, PartialEq, Eq, Structural)]
pub struct InfoReply {
    pub flags: u32,
    /// How many descriptors follow.
    pub fds: u32,
}

/// What the daemon knows of a process, by the two numbers that it sends.
pub open spec fn info_reply_spec(flags: Option<i32>, count: Option<i32>) -> Option<InfoReply> {
    match (flags, count) {
        (Some(f), Some(c)) => Some(
            InfoReply {
                flags: word_of_i32(f) as u32,
                fds: if c < 0 {
                    0
                } else {
                    c as u32
                },
            },
        ),
        _ => None,
    }
}

/// Reads what the daemon knows of a process: `flags` and `count` are the two
/// numbers that it sends, where they were received.
pub fn remote_get_info(flags: Option<i32>, count: Option<i32>) -> (r: Option<InfoReply>)
    ensures
        match r {
            Some(i) => flags is Some && count is Some && i.flags == word_of_i32(flags.unwrap())
                && i.fds == (if count.unwrap() < 0 {
                0int
            } else {
                count.unwrap() as int
            }),
            None => flags is None || count is None,
        },
        r == info_reply_spec(flags, count),
{
    match (flags, count) {
        (Some(f), Some(c)) => {
            let fds: u32 = if c < 0 {
                0
            } else {
                c as u32
            };
            Some(InfoReply { flags: i32_to_word(f) as u32, fds })
        },
        _ => None,
    }
}

/// The descriptors among what was received.
pub open spec fn received_fds(v: Seq<Option<i32>>) -> Seq<i32>
    decreases v.len(),
{
    if v.len() == 0 {
        Seq::empty()
    } else {
        let before = received_fds(v.drop_last());
        match v.last() {
            Some(fd) => before.push(fd),
            None => before,
        }
    }
}

/// Collects the descriptors among what was received.
pub fn collect_fds(v: &[Option<i32>]) -> (r: Vec<i32>)
    ensures
        r@ == received_fds(v@),
{
    let mut out: Vec<i32> = Vec::new();
    for i in 0..v.len()
        invariant
            out@ == received_fds(v@.take(i as int)),
    {
        assert(v@.take(i + 1).drop_last() =~= v@.take(i as int));
        match v[i] {
            Some(fd) => {
                out.push(fd);
            },
            None => {},
        }
    }
    assert(v@.take(v@.len() as int) =~= v@);
    out
}

/// What stands before the first blank of a line is its first field, unless nothing
/// stands there; the other fields are those of the rest.
pub proof fn law_blank_fields(a: Seq<u8>, b: Seq<u8>)
    requires
        !a.contains(32),
    ensures
        a.len() > 0 ==> blank_fields(a) == seq![a],
        a.len() > 0 ==> blank_fields(a.push(32) + b) == seq![a] + blank_fields(b),
        a.len() == 0 ==> blank_fields(a).len() == 0,
        a.len() == 0 ==> blank_fields(a.push(32) + b) == blank_fields(b),
{
    let keep = |p: Seq<u8>| p.len() > 0;
    law_pieces(a, 32u8, b);
    reveal(Seq::filter);
    assert(seq![a].drop_last() =~= Seq::empty());
    assert(Seq::<Seq<u8>>::empty().filter(keep) =~= Seq::empty());
    Seq::filter_distributes_over_add(seq![a], split_spec(b, 32u8), keep);
    if a.len() > 0 {
        assert(seq![a].filter(keep) =~= seq![a]);
    } else {
        assert(seq![a].filter(keep) =~= Seq::empty());
        assert(blank_fields(a.push(32) + b) =~= blank_fields(b));
    }
}

/// A line whose fifth field is a directory, then `.magisk` for the first time, and
/// then anything, shows that directory; a slash at the directory's end is left
/// out, but only one.
pub proof fn law_line_shows_directory(
    f0: Seq<u8>,
    f1: Seq<u8>,
    f2: Seq<u8>,
    f3: Seq<u8>,
    dir: Seq<u8>,
    more: Seq<u8>,
    rest: Seq<u8>,
    name: Seq<u8>,
    place: Seq<u8>,
)
    requires
        name == seq![46u8, 109, 97, 103, 105, 115, 107],
        place == dir + name + more,
        f0.len() > 0 && !f0.contains(32),
        f1.len() > 0 && !f1.contains(32),
        f2.len() > 0 && !f2.contains(32),
        f3.len() > 0 && !f3.contains(32),
        !place.contains(32),
        forall|k: int| 0 <= k < dir.len() ==> !#[trigger] occurs_at(place, name, k),
    ensures
        ({
            let line = f0.push(32) + (f1.push(32) + (f2.push(32) + (f3.push(32) + (place.push(32)
                + rest))));
            &&& shows_magisk(line)
            &&& dir.len() == 0 || dir.last() != 47 ==> magisk_mount(line) == Some(dir)
            &&& dir.len() > 0 && dir.last() == 47 ==> magisk_mount(line) == Some(dir.drop_last())
        }),
{
    let t4 = place.push(32) + rest;
    let t3 = f3.push(32) + t4;
    let t2 = f2.push(32) + t3;
    let t1 = f1.push(32) + t2;
    let line = f0.push(32) + t1;
    law_blank_fields(f0, t1);
    law_blank_fields(f1, t2);
    law_blank_fields(f2, t3);
    law_blank_fields(f3, t4);
    law_blank_fields(place, rest);
    assert(blank_fields(line)[4] == place);
    let n = dir.len() as int;
    assert(magisk_bytes() =~= name);
    assert(place.subrange(n, n + 7) =~= name);
    assert(occurs_at(place, name, n));
    assert(is_first_at(place, name, n));
    lemma_before_first(place, name, n);
    assert(place.take(n) =~= dir);
}

/// A line shows no directory where its fifth field does not mention `.magisk`,
/// whatever the other fields hold; nor does one with fewer fields.
pub proof fn law_line_shows_nothing(
    f0: Seq<u8>,
    f1: Seq<u8>,
    f2: Seq<u8>,
    f3: Seq<u8>,
    place: Seq<u8>,
    rest: Seq<u8>,
)
    requires
        f0.len() > 0 && !f0.contains(32),
        f1.len() > 0 && !f1.contains(32),
        f2.len() > 0 && !f2.contains(32),
        f3.len() > 0 && !f3.contains(32),
        place.len() > 0 && !place.contains(32),
        !occurs(place, seq![46u8, 109, 97, 103, 105, 115, 107]),
    ensures
        magisk_mount(
            f0.push(32) + (f1.push(32) + (f2.push(32) + (f3.push(32) + (place.push(32) + rest)))),
        ) is None,
        magisk_mount(f0.push(32) + (f1.push(32) + (f2.push(32) + f3))) is None,
{
    let t4 = place.push(32) + rest;
    let t3 = f3.push(32) + t4;
    let t2 = f2.push(32) + t3;
    let t1 = f1.push(32) + t2;
    law_blank_fields(f0, t1);
    law_blank_fields(f1, t2);
    law_blank_fields(f2, t3);
    law_blank_fields(f3, t4);
    law_blank_fields(place, rest);
    assert(blank_fields(f0.push(32) + t1)[4] == place);
    assert(magisk_bytes() =~= seq![46u8, 109, 97, 103, 105, 115, 107]);
    law_blank_fields(f2, f3);
    law_blank_fields(f1, f2.push(32) + f3);
    law_blank_fields(f0, f1.push(32) + (f2.push(32) + f3));
}

/// The first line that shows a directory decides; lines before it count for
/// nothing, and those behind it do not matter.
pub proof fn law_first_directory_counts(line: Seq<u8>, rest: Seq<u8>)
    requires
        !line.contains(10),
    ensures
        magisk_mount(line) is None ==> magisk_tmp_spec(line.push(10) + rest) == magisk_tmp_spec(rest),
        magisk_mount(line) matches Some(m) ==> magisk_tmp_spec(line.push(10) + rest) == (
        if valid_utf8(m) {
            Some(decode_utf8(m))
        } else {
            None
        }),
        magisk_mount(line) is None ==> magisk_tmp_spec(line) is None,
{
    law_pieces(line, 10u8, rest);
    let all = seq![line] + split_spec(rest, 10u8);
    assert(all.skip(1) =~= split_spec(rest, 10u8));
    assert(all[0] == line);
    assert(seq![line].skip(1) =~= Seq::empty());
    assert(seq![line][0] == line);
    reveal_with_fuel(first_magisk_mount, 2);
}

/// The daemon's socket is `magiskd` in its directory. A path of up to 107 bytes
/// stands in the address as it is, and of a longer one the first 107 bytes.
pub proof fn law_socket_path(tmp: Seq<char>)
    ensures
        valid_utf8(socket_path_spec(tmp)),
        decode_utf8(socket_path_spec(tmp)) == tmp + "/magiskd"@,
        socket_path_spec(tmp).len() <= 107 ==> address_path_spec(tmp) == socket_path_spec(tmp),
        socket_path_spec(tmp).len() > 107 ==> address_path_spec(tmp).len() == 107 && has_prefix(
            socket_path_spec(tmp),
            address_path_spec(tmp),
        ),
{
    vstd::utf8::encode_utf8_valid_utf8(tmp + "/magiskd"@);
    vstd::utf8::encode_utf8_decode_utf8(tmp + "/magiskd"@);
}

/// Descriptors are received in the order in which they were sent, four bytes each;
/// fewer bytes than that are no descriptor, and a message of another kind holds
/// none.
pub proof fn law_descriptors_are_received(level: i32, kind: i32, fd: i32, rest: Seq<u8>)
    ensures
        fds_in(1, 1, int_bytes(fd) + rest) == seq![fd] + fds_in(1, 1, rest),
        rest.len() < 4 ==> fds_in(1, 1, rest).len() == 0,
        level != 1 || kind != 1 ==> fds_in(level, kind, rest).len() == 0,
{
    law_int_round_trip(fd);
    let data = int_bytes(fd) + rest;
    assert(data.subrange(0, 4) =~= int_bytes(fd));
    assert forall|i: int| 0 < i < data.len() / 4 implies fd_at(data, i) == fd_at(rest, i - 1) by {
        assert(data.subrange(4 * i, 4 * i + 4) =~= rest.subrange(4 * (i - 1), 4 * (i - 1) + 4));
    }
    assert(data.len() / 4 == 1 + rest.len() / 4);
    assert(fds_in(1, 1, data) =~= seq![fd] + fds_in(1, 1, rest));
}

/// A string is received only where its length is from 1 to 65536 and is that of
/// the bytes behind it, and these are text.
pub proof fn law_strings_that_are_received(len: int, data: Seq<u8>)
    ensures
        string_spec(len, data) is Some <==> 1 <= len && len <= 65536 && data.len() == len
            && valid_utf8(data),
        string_spec(len, data) matches Some(s) ==> s == decode_utf8(data),
{
}

/// A process asks with the code 0, its user id, its name, and 1 where it is a
/// 64-bit process or 0 where it is not, in this order.
pub proof fn law_info_request(uid: i32, process: Seq<char>, wide: bool)
    ensures
        ({
            let sent = info_request_spec(uid, process, wide);
            let n = encode_utf8(process).len() as int;
            &&& sent.len() == 16 + n
            &&& i32_of_word(le_number(sent.subrange(0, 4))) == 0
            &&& i32_of_word(le_number(sent.subrange(4, 8))) == uid
            &&& n < 0x1_0000_0000 ==> le_number(sent.subrange(8, 12)) == n
            &&& sent.subrange(12, 12 + n) == encode_utf8(process)
            &&& i32_of_word(le_number(sent.skip(12 + n))) == (if wide {
                1int
            } else {
                0
            })
        }),
{
    let sent = info_request_spec(uid, process, wide);
    let bytes = encode_utf8(process);
    let n = bytes.len();
    law_int_round_trip(0);
    law_int_round_trip(uid);
    law_int_round_trip(width_code(wide));
    lemma_le_encode_len(n, 4);
    if n < 0x1_0000_0000 {
        reveal_with_fuel(pow256, 5);
        law_le_round_trip(n, 4);
    }
    assert(sent.subrange(0, 4) =~= int_bytes(0));
    assert(sent.subrange(4, 8) =~= int_bytes(uid));
    assert(sent.subrange(8, 12) =~= le_encode(n, 4));
    assert(sent.subrange(12, 12 + n as int) =~= bytes);
    assert(sent.skip(12 + n as int) =~= int_bytes(width_code(wide)));
}

/// What the daemon knows of a process is known only where both numbers came. The
/// flags are the first number's bits; a number of descriptors below zero counts
/// as none.
pub proof fn law_info_reply(flags: i32, count: i32)
    ensures
        info_reply_spec(None, Some(count)) is None,
        info_reply_spec(Some(flags), None) is None,
        ({
            let r = info_reply_spec(Some(flags), Some(count));
            &&& r is Some
            &&& r.unwrap().flags == (if flags >= 0 {
                flags as int
            } else {
                flags + 0x1_0000_0000
            })
            &&& count >= 0 ==> r.unwrap().fds == count
            &&& count < 0 ==> r.unwrap().fds == 0
        }),
{
}

/// A descriptor more that was received is one more at the end, and one that was not
/// received leaves no gap.
pub proof fn law_received_descriptors(v: Seq<Option<i32>>, fd: i32)
    ensures
        received_fds(Seq::empty()) == Seq::<i32>::empty(),
        received_fds(v.push(Some(fd))) == received_fds(v).push(fd),
        received_fds(v.push(None)) == received_fds(v),
{
    assert(v.push(Some(fd)).drop_last() =~= v);
    assert(v.push(None::<i32>).drop_last() =~= v);
}

/// A command has the number 0, 1, 3 or 4.
pub proof fn law_command_numbers(c: DaemonCommand)
    ensures
        command_code_spec(c) == (match c {
            DaemonCommand::RemoteGetInfo => 0int,
            DaemonCommand::ConnectCompanion => 1,
            DaemonCommand::RequestSulist => 3,
            DaemonCommand::RequestUmount => 4,
        }),
{
}

} // verus!
