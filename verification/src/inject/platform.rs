//! Layouts of the kernel's interface.

use vstd::prelude::*;

verus! {

/// The bits of a file mode that tell the file type.
pub const S_IFMT: u32 = 0xf000;

/// The file type of a regular file.
pub const S_IFREG: u32 = 0x8000;

/// A file mode is that of a regular file.
pub open spec fn is_regular_spec(mode: u32) -> bool {
    mode & S_IFMT == S_IFREG
}

/// Tells whether a file mode is that of a regular file.
pub fn is_regular_file(mode: u32) -> (r: bool)
    ensures
        r == (mode & S_IFMT == S_IFREG),
        r == is_regular_spec(mode),
{
    mode & S_IFMT == S_IFREG
}

/// `len` rounded up to a multiple of `word`.
pub open spec fn cmsg_align(len: nat, word: nat) -> nat {
    ((len + word - 1) as nat / word) * word
}

/// The bytes of a control message's header, in a process with words of `word`
/// bytes: a word and two integers, padded.
pub open spec fn cmsg_header(word: nat) -> nat {
    cmsg_align(word + 8, word)
}

/// The length of a control message with `len` bytes of data, in a process with
/// words of `word` bytes.
pub fn cmsg_len(len: u32, word: u32) -> (r: u64)
    requires
        word == 4 || word == 8,
    ensures
        r == cmsg_header(word as nat) + len,
{
    if word == 8 {
        16 + len as u64
    } else {
        12 + len as u64
    }
}

/// The space that a control message with `len` bytes of data takes, in a process
/// with words of `word` bytes.
pub fn cmsg_space(len: u32, word: u32) -> (r: u64)
    requires
        word == 4 || word == 8,
    ensures
        r == cmsg_header(word as nat) + cmsg_align(len as nat, word as nat),
{
    if word == 8 {
        16 + (len as u64 + 7) / 8 * 8
    } else {
        12 + (len as u64 + 3) / 4 * 4
    }
}

/// A control message fits in its space, and less than a word is wasted.
pub proof fn law_control_message_fits(len: nat, word: nat)
    requires
        word == 4 || word == 8,
    ensures
        len <= cmsg_align(len, word) < len + word,
        cmsg_align(len, word) % word == 0,
{
    if word == 8 {
        assert(((len + 7) as nat / 8) * 8 % 8 == 0);
    } else {
        assert(((len + 3) as nat / 4) * 4 % 4 == 0);
    }
}

/// A file is a regular one exactly where the four bits from bit 12 on, and no
/// others, make the number 8.
pub proof fn law_regular_files(mode: u32)
    ensures
        is_regular_spec(mode) <==> (mode / 4096) % 16 == 8,
{
    assert((mode & 0xf000 == 0x8000) == ((mode / 4096) % 16 == 8)) by (bit_vector);
}

/// A control message's header takes 16 bytes with words of eight, and 12 with
/// words of four; what fills whole words is not padded.
pub proof fn law_control_headers(words: nat)
    ensures
        cmsg_header(8) == 16,
        cmsg_header(4) == 12,
        cmsg_align(8 * words, 8) == 8 * words,
        cmsg_align(4 * words, 4) == 4 * words,
{
}

} // verus!
