use kitsune::bytes::{
    append_bytes, find_byte, i32_to_word, read_i32, read_le, same_bytes, split_bytes, word_to_i32,
    write_i32, write_le,
};

#[test]
fn little_endian_numbers() {
    assert_eq!(read_le(&[]), 0);
    assert_eq!(read_le(&[0x78, 0x56, 0x34, 0x12]), 0x1234_5678);
    assert_eq!(read_le(&[0xff; 8]), u64::MAX);
    assert_eq!(write_le(0x1234_5678_9abc, 4), vec![0xbc, 0x9a, 0x78, 0x56]);
    assert_eq!(write_le(u64::MAX, 8), u64::MAX.to_le_bytes().to_vec());
    for v in [0u64, 1, 255, 256, 0xdead_beef, u64::MAX] {
        assert_eq!(read_le(&write_le(v, 8)), v);
    }
}

#[test]
fn signed_numbers_round_trip() {
    for v in [0i32, 1, -1, i32::MAX, i32::MIN, -123456] {
        assert_eq!(write_i32(v), v.to_le_bytes().to_vec());
        assert_eq!(read_i32(&write_i32(v)), v);
        assert_eq!(i32_to_word(v), v as u32 as u64);
        assert_eq!(word_to_i32(i32_to_word(v)), v);
    }
}

#[test]
fn bytes_are_split_and_compared() {
    assert_eq!(find_byte(b"abc", b'c'), 2);
    assert_eq!(find_byte(b"abc", b'x'), 3);
    assert_eq!(split_bytes(b"a\n\nb", b'\n'), vec![&b"a"[..], &b""[..], &b"b"[..]]);
    assert!(same_bytes(b"ab", b"ab"));
    assert!(!same_bytes(b"ab", b"abc"));
    assert!(!same_bytes(b"ab", b"ax"));
    let mut v = vec![1u8];
    append_bytes(&mut v, &[2, 3]);
    assert_eq!(v, vec![1, 2, 3]);
}
