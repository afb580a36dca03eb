use kitsune::num::{decimal_text, decimal_text_i32, digit, parse_i32, parse_u64, parse_usize};
use kitsune::text::{
    after_last, append, concat_text, contains, contains_text, ends_with, eq_ignore_ascii_case, has_piece,
    is_text, is_whitespace, join, lines, same_text, split_char, split_once, split_whitespace,
    splitn_char, starts_with, starts_with_text, strip_prefix, to_chars, to_text, trim, trim_end,
    trim_start,
};

const SAMPLES: [&str; 16] = [
    "",
    " ",
    "a",
    "a b",
    "  a  b\tc \n",
    "x-y-z",
    "-",
    "--",
    "line one\nline two\r\n\nlast",
    "trailing\n",
    "\r\n",
    "\n\n",
    "caf\u{e9} \u{3000}\u{2003}wide",
    "k=v=w",
    "7f00-8f00 r-xp 00000000 fe:01 12   /system/lib64/libc.so",
    "\u{85}next\u{a0}line",
];

fn pieces(v: Vec<&[char]>) -> Vec<String> {
    v.iter().map(|p| p.iter().collect()).collect()
}

fn owned(v: Vec<&str>) -> Vec<String> {
    v.iter().map(|s| s.to_string()).collect()
}

#[test]
fn whitespace_is_unicode_white_space() {
    for c in (0..=0x10ffffu32).filter_map(char::from_u32) {
        assert_eq!(is_whitespace(c), c.is_whitespace(), "{:?}", c);
    }
}

#[test]
fn splitting_agrees_with_strings() {
    for s in SAMPLES {
        let c = to_chars(s);
        assert_eq!(to_text(&c), s);
        for sep in [' ', '-', '=', '\n', '/'] {
            assert_eq!(pieces(split_char(&c, sep)), owned(s.split(sep).collect()));
            for n in 1..7 {
                assert_eq!(pieces(splitn_char(&c, n, sep)), owned(s.splitn(n, sep).collect()));
            }
            let once = split_once(&c, sep)
                .map(|(a, b)| (a.iter().collect::<String>(), b.iter().collect::<String>()));
            assert_eq!(once, s.split_once(sep).map(|(a, b)| (a.to_string(), b.to_string())));
        }
        assert_eq!(pieces(split_whitespace(&c)), owned(s.split_whitespace().collect()));
        assert_eq!(pieces(lines(&c)), owned(s.lines().collect()));
    }
}

#[test]
fn trimming_agrees_with_strings() {
    for s in SAMPLES {
        let c = to_chars(s);
        assert_eq!(trim(&c).iter().collect::<String>(), s.trim());
        assert_eq!(trim_start(&c).iter().collect::<String>(), s.trim_start());
        assert_eq!(trim_end(&c).iter().collect::<String>(), s.trim_end());
    }
}

#[test]
fn searching_agrees_with_strings() {
    for s in SAMPLES {
        let c = to_chars(s);
        for t in ["", "a", "line", "\n", "libc.so", " ", "--", "x-y-z0"] {
            let p = to_chars(t);
            assert_eq!(contains(&c, &p), s.contains(t));
            assert_eq!(starts_with(&c, &p), s.starts_with(t));
            assert_eq!(ends_with(&c, &p), s.ends_with(t));
            assert_eq!(contains_text(&c, t), s.contains(t));
            assert_eq!(starts_with_text(&c, t), s.starts_with(t));
            assert_eq!(is_text(&c, t), s == t);
            assert_eq!(same_text(s, t), s == t);
            assert_eq!(
                strip_prefix(&c, t).map(|r| r.iter().collect::<String>()),
                s.strip_prefix(t).map(|r| r.to_string())
            );
        }
        for sep in [')', '-', 'n'] {
            assert_eq!(
                after_last(&c, sep).map(|r| r.iter().collect::<String>()),
                s.rfind(sep).map(|i| s[i + 1..].to_string())
            );
        }
    }
}

#[test]
fn joining_and_appending() {
    let a = to_chars("one");
    let b = to_chars("");
    let c = to_chars("three");
    assert_eq!(join(&[&a, &b, &c], ' '), ["one", "", "three"].join(" "));
    assert_eq!(join(&[], ' '), "");
    assert_eq!(concat_text("a/", "b"), "a/b");
    let mut s = String::from("x");
    append(&mut s, "yz");
    assert_eq!(s, "xyz");
}

#[test]
fn letters_compare_without_case() {
    for (a, b) in [("Data", "dATA"), ("data", "date"), ("", ""), ("\u{c4}", "\u{e4}"), ("a", "")] {
        assert_eq!(eq_ignore_ascii_case(&to_chars(a), &to_chars(b)), a.eq_ignore_ascii_case(b));
    }
    assert!(has_piece(&to_chars("seclabel,rw,noatime"), ',', "rw"));
    assert!(!has_piece(&to_chars("seclabel,rwx"), ',', "rw"));
}

#[test]
fn numbers_agree_with_strings() {
    for s in [
        "", "0", "+", "-", "+7", "-7", "--7", "00012", "18446744073709551615",
        "18446744073709551616", "2147483647", "2147483648", "-2147483648", "-2147483649", "ff",
        "FF", "fg", " 1", "1 ", "\u{661}",
    ] {
        let c = to_chars(s);
        assert_eq!(parse_u64(&c, 10), s.parse::<u64>().ok());
        assert_eq!(parse_u64(&c, 16), u64::from_str_radix(s, 16).ok());
        assert_eq!(parse_usize(&c, 16), usize::from_str_radix(s, 16).ok());
        assert_eq!(parse_i32(&c), s.parse::<i32>().ok());
    }
    assert_eq!(digit('a'), 10);
    assert_eq!(digit('9'), 9);
}

#[test]
fn numbers_are_written_and_read_back() {
    for n in [0u64, 9, 10, 12345, u64::MAX] {
        assert_eq!(decimal_text(n), n.to_string());
        assert_eq!(parse_u64(&to_chars(&decimal_text(n)), 10), Some(n));
    }
    for n in [0i32, -1, 42, i32::MAX, i32::MIN] {
        assert_eq!(decimal_text_i32(n), n.to_string());
        assert_eq!(parse_i32(&to_chars(&decimal_text_i32(n))), Some(n));
    }
}
