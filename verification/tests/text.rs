use johnbox::digits::{decimal_text, hex32, parse_byte, parse_signed, signed_text};
use johnbox::text::{
    cut, find, has_prefix, joined, pieces, replace_all, right_aligned, same_text, trim_blanks,
    trim_char,
};

#[test]
fn texts_are_cut() {
    assert_eq!(cut("a::b::c", "::"), Some(("a".to_owned(), "b::c".to_owned())));
    assert_eq!(cut("abc", "::"), None);
    assert_eq!(pieces("a,,b", ","), vec!["a", "", "b"]);
    assert_eq!(pieces("", ","), vec![""]);
    assert_eq!(pieces("5::::x", ":::"), vec!["5", ":x"]);
}

#[test]
fn texts_are_searched_and_replaced() {
    let chars: Vec<char> = "xabab".chars().collect();
    let pattern: Vec<char> = "ab".chars().collect();
    assert_eq!(find(&chars, &pattern, 0), Some(1));
    assert_eq!(find(&chars, &pattern, 2), Some(3));
    assert_eq!(find(&chars, &pattern, 4), None);
    assert_eq!(replace_all("https://a https://b", "https://", "wss://"), "wss://a wss://b");
    assert_eq!(replace_all("aaa", "aa", "b"), "ba");
    assert!(has_prefix("/@x", "/@"));
    assert!(!has_prefix("/", "/@"));
    assert!(same_text("a", "a"));
    assert!(!same_text("a", "b"));
}

#[test]
fn texts_are_trimmed_and_aligned() {
    assert_eq!(trim_blanks(" \t br\u{3000}"), "br");
    assert_eq!(trim_blanks(" \n "), "");
    assert_eq!(trim_char("%%1%0%", '%'), "1%0");
    assert_eq!(right_aligned("ab", 5), "   ab");
    assert_eq!(right_aligned("abcdef", 5), "abcdef");
    assert_eq!(joined(&vec!["a".to_owned(), "b".to_owned()], ", "), "a, b");
    assert_eq!(joined(&Vec::new(), ", "), "");
}

#[test]
fn numbers_are_written() {
    for n in [0u64, 7, 10, 1234567890, u64::MAX] {
        assert_eq!(decimal_text(n), n.to_string());
    }
    for n in [0i64, -1, 42, i64::MIN, i64::MAX] {
        assert_eq!(signed_text(n), n.to_string());
    }
    for n in [0u128, 0xdeadbeef, u128::MAX] {
        assert_eq!(hex32(n), format!("{:032x}", n));
    }
}

#[test]
fn bytes_are_read_like_std_reads_them() {
    for s in ["0", "5", "+5", "255", "256", "0005", "00000000300", "", "+", "-1", "1a", "++1", " 1"] {
        assert_eq!(parse_byte(s), s.parse::<u8>().ok(), "{}", s);
    }
}

#[test]
fn numbers_are_read_like_std_reads_them() {
    for s in [
        "0", "-0", "+7", "-7", "9223372036854775807", "9223372036854775808",
        "-9223372036854775808", "-9223372036854775809", "00000000000000000000000000000000000001",
        "99999999999999999999999999999999999999999999", "", "+", "-", "--1", "1-", " 1",
    ] {
        assert_eq!(parse_signed(s), s.parse::<i64>().ok(), "{}", s);
    }
}
