use weblite::header::{kind_of_name, RequestHeaderKind};
use weblite::text::{decode, eq_ignore_ascii_case, put};

#[test]
fn text_is_decoded_and_anything_else_is_not() {
    assert_eq!(decode(b"plain"), Some("plain"));
    assert_eq!(decode(b""), Some(""));
    assert_eq!(decode("gr\u{fc}n \u{2603}".as_bytes()), Some("gr\u{fc}n \u{2603}"));
    assert_eq!(decode(&[0xff]), None);
    assert_eq!(decode(&[0xc3]), None);
    assert_eq!(decode(&[0xc0, 0x80]), None);
    assert_eq!(decode(&[0xed, 0xa0, 0x80]), None);
    assert_eq!(decode(&[b'a', 0x80]), None);
}

#[test]
fn bytes_are_appended() {
    let mut out = vec![1u8, 2];
    put(&mut out, &[3, 4, 5]);
    put(&mut out, &[]);
    assert_eq!(out, [1, 2, 3, 4, 5]);
}

#[test]
fn only_the_case_of_ascii_letters_is_ignored() {
    assert!(eq_ignore_ascii_case("Content-Type", "cONTENT-tYPE"));
    assert!(eq_ignore_ascii_case("", ""));
    assert!(eq_ignore_ascii_case("a1-z", "A1-Z"));
    assert!(!eq_ignore_ascii_case("Content-Type", "Content-Typ"));
    assert!(!eq_ignore_ascii_case("Content-Type", "Content_Type"));
    // `@` and `` ` `` stand next to the letters, `[` and `{` behind them
    assert!(!eq_ignore_ascii_case("@", "`"));
    assert!(!eq_ignore_ascii_case("[", "{"));
    assert!(!eq_ignore_ascii_case("\u{e4}", "\u{c4}"));
    assert!(eq_ignore_ascii_case("\u{e4}X", "\u{e4}x"));
}

#[test]
fn a_name_has_its_kind() {
    assert_eq!(kind_of_name("host"), RequestHeaderKind::Host);
    assert_eq!(kind_of_name("ACCEPT"), RequestHeaderKind::Accept);
    assert_eq!(kind_of_name("Accept-Language"), RequestHeaderKind::AcceptLanguage);
    assert_eq!(kind_of_name("content-length"), RequestHeaderKind::ContentLength);
    assert_eq!(kind_of_name("Sec-WebSocket-Accept"), RequestHeaderKind::Other);
    assert_eq!(kind_of_name(" Host"), RequestHeaderKind::Other);
    assert_eq!(kind_of_name(""), RequestHeaderKind::Other);
}
