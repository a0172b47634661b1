use service_core::base64url::encode;
use service_core::json::{int_value, push_decimal, push_int, push_quoted, string_value, unescape, unsigned_value};
use service_core::text::{chars_of, has_prefix, header_to_text, replace, to_ascii_uppercase, trimmed};
use service_core::uuid::uuid_string;

fn s(v: &[char]) -> String {
    v.iter().collect()
}

fn c(t: &str) -> Vec<char> {
    t.chars().collect()
}

#[test]
fn base64url_without_padding() {
    assert_eq!(s(&encode(b"hello")), "aGVsbG8");
    assert_eq!(s(&encode(b"hi?>")), "aGk_Pg");
    assert_eq!(s(&encode(b"")), "");
    assert_eq!(s(&encode(&[0xfb, 0xff])), "-_8");
}

#[test]
fn json_strings_are_escaped() {
    let mut out = Vec::new();
    push_quoted(&mut out, &c("a\"b\\c\nd\u{1}"));
    assert_eq!(s(&out), "\"a\\\"b\\\\c\\nd\\u0001\"");
}

#[test]
fn json_escape_round_trip() {
    for text in ["", "plain", "q\"uote", "back\\slash", "tab\tnew\nline\r", "\u{7}\u{1f}", "ünï©ødé"] {
        let mut out = Vec::new();
        push_quoted(&mut out, &c(text));
        assert_eq!(string_value(&out).map(|v| s(&v)), Some(text.to_string()));
    }
}

#[test]
fn json_unescape_reads_unicode_escapes() {
    assert_eq!(unescape(&c("\\u00e9\\/")).map(|v| s(&v)), Some("é/".to_string()));
    assert!(unescape(&c("\\x")).is_none());
    assert!(string_value(&c("\"open")).is_none());
}

#[test]
fn json_integers() {
    for i in [0i64, 7, -7, 1234567890, i64::MAX, i64::MIN] {
        let mut out = Vec::new();
        push_int(&mut out, i);
        assert_eq!(s(&out), i.to_string());
        assert_eq!(int_value(&out), Some(i));
    }
    assert_eq!(int_value(&c("007")), None);
    assert_eq!(int_value(&c("9223372036854775808")), None);
    assert_eq!(int_value(&c("-")), None);
    let mut out = Vec::new();
    push_decimal(&mut out, u64::MAX);
    assert_eq!(s(&out), "18446744073709551615");
    assert_eq!(unsigned_value(&out, u64::MAX), Some(u64::MAX));
    assert_eq!(unsigned_value(&c("100"), 99), None);
    assert_eq!(unsigned_value(&c("-0"), 99), None);
    assert_eq!(unsigned_value(&c("0"), 99), Some(0));
    assert_eq!(int_value(&c("-0")), None);
    assert_eq!(int_value(&c("0")), Some(0));
    assert_eq!(unsigned_value(&c("-1"), 99), None);
}

#[test]
fn uuid_text_is_hyphenated_lowercase() {
    assert_eq!(s(&uuid_string(0)), "00000000-0000-0000-0000-000000000000");
    assert_eq!(
        s(&uuid_string(0x67e5504410b1426f9247bb680e5fe0c8)),
        "67e55044-10b1-426f-9247-bb680e5fe0c8"
    );
}

#[test]
fn text_helpers() {
    assert_eq!(s(&trimmed(&c(" \t a b \n"))), "a b");
    assert_eq!(s(&trimmed(&c("\u{3000}x\u{a0}"))), "x");
    assert_eq!(s(&to_ascii_uppercase(&c("abZ9é"))), "ABZ9é");
    assert_eq!(s(&replace(&c("aXXbXX"), &c("XX"), &c("-"))), "a-b-");
    assert!(has_prefix(&c("Bearer x"), &c("Bearer")));
    assert!(!has_prefix(&c("Bear"), &c("Bearer")));
    assert_eq!(header_to_text(b"ok \t").map(|v| s(&v)), Some("ok \t".to_string()));
    assert!(header_to_text(&[0x7f]).is_none());
    assert_eq!(s(&chars_of("héllo")), "héllo");
}

#[test]
fn replace_with_an_empty_pattern_interleaves() {
    assert_eq!(s(&replace(&c("abc"), &c(""), &c("-"))), "-a-b-c-");
    assert_eq!(s(&replace(&c(""), &c(""), &c("-"))), "-");
    assert_eq!(s(&replace(&c("ab"), &c(""), &c(""))), "ab");
}

#[test]
fn unsigned_values_under_a_small_limit() {
    assert_eq!(unsigned_value(&c("5"), 3), None);
    assert_eq!(unsigned_value(&c("3"), 3), Some(3));
    assert_eq!(unsigned_value(&c("0"), 0), Some(0));
    assert_eq!(unsigned_value(&c("1"), 0), None);
    assert_eq!(unsigned_value(&c("12"), 9), None);
}
