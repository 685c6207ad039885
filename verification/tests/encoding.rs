use deitos_upload::base64url::{encode, fits};
use deitos_upload::hex::encode_hex_lower;
use deitos_upload::json::{push_decimal, push_json_string};

fn decimal(n: u64) -> String {
    let mut out = Vec::new();
    push_decimal(&mut out, n);
    String::from_utf8(out).unwrap()
}

fn quoted(text: &[u8]) -> Vec<u8> {
    let mut out = Vec::new();
    push_json_string(&mut out, text);
    out
}

#[test]
fn hex_is_lowercase_with_two_digits_for_each_byte() {
    assert_eq!(encode_hex_lower(&[]), "");
    assert_eq!(encode_hex_lower(&[0x00, 0x0f, 0xa0, 0xff, 0x9b]), "000fa0ff9b");
    assert_eq!(encode_hex_lower(&[0xbe, 0xef]), "beef");
}

#[test]
fn decimal_has_no_leading_zeros() {
    assert_eq!(decimal(0), "0");
    assert_eq!(decimal(9), "9");
    assert_eq!(decimal(10), "10");
    assert_eq!(decimal(1_700_086_400_000), "1700086400000");
    assert_eq!(decimal(u64::MAX), "18446744073709551615");
}

#[test]
fn decimal_is_appended_to_what_is_there() {
    let mut out = b"n=".to_vec();
    push_decimal(&mut out, 42);
    assert_eq!(out, b"n=42".to_vec());
}

#[test]
fn json_string_escapes_quote_backslash_and_controls() {
    assert_eq!(quoted(b""), b"\"\"".to_vec());
    assert_eq!(quoted(b"plain"), b"\"plain\"".to_vec());
    assert_eq!(quoted(b"a\"b"), b"\"a\\\"b\"".to_vec());
    assert_eq!(quoted(b"a\\b"), b"\"a\\\\b\"".to_vec());
    assert_eq!(quoted(b"\x08\x09\x0a\x0c\x0d"), b"\"\\b\\t\\n\\f\\r\"".to_vec());
    assert_eq!(quoted(b"\x00\x0b\x1f"), b"\"\\u0000\\u000b\\u001f\"".to_vec());
    assert_eq!(quoted(b"\x7f/\xc3\xa9"), b"\"\x7f/\xc3\xa9\"".to_vec());
}

#[test]
fn base64url_has_no_padding_and_the_url_safe_alphabet() {
    assert_eq!(encode(b""), Some(String::new()));
    assert_eq!(encode(b"f"), Some("Zg".to_string()));
    assert_eq!(encode(b"fo"), Some("Zm8".to_string()));
    assert_eq!(encode(b"foo"), Some("Zm9v".to_string()));
    assert_eq!(encode(&[0xfb, 0xff, 0xbf]), Some("-_-_".to_string()));
}

#[test]
fn lengths_that_can_be_encoded() {
    assert!(fits(0));
    assert!(fits(64));
    assert!(fits(usize::MAX / 4 * 3));
    assert!(!fits(usize::MAX));
    assert!(!fits(usize::MAX / 4 * 3 + 3));
}

#[test]
fn json_string_is_what_serde_json_writes() {
    for code in 0u32..=0x2ff {
        let c = char::from_u32(code).unwrap();
        let text = format!("a{}b{}", c, c);
        assert_eq!(quoted(text.as_bytes()), serde_json::to_vec(&text).unwrap(), "for {:?}", text);
    }
    let text = "\u{1f600} \\\" \u{2028}\u{ffff}\u{10ffff}";
    assert_eq!(quoted(text.as_bytes()), serde_json::to_vec(text).unwrap());
}

#[test]
fn decimal_is_what_serde_json_writes() {
    for n in [0u64, 1, 9, 10, 99, 100, 4_294_967_295, 4_294_967_296, u64::MAX - 1, u64::MAX] {
        assert_eq!(decimal(n), serde_json::to_string(&n).unwrap());
    }
}

#[test]
fn json_string_round_trips_through_a_json_reader() {
    let text = "5GrwvaEF5zXb26Fz9rcQpDWS57CtERHpNehXCPcNoHGKutQY \"quoted\" \\ \n\t\u{0}";
    let read: String = serde_json::from_slice(&quoted(text.as_bytes())).unwrap();
    assert_eq!(read, text);
}

#[test]
fn hexadecimal_digits_are_lowercase() {
    let digits: String = (0u8..16).map(deitos_upload::hex::digit_of).collect();
    assert_eq!(digits, "0123456789abcdef");
}
