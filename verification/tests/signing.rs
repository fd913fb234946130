use weather_service::provider::encoding::percent_encode;
use weather_service::provider::signing::{nonce, sign, timestamp_of};
use weather_service::text::write_decimal;

#[test]
fn percent_encode_keeps_what_is_plain() {
    assert_eq!(percent_encode("AZaz09-._~!$'()*+,%"), "AZaz09-._~!$'()*+,%");
    assert_eq!(percent_encode(""), "");
}

#[test]
fn percent_encode_escapes_the_rest() {
    assert_eq!(percent_encode("a b&c/d~é%"), "a%20b%26c%2Fd~%C3%A9%");
    assert_eq!(percent_encode(" \"#<>`?{}"), "%20%22%23%3C%3E%60%3F%7B%7D");
    assert_eq!(percent_encode("/:;=@[\\]^|"), "%2F%3A%3B%3D%40%5B%5C%5D%5E%7C");
    assert_eq!(percent_encode("\u{0}\u{1f}\u{7f}"), "%00%1F%7F");
    assert_eq!(percent_encode("日本"), "%E6%97%A5%E6%9C%AC");
}

#[test]
fn percent_encode_agrees_byte_by_byte() {
    let escaped = " \"#<>`?{}/:;=@[\\]^|&";
    for byte in 0u8..128 {
        let text = String::from(byte as char);
        let expected = if byte < 0x20 || byte > 0x7e || escaped.contains(byte as char) {
            format!("%{:02X}", byte)
        } else {
            text.clone()
        };
        assert_eq!(percent_encode(&text), expected);
    }
}

#[test]
fn percent_encode_escapes_every_byte_outside_ascii() {
    for code in (0x80u32..0x800).chain([0x800, 0xfffd, 0x10000, 0x10ffff]) {
        let text = String::from(char::from_u32(code).unwrap());
        let expected: String = text.bytes().map(|byte| format!("%{:02X}", byte)).collect();
        assert_eq!(percent_encode(&text), expected);
    }
}

#[test]
fn sign_gives_the_code_in_base_64() {
    assert_eq!(
        sign("key", "The quick brown fox jumps over the lazy dog").unwrap(),
        "3nybhbi3iqa8ino29wqQcBydtNk="
    );
    assert_eq!(sign("", "").unwrap(), "+9sdGxiqbAgyS31ktx+3Y3BpDh0=");
    assert_eq!(sign(&"k".repeat(100), "m").unwrap(), "AU8I6aq/eYDQeiBaTGOHQ5Ff+RU=");
}

#[test]
fn nonce_is_ten_letters_and_digits() {
    for _ in 0..100 {
        let word = nonce();
        assert_eq!(word.chars().count(), 10);
        assert!(word.chars().all(|c| c.is_ascii_alphanumeric()));
    }
}

#[test]
fn nonce_is_new_each_time() {
    assert_ne!(nonce(), nonce());
}

#[test]
fn write_decimal_writes_behind_the_text() {
    let mut text = String::from("n=");
    write_decimal(&mut text, 0);
    assert_eq!(text, "n=0");
    write_decimal(&mut text, 9);
    write_decimal(&mut text, 10);
    write_decimal(&mut text, 1551387600);
    assert_eq!(text, "n=09101551387600");
    let mut text = String::new();
    write_decimal(&mut text, u64::MAX);
    assert_eq!(text, "18446744073709551615");
}

#[test]
fn timestamp_is_what_the_clock_counted_or_zero() {
    assert_eq!(timestamp_of(Some(1551387600)), 1551387600);
    assert_eq!(timestamp_of(Some(0)), 0);
    assert_eq!(timestamp_of(Some(u64::MAX)), u64::MAX);
    assert_eq!(timestamp_of(None), 0);
}
