//! Hexadecimal and UUID text parsing.

use system_id::hex::parse_hex_u128;
use system_id::uuid_text::parse_uuid;

#[test]
fn hex_32_lowercase_digits_parse_to_expected_integer() {
    let s = b"d41d8cd98f00b204e9800998ecf8427e".to_vec();
    assert_eq!(parse_hex_u128(&s), Some(0xd41d8cd98f00b204e9800998ecf8427eu128));
}

#[test]
fn hex_uppercase_digits_are_accepted() {
    let s = b"D41D8CD98F00B204E9800998ECF8427E".to_vec();
    assert_eq!(parse_hex_u128(&s), Some(0xd41d8cd98f00b204e9800998ecf8427eu128));
}

#[test]
fn hex_wrong_length_yields_nothing() {
    assert_eq!(parse_hex_u128(&b"d41d8cd98f00b204e9800998ecf8427".to_vec()), None);
    assert_eq!(parse_hex_u128(&b"d41d8cd98f00b204e9800998ecf8427e0".to_vec()), None);
    assert_eq!(parse_hex_u128(&b"".to_vec()), None);
}

#[test]
fn hex_non_hex_character_yields_nothing() {
    assert_eq!(parse_hex_u128(&b"g41d8cd98f00b204e9800998ecf8427e".to_vec()), None);
    assert_eq!(parse_hex_u128(&b"d41d8cd98f00b204e9800998ecf8427-".to_vec()), None);
    assert_eq!(parse_hex_u128(&b"+41d8cd98f00b204e9800998ecf8427e".to_vec()), None);
}

#[test]
fn hyphenated_uuid_parses_to_its_bytes() {
    let text = "6ba7b810-9dad-11d1-80b4-00c04fd430c8";
    let parsed = parse_uuid(&text.as_bytes().to_vec()).expect("should parse");
    let expected = uuid::Uuid::parse_str(text).unwrap();
    assert_eq!(parsed.as_slice(), expected.as_bytes());
}

#[test]
fn simple_uuid_parses_to_its_bytes() {
    let text = "6ba7b8109dad11d180b400c04fd430c8";
    let parsed = parse_uuid(&text.as_bytes().to_vec()).expect("should parse");
    let expected = uuid::Uuid::parse_str(text).unwrap();
    assert_eq!(parsed.as_slice(), expected.as_bytes());
}

#[test]
fn uppercase_uuid_parses_like_the_reference_parser() {
    let text = "6BA7B810-9DAD-11D1-80B4-00C04FD430C8";
    let parsed = parse_uuid(&text.as_bytes().to_vec()).expect("should parse");
    let expected = uuid::Uuid::parse_str(text).unwrap();
    assert_eq!(parsed.as_slice(), expected.as_bytes());
}

#[test]
fn malformed_uuid_text_yields_nothing() {
    // Wrong length.
    assert_eq!(parse_uuid(&b"6ba7b810-9dad-11d1-80b4-00c04fd430c".to_vec()), None);
    // Hyphen out of place.
    assert_eq!(parse_uuid(&b"6ba7b8109-dad-11d1-80b4-00c04fd430c8".to_vec()), None);
    // Non-hexadecimal digit.
    assert_eq!(parse_uuid(&b"zba7b810-9dad-11d1-80b4-00c04fd430c8".to_vec()), None);
    assert_eq!(parse_uuid(&b"zba7b8109dad11d180b400c04fd430c8".to_vec()), None);
    // Empty.
    assert_eq!(parse_uuid(&b"".to_vec()), None);
}
