//! The serial-number aggregator on synthetic udev databases.

use sha2::Digest;
use system_id::id::Confidence;
use system_id::linux::get_aggregated_dmi_serial_numbers_id;

fn lines(texts: &[&str]) -> Option<Vec<Vec<u8>>> {
    Some(texts.iter().map(|t| t.as_bytes().to_vec()).collect())
}

#[test]
fn digest_is_computed_over_descending_sorted_values() {
    let db = lines(&[
        "E:ID_SERIAL_NUMBER=AAA",
        "E:BOARD_SERIAL_NUMBER=BBB",
        "E:IRRELEVANT=CCC",
    ]);
    let id = get_aggregated_dmi_serial_numbers_id(&db).expect("database present");
    // "BBB" sorts before "AAA" in descending order; the digest runs over
    // the concatenated stream with no separators.
    let expected = sha2::Sha224::digest(b"BBBAAA");
    assert_eq!(id.bytes().as_slice(), expected.as_slice());
    assert_eq!(id.confidence(), Confidence::High);
}

#[test]
fn permuted_databases_yield_the_identical_digest() {
    let a = lines(&[
        "E:ID_SERIAL_NUMBER=AAA",
        "E:BOARD_SERIAL_NUMBER=BBB",
        "E:IRRELEVANT=CCC",
    ]);
    let b = lines(&[
        "E:BOARD_SERIAL_NUMBER=BBB",
        "E:IRRELEVANT=CCC",
        "E:ID_SERIAL_NUMBER=AAA",
    ]);
    let id_a = get_aggregated_dmi_serial_numbers_id(&a).expect("present");
    let id_b = get_aggregated_dmi_serial_numbers_id(&b).expect("present");
    assert_eq!(id_a.bytes(), id_b.bytes());
}

#[test]
fn non_property_and_malformed_lines_are_ignored() {
    let db = lines(&[
        "I:1234567",
        "W:2",
        "E:no_equals_sign",
        "X:ID_SERIAL_NUMBER=ZZZ",
        "E:SHORT=1",
        "E:ID_SERIAL_NUMBER=AAA",
    ]);
    let id = get_aggregated_dmi_serial_numbers_id(&db).expect("present");
    let expected = sha2::Sha224::digest(b"AAA");
    assert_eq!(id.bytes().as_slice(), expected.as_slice());
}

#[test]
fn database_with_no_matching_lines_yields_the_empty_digest() {
    // The empty case is deliberate and explicit: a database without
    // serial-number properties still aggregates, to the digest of the
    // empty stream.
    let id = get_aggregated_dmi_serial_numbers_id(&lines(&["E:IRRELEVANT=CCC"]))
        .expect("present");
    let empty_sha224: [u8; 28] = [
        0xd1, 0x4a, 0x02, 0x8c, 0x2a, 0x3a, 0x2b, 0xc9, 0x47, 0x61, 0x02, 0xbb, 0x28, 0x82,
        0x34, 0xc4, 0x15, 0xa2, 0xb0, 0x1f, 0x82, 0x8e, 0xa6, 0x2a, 0xc5, 0xb3, 0xe4, 0x2f,
    ];
    assert_eq!(id.bytes().as_slice(), &empty_sha224);
}

#[test]
fn unreadable_database_yields_nothing() {
    assert_eq!(get_aggregated_dmi_serial_numbers_id(&None), None);
}

#[test]
fn equal_serial_values_on_distinct_lines_both_count() {
    let db = lines(&[
        "E:ID_SERIAL_NUMBER=AAA",
        "E:BOARD_SERIAL_NUMBER=AAA",
    ]);
    let id = get_aggregated_dmi_serial_numbers_id(&db).expect("present");
    let expected = sha2::Sha224::digest(b"AAAAAA");
    assert_eq!(id.bytes().as_slice(), expected.as_slice());
}

#[test]
fn lines_past_the_cap_are_ignored() {
    let mut texts: Vec<Vec<u8>> = Vec::new();
    for _ in 0..16384 {
        texts.push(b"E:IRRELEVANT=CCC".to_vec());
    }
    texts.push(b"E:ID_SERIAL_NUMBER=AAA".to_vec());
    let id = get_aggregated_dmi_serial_numbers_id(&Some(texts)).expect("present");
    let empty_sha224 = sha2::Sha224::digest(b"");
    assert_eq!(id.bytes().as_slice(), empty_sha224.as_slice());
}
