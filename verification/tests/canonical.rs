//! Canonical ordering and byte-string helpers.

use system_id::bytes::{bytes_eq, lex_leq_bytes, trim_ascii_bytes};
use system_id::sorting::sort_descending;

fn byte_vecs(parts: &[&str]) -> Vec<Vec<u8>> {
    parts.iter().map(|p| p.as_bytes().to_vec()).collect()
}

#[test]
fn sort_descending_orders_like_a_draining_max_heap() {
    let input = byte_vecs(&["AAA", "CCC", "BBB", "AAA", ""]);
    let sorted = sort_descending(input);
    assert_eq!(sorted, byte_vecs(&["CCC", "BBB", "AAA", "AAA", ""]));
}

#[test]
fn sort_descending_of_nothing_is_nothing() {
    assert_eq!(sort_descending(Vec::new()), Vec::<Vec<u8>>::new());
}

#[test]
fn lexicographic_order_matches_byte_slice_order() {
    let cases: &[(&str, &str)] = &[
        ("", ""),
        ("", "a"),
        ("a", "ab"),
        ("ab", "b"),
        ("BBB", "AAA"),
        ("zz", "zz"),
        ("za", "zb"),
    ];
    for (a, b) in cases {
        let av = a.as_bytes().to_vec();
        let bv = b.as_bytes().to_vec();
        assert_eq!(lex_leq_bytes(&av, &bv), a.as_bytes() <= b.as_bytes());
        assert_eq!(lex_leq_bytes(&bv, &av), b.as_bytes() <= a.as_bytes());
    }
}

#[test]
fn trimming_strips_ascii_whitespace_on_both_sides() {
    assert_eq!(trim_ascii_bytes(&b" \t\nabc \r\n".to_vec()), b"abc".to_vec());
    assert_eq!(trim_ascii_bytes(&b"abc".to_vec()), b"abc".to_vec());
    assert_eq!(trim_ascii_bytes(&b"  \n".to_vec()), Vec::<u8>::new());
    assert_eq!(trim_ascii_bytes(&b"a b".to_vec()), b"a b".to_vec());
}

#[test]
fn byte_equality_compares_contents() {
    assert!(bytes_eq(&b"abc".to_vec(), &b"abc".to_vec()));
    assert!(!bytes_eq(&b"abc".to_vec(), &b"abd".to_vec()));
    assert!(!bytes_eq(&b"abc".to_vec(), &b"ab".to_vec()));
}
