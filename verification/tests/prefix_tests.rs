//! Key prefixes and their display forms, run against the real hex crate.

use rollup_core::prefix::{AlignedVec, Prefix};

#[test]
fn prefix_length_and_emptiness() {
    let p = Prefix::new(vec![1, 2, 3]);
    assert_eq!(p.len(), 3);
    assert!(!p.is_empty());
    assert_eq!(p.as_aligned_vec().as_bytes(), &vec![1, 2, 3]);

    let empty = Prefix::new(Vec::new());
    assert_eq!(empty.len(), 0);
    assert!(empty.is_empty());
}

#[test]
fn prefix_qualifies_keys() {
    let p = Prefix::new(b"accounts/".to_vec());
    let key = p.prefixed_key(&b"alice".to_vec());
    assert_eq!(key, b"accounts/alice".to_vec());
}

#[test]
fn readable_prefix_displays_quoted() {
    let p = Prefix::new(b"accounts".to_vec());
    assert_eq!(p.display_string(), "\"accounts\"");
}

#[test]
fn unreadable_prefix_displays_as_hex() {
    let p = Prefix::new(vec![0xff, 0xfe, 0x00, 0x41]);
    assert_eq!(p.display_string(), "0xfffe0041");
}

#[test]
fn aligned_vec_keeps_its_bytes() {
    let v = AlignedVec::new(vec![9, 8, 7]);
    assert_eq!(v.len(), 3);
    assert_eq!(v.as_bytes(), &vec![9, 8, 7]);
}
