use rustlb::request_id::{generate_request_id, generate_short_request_id, RequestId};
use std::collections::HashSet;

#[test]
fn test_generate_request_id() {
    let id1 = generate_request_id();
    let id2 = generate_request_id();
    assert_ne!(id1, id2);
    assert_eq!(id1.len(), 36);
    assert!(id1.contains('-'));
}

#[test]
fn test_generate_short_request_id() {
    let id1 = generate_short_request_id(0);
    let id2 = generate_short_request_id(1);
    assert_ne!(id1, id2);
    assert!(id1.starts_with("req-"));
    assert!(id2.starts_with("req-"));
}

#[test]
fn test_short_request_id_uniqueness() {
    let mut ids = HashSet::new();
    for count in 0..1000u64 {
        let id = generate_short_request_id(count);
        assert!(ids.insert(id), "duplicate ID generated");
    }
}

#[test]
fn test_request_id_wrapper() {
    let id = RequestId::new();
    assert!(!id.as_str().is_empty());
    let short_id = RequestId::short(7);
    assert!(short_id.as_str().starts_with("req-"));
    let custom_id = RequestId::from_string("custom-123");
    assert_eq!(custom_id.as_str(), "custom-123");
}

#[test]
fn test_request_id_display() {
    let id = RequestId::from_string("test-id-123");
    assert_eq!(id.to_string(), "test-id-123");
}

#[test]
fn test_request_id_generation() {
    let id1 = generate_request_id();
    let id2 = generate_request_id();
    assert_ne!(id1, id2);
    assert_eq!(id1.len(), 36);
    let short1 = generate_short_request_id(0);
    let short2 = generate_short_request_id(1);
    assert_ne!(short1, short2);
    assert!(short1.starts_with("req-"));
    let mut ids = HashSet::new();
    for count in 0..1000u64 {
        let id = RequestId::short(count);
        assert!(ids.insert(id.as_str().to_string()));
    }
}

#[test]
fn short_id_format() {
    assert_eq!(generate_short_request_id(0), "req-0000000000000000");
    assert_eq!(generate_short_request_id(0xab), "req-00000000000000ab");
    assert_eq!(generate_short_request_id(u64::MAX), "req-ffffffffffffffff");
}

#[test]
fn uuid_id_shape() {
    let id = generate_request_id();
    let cs: Vec<char> = id.chars().collect();
    for (i, c) in cs.iter().enumerate() {
        if [8, 13, 18, 23].contains(&i) {
            assert_eq!(*c, '-');
        } else {
            assert!(c.is_ascii_hexdigit() && !c.is_ascii_uppercase());
        }
    }
    assert_eq!(cs[14], '4');
}
