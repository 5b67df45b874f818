use zerotable::keys::SEPARATOR;
use zerotable::names::parse_name;
use zerotable::{collection_prefix, decode, encode, KeyError};

#[test]
fn test_encode_decode() {
    let key = encode("users", "abc123").unwrap();
    let (collection_id, doc_id) = decode(&key).unwrap();
    assert_eq!(collection_id, "users");
    assert_eq!(doc_id, "abc123");
}

#[test]
fn test_encode_empty_collection_id() {
    assert_eq!(encode("", "doc1"), Err(KeyError::EmptyId));
}

#[test]
fn test_encode_empty_doc_id() {
    assert_eq!(encode("users", ""), Err(KeyError::EmptyId));
}

#[test]
fn test_encode_null_byte_in_collection_id() {
    assert_eq!(encode("us\x00ers", "doc1"), Err(KeyError::ContainsNullByte));
}

#[test]
fn test_encode_null_byte_in_doc_id() {
    assert_eq!(encode("users", "doc\x001"), Err(KeyError::ContainsNullByte));
}

#[test]
fn test_encode_too_long_collection_id() {
    let long_name = "a".repeat(1501);
    assert_eq!(
        encode(&long_name, "doc1"),
        Err(KeyError::TooLong { len: 1501, max: 1500 })
    );
}

#[test]
fn test_encode_max_length_is_valid() {
    let max_name = "a".repeat(1500);
    assert!(encode(&max_name, "doc1").is_ok());
}

#[test]
fn test_decode_no_separator() {
    assert_eq!(decode(b"noseparator"), None);
}

#[test]
fn test_decode_invalid_utf8_collection() {
    let mut key = Vec::new();
    key.extend_from_slice(&[0xFF, 0xFE]);
    key.push(SEPARATOR);
    key.extend_from_slice(b"doc1");
    assert_eq!(decode(&key), None);
}

#[test]
fn test_decode_invalid_utf8_document() {
    let mut key = Vec::new();
    key.extend_from_slice(b"users");
    key.push(SEPARATOR);
    key.extend_from_slice(&[0xFF, 0xFE]);
    assert_eq!(decode(&key), None);
}

#[test]
fn test_collection_prefix() {
    let prefix = collection_prefix("users").unwrap();
    let key = encode("users", "doc1").unwrap();
    assert!(key.starts_with(&prefix));
}

#[test]
fn test_keys_are_ordered_by_collection() {
    let key_a = encode("aaa", "doc1").unwrap();
    let key_b = encode("bbb", "doc1").unwrap();
    assert!(key_a < key_b);
}

#[test]
fn test_same_collection_ordered_by_doc_id() {
    let key_a = encode("users", "alice").unwrap();
    let key_b = encode("users", "bob").unwrap();
    assert!(key_a < key_b);
}

#[test]
fn test_collection_isolation_with_similar_names() {
    let key_a = encode("users", "zzzz").unwrap();
    let key_b = encode("users_backup", "aaaa").unwrap();
    assert!(key_a < key_b);
}

#[test]
fn encode_rejects_slash() {
    assert_eq!(encode("a/b", "doc1"), Err(KeyError::ContainsSlash));
    assert_eq!(encode("users", "x/y"), Err(KeyError::ContainsSlash));
}

#[test]
fn encode_exact_bytes() {
    assert_eq!(encode("ab", "c").unwrap(), vec![b'a', b'b', 0, b'c']);
}

#[test]
fn collection_prefix_rejects_invalid_id() {
    assert_eq!(collection_prefix(""), Err(KeyError::EmptyId));
    assert_eq!(collection_prefix("users").unwrap(), b"users\x00".to_vec());
}

#[test]
fn decode_splits_at_first_separator() {
    let key = b"col\x00doc\x00tail".to_vec();
    assert_eq!(decode(&key), Some(("col", "doc\x00tail")));
}

#[test]
fn key_error_messages() {
    assert_eq!(KeyError::EmptyId.to_string(), "id must not be empty");
    assert_eq!(
        KeyError::TooLong { len: 1501, max: 1500 }.to_string(),
        "id too long: 1501 bytes, max 1500"
    );
}

#[test]
fn resource_names_split_at_first_slash() {
    assert_eq!(parse_name("users/doc1"), Some(("users".to_string(), "doc1".to_string())));
    assert_eq!(parse_name("users/a/b"), Some(("users".to_string(), "a/b".to_string())));
    assert_eq!(parse_name("users"), None);
    assert_eq!(parse_name("/doc1"), None);
    assert_eq!(parse_name("users/"), None);
}
