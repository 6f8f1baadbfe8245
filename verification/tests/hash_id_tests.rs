use jump::domain::hash_id::HashId;

#[test]
fn test_new_hash_id_is_not_empty() {
    let id = HashId::new();
    assert!(!id.as_string().is_empty());
}

#[test]
fn test_from_string_preserves_value() {
    let original = "test123";
    let id = HashId::from_string(original.to_string());
    assert_eq!(id.as_string(), original);
}

#[test]
fn test_default_creates_valid_id() {
    let id: HashId = Default::default();
    assert!(!id.as_string().is_empty());
}

#[test]
fn test_hash_ids_are_unique() {
    let id1 = HashId::new();
    let id2 = HashId::new();
    assert_ne!(id1, id2);
}

#[test]
fn new_hash_id_is_a_simple_uuid() {
    let id = HashId::new();
    let text = id.as_string();
    assert_eq!(text.len(), 32);
    assert!(text.chars().all(|c| c.is_ascii_digit() || ('a'..='f').contains(&c)));
    assert_eq!(text.chars().nth(12), Some('4'));
    assert!(matches!(text.chars().nth(16), Some('8') | Some('9') | Some('a') | Some('b')));
}
