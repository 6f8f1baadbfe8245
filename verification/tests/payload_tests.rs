use jump::domain::hash_id::HashId;
use jump::domain::mime_type::{MimeType, MimeTypeError};
use jump::domain::payload::{Payload, PayloadError};
use jump::domain::time::Timestamp;

fn now() -> Timestamp {
    let t = chrono::Utc::now();
    Timestamp { seconds: t.timestamp(), nanos: t.timestamp_subsec_nanos() }
}

#[test]
fn test_create_payload_with_defaults() {
    let content = "Test content".to_string();
    let payload = Payload::new(content.clone(), None, None).unwrap();

    assert_eq!(payload.content(), content);
    assert!(matches!(payload.mime_type(), MimeType::TextPlain));
    assert!(payload.viewed_at().is_none());
    assert!(!payload.is_expired());
}

#[test]
fn test_create_payload_with_custom_mime_type() {
    let payload =
        Payload::new("Test content".to_string(), Some("text/html".to_string()), None).unwrap();

    assert!(matches!(payload.mime_type(), MimeType::TextHtml));
}

#[test]
fn payload_test_create_payload_with_invalid_mime_type() {
    let result = Payload::new("Test content".to_string(), Some("invalid/type".to_string()), None);

    assert!(result.is_err());
}

#[test]
fn payload_test_create_payload_with_empty_content() {
    let result = Payload::new("".to_string(), None, None);
    assert!(result.is_err());
}

#[test]
fn test_mark_viewed_updates_viewed_at() {
    let mut payload = Payload::new("Test content".to_string(), None, None).unwrap();
    assert!(payload.viewed_at().is_none());

    payload.mark_viewed();
    assert!(payload.viewed_at().is_some());
}

#[test]
fn test_payload_expires() {
    let an_hour_ago = Timestamp { seconds: now().seconds - 3600, nanos: 0 };
    let payload = Payload::new("Test content".to_string(), None, Some(an_hour_ago)).unwrap();

    assert!(payload.is_expired());
}

#[test]
fn assembled_payload_has_exactly_the_given_parts() {
    let at = Timestamp { seconds: 1_700_000_000, nanos: 5 };
    let payload = Payload::assemble(
        "hello".to_string(),
        Some("image/png".to_string()),
        None,
        at,
        HashId::from_string("abc".to_string()),
    )
    .unwrap();
    assert_eq!(payload.hash_id().as_string(), "abc");
    assert_eq!(payload.content(), "hello");
    assert_eq!(*payload.mime_type(), MimeType::ImagePng);
    assert_eq!(payload.created_at(), at);
    assert_eq!(payload.updated_at(), at);
    assert_eq!(payload.viewed_at(), None);
    assert_eq!(payload.expiry_time(), Timestamp { seconds: 1_700_086_400, nanos: 5 });
}

#[test]
fn given_expiry_is_kept() {
    let at = Timestamp { seconds: 100, nanos: 0 };
    let until = Timestamp { seconds: 160, nanos: 7 };
    let payload = Payload::assemble(
        "x".to_string(),
        None,
        Some(until),
        at,
        HashId::from_string("id".to_string()),
    )
    .unwrap();
    assert_eq!(payload.expiry_time(), until);
    assert_eq!(*payload.mime_type(), MimeType::TextPlain);
}

#[test]
fn default_expiry_stops_at_the_last_second() {
    let at = Timestamp { seconds: i64::MAX - 10, nanos: 1 };
    let payload =
        Payload::assemble("x".to_string(), None, None, at, HashId::from_string("id".to_string()))
            .unwrap();
    assert_eq!(payload.expiry_time(), Timestamp { seconds: i64::MAX, nanos: 1 });
}

#[test]
fn empty_content_is_refused_before_the_mime_type() {
    let at = Timestamp { seconds: 0, nanos: 0 };
    let made = Payload::assemble(
        String::new(),
        Some("invalid/type".to_string()),
        None,
        at,
        HashId::from_string("id".to_string()),
    );
    assert_eq!(made, Err(PayloadError::EmptyContent));
}

#[test]
fn unsupported_mime_type_is_named_in_the_error() {
    let at = Timestamp { seconds: 0, nanos: 0 };
    let made = Payload::assemble(
        "x".to_string(),
        Some("invalid/type".to_string()),
        None,
        at,
        HashId::from_string("id".to_string()),
    );
    let expected = PayloadError::InvalidMimeType(MimeTypeError::UnsupportedMimeType(
        "invalid/type".to_string(),
    ));
    assert_eq!(made, Err(expected.clone()));
    assert_eq!(expected.to_string(), "Invalid MIME type: Unsupported MIME type: invalid/type");
}

#[test]
fn payload_error_messages() {
    assert_eq!(PayloadError::Expired.to_string(), "Payload has expired");
    assert_eq!(PayloadError::EmptyContent.to_string(), "Content cannot be empty");
}

#[test]
fn expiry_is_strict_and_counts_nanoseconds() {
    let at = Timestamp { seconds: 100, nanos: 0 };
    let until = Timestamp { seconds: 200, nanos: 50 };
    let payload = Payload::assemble(
        "x".to_string(),
        None,
        Some(until),
        at,
        HashId::from_string("id".to_string()),
    )
    .unwrap();
    assert!(!payload.is_expired_at(Timestamp { seconds: 199, nanos: 999 }));
    assert!(!payload.is_expired_at(Timestamp { seconds: 200, nanos: 50 }));
    assert!(payload.is_expired_at(Timestamp { seconds: 200, nanos: 51 }));
    assert!(payload.is_expired_at(Timestamp { seconds: 201, nanos: 0 }));
}

#[test]
fn marking_viewed_changes_nothing_else() {
    let at = Timestamp { seconds: 100, nanos: 0 };
    let mut payload =
        Payload::assemble("x".to_string(), None, None, at, HashId::from_string("id".to_string()))
            .unwrap();
    let before = payload.clone();
    let seen = Timestamp { seconds: 150, nanos: 3 };
    payload.mark_viewed_at(seen);
    assert_eq!(payload.viewed_at(), Some(seen));
    assert_eq!(
        payload,
        Payload::from_parts(
            before.hash_id().clone(),
            before.content().to_string(),
            *before.mime_type(),
            before.created_at(),
            before.updated_at(),
            Some(seen),
            before.expiry_time(),
        )
    );
}

#[test]
fn new_payload_gets_a_uuid_and_a_day() {
    let before = now();
    let payload = Payload::new("x".to_string(), None, None).unwrap();
    assert_eq!(payload.hash_id().as_string().len(), 32);
    assert_eq!(payload.created_at(), payload.updated_at());
    assert!(payload.created_at().seconds >= before.seconds);
    assert_eq!(payload.expiry_time().seconds, payload.created_at().seconds + 86_400);
}

#[test]
fn timestamps_compare_add_and_subtract() {
    let a = Timestamp { seconds: 10, nanos: 5 };
    let b = Timestamp { seconds: 10, nanos: 6 };
    assert!(b.after(&a));
    assert!(!a.after(&b));
    assert!(!a.after(&a));
    assert_eq!(a.plus_seconds(5), Timestamp { seconds: 15, nanos: 5 });
    assert_eq!(Timestamp { seconds: -5, nanos: 0 }.unix_seconds(), 0);
    assert_eq!(Timestamp { seconds: 42, nanos: 9 }.unix_seconds(), 42);
    assert_eq!(Timestamp { seconds: 42, nanos: 0 }.seconds_since(&a), Some(32));
    assert_eq!(a.seconds_since(&b), None);
    assert_eq!(
        Timestamp { seconds: i64::MAX, nanos: 0 }.seconds_since(&Timestamp {
            seconds: i64::MIN,
            nanos: 0
        }),
        Some(u64::MAX)
    );
}
