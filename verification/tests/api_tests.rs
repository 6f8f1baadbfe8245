use jump::api::http::Severity;
use jump::api::middleware::error::{json_error_response, ErrorResponse, ResponseNote};
use jump::api::middleware::rate_limit::{admission_for, client_key, Admission};
use jump::api::middleware::{ErrorHandlerMiddleware, RateLimitMiddleware};
use jump::api::v1::payload::{
    create_payload_reply, delete_payload_reply, get_payload_reply, size_refusal, Reply,
    MAX_PAYLOAD_SIZE,
};
use jump::application::dtos::{CreatePayloadRequest, PayloadDetails};
use jump::application::use_cases::{
    new_payload, payload_for, retrieval_error, retrieve, retrieve_at, Retrieval, UseCaseError,
};
use jump::domain::hash_id::HashId;
use jump::domain::mime_type::MimeTypeError;
use jump::domain::payload::{Payload, PayloadError};
use jump::domain::time::Timestamp;
use jump::infrastructure::logging::middleware::{or_unknown, Completion};
use jump::infrastructure::logging::{Level, LoggingConfig, RequestLogger};
use jump::infrastructure::rate_limit::{
    InMemoryRateLimiter, MemoryStore, RateLimitConfig, RateLimitError, StoreError,
};
use jump::infrastructure::redis::{payload_key, save_ttl, RedisConfig};

fn details() -> PayloadDetails {
    PayloadDetails {
        hash_id: "abc".to_string(),
        content: "hello".to_string(),
        mime_type: "text/plain".to_string(),
        created_at: Timestamp { seconds: 1, nanos: 0 },
        updated_at: Timestamp { seconds: 1, nanos: 0 },
        viewed_at: None,
        expiry_time: Timestamp { seconds: 99, nanos: 0 },
    }
}

fn failed(status: u16, error: &str) -> Reply {
    Reply::Failed { status, error: error.to_string() }
}

fn request(content: &str, mime: Option<&str>) -> CreatePayloadRequest {
    CreatePayloadRequest {
        content: content.to_string(),
        mime_type: mime.map(|m| m.to_string()),
        expiry_time: None,
    }
}

#[test]
fn use_cases_test_create_payload_success() {
    let result = new_payload(request("test", Some("text/plain")));
    assert!(result.is_ok());
}

#[test]
fn use_cases_test_create_payload_validation_error() {
    let result = new_payload(request("", None));
    assert!(matches!(result, Err(UseCaseError::ValidationError(_))));
}

#[test]
fn use_cases_test_get_payload_success() {
    let payload = Payload::new("test".to_string(), Some("text/plain".to_string()), None).unwrap();
    assert!(matches!(retrieve(Some(payload)), Retrieval::SaveViewed(_, _)));
}

#[test]
fn use_cases_test_get_payload_not_found() {
    let outcome = retrieve(None);
    assert_eq!(retrieval_error(&outcome), Some(UseCaseError::NotFound));
}

#[test]
fn test_get_expired_payload() {
    let long_ago = Timestamp { seconds: 1, nanos: 0 };
    let payload = Payload::new("Expired content".to_string(), None, Some(long_ago)).unwrap();
    let outcome = retrieve(Some(payload));
    assert_eq!(outcome, Retrieval::DeleteExpired);
    assert_eq!(retrieval_error(&outcome), Some(UseCaseError::Expired));
}

#[test]
fn use_cases_tests_test_create_payload_with_invalid_mime_type() {
    let result = new_payload(request("Test content", Some("invalid/type")));
    assert!(result.is_err(), "Expected error for invalid MIME type");
    assert!(
        matches!(result, Err(UseCaseError::DomainError(_))),
        "Expected DomainError for invalid MIME type"
    );
}

#[test]
fn payload_for_validates_then_assembles() {
    let at = Timestamp { seconds: 10, nanos: 0 };
    let id = || HashId::from_string("id".to_string());
    let made = payload_for(request("hi", Some("text/html")), at, id()).unwrap();
    assert_eq!(made.content(), "hi");
    assert_eq!(made.hash_id().as_string(), "id");
    assert_eq!(made.created_at(), at);
    assert_eq!(
        payload_for(request("", None), at, id()),
        Err(UseCaseError::ValidationError("Content cannot be empty".to_string()))
    );
    assert_eq!(
        payload_for(request("hi", Some("nonsense")), at, id()),
        Err(UseCaseError::ValidationError("Invalid MIME type format".to_string()))
    );
    assert_eq!(
        payload_for(request("hi", Some("application/pdf")), at, id()),
        Err(UseCaseError::DomainError(PayloadError::InvalidMimeType(
            MimeTypeError::UnsupportedMimeType("application/pdf".to_string())
        )))
    );
}

#[test]
fn retrieval_marks_the_payload_as_viewed() {
    let at = Timestamp { seconds: 10, nanos: 0 };
    let payload =
        Payload::assemble("hi".to_string(), None, None, at, HashId::from_string("id".to_string()))
            .unwrap();
    let seen = Timestamp { seconds: 20, nanos: 0 };
    match retrieve_at(Some(payload.clone()), seen) {
        Retrieval::SaveViewed(viewed, response) => {
            assert_eq!(viewed.viewed_at(), Some(seen));
            assert_eq!(viewed.content(), payload.content());
            assert_eq!(response, PayloadDetails::of(&viewed));
            assert_eq!(response.viewed_at, Some(seen));
        }
        other => panic!("expected the payload, got {:?}", other),
    }
    let expiry = payload.expiry_time();
    assert!(matches!(retrieve_at(Some(payload.clone()), expiry), Retrieval::SaveViewed(_, _)));
    let late = Timestamp { seconds: expiry.seconds, nanos: expiry.nanos + 1 };
    assert_eq!(retrieve_at(Some(payload), late), Retrieval::DeleteExpired);
    assert_eq!(retrieve_at(None, seen), Retrieval::Missing);
}

#[test]
fn use_case_error_messages() {
    assert_eq!(
        UseCaseError::ValidationError("x".to_string()).to_string(),
        "Validation error: x"
    );
    assert_eq!(UseCaseError::NotFound.to_string(), "Payload not found");
    assert_eq!(UseCaseError::Expired.to_string(), "Payload has expired");
    assert_eq!(UseCaseError::RepositoryError("io".to_string()).to_string(), "Repository error: io");
    assert_eq!(
        UseCaseError::DomainError(PayloadError::EmptyContent).to_string(),
        "Domain error: Content cannot be empty"
    );
}

#[test]
fn creation_replies() {
    assert_eq!(
        create_payload_reply(Ok(details())),
        Reply::Created { hash_id: "abc".to_string(), expires_at: Timestamp { seconds: 99, nanos: 0 } }
    );
    assert_eq!(create_payload_reply(Ok(details())).status(), 201);
    assert_eq!(
        create_payload_reply(Err(UseCaseError::ValidationError("bad".to_string()))),
        failed(400, "bad")
    );
    assert_eq!(
        create_payload_reply(Err(UseCaseError::RepositoryError("secret".to_string()))),
        failed(500, "Internal server error")
    );
    assert_eq!(
        create_payload_reply(Err(UseCaseError::DomainError(PayloadError::EmptyContent))),
        failed(500, "Content cannot be empty")
    );
    assert_eq!(
        create_payload_reply(Err(UseCaseError::NotFound)),
        failed(500, "An unexpected error occurred")
    );
    assert_eq!(
        create_payload_reply(Err(UseCaseError::Expired)),
        failed(500, "An unexpected error occurred")
    );
}

#[test]
fn retrieval_replies() {
    assert_eq!(get_payload_reply(Ok(details())), Reply::Found(details()));
    assert_eq!(get_payload_reply(Ok(details())).status(), 200);
    assert_eq!(get_payload_reply(Err(UseCaseError::NotFound)), failed(404, "Payload not found"));
    assert_eq!(get_payload_reply(Err(UseCaseError::Expired)), failed(410, "Payload has expired"));
    assert_eq!(
        get_payload_reply(Err(UseCaseError::RepositoryError("io".to_string()))),
        failed(500, "An unexpected error occurred")
    );
}

#[test]
fn deletion_replies() {
    assert_eq!(delete_payload_reply(Ok(())), Reply::Deleted);
    assert_eq!(delete_payload_reply(Ok(())).status(), 204);
    assert_eq!(
        delete_payload_reply(Err(UseCaseError::RepositoryError("io".to_string()))),
        failed(404, "Payload not found")
    );
    assert_eq!(
        delete_payload_reply(Err(UseCaseError::NotFound)),
        failed(500, "An unexpected error occurred")
    );
}

#[test]
fn oversized_payload_is_refused() {
    assert_eq!(MAX_PAYLOAD_SIZE, 10_485_760);
    assert_eq!(size_refusal(MAX_PAYLOAD_SIZE), None);
    assert_eq!(
        size_refusal(MAX_PAYLOAD_SIZE + 1),
        Some(failed(400, "Payload too large, maximum size is 10485760 bytes"))
    );
}

#[test]
fn admissions() {
    assert_eq!(admission_for(Ok(())), Admission::Proceed);
    assert_eq!(
        admission_for(Err(RateLimitError::LimitExceeded(30))),
        Admission::Reject {
            status: 429,
            message: "Rate limit exceeded. Try again in 30 seconds".to_string(),
            retry_after: 30
        }
    );
    assert_eq!(
        admission_for(Err(RateLimitError::Redis("down".to_string()))),
        Admission::ProceedUnchecked("down".to_string())
    );
    assert!(Admission::Proceed.lets_through());
    assert!(Admission::ProceedUnchecked(String::new()).lets_through());
    assert!(!admission_for(Err(RateLimitError::LimitExceeded(1))).lets_through());
    assert_eq!(Admission::Proceed.severity(), Severity::Debug);
    assert_eq!(Admission::ProceedUnchecked(String::new()).severity(), Severity::Error);
    assert_eq!(admission_for(Err(RateLimitError::LimitExceeded(1))).severity(), Severity::Warn);
}

#[test]
fn client_key_defaults_to_unknown() {
    assert_eq!(client_key(Some("10.0.0.1")), "10.0.0.1");
    assert_eq!(client_key(None), "unknown");
}

#[test]
fn middleware_turns_away_after_the_quota_and_fails_open() {
    let limiter =
        InMemoryRateLimiter::new(RateLimitConfig { max_requests: 2, window_seconds: 3600 });
    let mut middleware = RateLimitMiddleware::new(limiter);
    assert_eq!(middleware.screen(Some("1.2.3.4")), Admission::Proceed);
    assert_eq!(middleware.screen(Some("1.2.3.4")), Admission::Proceed);
    assert!(matches!(
        middleware.screen(Some("1.2.3.4")),
        Admission::Reject { status: 429, .. }
    ));
    assert_eq!(middleware.screen(None), Admission::Proceed);

    let mut store = MemoryStore::new();
    store.fail_after(0, StoreError::Connection);
    let limiter = InMemoryRateLimiter::with_store(store, RateLimitConfig::default());
    let mut middleware = RateLimitMiddleware::new(limiter);
    assert_eq!(
        middleware.screen(Some("1.2.3.4")),
        Admission::ProceedUnchecked("connection failure".to_string())
    );
}

#[test]
fn error_response_line_and_status() {
    let response = ErrorResponse {
        status: 404,
        message: "gone".to_string(),
        code: None,
        request_id: None,
    };
    assert_eq!(response.to_string(), "404: gone");
    assert_eq!(response.status_code(), 404);
    for (status, sent) in [(99u16, 500u16), (100, 100), (999, 999), (1000, 500), (0, 500)] {
        let response =
            ErrorResponse { status, message: String::new(), code: None, request_id: None };
        assert_eq!(response.status_code(), sent);
    }
}

#[test]
fn json_errors_are_bad_requests() {
    assert_eq!(
        json_error_response("expected value"),
        ErrorResponse {
            status: 400,
            message: "JSON error: expected value".to_string(),
            code: Some("INVALID_JSON".to_string()),
            request_id: None,
        }
    );
}

#[test]
fn error_handler_notes_errors() {
    let handler = ErrorHandlerMiddleware::new();
    assert_eq!(handler, ErrorHandlerMiddleware::default());
    for (status, note) in [
        (200u16, ResponseNote::Silent),
        (399, ResponseNote::Silent),
        (400, ResponseNote::ClientError),
        (499, ResponseNote::ClientError),
        (500, ResponseNote::ServerError),
        (599, ResponseNote::ServerError),
        (600, ResponseNote::Silent),
    ] {
        assert_eq!(handler.note(status), note, "{}", status);
    }
    assert_eq!(ResponseNote::Silent.severity(), None);
    assert_eq!(ResponseNote::ClientError.severity(), Some(Severity::Warn));
    assert_eq!(ResponseNote::ServerError.severity(), Some(Severity::Error));
    assert_eq!(ResponseNote::ClientError.message(), "Client error");
    assert_eq!(ResponseNote::ServerError.message(), "Server error");
    assert_eq!(ResponseNote::Silent.message(), "");
}

#[test]
fn request_logger_notes_completions() {
    let logger = RequestLogger::new(true);
    assert!(logger.log_bodies());
    assert!(!RequestLogger::new(false).log_bodies());
    for (status, completion) in [
        (199u16, Completion::Other),
        (200, Completion::Succeeded),
        (299, Completion::Succeeded),
        (300, Completion::Other),
        (404, Completion::Other),
        (500, Completion::ServerFailed),
        (599, Completion::ServerFailed),
        (600, Completion::Other),
    ] {
        assert_eq!(logger.completion(status), completion, "{}", status);
    }
    assert_eq!(Completion::Succeeded.severity(), Severity::Info);
    assert_eq!(Completion::Other.severity(), Severity::Info);
    assert_eq!(Completion::ServerFailed.severity(), Severity::Warn);
    assert_eq!(Completion::Succeeded.message(), "Request completed successfully");
    assert_eq!(Completion::ServerFailed.message(), "Request failed with server error");
    assert_eq!(Completion::Other.message(), "Request completed with non-success status");
    assert_eq!(or_unknown(Some("curl/8")), "curl/8");
    assert_eq!(or_unknown(None), "unknown");
}

#[test]
fn logging_defaults_and_filter() {
    let config = LoggingConfig::default();
    assert_eq!(config, LoggingConfig { level: Level::Info, json_format: false, log_bodies: false });
    assert_eq!(config.filter_directive(), "jump=INFO,actix_web=info,actix_server=info");
    let debug = LoggingConfig { level: Level::Debug, json_format: true, log_bodies: true };
    assert_eq!(debug.filter_directive(), "jump=DEBUG,actix_web=info,actix_server=info");
    assert_eq!(Level::Trace.as_str(), "TRACE");
    assert_eq!(Level::Warn.as_str(), "WARN");
    assert_eq!(Level::Error.as_str(), "ERROR");
}

#[test]
fn redis_defaults_keys_and_lifetimes() {
    assert_eq!(
        RedisConfig::default(),
        RedisConfig {
            url: "redis://localhost:6379".to_string(),
            pool_max_size: 16,
            connection_timeout: 5
        }
    );
    assert_eq!(payload_key(&HashId::from_string("abc".to_string())), "payload:abc");
    let at = Timestamp { seconds: 100, nanos: 900 };
    let payload = Payload::assemble(
        "x".to_string(),
        None,
        Some(Timestamp { seconds: 160, nanos: 0 }),
        at,
        HashId::from_string("id".to_string()),
    )
    .unwrap();
    assert_eq!(save_ttl(&payload, at), Some(60));
    assert_eq!(save_ttl(&payload, Timestamp { seconds: 159, nanos: 0 }), Some(1));
    assert_eq!(save_ttl(&payload, Timestamp { seconds: 160, nanos: 0 }), None);
    assert_eq!(save_ttl(&payload, Timestamp { seconds: 500, nanos: 0 }), None);
}

fn saved(repository: &mut Vec<Payload>, payload: &Payload) {
    repository.retain(|p| p.hash_id() != payload.hash_id());
    repository.push(payload.clone());
}

#[test]
fn test_create_payload_with_valid_data() {
    let mut repository: Vec<Payload> = Vec::new();
    let result = new_payload(request("Test content", Some("text/plain")));
    assert!(result.is_ok(), "Expected successful payload creation");
    let payload = result.unwrap();
    saved(&mut repository, &payload);
    let response = PayloadDetails::of(&payload);
    assert!(!response.hash_id.is_empty(), "Expected non-empty hash ID");
    let now = chrono::Utc::now().timestamp();
    assert!(response.expiry_time.seconds > now, "Expected future expiry time");
    assert_eq!(repository.len(), 1, "Expected one payload in repository");
}

#[test]
fn test_create_payload_with_custom_expiry() {
    let t = chrono::Utc::now() + chrono::Duration::hours(2);
    let custom_expiry = Timestamp { seconds: t.timestamp(), nanos: t.timestamp_subsec_nanos() };
    let result = new_payload(CreatePayloadRequest {
        content: "Test content".to_string(),
        mime_type: Some("text/plain".to_string()),
        expiry_time: Some(custom_expiry),
    });
    assert!(result.is_ok(), "Expected successful payload creation");
    let response = PayloadDetails::of(&result.unwrap());
    assert_eq!(response.expiry_time, custom_expiry, "Expected custom expiry time");
}

#[test]
fn use_cases_tests_test_create_payload_with_empty_content() {
    let repository: Vec<Payload> = Vec::new();
    let result = new_payload(request("", Some("text/plain")));
    assert!(result.is_err(), "Expected error for empty content");
    assert_eq!(
        result,
        Err(UseCaseError::ValidationError("Content cannot be empty".to_string()))
    );
    assert_eq!(repository.len(), 0, "Expected no payloads in repository");
}

#[test]
fn test_get_payload_with_valid_id() {
    let mut repository: Vec<Payload> = Vec::new();
    let payload =
        Payload::new("Test content".to_string(), Some("text/plain".to_string()), None).unwrap();
    saved(&mut repository, &payload);
    let found = repository.iter().find(|p| p.hash_id() == payload.hash_id()).cloned();
    match retrieve(found) {
        Retrieval::SaveViewed(viewed, response) => {
            saved(&mut repository, &viewed);
            assert_eq!(response.content, "Test content", "Expected matching content");
            assert_eq!(response.mime_type, "text/plain", "Expected matching MIME type");
            assert!(repository[0].viewed_at().is_some());
        }
        other => panic!("Expected successful payload retrieval, got {:?}", other),
    }
}

#[test]
fn test_get_payload_with_nonexistent_id() {
    let repository: Vec<Payload> = Vec::new();
    let wanted = HashId::from_string("nonexistent-id".to_string());
    let found = repository.iter().find(|p| *p.hash_id() == wanted).cloned();
    let outcome = retrieve(found);
    assert!(retrieval_error(&outcome).is_some(), "Expected error for nonexistent ID");
    assert_eq!(
        retrieval_error(&outcome),
        Some(UseCaseError::NotFound),
        "Expected NotFound error for nonexistent ID"
    );
}
