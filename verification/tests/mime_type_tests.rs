use jump::domain::mime_type::{MimeType, MimeTypeError};

#[test]
fn test_supported_types_contains_required_types() {
    let types = MimeType::supported_types();
    assert!(types.contains(&"text/plain"));
    assert!(types.contains(&"text/html"));
    assert!(types.contains(&"application/json"));
    assert!(types.contains(&"image/jpeg"));
    assert!(types.contains(&"image/png"));
    assert!(types.contains(&"image/gif"));
}

#[test]
fn test_valid_mime_type_conversion() {
    assert_eq!(MimeType::try_from("text/plain").unwrap(), MimeType::TextPlain);
    assert_eq!(MimeType::try_from("text/html").unwrap(), MimeType::TextHtml);
    assert_eq!(
        MimeType::try_from("application/json").unwrap(),
        MimeType::ApplicationJson
    );
}

#[test]
fn test_invalid_mime_type_conversion() {
    assert!(MimeType::try_from("application/pdf").is_err());
    assert!(MimeType::try_from("invalid").is_err());
}

#[test]
fn test_mime_type_display() {
    assert_eq!(MimeType::TextPlain.to_string(), "text/plain");
    assert_eq!(MimeType::ApplicationJson.to_string(), "application/json");
}

#[test]
fn test_is_supported() {
    assert!(MimeType::is_supported("text/plain"));
    assert!(MimeType::is_supported("application/json"));
    assert!(!MimeType::is_supported("application/pdf"));
}

#[test]
fn supported_types_are_six_in_order() {
    assert_eq!(
        MimeType::supported_types(),
        vec!["text/plain", "text/html", "application/json", "image/jpeg", "image/png", "image/gif"]
    );
}

#[test]
fn every_type_reads_back_from_its_name() {
    let all = [
        MimeType::TextPlain,
        MimeType::TextHtml,
        MimeType::ApplicationJson,
        MimeType::ImageJpeg,
        MimeType::ImagePng,
        MimeType::ImageGif,
    ];
    for (i, mime) in all.iter().enumerate() {
        assert_eq!(MimeType::try_from(mime.as_str()), Ok(*mime));
        assert_eq!(mime.to_string(), MimeType::supported_types()[i]);
        assert!(MimeType::is_supported(mime.as_str()));
    }
}

#[test]
fn unsupported_type_is_handed_back_in_the_error() {
    let error = MimeType::try_from("application/pdf").unwrap_err();
    assert_eq!(error, MimeTypeError::UnsupportedMimeType("application/pdf".to_string()));
    assert_eq!(error.to_string(), "Unsupported MIME type: application/pdf");
    assert!(error.to_string().contains("Unsupported MIME type"));
}

#[test]
fn names_are_matched_exactly() {
    assert!(!MimeType::is_supported(""));
    assert!(!MimeType::is_supported("Text/Plain"));
    assert!(!MimeType::is_supported("text/plain "));
    assert!(MimeType::try_from("image/jpg").is_err());
}
