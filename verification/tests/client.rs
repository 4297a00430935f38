use jellyfin_exporter::client::{check_api_key, library_item_count_path, request_url, ClientError};

#[test]
fn request_url_joins_base_and_path() {
    assert_eq!(request_url("http://jellyfin:8096", "/Sessions"), "http://jellyfin:8096/Sessions");
}

#[test]
fn item_count_query() {
    assert_eq!(
        library_item_count_path("abc-123"),
        "/Items?ParentId=abc-123&Recursive=true&Limit=0&Fields=BasicSyncInfo"
    );
}

#[test]
fn send_failures_classified() {
    assert!(matches!(ClientError::send_failure(true, "x".into()), ClientError::Timeout));
    match ClientError::send_failure(false, "connection refused".into()) {
        ClientError::Http(d) => assert_eq!(d, "connection refused"),
        other => panic!("unexpected {other:?}"),
    }
}

#[test]
fn parse_and_key_failures_described() {
    assert_eq!(
        ClientError::parse_failure("/Sessions", "EOF").message(),
        "deserialization failed: failed to parse response from /Sessions: EOF"
    );
    assert_eq!(
        ClientError::invalid_api_key("bad char").message(),
        "deserialization failed: invalid API key header: bad char"
    );
}

#[test]
fn api_key_must_fit_a_header_value() {
    assert!(check_api_key("abc-123").is_ok());
    assert!(check_api_key("tab\tand é").is_ok());
    for bad in ["line\nbreak", "nul\0", "del\u{7f}"] {
        match check_api_key(bad) {
            Err(e) => assert_eq!(
                e.message(),
                "deserialization failed: invalid API key header: failed to parse header value"
            ),
            Ok(()) => panic!("{bad:?} accepted"),
        }
    }
}
