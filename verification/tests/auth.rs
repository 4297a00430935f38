use jellyfin_exporter::auth::{is_authorized, ready_reply};
use jellyfin_exporter::collector::{Collector, CollectorConfig};

#[test]
fn metrics_auth_rejects_missing_token() {
    assert!(!is_authorized(None, Some("secret-token")));
}

#[test]
fn metrics_auth_rejects_wrong_token() {
    assert!(!is_authorized(Some("Bearer wrong-token"), Some("secret-token")));
}

#[test]
fn metrics_auth_rejects_short_token() {
    assert!(!is_authorized(Some("Bearer x"), Some("secret-token")));
}

#[test]
fn metrics_auth_accepts_correct_token() {
    assert!(is_authorized(Some("Bearer secret-token"), Some("secret-token")));
}

#[test]
fn no_token_configured_authorizes_everything() {
    assert!(is_authorized(None, None));
    assert!(is_authorized(Some("Bearer anything"), None));
    assert!(is_authorized(Some("garbage"), None));
}

#[test]
fn scheme_must_be_exactly_bearer() {
    assert!(!is_authorized(Some("bearer secret-token"), Some("secret-token")));
    assert!(!is_authorized(Some("Basic secret-token"), Some("secret-token")));
    assert!(!is_authorized(Some("Bearer  secret-token"), Some("secret-token")));
    assert!(!is_authorized(Some("secret-token"), Some("secret-token")));
}

#[test]
fn longer_token_rejected() {
    assert!(!is_authorized(Some("Bearer secret-token2"), Some("secret-token")));
}

#[test]
fn ready_unaffected_by_metrics_auth() {
    assert_eq!(ready_reply(true), (200, "ready"));
}

#[test]
fn not_ready_when_breaker_open() {
    assert_eq!(ready_reply(false), (503, "not ready"));
}

#[test]
fn ready_returns_200_when_circuit_closed() {
    let collector = Collector::new(&CollectorConfig {
        scrape_interval_ms: 60_000,
        failure_threshold: 5,
        reset_timeout_ms: 60_000,
        retry_max_attempts: 0,
        retry_base_delay_ms: 10,
        retry_max_delay_ms: 100,
        expose_remote_address: false,
    });
    assert_eq!(ready_reply(collector.is_ready()), (200, "ready"));
}
