use tlong::errors::{http_status_of, ServiceError};
use tlong::types::{detail_response, health_check, short_url_of, shorten_response};

#[test]
fn short_url_joins_base_and_code() {
    assert_eq!(short_url_of("http://0.0.0.0:8080", "abcdefgh"), "http://0.0.0.0:8080/abcdefgh");
}

#[test]
fn shorten_response_carries_all_fields() {
    let r = shorten_response(
        "https://sho.rt",
        String::from("abcdefgh"),
        String::from("https://example.com/a"),
    );
    assert_eq!(r.short_code, "abcdefgh");
    assert_eq!(r.short_url, "https://sho.rt/abcdefgh");
    assert_eq!(r.long_url, "https://example.com/a");
}

#[test]
fn detail_response_carries_all_fields() {
    let r = detail_response(
        "https://sho.rt",
        String::from("abcdefgh"),
        String::from("https://example.com/a"),
        String::from("2024-01-01 00:00:00 UTC"),
    );
    assert_eq!(r.short_code, "abcdefgh");
    assert_eq!(r.short_url, "https://sho.rt/abcdefgh");
    assert_eq!(r.long_url, "https://example.com/a");
    assert_eq!(r.created_at, "2024-01-01 00:00:00 UTC");
}

#[test]
fn health_reports_ok_and_version() {
    let (status, version) = health_check();
    assert_eq!(status, "ok");
    assert_eq!(version, "1.0.0");
}

#[test]
fn error_statuses_follow_the_taxonomy() {
    assert_eq!(http_status_of(&ServiceError::InvalidInput), 400);
    assert_eq!(http_status_of(&ServiceError::NotFound), 404);
    assert_eq!(http_status_of(&ServiceError::StoreUnavailable), 500);
    assert_eq!(http_status_of(&ServiceError::CacheUnavailable), 502);
}
