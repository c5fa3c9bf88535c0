use axum::http::header::RETRY_AFTER;
use axum::http::{HeaderMap, HeaderName, HeaderValue};
use chrono::Utc;

use rate_limit::audit::{BypassSpikeState, BYPASS_WINDOW_SECS};
use rate_limit::bucket::RateLimitDecision;
use rate_limit::clock::{Moment, Span};
use rate_limit::config::{RateLimitConfig, BURST_WINDOW_SECONDS};
use rate_limit::lookup::{TextMap, TextSet};
use rate_limit::request::{address_texts, AddrReading, AddressClues, RequestHead, RequestHeaders};
use rate_limit::response::{attach_admission_headers, attach_refusal_headers};
use rate_limit::routes::{is_exempt_path, scale_limit_by_page_size};
use rate_limit::state::{rate_limit_middleware, Admission, RateLimitState};
use rate_limit::tier::BypassKind;

/// The reading of a text that spells an IP address.
fn ip_reading(text: &str) -> AddrReading {
    AddrReading { ip: Some(text.to_string()), socket_ip: None }
}

/// The head of a request to a target with those headers.
fn request(method: &str, target: &str, headers: &[(&'static str, &str)]) -> RequestHead {
    let mut map: HeaderMap<HeaderValue> = HeaderMap::new();
    for (name, value) in headers {
        map.insert(HeaderName::from_static(name), HeaderValue::from_str(value).unwrap());
    }
    let read = RequestHeaders::read(&map);
    let texts = address_texts(&read);
    let clues = AddressClues {
        forwarded: texts.forwarded.iter().map(|entry| ip_reading(entry)).collect(),
        real_ip: texts.real_ip.as_ref().map(|text| ip_reading(text)),
        peer_ip: None,
    };
    let (path, query) = match target.split_once('?') {
        Some((path, query)) => (path, Some(query.to_string())),
        None => (target, None),
    };
    RequestHead::new(method.to_string(), path.to_string(), query, read, &clues)
}

/// What a client sees of a response.
struct Reply {
    limited: bool,
    headers: HeaderMap<HeaderValue>,
    error_code: Option<String>,
    limit_type: Option<String>,
}

impl Reply {
    fn header(&self, name: &str) -> Option<&str> {
        self.headers.get(name).and_then(|value| value.to_str().ok())
    }
}

fn call(limiter: &mut RateLimitState, head: &RequestHead, now: Moment) -> Reply {
    let mut headers: HeaderMap<HeaderValue> = HeaderMap::new();
    match rate_limit_middleware(limiter, head, now) {
        Admission::Bypass(_) | Admission::Exempt => {
            Reply { limited: false, headers, error_code: None, limit_type: None }
        }
        Admission::Admitted { decision, tier } => {
            assert!(attach_admission_headers(&mut headers, &decision, &tier));
            Reply { limited: false, headers, error_code: None, limit_type: None }
        }
        Admission::Refused { decision, tier, refusal } => {
            assert!(attach_refusal_headers(&mut headers, &decision, &tier));
            Reply {
                limited: true,
                headers,
                error_code: Some(refusal.error_code.to_string()),
                limit_type: Some(refusal.limit_type.to_string()),
            }
        }
    }
}

fn at_millis(millis: u64) -> Moment {
    Moment { nanos: millis * 1_000_000 }
}

fn limiter_for_tests(anonymous_limit: u32, auth_limit: u32, window: Span) -> RateLimitState {
    RateLimitState::new(RateLimitConfig::for_tests(anonymous_limit, auth_limit, window))
}

fn limiter_with_write(read_limit: u32, write_limit: u32, window: Span) -> RateLimitState {
    RateLimitState::new(RateLimitConfig::for_tests_with_write(
        read_limit,
        read_limit,
        write_limit,
        write_limit,
        window,
    ))
}

fn config_with_trust(limit: u32, write: u32, write_auth: u32, ip: &str, key: &str) -> RateLimitConfig {
    let mut trusted_client_ips = TextSet::new();
    if !ip.is_empty() {
        trusted_client_ips.insert(ip.to_string());
    }
    let mut trusted_api_keys = TextSet::new();
    if !key.is_empty() {
        trusted_api_keys.insert(key.to_string());
    }
    RateLimitConfig {
        anonymous_limit: limit,
        auth_limit: limit,
        write_anonymous_limit: write,
        write_auth_limit: write_auth,
        window: Span::from_secs(60),
        enterprise_limit: 100_000,
        burst_window: Span::from_secs(BURST_WINDOW_SECONDS),
        per_api_key_limits: TextMap::new(),
        trusted_client_ips,
        trusted_api_keys,
    }
}

#[test]
fn anonymous_user_gets_429_on_1001st_request() {
    let mut app = limiter_for_tests(1_000, 1_000, Span::from_secs(3600));
    let head = request("GET", "/read", &[("x-forwarded-for", "203.0.113.10")]);

    for i in 0..1_000 {
        let response = call(&mut app, &head, at_millis(i));
        assert!(!response.limited);
    }

    let response = call(&mut app, &head, at_millis(1_000));
    assert!(response.limited);
    assert!(response.headers.contains_key(RETRY_AFTER));
}

#[test]
fn authenticated_user_gets_429_on_1001st_request() {
    let mut app = limiter_for_tests(100, 1_000, Span::from_secs(60));
    let head = request(
        "GET",
        "/read",
        &[("authorization", "Bearer token-abc"), ("x-forwarded-for", "203.0.113.25")],
    );

    for i in 0..1_000 {
        let response = call(&mut app, &head, at_millis(i));
        assert!(!response.limited);
    }

    let response = call(&mut app, &head, at_millis(1_000));
    assert!(response.limited);
    assert!(response.headers.contains_key(RETRY_AFTER));
}

#[test]
fn includes_rate_limit_headers_on_success_and_429() {
    let mut app = limiter_for_tests(1, 10, Span::from_secs(60));
    let head = request("GET", "/read", &[("x-forwarded-for", "198.51.100.22")]);

    let ok_response = call(&mut app, &head, at_millis(0));
    assert!(!ok_response.limited);
    assert!(ok_response.headers.contains_key("x-ratelimit-limit"));
    assert!(ok_response.headers.contains_key("x-ratelimit-remaining"));
    assert!(ok_response.headers.contains_key("x-ratelimit-reset"));

    let limited_response = call(&mut app, &head, at_millis(1));
    assert!(limited_response.limited);
    assert!(limited_response.headers.contains_key("x-ratelimit-limit"));
    assert!(limited_response.headers.contains_key("x-ratelimit-remaining"));
    assert!(limited_response.headers.contains_key("x-ratelimit-reset"));
    assert!(limited_response.headers.contains_key(RETRY_AFTER));
    assert_eq!(limited_response.error_code.as_deref(), Some("RATE_LIMITED"));
}

#[test]
fn retry_after_header_is_present_and_reasonable() {
    let mut app = limiter_for_tests(1, 10, Span::from_secs(2));
    let head = request("GET", "/read", &[("x-forwarded-for", "192.0.2.44")]);

    let _first = call(&mut app, &head, at_millis(0));
    let second = call(&mut app, &head, at_millis(5));
    assert!(second.limited);
    let retry_after: u64 =
        second.header("retry-after").and_then(|value| value.parse().ok()).unwrap_or(0);
    assert!((1..=2).contains(&retry_after));
}

#[test]
fn rate_limit_headers_show_remaining_quota() {
    let mut app = limiter_for_tests(2, 10, Span::from_secs(60));
    let head = request("GET", "/read", &[("x-forwarded-for", "192.0.2.44")]);

    let first = call(&mut app, &head, at_millis(0));
    assert!(!first.limited);
    assert_eq!(first.header("x-ratelimit-remaining").unwrap_or(""), "1");

    let second = call(&mut app, &head, at_millis(1));
    assert!(!second.limited);
    assert_eq!(second.header("x-ratelimit-remaining").unwrap_or(""), "0");

    let third = call(&mut app, &head, at_millis(2));
    assert!(third.limited);
    assert_eq!(third.header("x-ratelimit-remaining").unwrap_or(""), "0");
}

#[test]
fn contracts_rate_limit_scales_down_for_large_page_sizes() {
    let mut app = limiter_for_tests(100, 20, Span::from_secs(60));
    let ip = "198.51.100.77";
    let head = request("GET", "/api/contracts?limit=1000", &[("x-forwarded-for", ip)]);

    for i in 0..5 {
        let response = call(&mut app, &head, at_millis(i));
        assert!(!response.limited);
        assert_eq!(response.header("x-ratelimit-limit"), Some("5"));
    }

    let limited = call(&mut app, &head, at_millis(5));
    assert!(limited.limited);
}

#[test]
fn page_size_scaling_uses_default_page_size_baseline() {
    assert_eq!(scale_limit_by_page_size(100, 50), 100);
    assert_eq!(scale_limit_by_page_size(100, 51), 50);
    assert_eq!(scale_limit_by_page_size(100, 1000), 5);
}

#[test]
fn eviction_removes_expired_buckets() {
    let window = Span::from_millis(100);
    let mut state = limiter_for_tests(10, 10, window);

    let req = request("GET", "/read", &[("x-forwarded-for", "10.0.0.1")]);
    let (hourly, burst, key, _tier) = state.select_limit_and_key(&req);
    let _: RateLimitDecision = state.check_request(key, hourly, burst, at_millis(0));
    assert_eq!(state.buckets.len(), 1);

    // More than two window lengths later the bucket qualifies for eviction.
    assert_eq!(state.evict_expired(at_millis(300)), 1);
    assert_eq!(state.buckets.len(), 0);
}

#[test]
fn write_requests_use_tighter_limit_than_reads() {
    let mut app = limiter_with_write(100, 2, Span::from_secs(60));
    let ip = "198.51.100.99";
    let write = request("POST", "/write", &[("x-forwarded-for", ip)]);
    let read = request("GET", "/read", &[("x-forwarded-for", ip)]);

    for i in 0..2 {
        let response = call(&mut app, &write, at_millis(i));
        assert!(!response.limited, "first two write requests should not be rate limited");
    }

    let limited = call(&mut app, &write, at_millis(2));
    assert!(limited.limited);
    assert!(limited.headers.contains_key(RETRY_AFTER));

    let read_response = call(&mut app, &read, at_millis(3));
    assert!(!read_response.limited);
}

#[test]
fn write_limit_response_body_contains_limit_type_write() {
    let mut app = limiter_with_write(100, 1, Span::from_secs(60));
    let ip = "203.0.113.55";
    let write = request("POST", "/write", &[("x-forwarded-for", ip)]);

    call(&mut app, &write, at_millis(0));
    let response = call(&mut app, &write, at_millis(1));
    assert!(response.limited);
    assert_eq!(response.limit_type.as_deref(), Some("write"));
}

#[test]
fn health_endpoint_is_not_rate_limited() {
    let mut app = limiter_with_write(1, 1, Span::from_secs(60));
    let head = request("GET", "/health", &[("x-forwarded-for", "192.0.2.1")]);
    for i in 0..20 {
        let response = call(&mut app, &head, at_millis(i));
        assert!(!response.limited, "request {i} to /health should not be rate limited");
    }
}

#[test]
fn health_ready_endpoint_is_exempt() {
    let mut app = limiter_with_write(1, 1, Span::from_secs(60));
    let head = request("GET", "/health/ready", &[("x-forwarded-for", "192.0.2.2")]);
    for i in 0..5 {
        let response = call(&mut app, &head, at_millis(i));
        assert!(!response.limited, "request {i} to /health/ready should not be rate limited");
    }
}

#[test]
fn metrics_endpoint_is_exempt() {
    let mut app = limiter_with_write(1, 1, Span::from_secs(60));
    let head = request("GET", "/metrics", &[("x-forwarded-for", "192.0.2.3")]);
    for i in 0..5 {
        let response = call(&mut app, &head, at_millis(i));
        assert!(!response.limited, "request {i} to /metrics should not be rate limited");
    }
}

#[test]
fn admin_endpoint_is_exempt_from_rate_limiting() {
    let mut app = limiter_with_write(1, 1, Span::from_secs(60));
    let head = request("GET", "/api/admin/audit-logs", &[("x-forwarded-for", "192.0.2.4")]);
    for i in 0..5 {
        let response = call(&mut app, &head, at_millis(i));
        assert!(!response.limited, "request {i} to /api/admin/* should not be rate limited");
    }
}

#[test]
fn is_exempt_path_recognises_health_metrics_and_admin() {
    assert!(is_exempt_path("/health"));
    assert!(is_exempt_path("/health/live"));
    assert!(is_exempt_path("/health/ready"));
    assert!(is_exempt_path("/health/detailed"));
    assert!(is_exempt_path("/metrics"));
    assert!(is_exempt_path("/api/admin/migrations/status"));
    assert!(!is_exempt_path("/api/contracts"));
    assert!(!is_exempt_path("/api/contracts/verify"));
    assert!(!is_exempt_path("/api/publishers"));
}

#[test]
fn trusted_ip_is_never_rate_limited() {
    let trusted_ip = "10.0.0.1";
    let mut app = RateLimitState::new(config_with_trust(1, 1, 1, trusted_ip, ""));
    let head = request("GET", "/read", &[("x-forwarded-for", trusted_ip)]);
    for i in 0..10 {
        let response = call(&mut app, &head, at_millis(i));
        assert!(!response.limited, "trusted IP should never be rate limited (request {i})");
    }
}

#[test]
fn trusted_api_key_is_never_rate_limited() {
    let trusted_key = "trusted-secret-key-abc";
    let mut app = RateLimitState::new(config_with_trust(1, 1, 1, "", trusted_key));
    let head = request(
        "GET",
        "/read",
        &[("x-api-key", trusted_key), ("x-forwarded-for", "192.0.2.99")],
    );
    for i in 0..10 {
        let response = call(&mut app, &head, at_millis(i));
        assert!(!response.limited, "trusted API key should never be rate limited (request {i})");
    }
}

#[test]
fn untrusted_ip_is_still_rate_limited_when_trusted_ip_exists() {
    let trusted_ip = "10.0.0.1";
    let untrusted_ip = "1.2.3.4";
    let mut app = RateLimitState::new(config_with_trust(1, 1, 1, trusted_ip, ""));
    let head = request("GET", "/read", &[("x-forwarded-for", untrusted_ip)]);

    let first = call(&mut app, &head, at_millis(0));
    assert!(!first.limited);

    let second = call(&mut app, &head, at_millis(1));
    assert!(second.limited, "untrusted IP should still be rate limited");
}

#[test]
fn bypass_kind_returns_trusted_ip_for_whitelisted_ip() {
    let config = config_with_trust(100, 10, 30, "10.1.2.3", "");
    let req = request("GET", "/read", &[("x-forwarded-for", "10.1.2.3")]);
    assert_eq!(config.bypass_kind(&req), Some(BypassKind::TrustedIp));
    assert!(config.is_whitelisted(&req));
}

#[test]
fn bypass_kind_returns_trusted_api_key_for_whitelisted_key() {
    let config = config_with_trust(100, 10, 30, "", "my-secret-key");
    let req = request(
        "GET",
        "/read",
        &[("x-api-key", "my-secret-key"), ("x-forwarded-for", "192.0.2.1")],
    );
    assert_eq!(config.bypass_kind(&req), Some(BypassKind::TrustedApiKey));
    assert!(config.is_whitelisted(&req));
}

#[test]
fn bypass_kind_returns_none_for_unknown_client() {
    let config = config_with_trust(100, 10, 30, "", "");
    let req = request("GET", "/read", &[("x-forwarded-for", "203.0.113.42")]);
    assert_eq!(config.bypass_kind(&req), None);
    assert!(!config.is_whitelisted(&req));
}

#[test]
fn bypass_spike_window_resets_after_expiry() {
    let mut state = BypassSpikeState {
        window_start_unix: Utc::now().timestamp() - BYPASS_WINDOW_SECS as i64 - 1,
        window_count: 50,
    };
    let count = state.record_and_count();
    assert_eq!(count, 1, "window should have reset; count should be 1");
}

#[test]
fn bypass_spike_window_increments_within_window() {
    let mut state = BypassSpikeState::new();
    assert_eq!(state.record_and_count(), 1);
    assert_eq!(state.record_and_count(), 2);
    assert_eq!(state.record_and_count(), 3);
}

#[test]
fn bypass_kind_identity_type_labels() {
    assert_eq!(BypassKind::TrustedIp.as_identity_type(), "ip");
    assert_eq!(BypassKind::TrustedApiKey.as_identity_type(), "api_key");
}
