use axum::http::{HeaderMap, HeaderValue};
use chrono::{DateTime, Utc};

use rate_limit::audit::{
    alert_for_count, client_identity, describe_bypass, spike_alert, AlertSeverity,
    BypassSpikeState, BYPASS_SPIKE_THRESHOLD,
};
use rate_limit::bucket::BucketState;
use rate_limit::clock::{ceil_duration_to_seconds, Moment, Span};
use rate_limit::config::{
    env_u32, env_u32_with_fallback, env_u64, parse_csv_set, parse_key_limit_map,
    rejected_settings, RateLimitConfig,
};
use rate_limit::lookup::TextMap;
use rate_limit::request::{
    address_texts, extract_api_tier, extract_auth_token, extract_client_ip, header_text,
    normalize_token, parse_ip_addr, parse_x_forwarded_for, AddrReading, AddressClues, RequestHead,
    RequestHeaders,
};
use rate_limit::response::{
    attach_admission_headers, attach_rate_limit_headers, attach_refusal_headers,
    attach_tier_header, Refusal,
};
use rate_limit::routes::{
    contracts_page_size_rate_limit, endpoint_key, extract_page_size, is_contract_abi_endpoint,
    is_write_method, scale_limit_by_page_size, RequestClass,
};
use rate_limit::state::{rate_limit_middleware, Admission, BucketKey, RateLimitState};
use rate_limit::text;
use rate_limit::tier::{ApiTier, BypassKind};
use rate_limit::wall_clock::{timestamp_now, timestamp_text, utc_seconds_now, Timestamp};

fn secs(n: u64) -> Moment {
    Moment { nanos: n * 1_000_000_000 }
}

fn no_headers() -> RequestHeaders {
    RequestHeaders {
        x_forwarded_for: None,
        x_real_ip: None,
        x_api_key: None,
        authorization: None,
        x_api_plan: None,
    }
}

fn head(method: &str, path: &str, ip: &str) -> RequestHead {
    RequestHead {
        method: method.to_string(),
        path: path.to_string(),
        query: None,
        headers: no_headers(),
        client_ip: ip.to_string(),
    }
}

fn keyed_head(method: &str, path: &str, token: &str) -> RequestHead {
    let mut made = head(method, path, "192.0.2.7");
    made.headers.authorization = Some(token.to_string());
    made
}

fn env(vars: &[(&str, &str)]) -> TextMap<String> {
    let mut map = TextMap::new();
    for (name, value) in vars {
        map.insert(name.to_string(), value.to_string());
    }
    map
}

// ---------------------------------------------------------------------------
// Text
// ---------------------------------------------------------------------------

#[test]
fn trim_agrees_with_the_standard_library_on_every_character() {
    for c in '\0'..=char::MAX {
        let padded = format!("{c}a{c}b{c}");
        assert_eq!(text::trim(&padded), padded.trim());
    }
    assert_eq!(text::trim(" \t "), "");
    assert_eq!(text::trim(""), "");
}

#[test]
fn numerals_read_as_the_standard_library_reads_them() {
    for raw in [
        "", "+", "-", "0", "00", "7", "+7", "-7", "--7", "++7", " 7", "7 ", "4294967295",
        "4294967296", "+4294967295", "000000000000000000000012", "18446744073709551615",
        "18446744073709551616", "99999999999999999999999", "1a", "a1", "1.5", "１",
    ] {
        assert_eq!(text::parse_decimal(raw), raw.parse::<u64>().ok(), "{raw:?}");
        assert_eq!(text::parse_u32(raw), raw.parse::<u32>().ok(), "{raw:?}");
    }
}

#[test]
fn numbers_written_in_decimal_read_back() {
    for n in [0, 1, 9, 10, 99, 100, 1_000, 65_535, u32::MAX as u64, u64::MAX] {
        assert_eq!(text::decimal(n), n.to_string());
        assert_eq!(text::parse_decimal(&text::decimal(n)), Some(n));
    }
}

#[test]
fn splitting_and_joining() {
    assert_eq!(text::split("", ','), vec![""]);
    assert_eq!(text::split(",a,,b", ','), vec!["", "a", "", "b"]);
    let parts = text::split("é,日本,x", ',');
    assert_eq!(parts, vec!["é", "日本", "x"]);
    assert_eq!(text::join(&parts, ','), "é,日本,x");
    assert_eq!(text::join(&Vec::new(), ','), "");
    assert_eq!(text::split_list(" a , ,b"), vec!["a", "", "b"]);
    assert_eq!(text::split_once("é=b=c", '='), Some(("é", "b=c")));
    assert_eq!(text::split_once("abc", '='), None);
}

#[test]
fn prefixes_and_suffixes() {
    assert!(text::starts_with("/health/live", "/health"));
    assert!(!text::starts_with("/heal", "/health"));
    assert!(text::starts_with("x", ""));
    assert!(text::ends_with("/a/abi", "/abi"));
    assert!(!text::ends_with("abi", "/abi"));
    assert_eq!(text::strip_prefix("Bearer é", "Bearer "), Some("é"));
    assert_eq!(text::strip_prefix("bearer x", "Bearer "), None);
    assert!(text::same_text("é", "é"));
    assert!(!text::same_text("a", "A"));
    assert_eq!(text::to_ascii_uppercase("aZ9é_"), "AZ9é_");
}

// ---------------------------------------------------------------------------
// Tiers and routes
// ---------------------------------------------------------------------------

#[test]
fn plans_are_recognised_in_any_letter_case() {
    assert_eq!(ApiTier::from_header("PrO"), ApiTier::Pro);
    assert_eq!(ApiTier::from_header("ENTERPRISE"), ApiTier::Enterprise);
    assert_eq!(ApiTier::from_header("free"), ApiTier::Free);
    assert_eq!(ApiTier::from_header("gold"), ApiTier::Free);
    assert_eq!(ApiTier::from_header(" pro"), ApiTier::Free);
    assert_eq!(ApiTier::from_header("prÖ"), ApiTier::Free);
    assert_eq!(ApiTier::from_lowercase("pro"), ApiTier::Pro);
    assert_eq!(ApiTier::Enterprise.as_str(), "enterprise");
    assert_eq!(ApiTier::Free.as_str(), "free");
    assert_eq!(ApiTier::Pro.as_str(), "pro");
}

#[test]
fn write_methods() {
    for method in ["POST", "PUT", "PATCH", "DELETE"] {
        assert!(is_write_method(method));
        assert_eq!(RequestClass::of_method(method), RequestClass::Write);
    }
    for method in ["GET", "HEAD", "OPTIONS", "post", ""] {
        assert!(!is_write_method(method));
    }
}

#[test]
fn contract_abi_endpoints() {
    assert!(is_contract_abi_endpoint("GET", "/api/v1/contracts/7/abi"));
    assert!(!is_contract_abi_endpoint("POST", "/api/v1/contracts/7/abi"));
    assert!(!is_contract_abi_endpoint("GET", "/api/v1/contracts/7"));
    assert!(!is_contract_abi_endpoint("GET", "/api/contracts/7/abi"));
}

#[test]
fn page_sizes() {
    let query = |q: &str| Some(q.to_string());
    assert_eq!(extract_page_size(&None), None);
    assert_eq!(extract_page_size(&query("")), None);
    assert_eq!(extract_page_size(&query("limit=20")), Some(20));
    assert_eq!(extract_page_size(&query("page_size=0")), Some(1));
    assert_eq!(extract_page_size(&query("a=1&limit=5000")), Some(1000));
    assert_eq!(extract_page_size(&query("limit=x&page_size=7")), Some(7));
    assert_eq!(extract_page_size(&query("limit")), None);
    assert_eq!(extract_page_size(&query("limit=3=4")), None);
    assert_eq!(contracts_page_size_rate_limit("GET", "/api/contracts", &None), Some(50));
    assert_eq!(contracts_page_size_rate_limit("HEAD", "/api/contracts", &None), None);
    assert_eq!(contracts_page_size_rate_limit("GET", "/api/contract", &query("limit=9")), None);
}

#[test]
fn larger_pages_get_smaller_limits() {
    assert_eq!(scale_limit_by_page_size(100, 0), 100);
    assert_eq!(scale_limit_by_page_size(3, 1000), 1);
    assert_eq!(scale_limit_by_page_size(0, 10), 1);
    assert_eq!(scale_limit_by_page_size(u32::MAX, u32::MAX), 49);
    let mut last = u32::MAX;
    for page in 0..2_000 {
        let limit = scale_limit_by_page_size(777, page);
        assert!(limit <= last);
        last = limit;
    }
}

#[test]
fn endpoint_keys() {
    assert_eq!(endpoint_key("get", "/api/v1/contracts/{id}"), "GET_API_V1_CONTRACTS_ID");
    assert_eq!(endpoint_key("POST", "/"), "POST_ROOT");
    assert_eq!(endpoint_key("POST", ""), "POST_ROOT");
    assert_eq!(endpoint_key("GET", "//a--é_b//"), "GET_A_B");
}

// ---------------------------------------------------------------------------
// Requests
// ---------------------------------------------------------------------------

#[test]
fn headers_are_read_where_they_are_readable() {
    let mut map: HeaderMap<HeaderValue> = HeaderMap::new();
    map.insert("x-api-plan", HeaderValue::from_static("Enterprise"));
    map.insert("x-api-key", HeaderValue::from_bytes(b"k\xffy").unwrap());
    map.append("authorization", HeaderValue::from_static("Bearer one"));
    map.append("authorization", HeaderValue::from_static("Bearer two"));
    let read = RequestHeaders::read(&map);
    assert_eq!(read.x_api_plan.as_deref(), Some("Enterprise"));
    assert_eq!(read.x_api_key, None);
    assert_eq!(read.authorization.as_deref(), Some("Bearer one"));
    assert_eq!(read.x_forwarded_for, None);
    assert_eq!(read.x_real_ip, None);
    assert_eq!(extract_api_tier(&read), ApiTier::Enterprise);
    assert_eq!(extract_auth_token(&read).as_deref(), Some("Bearer one"));
}

#[test]
fn header_texts_agree_with_the_header_crate() {
    for byte in 0..=255u8 {
        if let Ok(value) = HeaderValue::from_bytes(&[b'a', byte]) {
            let expected = value.to_str().ok().map(|text| text.to_string());
            assert_eq!(header_text(&vec![b'a', byte]), expected);
        }
    }
    assert_eq!(header_text(&vec![10]), None);
    assert_eq!(header_text(&Vec::new()).as_deref(), Some(""));
}

#[test]
fn tokens() {
    let mut headers = no_headers();
    assert_eq!(extract_auth_token(&headers), None);
    headers.authorization = Some("  Bearer x ".to_string());
    assert_eq!(extract_auth_token(&headers).as_deref(), Some("Bearer x"));
    headers.x_api_key = Some("   ".to_string());
    assert_eq!(extract_auth_token(&headers).as_deref(), Some("Bearer x"));
    headers.x_api_key = Some(" key ".to_string());
    assert_eq!(extract_auth_token(&headers).as_deref(), Some("key"));
    assert_eq!(normalize_token("Bearer  abc "), "abc");
    assert_eq!(normalize_token("ApiKey abc"), "abc");
    assert_eq!(normalize_token("Bearer ApiKey abc"), "ApiKey abc");
    assert_eq!(normalize_token("bearer abc"), "bearer abc");
    assert_eq!(extract_api_tier(&no_headers()), ApiTier::Free);
}

fn reading(ip: Option<&str>, socket_ip: Option<&str>) -> AddrReading {
    AddrReading { ip: ip.map(str::to_string), socket_ip: socket_ip.map(str::to_string) }
}

#[test]
fn client_addresses() {
    assert_eq!(parse_ip_addr(&reading(Some("1.1.1.1"), None)).as_deref(), Some("1.1.1.1"));
    assert_eq!(parse_ip_addr(&reading(None, Some("2.2.2.2"))).as_deref(), Some("2.2.2.2"));
    assert_eq!(parse_ip_addr(&reading(None, None)), None);
    let entries = vec![reading(None, None), reading(None, Some("::1")), reading(Some("9.9.9.9"), None)];
    assert_eq!(parse_x_forwarded_for(&entries).as_deref(), Some("::1"));
    assert_eq!(parse_x_forwarded_for(&Vec::new()), None);

    let mut clues = AddressClues {
        forwarded: vec![reading(None, None)],
        real_ip: Some(reading(Some("3.3.3.3"), None)),
        peer_ip: Some("4.4.4.4".to_string()),
    };
    assert_eq!(extract_client_ip(&clues), "3.3.3.3");
    clues.forwarded = entries;
    assert_eq!(extract_client_ip(&clues), "::1");
    clues.forwarded = Vec::new();
    clues.real_ip = Some(reading(None, None));
    assert_eq!(extract_client_ip(&clues), "4.4.4.4");
    clues.real_ip = None;
    clues.peer_ip = None;
    assert_eq!(extract_client_ip(&clues), "unknown");

    let mut headers = no_headers();
    headers.x_forwarded_for = Some("bad, 10.0.0.1 ,10.0.0.2".to_string());
    headers.x_real_ip = Some(" 10.0.0.3".to_string());
    let texts = address_texts(&headers);
    assert_eq!(texts.forwarded, vec!["bad", "10.0.0.1", "10.0.0.2"]);
    assert_eq!(texts.real_ip.as_deref(), Some(" 10.0.0.3"));
    assert!(address_texts(&no_headers()).forwarded.is_empty());
}

// ---------------------------------------------------------------------------
// Configuration
// ---------------------------------------------------------------------------

#[test]
fn burst_limits_agree_with_the_formula() {
    let config = RateLimitConfig::for_tests(1, 1, Span::from_secs(60));
    let formula = |hourly: u32| ((hourly as f64 * 1.2 / 60.0).ceil() as u32).max(1);
    for hourly in (0..200_000).chain((0..1_000).map(|i| u32::MAX - i)) {
        assert_eq!(config.burst_limit_for_limit(hourly), formula(hourly));
    }
    let mut hourly: u32 = 1;
    for _ in 0..200_000 {
        hourly = hourly.wrapping_mul(1_664_525).wrapping_add(1_013_904_223);
        assert_eq!(config.burst_limit_for_limit(hourly), formula(hourly));
        let fifties = hourly / 50 * 50;
        assert_eq!(config.burst_limit_for_limit(fifties), formula(fifties));
    }
    assert_eq!(config.burst_limit_for_limit(1_000), 20);
    assert_eq!(config.burst_allowance_for_limit(1_000), 1_000);
    assert_eq!(config.burst_allowance_for_limit(0), 1);
}

#[test]
fn tier_limits() {
    let config = RateLimitConfig::for_tests(100, 5_000, Span::from_secs(60));
    assert_eq!(config.hourly_limit_for_tier(&ApiTier::Free), 5_000);
    assert_eq!(config.hourly_limit_for_tier(&ApiTier::Pro), 10_000);
    assert_eq!(config.hourly_limit_for_tier(&ApiTier::Enterprise), 100_000);
    assert_eq!(config.burst_limit_for_tier(&ApiTier::Pro), 200);
    assert_eq!(config.write_anonymous_limit, 10);
    assert_eq!(config.write_auth_limit, 1_666);
}

#[test]
fn settings_fall_back_to_defaults() {
    let vars = env(&[("A", "5"), ("ZERO", "0"), ("BAD", "x"), ("BIG", "4294967296"), ("P", "+8")]);
    assert_eq!(env_u32(&vars, "A", 1), 5);
    assert_eq!(env_u32(&vars, "ZERO", 1), 1);
    assert_eq!(env_u32(&vars, "BAD", 2), 2);
    assert_eq!(env_u32(&vars, "BIG", 3), 3);
    assert_eq!(env_u32(&vars, "NONE", 4), 4);
    assert_eq!(env_u32(&vars, "P", 4), 8);
    assert_eq!(env_u64(&vars, "BIG", 3), 4_294_967_296);
    assert_eq!(env_u64(&vars, "ZERO", 3), 3);
    assert_eq!(env_u32_with_fallback(&vars, "A", "P", 1), 5);
    assert_eq!(env_u32_with_fallback(&vars, "NONE", "P", 1), 8);
    assert_eq!(env_u32_with_fallback(&vars, "BAD", "P", 1), 1);
    assert_eq!(env_u32_with_fallback(&vars, "NONE", "NONE", 1), 1);
}

#[test]
fn lists_of_settings() {
    let vars = env(&[("LIMITS", "a=5, b = 7 ,c=0,=9,d,e=x,a=6,f=1=2"), ("IPS", " 1.1.1.1 ,,2.2.2.2, ")]);
    let limits = parse_key_limit_map(&vars, "LIMITS");
    assert_eq!(limits.get("a"), Some(&6));
    assert_eq!(limits.get("b"), Some(&7));
    for absent in ["c", "", "d", "e", "f"] {
        assert_eq!(limits.get(absent), None);
    }
    let ips = parse_csv_set(&vars, "IPS");
    assert!(ips.contains("1.1.1.1"));
    assert!(ips.contains("2.2.2.2"));
    assert!(!ips.contains(""));
    assert!(!parse_csv_set(&vars, "NONE").contains(""));
}

#[test]
fn configuration_from_the_environment() {
    let config = RateLimitConfig::from_env(&env(&[]));
    assert_eq!(config.anonymous_limit, 1_000);
    assert_eq!(config.auth_limit, 1_000);
    assert_eq!(config.write_anonymous_limit, 100);
    assert_eq!(config.write_auth_limit, 300);
    assert_eq!(config.window, Span::from_secs(60));
    assert_eq!(config.burst_window, Span::from_secs(60));
    assert_eq!(config.enterprise_limit, 100_000);

    let vars = env(&[
        ("RATE_LIMIT_ANON_PER_MINUTE", "11"),
        ("RATE_LIMIT_API_KEY_PER_MINUTE", "12"),
        ("RATE_LIMIT_AUTH_PER_MINUTE", "13"),
        ("RATE_LIMIT_WRITE_ANON_PER_HOUR", "14"),
        ("RATE_LIMIT_WRITE_AUTH_PER_HOUR", "15"),
        ("RATE_LIMIT_WINDOW_SECONDS", "16"),
        ("ENTERPRISE_RATE_LIMIT_PER_WINDOW", "17"),
        ("RATE_LIMIT_API_KEY_LIMITS", "secret=18"),
        ("RATE_LIMIT_TRUSTED_IPS", "10.0.0.9"),
        ("RATE_LIMIT_TRUSTED_API_KEYS", "root"),
    ]);
    let state = RateLimitState::from_env(&vars);
    assert_eq!(state.config.anonymous_limit, 11);
    assert_eq!(state.config.auth_limit, 12);
    assert_eq!(state.config.write_anonymous_limit, 14);
    assert_eq!(state.config.write_auth_limit, 15);
    assert_eq!(state.config.window, Span::from_secs(16));
    assert_eq!(state.config.enterprise_limit, 17);
    assert_eq!(state.config.per_api_key_limit("Bearer secret"), Some(18));
    assert_eq!(state.config.per_api_key_limit("other"), None);
    assert!(state.config.is_whitelisted(&head("GET", "/", "10.0.0.9")));
    assert!(state.config.is_whitelisted(&keyed_head("GET", "/", "ApiKey root")));
    assert_eq!(state.buckets.len(), 0);

    let both = env(&[
        ("ENTERPRISE_RATE_LIMIT_PER_HOUR", "21"),
        ("ENTERPRISE_RATE_LIMIT_PER_WINDOW", "22"),
    ]);
    assert_eq!(RateLimitConfig::from_env(&both).enterprise_limit, 21);
}

// ---------------------------------------------------------------------------
// Windows
// ---------------------------------------------------------------------------

#[test]
fn seconds_are_rounded_up() {
    assert_eq!(ceil_duration_to_seconds(Span::from_secs(3)), 3);
    assert_eq!(ceil_duration_to_seconds(Span::from_millis(3_001)), 4);
    assert_eq!(ceil_duration_to_seconds(Span::from_secs(0)), 0);
    assert_eq!(ceil_duration_to_seconds(Span { secs: 0, subsec_nanos: 1 }), 1);
}

#[test]
fn grants_slide_with_the_window() {
    let mut bucket = BucketState::new();
    let window = Span::from_secs(10);
    let burst = Span::from_secs(60);
    let first = bucket.check(secs(100), window, burst, 2, 9);
    assert!(first.allowed);
    assert_eq!((first.limit, first.remaining, first.reset_seconds), (2, 1, 10));
    let second = bucket.check(secs(104), window, burst, 2, 9);
    assert!(second.allowed);
    assert_eq!((second.remaining, second.reset_seconds), (0, 6));
    let third = bucket.check(secs(109), window, burst, 2, 9);
    assert!(!third.allowed);
    assert_eq!((third.remaining, third.reset_seconds), (0, 1));
    assert_eq!(bucket.hourly_used(secs(109)), 2);
    // A refusal consumes nothing, and the wait that it tells frees a slot.
    let fourth = bucket.check(secs(110), window, burst, 2, 9);
    assert!(fourth.allowed);
    assert_eq!((fourth.remaining, fourth.reset_seconds), (0, 4));
    assert_eq!(bucket.hourly_used(secs(110)), 2);
    assert_eq!(bucket.burst_used(secs(110), burst), 3);
}

#[test]
fn bursts_are_refused_until_the_burst_window_has_passed() {
    let mut bucket = BucketState::new();
    let window = Span::from_secs(3_600);
    let burst = Span::from_secs(60);
    assert!(bucket.check(secs(1), window, burst, 10, 2).allowed);
    assert!(bucket.check(secs(2), window, burst, 10, 2).allowed);
    let refused = bucket.check(secs(3), window, burst, 10, 2);
    assert!(!refused.allowed);
    assert_eq!((refused.limit, refused.remaining, refused.reset_seconds), (10, 8, 60));
    assert!(bucket.check(secs(61), window, burst, 10, 2).allowed);
    assert!(!bucket.check(secs(61), window, burst, 10, 2).allowed);
}

#[test]
fn a_limit_of_zero_admits_nothing() {
    let mut bucket = BucketState::new();
    let refused = bucket.check(secs(5), Span::from_millis(2_500), Span::from_secs(60), 0, 5);
    assert!(!refused.allowed);
    assert_eq!((refused.limit, refused.remaining, refused.reset_seconds), (0, 0, 3));
}

#[test]
fn windows_beyond_the_reach_of_the_clock_hold_nothing() {
    let mut bucket = BucketState::new();
    let window = Span::from_secs(u64::MAX);
    assert!(bucket.check(secs(5), window, Span::from_secs(60), 1, 5).allowed);
    let again = bucket.check(secs(6), window, Span::from_secs(60), 1, 5);
    assert!(again.allowed);
    assert_eq!(again.reset_seconds, u64::MAX);
}

#[test]
fn active_buckets_are_kept_for_two_windows() {
    let mut bucket = BucketState::new();
    assert!(!bucket.active(secs(0)));
    bucket.check(secs(10), Span::from_secs(5), Span::from_secs(60), 1, 5);
    assert!(bucket.active(secs(19)));
    assert!(!bucket.active(secs(20)));
    assert!(bucket.active(secs(3)));
}

// ---------------------------------------------------------------------------
// The limiter
// ---------------------------------------------------------------------------

#[test]
fn writes_are_counted_over_an_hour() {
    let config = RateLimitConfig::for_tests_with_write(5, 5, 1, 1, Span::from_secs(60));
    let mut state = RateLimitState::new(config);
    let write = head("POST", "/write", "192.0.2.8");
    assert!(matches!(
        rate_limit_middleware(&mut state, &write, secs(0)),
        Admission::Admitted { .. }
    ));
    assert_eq!(state.evict_expired(secs(1_000)), 0);
    match rate_limit_middleware(&mut state, &write, secs(3_000)) {
        Admission::Refused { decision, refusal, tier } => {
            assert_eq!(decision.reset_seconds, 600);
            assert_eq!(refusal.retry_after_seconds, 600);
            assert_eq!(refusal.limit_type, "write");
            assert_eq!(tier, ApiTier::Free);
            assert_eq!(
                refusal.detail,
                "Write quota exhausted. Reduce request frequency or wait for the window to reset."
            );
        }
        _ => panic!("the second write within the hour is refused"),
    }
    assert!(matches!(
        rate_limit_middleware(&mut state, &write, secs(3_600)),
        Admission::Admitted { .. }
    ));
    assert_eq!(state.evict_expired(secs(3_600 + 7_200)), 1);
}

#[test]
fn quotas_of_requests() {
    let vars = env(&[
        ("RATE_LIMIT_API_KEY_LIMITS", "small=7"),
        ("RATE_LIMIT_WRITE_AUTH_PER_HOUR", "50"),
    ]);
    let state = RateLimitState::from_env(&vars);

    let (limit, burst, key, tier) =
        state.select_limit_and_key(&head("GET", "/api/v1/contracts/7/abi", "1.1.1.1"));
    assert_eq!((limit, burst, tier), (60_000, 1_000, ApiTier::Free));
    assert_eq!(key.client_key, "abi:/api/v1/contracts/7/abi:1.1.1.1");
    assert_eq!(key.class, RequestClass::Read);

    let (limit, burst, key, _) = state.select_limit_and_key(&keyed_head("GET", "/x", "Bearer small"));
    assert_eq!((limit, burst), (7, 7));
    assert_eq!(key.client_key, "auth:read:Bearer small");

    let (limit, _, key, _) = state.select_limit_and_key(&keyed_head("PUT", "/x", "Bearer small"));
    assert_eq!(limit, 7);
    assert_eq!(key.client_key, "auth:write:Bearer small");
    assert_eq!(key.class, RequestClass::Write);

    let mut pro = keyed_head("DELETE", "/x", "big");
    pro.headers.x_api_plan = Some("Pro".to_string());
    let (limit, _, _, tier) = state.select_limit_and_key(&pro);
    assert_eq!((limit, tier), (50, ApiTier::Pro));
    pro.method = "GET".to_string();
    assert_eq!(state.select_limit_and_key(&pro).0, 10_000);

    let (limit, burst, key, _) = state.select_limit_and_key(&head("PATCH", "/x", "2.2.2.2"));
    assert_eq!((limit, burst), (100, 100));
    assert_eq!(key.client_key, "anon:write:2.2.2.2");

    let mut listing = head("GET", "/api/contracts", "2.2.2.2");
    assert_eq!(state.select_limit_and_key(&listing).0, 1_000);
    listing.query = Some("page_size=100".to_string());
    let (limit, burst, key, _) = state.select_limit_and_key(&listing);
    assert_eq!((limit, burst), (500, 500));
    assert_eq!(key.client_key, "anon:read:2.2.2.2");
}

#[test]
fn abi_reads_are_limited_per_minute() {
    let mut state = RateLimitState::new(RateLimitConfig::for_tests(1, 1, Span::from_secs(3_600)));
    let abi = head("GET", "/api/v1/contracts/7/abi", "1.1.1.1");
    for _ in 0..1_000 {
        assert!(matches!(
            rate_limit_middleware(&mut state, &abi, secs(1)),
            Admission::Admitted { .. }
        ));
    }
    match rate_limit_middleware(&mut state, &abi, secs(2)) {
        Admission::Refused { decision, refusal, .. } => {
            assert_eq!((decision.limit, decision.remaining), (60_000, 59_000));
            assert_eq!(decision.reset_seconds, 60);
            assert_eq!(refusal.limit_type, "read");
            assert_eq!(
                refusal.detail,
                "Too many requests. Please retry after the indicated time."
            );
        }
        _ => panic!("the burst window is full"),
    }
}

#[test]
fn clients_do_not_share_buckets_and_evictions_go_unnoticed() {
    let window = Span::from_secs(60);
    let mut state = RateLimitState::new(RateLimitConfig::for_tests(1, 10, window));
    for ip in ["a", "b", "c"] {
        assert!(matches!(
            rate_limit_middleware(&mut state, &head("GET", "/x", ip), secs(0)),
            Admission::Admitted { .. }
        ));
    }
    assert!(matches!(
        rate_limit_middleware(&mut state, &head("GET", "/x", "b"), secs(90)),
        Admission::Admitted { .. }
    ));
    assert_eq!(state.buckets.len(), 3);
    assert_eq!(state.evict_expired(secs(120)), 2);
    assert_eq!(state.buckets.len(), 1);
    assert!(state.buckets.get("anon:read:b").is_some());
    assert!(state.buckets.get("anon:read:a").is_none());
    assert!(matches!(
        rate_limit_middleware(&mut state, &head("GET", "/x", "b"), secs(121)),
        Admission::Refused { .. }
    ));
    assert!(matches!(
        rate_limit_middleware(&mut state, &head("GET", "/x", "a"), secs(121)),
        Admission::Admitted { .. }
    ));
}

#[test]
fn snapshots_consume_nothing() {
    let mut state = RateLimitState::new(RateLimitConfig::for_tests(5, 10, Span::from_secs(30)));
    for at in [0, 20, 35] {
        let key = BucketKey { client_key: "k".to_string(), class: RequestClass::Read };
        assert!(state.check_request(key, 3, 9, secs(at)).allowed);
    }
    let snapshot = state.quota_snapshot("k", &ApiTier::Free, secs(40));
    assert_eq!(snapshot.tier, "free");
    assert_eq!((snapshot.hourly_limit, snapshot.hourly_used, snapshot.hourly_remaining), (1_000, 2, 998));
    assert_eq!((snapshot.burst_limit, snapshot.burst_used, snapshot.burst_remaining), (20, 3, 17));
    let again = state.quota_snapshot("k", &ApiTier::Free, secs(40));
    assert_eq!(again.hourly_used, 2);
    let unknown = state.quota_snapshot("nobody", &ApiTier::Enterprise, secs(40));
    assert_eq!((unknown.hourly_limit, unknown.hourly_used, unknown.hourly_remaining), (100_000, 0, 100_000));
    assert_eq!((unknown.burst_limit, unknown.burst_used, unknown.burst_remaining), (2_000, 0, 2_000));
}

// ---------------------------------------------------------------------------
// Responses
// ---------------------------------------------------------------------------

#[test]
fn headers_tell_the_decision() {
    let mut bucket = BucketState::new();
    let decision = bucket.check(secs(1), Span::from_secs(60), Span::from_secs(60), 1_234, 9_999);
    let mut headers: HeaderMap<HeaderValue> = HeaderMap::new();
    headers.append("x-ratelimit-limit", HeaderValue::from_static("old"));
    headers.append("x-ratelimit-limit", HeaderValue::from_static("older"));
    headers.insert("content-type", HeaderValue::from_static("text/plain"));
    assert!(attach_rate_limit_headers(&mut headers, &decision));
    assert_eq!(headers.get_all("x-ratelimit-limit").iter().count(), 1);
    assert_eq!(headers["x-ratelimit-limit"], "1234");
    assert_eq!(headers["x-ratelimit-remaining"], "1233");
    assert_eq!(headers["x-ratelimit-reset"], "60");
    assert!(!headers.contains_key("x-ratelimit-tier"));
    assert!(attach_tier_header(&mut headers, &ApiTier::Enterprise));
    assert_eq!(headers["x-ratelimit-tier"], "enterprise");
    assert_eq!(headers["content-type"], "text/plain");
    assert!(attach_admission_headers(&mut headers, &decision, &ApiTier::Pro));
    assert_eq!(headers["x-ratelimit-tier"], "pro");
    let refusal = Refusal::new(RequestClass::Read, &decision);
    assert_eq!((refusal.error_code, refusal.limit_type), ("RATE_LIMITED", "read"));
    assert_eq!(refusal.retry_after_seconds, 60);
}

// ---------------------------------------------------------------------------
// The audit
// ---------------------------------------------------------------------------

#[test]
fn identities_are_masked() {
    let request = keyed_head("GET", "/x", "Bearer sk-1234567890");
    assert_eq!(client_identity(&request, BypassKind::TrustedIp), "192.0.2.7");
    assert_eq!(client_identity(&request, BypassKind::TrustedApiKey), "sk-12345…");
    let short = keyed_head("GET", "/x", "12345678");
    assert_eq!(client_identity(&short, BypassKind::TrustedApiKey), "12345678");
    let none = head("GET", "/x", "192.0.2.7");
    assert_eq!(client_identity(&none, BypassKind::TrustedApiKey), "<unknown>");
}

#[test]
fn times_are_written_in_rfc_3339() {
    assert_eq!(timestamp_text(947_638_923_004).as_deref(), Some("2000-01-12T01:02:03.004Z"));
    assert_eq!(timestamp_text(0).as_deref(), Some("1970-01-01T00:00:00.000Z"));
    assert_eq!(
        timestamp_text(8_210_266_876_799_999).as_deref(),
        Some("+262142-12-31T23:59:59.999Z")
    );
    assert_eq!(timestamp_text(8_210_266_876_800_000), None);
    assert_eq!(timestamp_text(-1), None);
    let now = timestamp_now();
    assert_eq!(now.len(), 24);
    assert!(now.as_str() > "2020-01-01T00:00:00.000Z" && now.ends_with('Z'));
}

#[test]
fn bypasses_are_audited() {
    let vars = env(&[("RATE_LIMIT_TRUSTED_API_KEYS", "sk-1234567890")]);
    let mut state = RateLimitState::from_env(&vars);
    let request = keyed_head("GET", "/x", "Bearer sk-1234567890");
    match rate_limit_middleware(&mut state, &request, secs(0)) {
        Admission::Bypass(audit) => {
            assert_eq!(audit.event, "trusted_bypass");
            assert_eq!(audit.identity_type, "api_key");
            assert_eq!(audit.client_identity, "sk-12345…");
            assert_eq!(audit.client_ip, "192.0.2.7");
            assert_eq!(audit.path, "/x");
            assert_eq!(audit.method, "GET");
            assert_eq!(audit.timestamp.len(), 24);
            assert_eq!(audit.count, 1);
            assert!(audit.alert.is_none());
        }
        _ => panic!("a trusted key bypasses the limiter"),
    }
    assert_eq!(state.buckets.len(), 0);
    let audit = describe_bypass(&request, BypassKind::TrustedIp, "then".to_string(), 3);
    assert_eq!((audit.identity_type, audit.timestamp.as_str(), audit.count), ("ip", "then", 3));
}

#[test]
fn alerts_are_fired_once_the_threshold_is_exceeded() {
    let mut spike = BypassSpikeState { window_start_unix: 1_000, window_count: 7 };
    assert_eq!(spike.record_and_count_at(1_059), 8);
    assert_eq!(spike.record_and_count_at(1_060), 1);
    assert_eq!(spike.window_start_unix, 1_060);
    for n in 2..=250 {
        let count = spike.record_and_count_at(1_100);
        assert_eq!(count, n);
        assert_eq!(alert_for_count(count).is_some(), count > BYPASS_SPIKE_THRESHOLD);
    }
    assert!(alert_for_count(99).is_none());
    assert!(alert_for_count(100).is_none());
    assert!(alert_for_count(101).is_some());
    assert!(alert_for_count(u64::MAX).is_some());
    let mut full = BypassSpikeState { window_start_unix: i64::MAX, window_count: u64::MAX };
    assert_eq!(full.record_and_count_at(i64::MIN), 0);
}

#[test]
fn the_hundred_and_first_bypass_of_a_minute_raises_an_alert() {
    let vars = env(&[("RATE_LIMIT_TRUSTED_IPS", "192.0.2.7")]);
    let mut state = RateLimitState::from_env(&vars);
    let request = head("GET", "/x", "192.0.2.7");
    let mut last = 0;
    for _ in 0..300 {
        let audit = state.audit_bypass(&request, BypassKind::TrustedIp);
        assert!(audit.count == last + 1 || audit.count == 1);
        last = audit.count;
        match audit.alert {
            Some(alert) => {
                assert!(audit.count > 100);
                assert_eq!(alert.source, "rate_limit_bypass");
                assert_eq!(alert.severity, AlertSeverity::Critical);
            }
            None => assert!(audit.count <= 100),
        }
    }
}

#[test]
fn alerts_tell_of_the_spike() {
    let alert = spike_alert(101, "some-id".to_string(), Timestamp { secs: 5, subsec_nanos: 7 });
    assert_eq!(alert.id, "some-id");
    assert_eq!(alert.source, "rate_limit_bypass");
    assert_eq!(
        alert.message,
        "Trusted-client bypass spike: 101 bypasses in the last 60 seconds (threshold: 100). \
         Review RATE_LIMIT_TRUSTED_IPS / RATE_LIMIT_TRUSTED_API_KEYS for leaked or abused tokens."
    );
    assert_eq!(alert.severity, AlertSeverity::Critical);
    assert_eq!(alert.timestamp, Timestamp { secs: 5, subsec_nanos: 7 });
    let fired = alert_for_count(101).unwrap();
    let id: Vec<char> = fired.id.chars().collect();
    assert_eq!(id.len(), 36);
    for (i, c) in id.iter().enumerate() {
        if [8, 13, 18, 23].contains(&i) {
            assert_eq!(*c, '-');
        } else {
            assert!(c.is_ascii_digit() || ('a'..='f').contains(c));
        }
    }
    assert_eq!(id[14], '4');
    assert!("89ab".contains(id[19]));
    assert_ne!(alert_for_count(101).unwrap().id, fired.id);
}

// ---------------------------------------------------------------------------
// Runs of requests
// ---------------------------------------------------------------------------

#[test]
fn waiting_as_told_gets_a_client_in() {
    let mut state = RateLimitState::new(RateLimitConfig::for_tests(3, 3, Span::from_millis(61_500)));
    let read = head("GET", "/x", "192.0.2.9");
    let mut now: u64 = 0;
    let mut refusals = 0;
    for step in 0..200 {
        match rate_limit_middleware(&mut state, &read, Moment { nanos: now }) {
            Admission::Refused { decision, .. } => {
                refusals += 1;
                now += decision.reset_seconds * 1_000_000_000;
                assert!(matches!(
                    rate_limit_middleware(&mut state, &read, Moment { nanos: now }),
                    Admission::Admitted { .. }
                ));
            }
            _ => now += 1_234_567_891 * (step % 7),
        }
    }
    assert!(refusals > 20);

    let abi = head("GET", "/api/v1/contracts/7/abi", "192.0.2.9");
    for _ in 0..1_000 {
        rate_limit_middleware(&mut state, &abi, Moment { nanos: now });
    }
    match rate_limit_middleware(&mut state, &abi, Moment { nanos: now }) {
        Admission::Refused { decision, .. } => now += decision.reset_seconds * 1_000_000_000,
        _ => panic!("the burst window is full"),
    }
    assert!(matches!(
        rate_limit_middleware(&mut state, &abi, Moment { nanos: now }),
        Admission::Admitted { .. }
    ));
}

#[test]
fn grants_are_never_denser_than_the_limit() {
    let window: u64 = 10_000_000_000;
    let mut bucket = BucketState::new();
    let mut granted: Vec<u64> = Vec::new();
    let mut now: u64 = 0;
    for step in 0..2_000u64 {
        now += (step * 791_919_337) % 1_700_000_000;
        let made = bucket.check(
            Moment { nanos: now },
            Span::from_secs(10),
            Span::from_secs(3),
            5,
            3,
        );
        if made.allowed {
            granted.push(now);
        }
    }
    assert!(granted.len() > 100);
    for k in 5..granted.len() {
        assert!(granted[k] - granted[k - 5] >= window);
    }
    for k in 3..granted.len() {
        assert!(granted[k] - granted[k - 3] >= 3_000_000_000);
    }
}

#[test]
fn a_quota_can_be_spent_at_once_and_no_more() {
    let mut state = RateLimitState::new(RateLimitConfig::for_tests(250, 1, Span::from_secs(60)));
    let read = head("GET", "/x", "192.0.2.9");
    let granted = (0..1_000u64)
        .filter(|i| {
            let now = Moment { nanos: *i * 1_000_000 };
            matches!(
                rate_limit_middleware(&mut state, &read, now),
                Admission::Admitted { .. }
            )
        })
        .count();
    assert_eq!(granted, 250);
}

#[test]
fn settings_are_never_zero_or_blank() {
    let names = [
        "RATE_LIMIT_IP_PER_MINUTE",
        "RATE_LIMIT_API_KEY_PER_MINUTE",
        "RATE_LIMIT_WRITE_ANON_PER_HOUR",
        "RATE_LIMIT_WRITE_AUTH_PER_HOUR",
        "RATE_LIMIT_WINDOW_SECONDS",
        "ENTERPRISE_RATE_LIMIT_PER_HOUR",
    ];
    for value in ["0", "", "-1", "+", "00", "nonsense", "99999999999999999999999"] {
        let vars: Vec<(&str, &str)> = names.iter().map(|name| (*name, value)).collect();
        let config = RateLimitConfig::from_env(&env(&vars));
        assert_eq!(config.anonymous_limit, 1_000);
        assert_eq!(config.auth_limit, 1_000);
        assert_eq!(config.write_anonymous_limit, 100);
        assert_eq!(config.write_auth_limit, 300);
        assert_eq!(config.window, Span::from_secs(60));
        assert_eq!(config.enterprise_limit, 100_000);
    }
}

#[test]
fn a_header_map_without_room_is_left_as_it_was() {
    let mut headers: HeaderMap<HeaderValue> = HeaderMap::new();
    let mut n = 0;
    loop {
        let name = axum::http::HeaderName::from_bytes(format!("h{n}").as_bytes()).unwrap();
        if headers.try_insert(name, HeaderValue::from_static("v")).is_err() {
            break;
        }
        n += 1;
    }
    assert!(n > 6_000);
    assert!(!attach_tier_header(&mut headers, &ApiTier::Pro));
    assert_eq!(headers.len(), n);
    assert!(!headers.contains_key("x-ratelimit-tier"));
    let mut bucket = BucketState::new();
    let decision = bucket.check(secs(1), Span::from_secs(60), Span::from_secs(60), 5, 5);
    assert!(!attach_rate_limit_headers(&mut headers, &decision));
    headers.remove("h0");
    assert!(attach_tier_header(&mut headers, &ApiTier::Pro));
    assert_eq!(headers["x-ratelimit-tier"], "pro");
}

#[test]
fn abi_reads_of_two_contracts_or_addresses_are_counted_apart() {
    let mut state = RateLimitState::new(RateLimitConfig::for_tests(1, 1, Span::from_secs(60)));
    let requests = [
        head("GET", "/api/v1/contracts/7/abi", "1.1.1.1"),
        head("GET", "/api/v1/contracts/8/abi", "1.1.1.1"),
        head("GET", "/api/v1/contracts/7/abi", "2.2.2.2"),
        head("GET", "/api/v1/contracts/7/abi:x/abi", "::1"),
        head("GET", "/x", "1.1.1.1"),
    ];
    for request in &requests {
        match rate_limit_middleware(&mut state, request, secs(1)) {
            Admission::Admitted { decision, .. } => {
                assert_eq!(decision.remaining, decision.limit - 1);
            }
            _ => panic!("the first request under a key is granted"),
        }
    }
    assert_eq!(state.buckets.len(), requests.len());
}

#[test]
fn timestamps_are_cut_to_milliseconds_as_the_calendar_does() {
    for (secs, subsec_nanos) in [
        (0, 0),
        (0, 999_999),
        (0, 1_000_000),
        (947_638_923, 4_999_999),
        (8_210_266_876_799, 999_999_999),
    ] {
        let moment = DateTime::<Utc>::from_timestamp(secs, subsec_nanos).unwrap();
        assert_eq!(Timestamp { secs, subsec_nanos }.millis(), moment.timestamp_millis());
    }
}

#[test]
fn alerts_carry_the_present_moment() {
    let before = Utc::now();
    let mut fractions = Vec::new();
    for _ in 0..20 {
        let alert = alert_for_count(101).unwrap();
        let at = DateTime::<Utc>::from_timestamp(alert.timestamp.secs, alert.timestamp.subsec_nanos)
            .unwrap();
        assert!(before <= at && at <= Utc::now());
        fractions.push(alert.timestamp.subsec_nanos);
    }
    assert!(fractions.iter().any(|nanos| nanos % 1_000_000 != 0));
}

#[test]
fn spike_windows_start_at_the_present_second() {
    let before = Utc::now().timestamp();
    let read = utc_seconds_now();
    let fresh = BypassSpikeState::new();
    let after = Utc::now().timestamp();
    assert!(before <= read && read <= after);
    assert!(before <= fresh.window_start_unix && fresh.window_start_unix <= after);
    assert_eq!(fresh.window_count, 0);

    let mut given = BypassSpikeState::starting_at(1_000);
    assert_eq!(given, BypassSpikeState { window_start_unix: 1_000, window_count: 0 });
    assert_eq!(given.record_and_count_at(1_059), 1);
    assert_eq!(given.window_start_unix, 1_000);
}

#[test]
fn rejected_settings_are_told_of() {
    assert!(rejected_settings(&env(&[])).is_empty());
    let vars = env(&[
        ("RATE_LIMIT_IP_PER_MINUTE", "7"),
        ("RATE_LIMIT_ANON_PER_MINUTE", "not asked for"),
        ("RATE_LIMIT_AUTH_PER_MINUTE", "0"),
        ("RATE_LIMIT_WRITE_ANON_PER_HOUR", "4294967296"),
        ("RATE_LIMIT_WRITE_AUTH_PER_HOUR", " 5"),
        ("RATE_LIMIT_WINDOW_SECONDS", "4294967296"),
        ("ENTERPRISE_RATE_LIMIT_PER_HOUR", ""),
        ("ENTERPRISE_RATE_LIMIT_PER_WINDOW", "9"),
    ]);
    let told: Vec<(String, String, u64)> = rejected_settings(&vars)
        .into_iter()
        .map(|rejected| (rejected.name, rejected.value, rejected.default))
        .collect();
    let expected = [
        ("RATE_LIMIT_AUTH_PER_MINUTE", "0", 1_000),
        ("RATE_LIMIT_WRITE_ANON_PER_HOUR", "4294967296", 100),
        ("RATE_LIMIT_WRITE_AUTH_PER_HOUR", " 5", 300),
        ("ENTERPRISE_RATE_LIMIT_PER_HOUR", "", 100_000),
    ];
    let expected: Vec<(String, String, u64)> = expected
        .iter()
        .map(|(name, value, default)| (name.to_string(), value.to_string(), *default))
        .collect();
    assert_eq!(told, expected);
    let config = RateLimitConfig::from_env(&vars);
    assert_eq!((config.anonymous_limit, config.auth_limit), (7, 1_000));
    assert_eq!((config.write_anonymous_limit, config.write_auth_limit), (100, 300));
    assert_eq!((config.window, config.enterprise_limit), (Span::from_secs(4_294_967_296), 100_000));
}

#[test]
fn all_values_of_other_headers_stay() {
    let mut headers: HeaderMap<HeaderValue> = HeaderMap::new();
    for name in ["set-cookie", "x-ratelimit-tier", "retry-after", "vary"] {
        for value in ["one", "two", "three"] {
            headers.append(name, HeaderValue::from_static(value));
        }
    }
    let mut bucket = BucketState::new();
    let decision = bucket.check(secs(1), Span::from_secs(60), Span::from_secs(60), 5, 5);
    assert!(attach_refusal_headers(&mut headers, &decision, &ApiTier::Free));
    for (name, expected) in [
        ("set-cookie", vec!["one", "two", "three"]),
        ("vary", vec!["one", "two", "three"]),
        ("x-ratelimit-tier", vec!["free"]),
        ("x-ratelimit-limit", vec!["5"]),
        ("x-ratelimit-remaining", vec!["4"]),
        ("x-ratelimit-reset", vec!["60"]),
        ("retry-after", vec!["60"]),
    ] {
        let values: Vec<&str> =
            headers.get_all(name).iter().map(|value| value.to_str().unwrap()).collect();
        assert_eq!(values, expected);
    }
}

#[test]
fn decisions_over_a_window_shorter_than_the_burst_window() {
    let second: u64 = 1_000_000_000;
    for (window, burst_window, limit, burst_limit) in
        [(2, 60, 3, 3), (2, 60, 3, 20), (1, 7, 5, 8), (60, 60, 9, 9), (30, 4, 9, 3)]
    {
        let mut bucket = BucketState::new();
        let mut granted: Vec<u64> = Vec::new();
        let mut now: u64 = 100 * second;
        for step in 0..1_500u64 {
            now += (step * 791_919_337) % 900_000_000;
            let held = |span: u64| granted.iter().filter(|at| **at + span * second > now).count();
            let (used, burst_used) = (held(window), held(burst_window));
            let oldest = granted.iter().find(|at| **at + window * second > now);
            let reset = match oldest {
                Some(at) => (at + window * second - now).div_ceil(second).max(1),
                None => window,
            };
            let made = bucket.check(
                Moment { nanos: now },
                Span::from_secs(window),
                Span::from_secs(burst_window),
                limit,
                burst_limit,
            );
            if used >= limit as usize {
                assert!(!made.allowed);
                assert_eq!((made.remaining, made.reset_seconds), (0, reset));
            } else if burst_used >= burst_limit as usize {
                assert!(!made.allowed);
                assert_eq!(made.remaining as usize, limit as usize - used);
                assert_eq!(made.reset_seconds, burst_window);
            } else {
                assert!(made.allowed);
                assert_eq!(made.remaining as usize, limit as usize - used - 1);
                assert_eq!(made.reset_seconds, reset);
                granted.push(now);
            }
            let at = Moment { nanos: now };
            let count = |span: u64| granted.iter().filter(|at| **at + span * second > now).count();
            assert_eq!(bucket.hourly_used(at), count(window));
            assert_eq!(bucket.burst_used(at, Span::from_secs(burst_window)), count(burst_window));
        }
        assert!(granted.len() > 20);
    }
}
