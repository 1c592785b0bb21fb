use std::time::Duration;

use codex_api::parse::{parse_seconds_ms, parse_u32, parse_u64};
use codex_api::provider::RetryConfig;
use codex_api::retry::{
    backoff, backoff_with_jitter, compute_retry_delay, parse_retry_after_headers,
    parse_retry_after_values, retry_decision, select_server_delay, RetryDecision, RetryOn, RetryPolicy,
    TransportError,
};
use http::{HeaderMap, HeaderValue};

fn delay_of(headers: &HeaderMap) -> Option<Duration> {
    parse_retry_after_headers(headers).map(Duration::from_millis)
}

#[test]
fn parse_retry_after_ms_header() {
    let mut headers = HeaderMap::new();
    headers.insert("retry-after-ms", HeaderValue::from_static("1500"));
    let delay = delay_of(&headers);
    assert_eq!(delay, Some(Duration::from_millis(1500)));
}

#[test]
fn parse_x_ms_retry_after_ms_header() {
    let mut headers = HeaderMap::new();
    headers.insert("x-ms-retry-after-ms", HeaderValue::from_static("2500"));
    let delay = delay_of(&headers);
    assert_eq!(delay, Some(Duration::from_millis(2500)));
}

#[test]
fn parse_retry_after_seconds_header() {
    let mut headers = HeaderMap::new();
    headers.insert("retry-after", HeaderValue::from_static("30"));
    let delay = delay_of(&headers);
    assert_eq!(delay, Some(Duration::from_secs(30)));
}

#[test]
fn parse_retry_after_float_seconds_header() {
    let mut headers = HeaderMap::new();
    headers.insert("retry-after", HeaderValue::from_static("1.5"));
    let delay = delay_of(&headers);
    assert_eq!(delay, Some(Duration::from_secs_f64(1.5)));
}

#[test]
fn retry_after_ms_takes_precedence() {
    let mut headers = HeaderMap::new();
    headers.insert("retry-after-ms", HeaderValue::from_static("100"));
    headers.insert("x-ms-retry-after-ms", HeaderValue::from_static("200"));
    headers.insert("retry-after", HeaderValue::from_static("30"));
    let delay = delay_of(&headers);
    assert_eq!(delay, Some(Duration::from_millis(100)));
}

#[test]
fn x_ms_retry_after_ms_takes_precedence_over_standard() {
    let mut headers = HeaderMap::new();
    headers.insert("x-ms-retry-after-ms", HeaderValue::from_static("200"));
    headers.insert("retry-after", HeaderValue::from_static("30"));
    let delay = delay_of(&headers);
    assert_eq!(delay, Some(Duration::from_millis(200)));
}

#[test]
fn no_retry_after_headers_returns_none() {
    let headers = HeaderMap::new();
    let delay = delay_of(&headers);
    assert_eq!(delay, None);
}

#[test]
fn invalid_retry_after_value_returns_none() {
    let mut headers = HeaderMap::new();
    headers.insert("retry-after", HeaderValue::from_static("invalid"));
    let delay = delay_of(&headers);
    assert_eq!(delay, None);
}

#[test]
fn compute_delay_uses_header_when_within_max() {
    let mut headers = HeaderMap::new();
    headers.insert("retry-after-ms", HeaderValue::from_static("500"));
    let delay = Duration::from_millis(compute_retry_delay(Some(&headers), 100, 0, Some(60_000)));
    assert_eq!(delay, Duration::from_millis(500));
}

#[test]
fn compute_delay_falls_back_when_exceeds_max() {
    let mut headers = HeaderMap::new();
    headers.insert("retry-after", HeaderValue::from_static("120"));
    let delay = Duration::from_millis(compute_retry_delay(Some(&headers), 100, 0, Some(60_000)));
    assert!(delay < Duration::from_secs(60));
    assert!(delay >= Duration::from_millis(90) && delay <= Duration::from_millis(110));
}

#[test]
fn compute_delay_trusts_server_when_no_max() {
    let mut headers = HeaderMap::new();
    headers.insert("retry-after", HeaderValue::from_static("120"));
    let delay = Duration::from_millis(compute_retry_delay(Some(&headers), 100, 0, None));
    assert_eq!(delay, Duration::from_secs(120));
}

#[test]
fn compute_delay_uses_backoff_when_no_headers() {
    let delay = Duration::from_millis(compute_retry_delay(None, 100, 0, Some(60_000)));
    assert!(delay >= Duration::from_millis(90) && delay <= Duration::from_millis(220));
}

#[test]
fn negative_retry_after_returns_none() {
    let mut headers = HeaderMap::new();
    headers.insert("retry-after", HeaderValue::from_static("-5.0"));
    let delay = delay_of(&headers);
    assert_eq!(delay, None);
}

#[test]
fn infinite_retry_after_returns_none() {
    let mut headers = HeaderMap::new();
    headers.insert("retry-after", HeaderValue::from_static("inf"));
    let delay = delay_of(&headers);
    assert_eq!(delay, None);
}

#[test]
fn nan_retry_after_returns_none() {
    let mut headers = HeaderMap::new();
    headers.insert("retry-after", HeaderValue::from_static("NaN"));
    let delay = delay_of(&headers);
    assert_eq!(delay, None);
}

#[test]
fn non_utf8_high_priority_header_falls_back_to_valid_lower_priority() {
    let mut headers = HeaderMap::new();
    headers.insert("retry-after-ms", HeaderValue::from_bytes(&[0xff, 0xfe]).unwrap());
    headers.insert("retry-after", HeaderValue::from_static("30"));
    let delay = delay_of(&headers);
    assert_eq!(delay, Some(Duration::from_secs(30)));
}

#[test]
fn invalid_parse_high_priority_falls_back_to_valid_lower_priority() {
    let mut headers = HeaderMap::new();
    headers.insert("retry-after-ms", HeaderValue::from_static("not-a-number"));
    headers.insert("x-ms-retry-after-ms", HeaderValue::from_static("500"));
    let delay = delay_of(&headers);
    assert_eq!(delay, Some(Duration::from_millis(500)));
}

#[test]
fn header_precedence_with_all_three() {
    let mut headers = HeaderMap::new();
    headers.insert("retry-after-ms", HeaderValue::from_static("not-a-number"));
    headers.insert("x-ms-retry-after-ms", HeaderValue::from_static("500"));
    headers.insert("retry-after", HeaderValue::from_static("30"));
    assert_eq!(parse_retry_after_headers(&headers), Some(500));
}

#[test]
fn retry_after_values_follow_precedence() {
    let some = |s: &str| Some(s.as_bytes().to_vec());
    assert_eq!(parse_retry_after_values(&some("7"), &some("8"), &some("9")), Some(7));
    assert_eq!(parse_retry_after_values(&some("x"), &some("8"), &some("9")), Some(8));
    assert_eq!(parse_retry_after_values(&some("x"), &None, &some("9")), Some(9000));
    assert_eq!(parse_retry_after_values(&None, &some(""), &some("0.25")), Some(250));
    assert_eq!(parse_retry_after_values(&None, &None, &None), None);
}

#[test]
fn seconds_values_read_as_decimals() {
    assert_eq!(parse_seconds_ms(b"30"), Some(30_000));
    assert_eq!(parse_seconds_ms(b"1.5"), Some(1_500));
    assert_eq!(parse_seconds_ms(b".25"), Some(250));
    assert_eq!(parse_seconds_ms(b"+2."), Some(2_000));
    assert_eq!(parse_seconds_ms(b"0.0019"), Some(1));
    assert_eq!(parse_seconds_ms(b"1e3"), Some(1_000_000));
    assert_eq!(parse_seconds_ms(b"2.5E-1"), Some(250));
    assert_eq!(parse_seconds_ms(b"1e+2"), Some(100_000));
    assert_eq!(parse_seconds_ms(b"1e-4"), Some(0));
    assert_eq!(parse_seconds_ms(b"1e999999999999999999999"), None);
    assert_eq!(parse_seconds_ms(b"0e99999"), Some(0));
    assert_eq!(parse_seconds_ms(b"-0"), Some(0));
    assert_eq!(parse_seconds_ms(b"-0.0e5"), Some(0));
    assert_eq!(parse_seconds_ms(b"-0.5"), None);
    assert_eq!(parse_seconds_ms(b"1e"), None);
    assert_eq!(parse_seconds_ms(b"e5"), None);
    assert_eq!(parse_seconds_ms(b"1e2.5"), None);
    assert_eq!(parse_seconds_ms(b"infinity"), None);
}

#[test]
fn seconds_that_overflow_an_f64_do_not_read() {
    // The least decimal value that reads as an infinite f64, and the value just below.
    let threshold = "179769313486231580793728971405303415079934132710037826936173778980444968292764750946649017977587207096330286416692887910946555547851940402630657488671505820681908902000708383676273854845817711531764475730270069855571366959622842914819860834936475292719074168444365510704342711559699508093042880177904174497792";
    let below = "179769313486231580793728971405303415079934132710037826936173778980444968292764750946649017977587207096330286416692887910946555547851940402630657488671505820681908902000708383676273854845817711531764475730270069855571366959622842914819860834936475292719074168444365510704342711559699508093042880177904174497791";
    assert_eq!(parse_seconds_ms(threshold.as_bytes()), None);
    assert_eq!(parse_seconds_ms(below.as_bytes()), Some(u64::MAX));
    assert_eq!(parse_seconds_ms(b"1e309"), None);
    assert_eq!(parse_seconds_ms(b"1.7976931348623157e308"), Some(u64::MAX));
    assert_eq!(parse_seconds_ms(b"17976931348623158e292"), Some(u64::MAX));
    assert_eq!(parse_seconds_ms(b"17976931348623159e292"), None);
    assert_eq!(parse_seconds_ms(b"0.0000000001e318"), Some(u64::MAX));
    assert_eq!(parse_seconds_ms(b"0.00000000018e318"), None);
    assert_eq!(parse_seconds_ms(b"1e-99999999999"), Some(0));
    assert_eq!(parse_seconds_ms(b"-1e309"), None);
    let mut headers = HeaderMap::new();
    headers.insert("retry-after", HeaderValue::from_static("1e309"));
    assert_eq!(parse_retry_after_headers(&headers), None);
    assert_eq!(parse_seconds_ms(b"."), None);
    assert_eq!(parse_seconds_ms(b""), None);
    assert_eq!(parse_seconds_ms(b"1.2.3"), None);
    assert_eq!(parse_seconds_ms(b"99999999999999999999"), Some(u64::MAX));
}

#[test]
fn integers_read_like_str_parse() {
    assert_eq!(parse_u64(b"18446744073709551615"), Some(u64::MAX));
    assert_eq!(parse_u64(b"18446744073709551616"), None);
    assert_eq!(parse_u64(b"+12"), Some(12));
    assert_eq!(parse_u64(b"+"), None);
    assert_eq!(parse_u64(b"-1"), None);
    assert_eq!(parse_u64(b"007"), Some(7));
    assert_eq!(parse_u32(b"4294967295"), Some(u32::MAX));
    assert_eq!(parse_u32(b"4294967296"), None);
}

#[test]
fn server_delay_is_honoured_only_within_max() {
    assert_eq!(select_server_delay(Some(60_000), Some(60_000)), Some(60_000));
    assert_eq!(select_server_delay(Some(120_000), Some(60_000)), None);
    assert_eq!(select_server_delay(Some(120_000), None), Some(120_000));
    assert_eq!(select_server_delay(None, Some(1)), None);
}

#[test]
fn backoff_doubles_with_exact_jitter() {
    assert_eq!(backoff_with_jitter(100, 0, 1099), 100);
    assert_eq!(backoff_with_jitter(100, 1, 1000), 100);
    assert_eq!(backoff_with_jitter(100, 3, 1000), 400);
    assert_eq!(backoff_with_jitter(100, 3, 900), 360);
    assert_eq!(backoff_with_jitter(100, 3, 1099), 439);
    assert_eq!(backoff_with_jitter(u64::MAX, 2, 1099), u64::MAX);
    assert_eq!(backoff_with_jitter(3, 200, 1000), u64::MAX);
    assert_eq!(backoff_with_jitter(0, 200, 1000), 0);
}

#[test]
fn backoff_stays_within_ten_percent() {
    assert_eq!(backoff(250, 0), 250);
    for _ in 0..50 {
        let d = backoff(1000, 4);
        assert!((7200..8800).contains(&d), "{d}");
    }
}

#[test]
fn should_retry_follows_policy() {
    let on = RetryOn { retry_429: true, retry_5xx: true, retry_transport: false };
    let http = |status: u16| TransportError::Http { status, url: None, headers: None, body: None };
    assert!(on.should_retry(&http(429), 0, 3));
    assert!(on.should_retry(&http(503), 2, 3));
    assert!(!on.should_retry(&http(503), 3, 3));
    assert!(!on.should_retry(&http(400), 0, 3));
    assert!(!on.should_retry(&TransportError::Timeout, 0, 3));
    assert!(!on.should_retry(&TransportError::RetryLimit, 0, 3));
    let transport = RetryOn { retry_429: false, retry_5xx: false, retry_transport: true };
    assert!(transport.should_retry(&TransportError::Network("reset".to_string()), 0, 1));
    assert!(!transport.should_retry(&http(429), 0, 1));
}

#[test]
fn retry_decision_uses_server_delay() {
    let config = RetryConfig {
        max_attempts: 2,
        base_delay_ms: 100,
        retry_429: true,
        retry_5xx: false,
        retry_transport: false,
        max_retry_delay_ms: Some(10_000),
    };
    let policy: RetryPolicy = config.to_policy();
    assert_eq!(policy.retry_on.retry_429, true);
    assert_eq!(policy.max_retry_delay_ms, Some(10_000));
    let mut headers = HeaderMap::new();
    headers.insert("retry-after", HeaderValue::from_static("2"));
    let err = TransportError::Http { status: 429, url: None, headers: Some(headers), body: None };
    assert_eq!(retry_decision(&policy, &err, 0), RetryDecision::Retry { delay_ms: 2000 });
    assert_eq!(retry_decision(&policy, &err, 2), RetryDecision::Exhausted);
    assert_eq!(retry_decision(&policy, &TransportError::Timeout, 0), RetryDecision::GiveUp);
}
