use codex_api::breaker::{CircuitBreaker, CircuitState};
use codex_api::bucket::{AcquireStep, TokenBucket};
use codex_api::limiter::{
    AcquireAction, AcquirePhase, AzureOpenAIRateLimiter, AzureRateLimitConfig, LimiterError,
    ModelRateLimits, RateLimitFeedback,
};
use codex_api::pacer::AdaptiveRateLimiter;
use codex_api::queue::PriorityRequestQueue;
use http::{HeaderMap, HeaderValue};

/// Drives one acquire to its end, advancing the simulated clock through each sleep.
fn run_acquire(
    limiter: &mut AzureOpenAIRateLimiter,
    deployment: &str,
    model_hint: &str,
    tokens: u32,
    now: &mut u64,
) -> Result<(), LimiterError> {
    let mut phase = AcquirePhase::Start;
    loop {
        match limiter.acquire_for_deployment(deployment, model_hint, tokens, phase, *now) {
            AcquireAction::Sleep { ms, next } => {
                *now += ms;
                phase = next;
            }
            AcquireAction::Done => return Ok(()),
            AcquireAction::Fail(e) => return Err(e),
        }
    }
}

#[test]
fn test_token_bucket() {
    // 10 tokens, 2 per second refill.
    let mut bucket = TokenBucket::new(10, 120, 0);
    assert_eq!(bucket.acquire(5, 0, 0), AcquireStep::Acquired);
    assert_eq!(bucket.available_tokens(0) as i32, 5);
    // Acquiring 10 more requires waiting about 2.5 seconds.
    let mut now = 0u64;
    let mut attempts = 0u32;
    loop {
        match bucket.acquire(10, now, attempts) {
            AcquireStep::Acquired => break,
            AcquireStep::Wait { ms } => {
                now += ms;
                attempts += 1;
            }
            other => panic!("unexpected {other:?}"),
        }
    }
    assert!(now >= 2000);
    assert_eq!(now, 2500);
}

#[test]
fn bucket_refuses_more_than_capacity_at_once() {
    let mut bucket = TokenBucket::new(10, 120, 0);
    assert_eq!(bucket.acquire(11, 0, 0), AcquireStep::Unsatisfiable);
    assert_eq!(bucket.available_tokens(0), 10);
}

#[test]
fn bucket_gives_up_after_attempt_bound() {
    let mut bucket = TokenBucket::new(10, 1, 0);
    assert_eq!(bucket.acquire(10, 0, 0), AcquireStep::Acquired);
    assert_eq!(bucket.acquire(5, 0, 100), AcquireStep::Exhausted);
    assert_eq!(bucket.acquire(5, 0, 0), AcquireStep::Wait { ms: 300_000 });
}

#[test]
fn bucket_refund_and_debit_stay_in_bounds() {
    let mut bucket = TokenBucket::new(1000, 1000, 0);
    bucket.force_debit(800);
    assert_eq!(bucket.available_tokens(0), 200);
    bucket.refund(5000);
    assert_eq!(bucket.available_tokens(0), 1000);
    bucket.force_debit(5000);
    assert_eq!(bucket.available_tokens(0), 0);
    // Refill is lazy: 1000 per minute is one token per 60 ms.
    assert_eq!(bucket.available_tokens(600), 10);
    assert_eq!(bucket.available_tokens(1_000_000), 1000);
}

#[test]
fn test_circuit_breaker() {
    let mut breaker = CircuitBreaker::new(3, 2, 1000);
    assert!(breaker.is_allowed(0));
    for _ in 0..3 {
        breaker.record_failure(0);
    }
    assert!(!breaker.is_allowed(10));
    assert!(breaker.is_allowed(1000));
    for _ in 0..2 {
        breaker.record_success();
    }
    assert!(breaker.is_allowed(1000));
}

#[test]
fn circuit_half_open_recovery() {
    let mut breaker = CircuitBreaker::new(3, 2, 1000);
    for _ in 0..3 {
        breaker.record_failure(5);
    }
    assert_eq!(breaker.state(), CircuitState::Open { until: 1005 });
    assert!(!breaker.is_allowed(1004));
    assert!(breaker.is_allowed(1005));
    assert_eq!(breaker.state(), CircuitState::HalfOpen);
    breaker.record_success();
    assert_eq!(breaker.state(), CircuitState::HalfOpen);
    breaker.record_success();
    assert_eq!(breaker.state(), CircuitState::Closed);
    assert_eq!(breaker.failure_count(), 0);
}

#[test]
fn circuit_half_open_failure_reopens() {
    let mut breaker = CircuitBreaker::new(1, 2, 50);
    breaker.record_failure(0);
    assert!(breaker.is_allowed(50));
    breaker.record_failure(60);
    assert_eq!(breaker.state(), CircuitState::Open { until: 110 });
    assert_eq!(breaker.success_count(), 0);
}

#[test]
fn test_adaptive_rate_limiter() {
    let mut limiter = AdaptiveRateLimiter::new(10_000, 1_000, 100_000);
    assert_eq!(limiter.get_rate(), 10_000);
    limiter.update_from_headers(Some(20), None, Some(10), 0);
    let new_rate = limiter.get_rate();
    assert!(new_rate < 3_000 && new_rate >= 1_000);
    assert_eq!(new_rate, 2_000);
    limiter.update_from_headers(Some(5), None, None, 0);
    assert!(limiter.should_throttle());
}

#[test]
fn pacer_ignores_small_changes_and_clamps() {
    let mut limiter = AdaptiveRateLimiter::new(2_000, 1_000, 50_000);
    limiter.update_from_headers(Some(41), None, Some(20), 0);
    assert_eq!(limiter.get_rate(), 2_000);
    limiter.update_from_headers(Some(1), Some(5000), Some(100), 0);
    assert_eq!(limiter.get_rate(), 1_000);
    assert!(limiter.should_throttle());
    assert_eq!(limiter.pacing_delay_ms(), Some(1_000));
}

#[test]
fn test_priority_queue() {
    let mut queue = PriorityRequestQueue::new(2);
    queue.enqueue("normal1", false);
    queue.enqueue("high1", true);
    queue.enqueue("normal2", false);
    queue.enqueue("high2", true);
    assert_eq!(queue.queue_sizes(), (2, 2));
    assert_eq!(queue.dequeue(), Some("high1"));
    assert_eq!(queue.dequeue(), Some("high2"));
    assert_eq!(queue.dequeue(), Some("normal1"));
    assert_eq!(queue.dequeue(), Some("normal2"));
    assert_eq!(queue.dequeue(), None);
}

/// Drives `acquire` (the model name as deployment and hint) to its end.
fn run_model_acquire(
    limiter: &mut AzureOpenAIRateLimiter,
    model: &str,
    tokens: u32,
    now: &mut u64,
) -> Result<(), LimiterError> {
    let mut phase = AcquirePhase::Start;
    loop {
        match limiter.acquire(model, tokens, phase, *now) {
            AcquireAction::Sleep { ms, next } => {
                *now += ms;
                phase = next;
            }
            AcquireAction::Done => return Ok(()),
            AcquireAction::Fail(e) => return Err(e),
        }
    }
}

#[test]
fn test_gpt5_rate_limit() {
    let mut limiter = AzureOpenAIRateLimiter::new();
    let mut now = 0u64;
    assert!(run_model_acquire(&mut limiter, "gpt-5", 10000, &mut now).is_ok());
    assert!(run_model_acquire(&mut limiter, "gpt-5", 25000, &mut now).is_err());
}

#[test]
fn acquire_over_capacity_fails_before_any_bucket_wait() {
    let mut limiter = AzureOpenAIRateLimiter::new();
    match limiter.acquire("gpt-5", 25000, AcquirePhase::Paced, 0) {
        AcquireAction::Fail(LimiterError::ExceedsCapacity { bucket_key, requested, capacity }) => {
            assert_eq!(bucket_key, "gpt-5");
            assert_eq!(requested, 25000);
            assert_eq!(capacity, 20000);
        }
        other => panic!("unexpected {other:?}"),
    }
}

#[test]
fn acquire_paces_first_at_the_initial_rate() {
    let mut limiter = AzureOpenAIRateLimiter::new();
    match limiter.acquire("gpt-4o", 100, AcquirePhase::Start, 0) {
        AcquireAction::Sleep { ms, next } => {
            assert_eq!(ms, 100);
            assert_eq!(next, AcquirePhase::Paced);
        }
        other => panic!("unexpected {other:?}"),
    }
}

#[test]
fn open_circuit_rejects_acquire() {
    let mut limiter = AzureOpenAIRateLimiter::new();
    for _ in 0..5 {
        limiter.record_failure(0);
    }
    assert!(matches!(
        limiter.acquire("gpt-5", 10, AcquirePhase::Start, 1),
        AcquireAction::Fail(LimiterError::CircuitOpen)
    ));
    let mut now = 30_000u64;
    assert!(run_acquire(&mut limiter, "gpt-5", "gpt-5", 10, &mut now).is_ok());
}

#[test]
fn test_model_specific_limits() {
    let mut limiter = AzureOpenAIRateLimiter::new();
    let gpt4_status = limiter.get_status("gpt-4o", 0);
    let gpt5_status = limiter.get_status("gpt-5", 0);
    assert_eq!(gpt4_status.available_tokens, 30000);
    assert_eq!(gpt5_status.available_tokens, 20000);
    assert_eq!(gpt5_status.available_requests, 200);
    assert!(!gpt5_status.circuit_breaker_open);
    assert_eq!(gpt5_status.current_rate, 10_000);
}

#[test]
fn custom_limits_override_seeded_ones() {
    let mut config = AzureRateLimitConfig::default();
    config.custom_limits.push((
        "gpt-5".to_string(),
        ModelRateLimits { tokens_per_minute: 1234, requests_per_minute: 7 },
    ));
    config.custom_limits.push((
        "my-model".to_string(),
        ModelRateLimits { tokens_per_minute: 99, requests_per_minute: 3 },
    ));
    let limiter = AzureOpenAIRateLimiter::with_config(config);
    assert_eq!(limiter.limits_for("gpt-5").tokens_per_minute, 1234);
    assert_eq!(limiter.limits_for("my-model").requests_per_minute, 3);
    assert_eq!(limiter.limits_for("unknown"), ModelRateLimits::default());
    assert_eq!(limiter.limits_for("o3-mini").tokens_per_minute, 15000);
}

#[test]
fn dynamic_capacity_shrink() {
    let mut limiter = AzureOpenAIRateLimiter::new();
    let mut now = 0u64;
    assert!(run_acquire(&mut limiter, "gpt-5", "gpt-5", 5000, &mut now).is_ok());
    let mut headers = HeaderMap::new();
    headers.insert("x-ratelimit-limit-tokens", HeaderValue::from_static("10000"));
    limiter.update_from_response(&headers, now);
    let status = limiter.get_status("gpt-5", now);
    assert_eq!(status.available_tokens, 10000);
    assert_eq!(limiter.limits_for("gpt-5").tokens_per_minute, 10000);
    // The resized bucket refills 10000 per minute.
    assert!(run_acquire(&mut limiter, "gpt-5", "gpt-5", 10000, &mut now).is_ok());
    let later = now + 6_000;
    assert_eq!(limiter.get_status("gpt-5", later).available_tokens, 1000);
}

#[test]
fn feedback_headers_are_read() {
    let mut headers = HeaderMap::new();
    headers.insert("x-ratelimit-remaining-requests", HeaderValue::from_static("12"));
    headers.insert("x-ratelimit-remaining-tokens", HeaderValue::from_static("+900"));
    headers.insert("x-ratelimit-reset-requests", HeaderValue::from_static("4"));
    headers.insert("x-ratelimit-reset-tokens", HeaderValue::from_static("bogus"));
    headers.insert("x-ratelimit-limit-requests", HeaderValue::from_static("4294967296"));
    let feedback = RateLimitFeedback::from_headers(&headers);
    assert_eq!(feedback.remaining_requests, Some(12));
    assert_eq!(feedback.remaining_tokens, Some(900));
    assert_eq!(feedback.reset_requests, Some(4));
    assert_eq!(feedback.reset_tokens, None);
    assert_eq!(feedback.limit_requests, None);
    assert_eq!(feedback.limit_tokens, None);
}

#[test]
fn reconciliation_refunds_and_debits() {
    let mut limiter = AzureOpenAIRateLimiter::new();
    let mut now = 0u64;
    assert!(run_acquire(&mut limiter, "dep", "gpt-5", 800, &mut now).is_ok());
    let before = 20000 - 800;
    limiter.reconcile_after_completed("dep", "gpt-5", 800, 600, now);
    let status_key = limiter.get_status("dep", now);
    assert_eq!(status_key.available_tokens, before + 200);
    limiter.reconcile_after_completed("dep", "gpt-5", 500, 700, now);
    assert_eq!(limiter.get_status("dep", now).available_tokens, before);
    limiter.reconcile_after_completed("dep", "gpt-5", 0, 1_000_000, now);
    assert_eq!(limiter.get_status("dep", now).available_tokens, 0);
}

#[test]
fn test_token_estimation() {
    let text = "Hello, this is a test message.";
    let estimated = AzureOpenAIRateLimiter::estimate_tokens_for_model("gpt-4o", text);
    assert!(estimated > 0);
    assert!(estimated < 30);
    assert_eq!(AzureOpenAIRateLimiter::estimate_tokens_for_model("gpt-4", ""), 0);
}
