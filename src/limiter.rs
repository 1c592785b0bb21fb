use vstd::prelude::*;

use http::HeaderMap;

use crate::breaker::{BreakerView, CircuitBreaker, CircuitState};
use crate::headers::{header_bytes, header_contents, is_plain_header_name};
use crate::parse::{parse_u32, parse_u64, parsed_u32, parsed_u64};
use crate::bucket::{AcquireStep, BucketView, TokenBucket};
use crate::keyed::KeyedTable;
use crate::pacer::{AdaptiveRateLimiter, PacerView};

verus! {

broadcast use KeyedTable::lemma_view_lookup;

/// Per-minute token and request capacities of one model.
#[derive(Debug, Clone, Copy, PartialEq, Eq, Structural)]
pub struct ModelRateLimits {
    pub tokens_per_minute: u32,
    pub requests_per_minute: u32,
}

/// The capacities of a model with no entry of its own.
pub open spec fn fallback_limits() -> ModelRateLimits {
    ModelRateLimits { tokens_per_minute: 30000, requests_per_minute: 300 }
}

impl Default for ModelRateLimits {
    fn default() -> (r: ModelRateLimits)
        ensures
            r == fallback_limits(),
    {
        ModelRateLimits { tokens_per_minute: 30000, requests_per_minute: 300 }
    }
}

pub open spec fn limits(tokens_per_minute: u32, requests_per_minute: u32) -> ModelRateLimits {
    ModelRateLimits { tokens_per_minute, requests_per_minute }
}

/// The seeded capacities of well-known model families.
pub open spec fn seeded_limits(model: Seq<char>) -> Option<ModelRateLimits> {
    if model == "o4-mini"@ {
        Some(limits(15000, 100))
    } else if model == "o3-mini"@ {
        Some(limits(15000, 100))
    } else if model == "o3"@ {
        Some(limits(10000, 50))
    } else if model == "o1"@ {
        Some(limits(10000, 50))
    } else if model == "gpt-4.1-mini"@ {
        Some(limits(30000, 300))
    } else if model == "gpt-4.1-nano"@ {
        Some(limits(30000, 300))
    } else if model == "gpt-4.1"@ {
        Some(limits(30000, 300))
    } else if model == "gpt-4o-mini"@ {
        Some(limits(30000, 300))
    } else if model == "gpt-4o"@ {
        Some(limits(30000, 300))
    } else if model == "gpt-5-chat"@ {
        Some(limits(20000, 200))
    } else if model == "gpt-5-nano"@ {
        Some(limits(20000, 200))
    } else if model == "gpt-5-mini"@ {
        Some(limits(20000, 200))
    } else if model == "gpt-5"@ {
        Some(limits(20000, 200))
    } else {
        None
    }
}

/// `base` with each `(model, limits)` entry applied in order, later ones winning.
pub open spec fn with_overrides(
    base: Map<Seq<char>, ModelRateLimits>,
    entries: Seq<(String, ModelRateLimits)>,
) -> Map<Seq<char>, ModelRateLimits>
    decreases entries.len(),
{
    if entries.len() == 0 {
        base
    } else {
        with_overrides(base, entries.drop_last()).insert(entries.last().0@, entries.last().1)
    }
}

/// The capacities that `model_hint` seeds buckets with under the table `m`.
pub open spec fn limits_in(m: Map<Seq<char>, ModelRateLimits>, model_hint: Seq<char>) -> ModelRateLimits {
    if m.dom().contains(model_hint) {
        m[model_hint]
    } else {
        fallback_limits()
    }
}

/// A bucket resized to `capacity` at `now_ms`: a fresh bucket of that capacity that
/// keeps the old bucket's availability, clamped to the new capacity.
pub open spec fn resized(old_bucket: BucketView, capacity: nat, now_ms: nat) -> BucketView {
    let available = old_bucket.available(now_ms);
    let target = if available <= capacity { available } else { capacity };
    BucketView::fresh(capacity, now_ms).debited((capacity - target) as nat)
}

/// Configuration of the rate limiter.
#[derive(Debug, Clone)]
pub struct AzureRateLimitConfig {
    pub enabled: bool,
    /// Capacities that replace or extend the seeded ones, applied in order.
    pub custom_limits: Vec<(String, ModelRateLimits)>,
    pub circuit_breaker_threshold: u32,
    pub circuit_breaker_timeout_secs: u64,
    /// Start slower and cap the rate lower.
    pub aggressive_throttling: bool,
}

impl Default for AzureRateLimitConfig {
    fn default() -> (r: AzureRateLimitConfig)
        ensures
            r.enabled,
            r.custom_limits@.len() == 0,
            r.circuit_breaker_threshold == 5,
            r.circuit_breaker_timeout_secs == 30,
            !r.aggressive_throttling,
    {
        AzureRateLimitConfig {
            enabled: true,
            custom_limits: Vec::new(),
            circuit_breaker_threshold: 5,
            circuit_breaker_timeout_secs: 30,
            aggressive_throttling: false,
        }
    }
}

/// The deployment and model hint of the latest acquire, to which later response
/// feedback is attributed.
#[derive(Debug, Clone)]
pub struct LimiterContext {
    pub bucket_key: String,
    pub model_hint: String,
}

/// Why the limiter refused a request.
#[derive(Debug, Clone)]
pub enum LimiterError {
    /// The circuit breaker is open after too many failures.
    CircuitOpen,
    /// One request needs more tokens than the per-minute capacity: it can never succeed.
    ExceedsCapacity { bucket_key: String, requested: u32, capacity: u32 },
    /// The token bucket could not supply the tokens.
    TokenAcquireFailed { reason: AcquireStep },
    /// The request bucket could not supply a permit.
    RequestAcquireFailed { reason: AcquireStep },
}

/// Where a multi-step acquire stands.
#[derive(Debug, Clone, Copy, PartialEq, Eq, Structural)]
pub enum AcquirePhase {
    /// Nothing done yet.
    Start,
    /// The pacing delay has been waited out.
    Paced,
    /// Taking tokens, after `attempts` waits.
    Tokens { attempts: u32 },
    /// Tokens taken; taking one request permit, after `attempts` waits.
    Request { attempts: u32 },
}

/// What the caller of an acquire step does next.
#[derive(Debug, Clone)]
pub enum AcquireAction {
    /// Sleep `ms` milliseconds, then call again with `next`.
    Sleep { ms: u64, next: AcquirePhase },
    /// The permits are held.
    Done,
    Fail(LimiterError),
}

/// Mathematical state of the rate limiter.
pub ghost struct LimiterView {
    pub model_limits: Map<Seq<char>, ModelRateLimits>,
    pub token_buckets: Map<Seq<char>, BucketView>,
    pub request_buckets: Map<Seq<char>, BucketView>,
    pub breaker: BreakerView,
    pub pacer: PacerView,
    pub context: Option<(Seq<char>, Seq<char>)>,
}

impl LimiterView {
    pub open spec fn wf(self) -> bool {
        &&& forall|k: Seq<char>| #[trigger]
            self.token_buckets.dom().contains(k) ==> self.token_buckets[k].wf()
        &&& forall|k: Seq<char>| #[trigger]
            self.request_buckets.dom().contains(k) ==> self.request_buckets[k].wf()
        &&& self.breaker.wf()
        &&& self.pacer.wf()
    }

    pub open spec fn limits_for(self, model_hint: Seq<char>) -> ModelRateLimits {
        limits_in(self.model_limits, model_hint)
    }

    /// The state once a token bucket exists under `key`: an existing one is kept, a
    /// missing one is created full from the capacities of `model_hint`.
    pub open spec fn with_token_bucket(self, key: Seq<char>, model_hint: Seq<char>, now_ms: nat) -> LimiterView {
        if self.token_buckets.dom().contains(key) {
            self
        } else {
            LimiterView {
                token_buckets: self.token_buckets.insert(
                    key,
                    BucketView::fresh(self.limits_for(model_hint).tokens_per_minute as nat, now_ms),
                ),
                ..self
            }
        }
    }

    /// The state once a request bucket exists under `key`, as for tokens.
    pub open spec fn with_request_bucket(self, key: Seq<char>, model_hint: Seq<char>, now_ms: nat) -> LimiterView {
        if self.request_buckets.dom().contains(key) {
            self
        } else {
            LimiterView {
                request_buckets: self.request_buckets.insert(
                    key,
                    BucketView::fresh(self.limits_for(model_hint).requests_per_minute as nat, now_ms),
                ),
                ..self
            }
        }
    }

    /// The state after capacity feedback: the limits of the last context's model hint
    /// take the advertised capacities, and that context's buckets are resized to them.
    pub open spec fn with_dynamic_limits(
        self,
        limit_tokens: Option<u32>,
        limit_requests: Option<u32>,
        now_ms: nat,
    ) -> LimiterView {
        match self.context {
            None => self,
            Some((key, hint)) => {
                let base = self.limits_for(hint);
                let updated = ModelRateLimits {
                    tokens_per_minute: match limit_tokens {
                        Some(t) => t,
                        None => base.tokens_per_minute,
                    },
                    requests_per_minute: match limit_requests {
                        Some(n) => n,
                        None => base.requests_per_minute,
                    },
                };
                LimiterView {
                    model_limits: self.model_limits.insert(hint, updated),
                    token_buckets: match limit_tokens {
                        Some(t) => if self.token_buckets.dom().contains(key) {
                            self.token_buckets.insert(
                                key,
                                resized(self.token_buckets[key], t as nat, now_ms),
                            )
                        } else {
                            self.token_buckets
                        },
                        None => self.token_buckets,
                    },
                    request_buckets: match limit_requests {
                        Some(n) => if self.request_buckets.dom().contains(key) {
                            self.request_buckets.insert(
                                key,
                                resized(self.request_buckets[key], n as nat, now_ms),
                            )
                        } else {
                            self.request_buckets
                        },
                        None => self.request_buckets,
                    },
                    ..self
                }
            },
        }
    }

    /// The pacing delay before a request, in milliseconds, if the rate is positive.
    pub open spec fn pacing_delay(self) -> Option<u64> {
        if self.pacer.current_rate > 0 {
            Some((1_000_000int / self.pacer.current_rate) as u64)
        } else {
            None
        }
    }
}

/// Rate limiter for one client: per-deployment token and request buckets seeded from
/// per-model capacities, a shared circuit breaker and a shared adaptive pacer.
#[derive(Debug, Clone)]
pub struct AzureOpenAIRateLimiter {
    model_limits: KeyedTable<ModelRateLimits>,
    token_buckets: KeyedTable<TokenBucket>,
    request_buckets: KeyedTable<TokenBucket>,
    circuit_breaker: CircuitBreaker,
    adaptive_limiter: AdaptiveRateLimiter,
    last_context: Option<LimiterContext>,
}

impl View for AzureOpenAIRateLimiter {
    type V = LimiterView;

    closed spec fn view(&self) -> LimiterView {
        LimiterView {
            model_limits: self.model_limits@,
            token_buckets: self.token_buckets@.map_values(|b: TokenBucket| b@),
            request_buckets: self.request_buckets@.map_values(|b: TokenBucket| b@),
            breaker: self.circuit_breaker@,
            pacer: self.adaptive_limiter@,
            context: match self.last_context {
                Some(c) => Some((c.bucket_key@, c.model_hint@)),
                None => None,
            },
        }
    }
}


/// The seeded capacities as a table.
pub open spec fn seeded_table() -> Map<Seq<char>, ModelRateLimits> {
    Map::new(|k: Seq<char>| seeded_limits(k) is Some, |k: Seq<char>| seeded_limits(k)->0)
}

/// Rate-limit feedback read from one response. Each field is absent when its header
/// is missing or does not parse.
#[derive(Debug, Clone, Copy, PartialEq, Eq, Structural)]
pub struct RateLimitFeedback {
    pub remaining_requests: Option<u32>,
    pub remaining_tokens: Option<u32>,
    pub reset_requests: Option<u64>,
    pub reset_tokens: Option<u64>,
    pub limit_requests: Option<u32>,
    pub limit_tokens: Option<u32>,
}

/// The more restrictive (later) of two reset times, if any is known.
pub open spec fn later_reset(a: Option<u64>, b: Option<u64>) -> Option<u64> {
    match (a, b) {
        (Some(x), Some(y)) => Some(if x >= y { x } else { y }),
        (Some(x), None) => Some(x),
        (None, Some(y)) => Some(y),
        (None, None) => None,
    }
}

/// The token-usage reconciliation of a completed request: refund what was charged
/// beyond the actual use, or debit what was used beyond the charge.
pub open spec fn reconciled(b: BucketView, estimated: nat, actual: nat) -> BucketView {
    if estimated > actual {
        b.refunded((estimated - actual) as nat)
    } else if estimated < actual {
        b.debited((actual - estimated) as nat)
    } else {
        b
    }
}

/// Snapshot of the limiter for one model.
#[derive(Debug, Clone)]
pub struct RateLimiterStatus {
    pub model: String,
    pub available_tokens: u32,
    pub available_requests: u32,
    pub circuit_breaker_open: bool,
    pub should_throttle: bool,
    /// Target rate in thousandths of a request per second.
    pub current_rate: u64,
}

impl AzureOpenAIRateLimiter {
    pub open spec fn wf(&self) -> bool {
        self@.wf()
    }

    /// A limiter with the default configuration.
    pub fn new() -> (r: AzureOpenAIRateLimiter)
        ensures
            r.wf(),
            r@.model_limits == seeded_table(),
            r@.token_buckets.dom().is_empty(),
            r@.request_buckets.dom().is_empty(),
            r@.context is None,
            r@.breaker == (BreakerView {
                state: CircuitState::Closed,
                failure_count: 0,
                success_count: 0,
                failure_threshold: 5,
                success_threshold: 2,
                timeout_ms: 30000,
            }),
            r@.pacer == (PacerView {
                current_rate: 10000,
                min_rate: 1000,
                max_rate: 50000,
                remaining_requests: None,
                remaining_tokens: None,
                reset_at_ms: None,
            }),
    {
        let r = Self::with_config(AzureRateLimitConfig::default());
        proof {
            assert(r@.model_limits == with_overrides(seeded_table(), Seq::empty()));
        }
        r
    }

    fn default_model_limits() -> (r: KeyedTable<ModelRateLimits>)
        ensures
            r@ == seeded_table(),
    {
        let mut t: KeyedTable<ModelRateLimits> = KeyedTable::new();
        t.insert("gpt-5", ModelRateLimits { tokens_per_minute: 20000, requests_per_minute: 200 });
        t.insert("gpt-5-mini", ModelRateLimits { tokens_per_minute: 20000, requests_per_minute: 200 });
        t.insert("gpt-5-nano", ModelRateLimits { tokens_per_minute: 20000, requests_per_minute: 200 });
        t.insert("gpt-5-chat", ModelRateLimits { tokens_per_minute: 20000, requests_per_minute: 200 });
        t.insert("gpt-4o", ModelRateLimits { tokens_per_minute: 30000, requests_per_minute: 300 });
        t.insert("gpt-4o-mini", ModelRateLimits { tokens_per_minute: 30000, requests_per_minute: 300 });
        t.insert("gpt-4.1", ModelRateLimits { tokens_per_minute: 30000, requests_per_minute: 300 });
        t.insert("gpt-4.1-nano", ModelRateLimits { tokens_per_minute: 30000, requests_per_minute: 300 });
        t.insert("gpt-4.1-mini", ModelRateLimits { tokens_per_minute: 30000, requests_per_minute: 300 });
        t.insert("o1", ModelRateLimits { tokens_per_minute: 10000, requests_per_minute: 50 });
        t.insert("o3", ModelRateLimits { tokens_per_minute: 10000, requests_per_minute: 50 });
        t.insert("o3-mini", ModelRateLimits { tokens_per_minute: 15000, requests_per_minute: 100 });
        t.insert("o4-mini", ModelRateLimits { tokens_per_minute: 15000, requests_per_minute: 100 });
        assert(t@ =~= seeded_table());
        t
    }

    /// A limiter whose model capacities are the seeded ones overridden by the
    /// configuration's custom limits, with no buckets yet.
    pub fn with_config(config: AzureRateLimitConfig) -> (r: AzureOpenAIRateLimiter)
        ensures
            r.wf(),
            r@.model_limits == with_overrides(seeded_table(), config.custom_limits@),
            r@.token_buckets.dom().is_empty(),
            r@.request_buckets.dom().is_empty(),
            r@.context is None,
            r@.breaker == (BreakerView {
                state: CircuitState::Closed,
                failure_count: 0,
                success_count: 0,
                failure_threshold: config.circuit_breaker_threshold as nat,
                success_threshold: 2,
                timeout_ms: (if config.circuit_breaker_timeout_secs <= u64::MAX / 1000 {
                    config.circuit_breaker_timeout_secs * 1000
                } else {
                    u64::MAX as int
                }) as nat,
            }),
            r@.pacer == (PacerView {
                current_rate: if config.aggressive_throttling { 5000int } else { 10000int },
                min_rate: 1000,
                max_rate: if config.aggressive_throttling { 30000int } else { 50000int },
                remaining_requests: None,
                remaining_tokens: None,
                reset_at_ms: None,
            }),
    {
        let mut model_limits = Self::default_model_limits();
        let mut i: usize = 0;
        while i < config.custom_limits.len()
            invariant
                i <= config.custom_limits@.len(),
                model_limits@ == with_overrides(
                    seeded_table(),
                    config.custom_limits@.subrange(0, i as int),
                ),
            decreases config.custom_limits@.len() - i,
        {
            let entry = &config.custom_limits[i];
            model_limits.insert(entry.0.as_str(), entry.1);
            proof {
                assert(config.custom_limits@.subrange(0, i + 1).drop_last()
                    =~= config.custom_limits@.subrange(0, i as int));
            }
            i = i + 1;
        }
        proof {
            assert(config.custom_limits@.subrange(0, i as int) =~= config.custom_limits@);
        }
        let timeout_ms: u64 = if config.circuit_breaker_timeout_secs <= u64::MAX / 1000 {
            config.circuit_breaker_timeout_secs * 1000
        } else {
            u64::MAX
        };
        let initial_rate: u64 = if config.aggressive_throttling { 5000 } else { 10000 };
        let max_rate: u64 = if config.aggressive_throttling { 30000 } else { 50000 };
        let r = AzureOpenAIRateLimiter {
            model_limits,
            token_buckets: KeyedTable::new(),
            request_buckets: KeyedTable::new(),
            circuit_breaker: CircuitBreaker::new(config.circuit_breaker_threshold, 2, timeout_ms),
            adaptive_limiter: AdaptiveRateLimiter::new(initial_rate, 1000, max_rate),
            last_context: None,
        };
        proof {
            assert(r@.token_buckets.dom() =~= Set::empty());
            assert(r@.request_buckets.dom() =~= Set::empty());
        }
        r
    }

    /// The capacities that buckets seeded from `model_hint` get.
    pub fn limits_for(&self, model_hint: &str) -> (r: ModelRateLimits)
        ensures
            r == self@.limits_for(model_hint@),
    {
        match self.model_limits.get(model_hint) {
            Some(l) => l,
            None => ModelRateLimits::default(),
        }
    }

    fn token_bucket_for_key(&mut self, bucket_key: &str, model_hint: &str, now_ms: u64) -> (r:
        TokenBucket)
        requires
            old(self).wf(),
        ensures
            final(self).wf(),
            final(self)@ == old(self)@.with_token_bucket(bucket_key@, model_hint@, now_ms as nat),
            final(self)@.token_buckets.dom().contains(bucket_key@),
            r@ == final(self)@.token_buckets[bucket_key@],
    {
        match self.token_buckets.get(bucket_key) {
            Some(b) => b,
            None => {
                let limits = self.limits_for(model_hint);
                let b = TokenBucket::new(limits.tokens_per_minute, limits.tokens_per_minute, now_ms);
                let ghost before = self.token_buckets@;
                self.token_buckets.insert(bucket_key, b);
                proof {
                    assert(self.token_buckets@.map_values(|b: TokenBucket| b@) =~= before.map_values(
                        |b: TokenBucket| b@,
                    ).insert(bucket_key@, b@));
                }
                b
            },
        }
    }

    fn request_bucket_for_key(&mut self, bucket_key: &str, model_hint: &str, now_ms: u64) -> (r:
        TokenBucket)
        requires
            old(self).wf(),
        ensures
            final(self).wf(),
            final(self)@ == old(self)@.with_request_bucket(bucket_key@, model_hint@, now_ms as nat),
            final(self)@.request_buckets.dom().contains(bucket_key@),
            r@ == final(self)@.request_buckets[bucket_key@],
    {
        match self.request_buckets.get(bucket_key) {
            Some(b) => b,
            None => {
                let limits = self.limits_for(model_hint);
                let b = TokenBucket::new(
                    limits.requests_per_minute,
                    limits.requests_per_minute,
                    now_ms,
                );
                let ghost before = self.request_buckets@;
                self.request_buckets.insert(bucket_key, b);
                proof {
                    assert(self.request_buckets@.map_values(|b: TokenBucket| b@)
                        =~= before.map_values(|b: TokenBucket| b@).insert(bucket_key@, b@));
                }
                b
            },
        }
    }

    fn store_token_bucket(&mut self, bucket_key: &str, b: TokenBucket)
        requires
            old(self).wf(),
            b.wf(),
        ensures
            final(self).wf(),
            final(self)@ == (LimiterView {
                token_buckets: old(self)@.token_buckets.insert(bucket_key@, b@),
                ..old(self)@
            }),
    {
        let ghost before = self.token_buckets@;
        self.token_buckets.insert(bucket_key, b);
        proof {
            assert(self.token_buckets@.map_values(|b: TokenBucket| b@) =~= before.map_values(
                |b: TokenBucket| b@,
            ).insert(bucket_key@, b@));
        }
    }

    fn store_request_bucket(&mut self, bucket_key: &str, b: TokenBucket)
        requires
            old(self).wf(),
            b.wf(),
        ensures
            final(self).wf(),
            final(self)@ == (LimiterView {
                request_buckets: old(self)@.request_buckets.insert(bucket_key@, b@),
                ..old(self)@
            }),
    {
        let ghost before = self.request_buckets@;
        self.request_buckets.insert(bucket_key, b);
        proof {
            assert(self.request_buckets@.map_values(|b: TokenBucket| b@) =~= before.map_values(
                |b: TokenBucket| b@,
            ).insert(bucket_key@, b@));
        }
    }
}


/// What one acquire step decides, as `acquire_for_deployment` reports it in an
/// `AcquireAction`.
pub enum AcquireOutcome {
    Sleep { ms: u64, next: AcquirePhase },
    Done,
    CircuitOpen,
    ExceedsCapacity { requested: u32, capacity: u32 },
    TokenFailed { reason: AcquireStep },
    RequestFailed { reason: AcquireStep },
}

/// `r` reports the outcome `o` of an acquire for the deployment `key`.
pub open spec fn describes(r: AcquireAction, o: AcquireOutcome, key: Seq<char>) -> bool {
    match (r, o) {
        (AcquireAction::Sleep { ms, next }, AcquireOutcome::Sleep { ms: m, next: n }) => ms == m
            && next == n,
        (AcquireAction::Done, AcquireOutcome::Done) => true,
        (AcquireAction::Fail(LimiterError::CircuitOpen), AcquireOutcome::CircuitOpen) => true,
        (
            AcquireAction::Fail(LimiterError::ExceedsCapacity { bucket_key, requested, capacity }),
            AcquireOutcome::ExceedsCapacity { requested: q, capacity: c },
        ) => bucket_key@ == key && requested == q && capacity == c,
        (
            AcquireAction::Fail(LimiterError::TokenAcquireFailed { reason }),
            AcquireOutcome::TokenFailed { reason: w },
        ) => reason == w,
        (
            AcquireAction::Fail(LimiterError::RequestAcquireFailed { reason }),
            AcquireOutcome::RequestFailed { reason: w },
        ) => reason == w,
        _ => false,
    }
}

/// The outcome of one attempt on the request bucket, made after `attempts` waits.
pub open spec fn request_outcome(step: AcquireStep, attempts: u32) -> AcquireOutcome {
    match step {
        AcquireStep::Acquired => AcquireOutcome::Done,
        AcquireStep::Wait { ms } => AcquireOutcome::Sleep {
            ms,
            next: AcquirePhase::Request { attempts: (attempts + 1) as u32 },
        },
        reason => AcquireOutcome::RequestFailed { reason },
    }
}

/// The outcome of one attempt on the token bucket that did not take the tokens, made
/// after `attempts` waits.
pub open spec fn token_outcome(step: AcquireStep, attempts: u32) -> AcquireOutcome {
    match step {
        AcquireStep::Wait { ms } => AcquireOutcome::Sleep {
            ms,
            next: AcquirePhase::Tokens { attempts: (attempts + 1) as u32 },
        },
        reason => AcquireOutcome::TokenFailed { reason },
    }
}

impl LimiterView {
    /// One attempt on the request bucket of `key` (created from `hint` if missing): the
    /// outcome, and the state with that bucket after the attempt.
    pub open spec fn request_part(self, key: Seq<char>, hint: Seq<char>, now_ms: nat, attempts: u32) -> (
        AcquireOutcome,
        LimiterView,
    ) {
        let s = self.with_request_bucket(key, hint, now_ms);
        let o = s.request_buckets[key].acquire_outcome(1, now_ms, attempts as nat);
        (
            request_outcome(o.0, attempts),
            LimiterView { request_buckets: s.request_buckets.insert(key, o.1), ..s },
        )
    }

    /// The token step for `key`: both buckets are created from `hint` if missing; a
    /// request above the hint's per-minute capacity fails and debits nothing; else one
    /// attempt on the token bucket, and once the tokens are taken, the first attempt on
    /// the request bucket.
    pub open spec fn token_part(
        self,
        key: Seq<char>,
        hint: Seq<char>,
        estimated: u32,
        now_ms: nat,
        attempts: u32,
    ) -> (AcquireOutcome, LimiterView) {
        let s = self.with_token_bucket(key, hint, now_ms).with_request_bucket(key, hint, now_ms);
        let capacity = self.limits_for(hint).tokens_per_minute;
        if estimated > capacity {
            (AcquireOutcome::ExceedsCapacity { requested: estimated, capacity }, s)
        } else {
            let o = s.token_buckets[key].acquire_outcome(estimated as nat, now_ms, attempts as nat);
            let s2 = LimiterView { token_buckets: s.token_buckets.insert(key, o.1), ..s };
            if o.0 is Acquired {
                s2.request_part(key, hint, now_ms, 0)
            } else {
                (token_outcome(o.0, attempts), s2)
            }
        }
    }

    /// One step of an acquire in `phase`: its outcome and the state after it. The
    /// start records the context and consults the breaker, touching no bucket; an open
    /// breaker fails there.
    pub open spec fn acquire_step(
        self,
        key: Seq<char>,
        hint: Seq<char>,
        estimated: u32,
        phase: AcquirePhase,
        now_ms: nat,
    ) -> (AcquireOutcome, LimiterView) {
        match phase {
            AcquirePhase::Start => {
                let s = LimiterView {
                    context: Some((key, hint)),
                    breaker: self.breaker.after_check(now_ms),
                    ..self
                };
                if !self.breaker.allows(now_ms) {
                    (AcquireOutcome::CircuitOpen, s)
                } else {
                    match self.pacing_delay() {
                        Some(ms) => (AcquireOutcome::Sleep { ms, next: AcquirePhase::Paced }, s),
                        None => s.token_part(key, hint, estimated, now_ms, 0),
                    }
                }
            },
            AcquirePhase::Paced => self.token_part(key, hint, estimated, now_ms, 0),
            AcquirePhase::Tokens { attempts } => self.token_part(key, hint, estimated, now_ms, attempts),
            AcquirePhase::Request { attempts } => self.request_part(key, hint, now_ms, attempts),
        }
    }
}

impl AzureOpenAIRateLimiter {
    /// First step of an acquire: records the context that later feedback is attributed
    /// to, then consults the circuit breaker. On success returns the pacing delay to
    /// wait before taking tokens.
    pub fn begin_acquire(&mut self, bucket_key: &str, model_hint: &str, now_ms: u64) -> (r: Result<
        Option<u64>,
        LimiterError,
    >)
        requires
            old(self).wf(),
        ensures
            final(self).wf(),
            final(self)@ == (LimiterView {
                context: Some((bucket_key@, model_hint@)),
                breaker: old(self)@.breaker.after_check(now_ms as nat),
                ..old(self)@
            }),
            old(self)@.breaker.allows(now_ms as nat) ==> r == Ok::<Option<u64>, LimiterError>(
                old(self)@.pacing_delay(),
            ),
            !old(self)@.breaker.allows(now_ms as nat) ==> r matches Err(LimiterError::CircuitOpen),
    {
        self.last_context = Some(
            LimiterContext { bucket_key: bucket_key.to_owned(), model_hint: model_hint.to_owned() },
        );
        if !self.circuit_breaker.is_allowed(now_ms) {
            return Err(LimiterError::CircuitOpen);
        }
        Ok(self.adaptive_limiter.pacing_delay_ms())
    }

    /// Takes `estimated_tokens` from the token bucket of `bucket_key`, creating the
    /// deployment's buckets from `model_hint` when missing. A request above the model's
    /// per-minute capacity fails at once, before any bucket is touched.
    pub fn acquire_tokens(
        &mut self,
        bucket_key: &str,
        model_hint: &str,
        estimated_tokens: u32,
        now_ms: u64,
        attempts: u32,
    ) -> (r: Result<AcquireStep, LimiterError>)
        requires
            old(self).wf(),
        ensures
            final(self).wf(),
            ({
                let s = old(self)@.with_token_bucket(bucket_key@, model_hint@, now_ms as nat).with_request_bucket(
                    bucket_key@,
                    model_hint@,
                    now_ms as nat,
                );
                let capacity = old(self)@.limits_for(model_hint@).tokens_per_minute;
                if estimated_tokens > capacity {
                    &&& final(self)@ == s
                    &&& r matches Err(LimiterError::ExceedsCapacity { bucket_key: k, requested, capacity: c })
                    &&& k@ == bucket_key@ && requested == estimated_tokens && c == capacity
                } else {
                    let outcome = s.token_buckets[bucket_key@].acquire_outcome(
                        estimated_tokens as nat,
                        now_ms as nat,
                        attempts as nat,
                    );
                    &&& r == Ok::<AcquireStep, LimiterError>(outcome.0)
                    &&& final(self)@ == (LimiterView {
                        token_buckets: s.token_buckets.insert(bucket_key@, outcome.1),
                        ..s
                    })
                }
            }),
    {
        let _ = self.token_bucket_for_key(bucket_key, model_hint, now_ms);
        let _ = self.request_bucket_for_key(bucket_key, model_hint, now_ms);
        let capacity = self.limits_for(model_hint).tokens_per_minute;
        if estimated_tokens > capacity {
            return Err(
                LimiterError::ExceedsCapacity {
                    bucket_key: bucket_key.to_owned(),
                    requested: estimated_tokens,
                    capacity,
                },
            );
        }
        let mut bucket = self.token_bucket_for_key(bucket_key, model_hint, now_ms);
        let step = bucket.acquire(estimated_tokens as u64, now_ms, attempts);
        self.store_token_bucket(bucket_key, bucket);
        Ok(step)
    }

    /// Takes one request permit from the request bucket of `bucket_key`, creating it
    /// from `model_hint` when missing.
    pub fn acquire_request(&mut self, bucket_key: &str, model_hint: &str, now_ms: u64, attempts: u32) -> (r:
        AcquireStep)
        requires
            old(self).wf(),
        ensures
            final(self).wf(),
            ({
                let s = old(self)@.with_request_bucket(bucket_key@, model_hint@, now_ms as nat);
                let outcome = s.request_buckets[bucket_key@].acquire_outcome(
                    1,
                    now_ms as nat,
                    attempts as nat,
                );
                &&& r == outcome.0
                &&& final(self)@ == (LimiterView {
                    request_buckets: s.request_buckets.insert(bucket_key@, outcome.1),
                    ..s
                })
            }),
    {
        let mut bucket = self.request_bucket_for_key(bucket_key, model_hint, now_ms);
        let step = bucket.acquire(1, now_ms, attempts);
        self.store_request_bucket(bucket_key, bucket);
        step
    }

    fn request_phase(&mut self, bucket_key: &str, model_hint: &str, now_ms: u64, attempts: u32) -> (r:
        AcquireAction)
        requires
            old(self).wf(),
        ensures
            final(self).wf(),
            ({
                let o = old(self)@.request_part(bucket_key@, model_hint@, now_ms as nat, attempts);
                describes(r, o.0, bucket_key@) && final(self)@ == o.1
            }),
    {
        match self.acquire_request(bucket_key, model_hint, now_ms, attempts) {
            AcquireStep::Acquired => AcquireAction::Done,
            AcquireStep::Wait { ms } => AcquireAction::Sleep {
                ms,
                next: AcquirePhase::Request { attempts: attempts + 1 },
            },
            reason => AcquireAction::Fail(LimiterError::RequestAcquireFailed { reason }),
        }
    }

    fn tokens_phase(
        &mut self,
        bucket_key: &str,
        model_hint: &str,
        estimated_tokens: u32,
        now_ms: u64,
        attempts: u32,
    ) -> (r: AcquireAction)
        requires
            old(self).wf(),
        ensures
            final(self).wf(),
            ({
                let o = old(self)@.token_part(
                    bucket_key@,
                    model_hint@,
                    estimated_tokens,
                    now_ms as nat,
                    attempts,
                );
                describes(r, o.0, bucket_key@) && final(self)@ == o.1
            }),
    {
        match self.acquire_tokens(bucket_key, model_hint, estimated_tokens, now_ms, attempts) {
            Err(e) => AcquireAction::Fail(e),
            Ok(AcquireStep::Acquired) => self.request_phase(bucket_key, model_hint, now_ms, 0),
            Ok(AcquireStep::Wait { ms }) => AcquireAction::Sleep {
                ms,
                next: AcquirePhase::Tokens { attempts: attempts + 1 },
            },
            Ok(reason) => AcquireAction::Fail(LimiterError::TokenAcquireFailed { reason }),
        }
    }

    /// One step of acquiring `estimated_tokens` and one request permit for the
    /// deployment `deployment`, whose capacities come from `model_hint`.
    ///
    /// Start with `AcquirePhase::Start`; on `Sleep` wait and call again with its phase.
    /// The steps are: record the context and consult the circuit breaker; wait out the
    /// pacing delay; fail fast if the request exceeds the per-minute token capacity;
    /// take the tokens; then take the request permit. Tokens come first so that request
    /// capacity is not spent while waiting for tokens.
    pub fn acquire_for_deployment(
        &mut self,
        deployment: &str,
        model_hint: &str,
        estimated_tokens: u32,
        phase: AcquirePhase,
        now_ms: u64,
    ) -> (r: AcquireAction)
        requires
            old(self).wf(),
        ensures
            final(self).wf(),
            ({
                let o = old(self)@.acquire_step(
                    deployment@,
                    model_hint@,
                    estimated_tokens,
                    phase,
                    now_ms as nat,
                );
                describes(r, o.0, deployment@) && final(self)@ == o.1
            }),
    {
        match phase {
            AcquirePhase::Start => match self.begin_acquire(deployment, model_hint, now_ms) {
                Err(e) => AcquireAction::Fail(e),
                Ok(Some(ms)) => AcquireAction::Sleep { ms, next: AcquirePhase::Paced },
                Ok(None) => self.tokens_phase(deployment, model_hint, estimated_tokens, now_ms, 0),
            },
            AcquirePhase::Paced => self.tokens_phase(
                deployment,
                model_hint,
                estimated_tokens,
                now_ms,
                0,
            ),
            AcquirePhase::Tokens { attempts } => self.tokens_phase(
                deployment,
                model_hint,
                estimated_tokens,
                now_ms,
                attempts,
            ),
            AcquirePhase::Request { attempts } => self.request_phase(
                deployment,
                model_hint,
                now_ms,
                attempts,
            ),
        }
    }

    /// `acquire_for_deployment` with the model name as both deployment and model hint.
    pub fn acquire(&mut self, model: &str, estimated_tokens: u32, phase: AcquirePhase, now_ms: u64) -> (r:
        AcquireAction)
        requires
            old(self).wf(),
        ensures
            final(self).wf(),
            ({
                let o = old(self)@.acquire_step(model@, model@, estimated_tokens, phase, now_ms as nat);
                describes(r, o.0, model@) && final(self)@ == o.1
            }),
    {
        self.acquire_for_deployment(model, model, estimated_tokens, phase, now_ms)
    }
}


/// `after` is `before` once the feedback of a response received at `now_ms` is
/// applied: the pacer records the remaining counts and the later reset time, and is
/// offered `remaining requests / reset seconds`; advertised capacities go through
/// `with_dynamic_limits`.
pub open spec fn feedback_applied(
    before: LimiterView,
    after: LimiterView,
    feedback: RateLimitFeedback,
    now_ms: nat,
) -> bool {
    let reset = later_reset(feedback.reset_requests, feedback.reset_tokens);
    let paced = LimiterView { pacer: after.pacer, ..before };
    &&& after.pacer.min_rate == before.pacer.min_rate
    &&& after.pacer.max_rate == before.pacer.max_rate
    &&& after.pacer.remaining_requests == (if feedback.remaining_requests is Some {
        feedback.remaining_requests
    } else {
        before.pacer.remaining_requests
    })
    &&& after.pacer.remaining_tokens == (if feedback.remaining_tokens is Some {
        feedback.remaining_tokens
    } else {
        before.pacer.remaining_tokens
    })
    &&& after.pacer.reset_at_ms == match reset {
        Some(s) => Some(
            (if now_ms + s * 1000 <= u64::MAX {
                now_ms + s * 1000
            } else {
                u64::MAX as int
            }) as u64,
        ),
        None => before.pacer.reset_at_ms,
    }
    &&& after.pacer.current_rate == match (feedback.remaining_requests, reset) {
        (Some(n), Some(s)) => if s > 0 {
            crate::pacer::adjusted_rate(
                before.pacer.current_rate,
                crate::pacer::suggested_rate(n as nat, s as nat),
                before.pacer.min_rate,
                before.pacer.max_rate,
            )
        } else {
            before.pacer.current_rate
        },
        _ => before.pacer.current_rate,
    }
    &&& after == if feedback.limit_requests is Some || feedback.limit_tokens is Some {
        paced.with_dynamic_limits(feedback.limit_tokens, feedback.limit_requests, now_ms)
    } else {
        paced
    }
}

impl AzureOpenAIRateLimiter {
    /// Applies the feedback of one response received at `now_ms`. The pacer sees the
    /// remaining counts and the later of the two reset times; advertised capacities
    /// resize the buckets of the last acquire's context.
    pub fn update_from_feedback(&mut self, feedback: RateLimitFeedback, now_ms: u64)
        requires
            old(self).wf(),
        ensures
            final(self).wf(),
            feedback_applied(old(self)@, final(self)@, feedback, now_ms as nat),
    {
        let reset_seconds: Option<u64> = match (feedback.reset_requests, feedback.reset_tokens) {
            (Some(r), Some(t)) => Some(if r >= t { r } else { t }),
            (Some(r), None) => Some(r),
            (None, Some(t)) => Some(t),
            (None, None) => None,
        };
        self.adaptive_limiter.update_from_headers(
            feedback.remaining_requests,
            feedback.remaining_tokens,
            reset_seconds,
            now_ms,
        );
        proof {
            assert(self@ == LimiterView { pacer: self@.pacer, ..old(self)@ });
            assert(self@.wf());
        }
        if feedback.limit_requests.is_some() || feedback.limit_tokens.is_some() {
            let context: Option<LimiterContext> = match &self.last_context {
                Some(c) => Some(
                    LimiterContext {
                        bucket_key: c.bucket_key.clone(),
                        model_hint: c.model_hint.clone(),
                    },
                ),
                None => None,
            };
            if let Some(ctx) = context {
                self.apply_dynamic_limits(&ctx, feedback.limit_tokens, feedback.limit_requests, now_ms);
            }
        }
    }

    fn apply_dynamic_limits(
        &mut self,
        ctx: &LimiterContext,
        limit_tokens: Option<u32>,
        limit_requests: Option<u32>,
        now_ms: u64,
    )
        requires
            old(self).wf(),
            old(self)@.context == Some((ctx.bucket_key@, ctx.model_hint@)),
        ensures
            final(self).wf(),
            final(self)@ == old(self)@.with_dynamic_limits(limit_tokens, limit_requests, now_ms as nat),
    {
        let mut limits = self.limits_for(ctx.model_hint.as_str());
        if let Some(tpm) = limit_tokens {
            limits.tokens_per_minute = tpm;
        }
        if let Some(rpm) = limit_requests {
            limits.requests_per_minute = rpm;
        }
        self.model_limits.insert(ctx.model_hint.as_str(), limits);
        if let Some(tpm) = limit_tokens {
            if let Some(old_bucket) = self.token_buckets.get(ctx.bucket_key.as_str()) {
                let resized = Self::resize_bucket(old_bucket, tpm, now_ms);
                self.store_token_bucket(ctx.bucket_key.as_str(), resized);
            }
        }
        if let Some(rpm) = limit_requests {
            if let Some(old_bucket) = self.request_buckets.get(ctx.bucket_key.as_str()) {
                let resized = Self::resize_bucket(old_bucket, rpm, now_ms);
                self.store_request_bucket(ctx.bucket_key.as_str(), resized);
            }
        }
    }

    /// A fresh bucket of `capacity` (refilling it once a minute) holding the old
    /// bucket's availability clamped to the new capacity.
    fn resize_bucket(old_bucket: TokenBucket, capacity: u32, now_ms: u64) -> (r: TokenBucket)
        requires
            old_bucket.wf(),
        ensures
            r.wf(),
            r@ == resized(old_bucket@, capacity as nat, now_ms as nat),
    {
        let mut old_bucket = old_bucket;
        let available = old_bucket.available_tokens(now_ms);
        let mut fresh = TokenBucket::new(capacity, capacity, now_ms);
        let target: u64 = if available <= capacity as u64 { available } else { capacity as u64 };
        fresh.force_debit(capacity as u64 - target);
        fresh
    }

    /// Settles a completed request's pre-charge of `estimated_tokens` against its
    /// actual total: the difference is refunded, or the excess debited (stopping at
    /// zero).
    pub fn reconcile_after_completed(
        &mut self,
        bucket_key: &str,
        model_hint: &str,
        estimated_tokens: u32,
        actual_total_tokens: u64,
        now_ms: u64,
    )
        requires
            old(self).wf(),
        ensures
            final(self).wf(),
            ({
                let s = old(self)@.with_token_bucket(bucket_key@, model_hint@, now_ms as nat);
                final(self)@ == (LimiterView {
                    token_buckets: s.token_buckets.insert(
                        bucket_key@,
                        reconciled(
                            s.token_buckets[bucket_key@],
                            estimated_tokens as nat,
                            actual_total_tokens as nat,
                        ),
                    ),
                    ..s
                })
            }),
    {
        let mut bucket = self.token_bucket_for_key(bucket_key, model_hint, now_ms);
        let estimated = estimated_tokens as u64;
        if estimated > actual_total_tokens {
            bucket.refund(estimated - actual_total_tokens);
        } else if estimated < actual_total_tokens {
            bucket.force_debit(actual_total_tokens - estimated);
        }
        self.store_token_bucket(bucket_key, bucket);
        proof {
            let s = old(self)@.with_token_bucket(bucket_key@, model_hint@, now_ms as nat);
            assert(s.token_buckets.insert(bucket_key@, bucket@) =~= self@.token_buckets);
        }
    }

    /// Records a successful request with the circuit breaker.
    pub fn record_success(&mut self)
        requires
            old(self).wf(),
        ensures
            final(self).wf(),
            final(self)@ == (LimiterView { breaker: old(self)@.breaker.after_success(), ..old(self)@ }),
    {
        self.circuit_breaker.record_success();
    }

    /// Records a failed request at `now_ms` with the circuit breaker.
    pub fn record_failure(&mut self, now_ms: u64)
        requires
            old(self).wf(),
        ensures
            final(self).wf(),
            final(self)@ == (LimiterView {
                breaker: old(self)@.breaker.after_failure(now_ms as nat),
                ..old(self)@
            }),
    {
        self.circuit_breaker.record_failure(now_ms);
    }

    /// A snapshot for `model` at `now_ms`, using (and creating if missing) the buckets
    /// keyed by the model name.
    pub fn get_status(&mut self, model: &str, now_ms: u64) -> (r: RateLimiterStatus)
        requires
            old(self).wf(),
        ensures
            final(self).wf(),
            ({
                let s = old(self)@.with_token_bucket(model@, model@, now_ms as nat).with_request_bucket(
                    model@,
                    model@,
                    now_ms as nat,
                );
                &&& final(self)@ == (LimiterView {
                    token_buckets: s.token_buckets.insert(
                        model@,
                        s.token_buckets[model@].refill(now_ms as nat),
                    ),
                    request_buckets: s.request_buckets.insert(
                        model@,
                        s.request_buckets[model@].refill(now_ms as nat),
                    ),
                    breaker: old(self)@.breaker.after_check(now_ms as nat),
                    ..s
                })
                &&& r.model@ == model@
                &&& r.available_tokens == s.token_buckets[model@].available(now_ms as nat)
                &&& r.available_requests == s.request_buckets[model@].available(now_ms as nat)
                &&& r.circuit_breaker_open == !old(self)@.breaker.allows(now_ms as nat)
                &&& r.should_throttle == old(self)@.pacer.throttles()
                &&& r.current_rate == old(self)@.pacer.current_rate
            }),
    {
        let mut tokens = self.token_bucket_for_key(model, model, now_ms);
        let mut requests = self.request_bucket_for_key(model, model, now_ms);
        let available_tokens = tokens.available_tokens(now_ms);
        let available_requests = requests.available_tokens(now_ms);
        self.store_token_bucket(model, tokens);
        self.store_request_bucket(model, requests);
        let circuit_breaker_open = !self.circuit_breaker.is_allowed(now_ms);
        RateLimiterStatus {
            model: model.to_owned(),
            available_tokens: available_tokens as u32,
            available_requests: available_requests as u32,
            circuit_breaker_open,
            should_throttle: self.adaptive_limiter.should_throttle(),
            current_rate: self.adaptive_limiter.get_rate(),
        }
    }
}


/// The value of header `name` read with `parse`, if present.
pub open spec fn header_u32(h: HeaderMap, name: Seq<char>) -> Option<u32> {
    match header_contents(h).get(name) {
        Some(b) => parsed_u32(b),
        None => None,
    }
}

pub open spec fn header_u64(h: HeaderMap, name: Seq<char>) -> Option<u64> {
    match header_contents(h).get(name) {
        Some(b) => parsed_u64(b),
        None => None,
    }
}

/// The rate-limit feedback that a response's headers carry.
pub open spec fn feedback_of(h: HeaderMap) -> RateLimitFeedback {
    RateLimitFeedback {
        remaining_requests: header_u32(h, "x-ratelimit-remaining-requests"@),
        remaining_tokens: header_u32(h, "x-ratelimit-remaining-tokens"@),
        reset_requests: header_u64(h, "x-ratelimit-reset-requests"@),
        reset_tokens: header_u64(h, "x-ratelimit-reset-tokens"@),
        limit_requests: header_u32(h, "x-ratelimit-limit-requests"@),
        limit_tokens: header_u32(h, "x-ratelimit-limit-tokens"@),
    }
}

fn read_u32(headers: &HeaderMap, name: &str) -> (r: Option<u32>)
    requires
        is_plain_header_name(name@),
    ensures
        r == header_u32(*headers, name@),
{
    match header_bytes(headers, name) {
        Some(b) => parse_u32(b.as_slice()),
        None => None,
    }
}

fn read_u64(headers: &HeaderMap, name: &str) -> (r: Option<u64>)
    requires
        is_plain_header_name(name@),
    ensures
        r == header_u64(*headers, name@),
{
    match header_bytes(headers, name) {
        Some(b) => parse_u64(b.as_slice()),
        None => None,
    }
}

impl RateLimitFeedback {
    /// Reads the `x-ratelimit-{remaining,reset,limit}-{requests,tokens}` headers; one
    /// that is missing or does not parse is absent.
    pub fn from_headers(headers: &HeaderMap) -> (r: RateLimitFeedback)
        ensures
            r == feedback_of(*headers),
    {
        proof {
            reveal_strlit("x-ratelimit-remaining-requests");
            reveal_strlit("x-ratelimit-remaining-tokens");
            reveal_strlit("x-ratelimit-reset-requests");
            reveal_strlit("x-ratelimit-reset-tokens");
            reveal_strlit("x-ratelimit-limit-requests");
            reveal_strlit("x-ratelimit-limit-tokens");
        }
        RateLimitFeedback {
            remaining_requests: read_u32(headers, "x-ratelimit-remaining-requests"),
            remaining_tokens: read_u32(headers, "x-ratelimit-remaining-tokens"),
            reset_requests: read_u64(headers, "x-ratelimit-reset-requests"),
            reset_tokens: read_u64(headers, "x-ratelimit-reset-tokens"),
            limit_requests: read_u32(headers, "x-ratelimit-limit-requests"),
            limit_tokens: read_u32(headers, "x-ratelimit-limit-tokens"),
        }
    }
}

impl AzureOpenAIRateLimiter {
    /// Applies the rate-limit headers of a response received at `now_ms` (see
    /// `RateLimitFeedback::from_headers` and `update_from_feedback`).
    pub fn update_from_response(&mut self, headers: &HeaderMap, now_ms: u64)
        requires
            old(self).wf(),
        ensures
            final(self).wf(),
            feedback_applied(old(self)@, final(self)@, feedback_of(*headers), now_ms as nat),
    {
        let feedback = RateLimitFeedback::from_headers(headers);
        self.update_from_feedback(feedback, now_ms);
    }
}

} // verus!
