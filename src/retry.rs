use vstd::arithmetic::power2::{
    lemma2_to64,
    lemma2_to64_rest,
    lemma_pow2_strictly_increases,
    lemma_pow2_unfold,
    pow2,
};
use vstd::prelude::*;

use http::HeaderMap;

use crate::headers::{header_bytes, header_contents};
use crate::parse::{parse_seconds_ms, parse_u64, parsed_seconds_ms, parsed_u64, saturate};

verus! {

/// Which failures are retried.
#[derive(Debug, Clone, Copy, PartialEq, Eq, Structural)]
pub struct RetryOn {
    /// HTTP 429 Too Many Requests.
    pub retry_429: bool,
    /// HTTP 5xx server errors.
    pub retry_5xx: bool,
    /// Timeouts and network failures.
    pub retry_transport: bool,
}

/// How often and how patiently a failed request is retried. Delays are in
/// milliseconds.
#[derive(Debug, Clone, Copy, PartialEq, Eq, Structural)]
pub struct RetryPolicy {
    pub max_attempts: u64,
    /// Base of the exponential backoff.
    pub base_delay_ms: u64,
    pub retry_on: RetryOn,
    /// The longest server-suggested delay that is honoured; a longer one falls back to
    /// backoff. `None` trusts the server.
    pub max_retry_delay_ms: Option<u64>,
}

/// A failure of the transport layer.
#[derive(Debug, Clone)]
pub enum TransportError {
    /// The server answered with a non-success status.
    Http { status: u16, url: Option<String>, headers: Option<HeaderMap>, body: Option<String> },
    /// All attempts were spent.
    RetryLimit,
    Timeout,
    Network(String),
    /// The request could not be built.
    Build(String),
}

pub open spec fn is_server_error(status: u16) -> bool {
    500 <= status <= 599
}

/// Whether `on` retries `err` at attempt `attempt` of `max_attempts`.
pub open spec fn retries(on: RetryOn, err: TransportError, attempt: nat, max_attempts: nat) -> bool {
    attempt < max_attempts && match err {
        TransportError::Http { status, .. } => (on.retry_429 && status == 429) || (on.retry_5xx
            && is_server_error(status)),
        TransportError::Timeout | TransportError::Network(_) => on.retry_transport,
        _ => false,
    }
}

impl RetryOn {
    /// Whether to retry `err` at attempt `attempt`: never once `max_attempts` is
    /// reached; otherwise 429, 5xx, and timeouts or network failures as configured.
    pub fn should_retry(&self, err: &TransportError, attempt: u64, max_attempts: u64) -> (r: bool)
        ensures
            r == retries(*self, *err, attempt as nat, max_attempts as nat),
    {
        if attempt >= max_attempts {
            return false;
        }
        match err {
            TransportError::Http { status, .. } => (self.retry_429 && *status == 429) || (
            self.retry_5xx && *status >= 500 && *status <= 599),
            TransportError::Timeout | TransportError::Network(_) => self.retry_transport,
            _ => false,
        }
    }
}

/// The backoff delay before jitter: `base` for attempt 0, else `base * 2^(attempt - 1)`,
/// held at the largest `u64`.
pub open spec fn backoff_raw(base: nat, attempt: nat) -> u64 {
    if attempt == 0 {
        saturate(base)
    } else {
        saturate(base * pow2((attempt - 1) as nat))
    }
}

/// `raw` scaled by `jitter` thousandths, rounded down and held at the largest `u64`.
pub open spec fn jittered(raw: nat, jitter: nat) -> u64 {
    saturate(raw * jitter / 1000)
}

/// `r` lies within 0.9 and 1.1 times `raw` (up to rounding down).
pub open spec fn within_jitter(r: nat, raw: nat) -> bool {
    &&& r * 10 <= raw * 11
    &&& raw * 9 < (r + 1) * 10
}

/// A jittered delay lies within 0.9 and 1.1 times the raw delay.
pub proof fn lemma_jitter_bounds(raw: u64, jitter: nat)
    requires
        900 <= jitter < 1100,
    ensures
        within_jitter(jittered(raw as nat, jitter) as nat, raw as nat),
{
    let q = raw * jitter / 1000;
    assert(q * 1000 <= raw * jitter) by (nonlinear_arith)
        requires
            q == raw * jitter / 1000,
            raw >= 0,
            jitter >= 0,
    ;
    assert(raw * jitter < (q + 1) * 1000) by (nonlinear_arith)
        requires
            q == raw * jitter / 1000,
            raw >= 0,
            jitter >= 0,
    ;
    assert(raw * 900 <= raw * jitter <= raw * 1100) by (nonlinear_arith)
        requires
            900 <= jitter < 1100,
            raw >= 0,
    ;
    if q > u64::MAX {
        assert(raw * 11 >= u64::MAX * 10) by (nonlinear_arith)
            requires
                q > u64::MAX,
                q * 1000 <= raw * 1100,
        ;
    }
}

/// A jitter factor in thousandths, drawn uniformly from `[900, 1100)`.
///
/// Relies on `rand::rng` and `Rng::random_range`, which returns a value in the given
/// half-open range (here not empty).
#[verifier::external_body]
fn random_jitter_permille() -> (r: u64)
    ensures
        900 <= r < 1100,
{
    rand::Rng::random_range(&mut rand::rng(), 900..1100)
}

/// `2^n` held at the largest `u64`.
fn saturating_pow2(n: u64) -> (r: u64)
    ensures
        r == saturate(pow2(n as nat)),
{
    proof {
        lemma2_to64();
        lemma2_to64_rest();
    }
    if n >= 64 {
        proof {
            if n > 64 {
                lemma_pow2_strictly_increases(64, n as nat);
            }
        }
        return u64::MAX;
    }
    let mut exp: u64 = 1;
    let mut i: u64 = 0;
    while i < n
        invariant
            i <= n < 64,
            exp == pow2(i as nat),
            pow2(63) == 0x8000000000000000,
        decreases n - i,
    {
        proof {
            if i < 63 {
                lemma_pow2_strictly_increases(i as nat, 63);
            }
            lemma_pow2_unfold((i + 1) as nat);
        }
        exp = exp * 2;
        i = i + 1;
    }
    exp
}

/// The backoff delay for `attempt` with a given jitter: `base_ms` for attempt 0, else
/// `base_ms * 2^(attempt - 1)` scaled by `jitter_permille` thousandths.
pub fn backoff_with_jitter(base_ms: u64, attempt: u64, jitter_permille: u64) -> (r: u64)
    requires
        900 <= jitter_permille < 1100,
    ensures
        attempt == 0 ==> r == base_ms,
        attempt > 0 ==> r == jittered(backoff_raw(base_ms as nat, attempt as nat) as nat, jitter_permille as nat),
        attempt > 0 ==> within_jitter(r as nat, backoff_raw(base_ms as nat, attempt as nat) as nat),
{
    if attempt == 0 {
        return base_ms;
    }
    let exp = saturating_pow2(attempt - 1);
    let raw: u64 = match base_ms.checked_mul(exp) {
        Some(v) => v,
        None => u64::MAX,
    };
    proof {
        let p = pow2((attempt - 1) as nat);
        if p > u64::MAX {
            assert(exp == u64::MAX);
            if base_ms > 0 {
                assert(base_ms * p >= p) by (nonlinear_arith)
                    requires
                        base_ms >= 1,
                        p >= 0,
                ;
                assert(base_ms * exp >= exp) by (nonlinear_arith)
                    requires
                        base_ms >= 1,
                        exp >= 0,
                ;
                assert(raw == u64::MAX);
                assert(saturate((base_ms * p) as nat) == u64::MAX);
            } else {
                assert(base_ms * p == 0) by (nonlinear_arith)
                    requires
                        base_ms == 0,
                ;
            }
        } else {
            assert(exp == p);
        }
        assert(raw == backoff_raw(base_ms as nat, attempt as nat));
        lemma_jitter_bounds(raw, jitter_permille as nat);
        assert(raw * jitter_permille <= u64::MAX * 1100) by (nonlinear_arith)
            requires
                raw <= u64::MAX,
                jitter_permille < 1100,
        ;
    }
    let scaled: u128 = (raw as u128) * (jitter_permille as u128) / 1000;
    if scaled > u64::MAX as u128 {
        u64::MAX
    } else {
        scaled as u64
    }
}

/// Exponential backoff with a random jitter of plus or minus ten percent.
pub fn backoff(base_ms: u64, attempt: u64) -> (r: u64)
    ensures
        attempt == 0 ==> r == base_ms,
        attempt > 0 ==> within_jitter(r as nat, backoff_raw(base_ms as nat, attempt as nat) as nat),
        attempt > 0 ==> exists|j: nat|
            900 <= j < 1100 && r == jittered(
                #[trigger] backoff_raw(base_ms as nat, attempt as nat) as nat,
                j,
            ),
{
    let jitter = random_jitter_permille();
    backoff_with_jitter(base_ms, attempt, jitter)
}

/// The server-suggested delay, in milliseconds, given the values of the three
/// `retry-after` headers: the first that reads wins, in the order `retry-after-ms`
/// (milliseconds), `x-ms-retry-after-ms` (milliseconds), `retry-after` (seconds).
pub open spec fn retry_after_from_values(
    retry_after_ms: Option<Seq<u8>>,
    x_ms_retry_after_ms: Option<Seq<u8>>,
    retry_after: Option<Seq<u8>>,
) -> Option<u64> {
    let first = match retry_after_ms {
        Some(v) => parsed_u64(v),
        None => None,
    };
    let second = match x_ms_retry_after_ms {
        Some(v) => parsed_u64(v),
        None => None,
    };
    let third = match retry_after {
        Some(v) => parsed_seconds_ms(v),
        None => None,
    };
    if first is Some {
        first
    } else if second is Some {
        second
    } else {
        third
    }
}

/// The value bytes of header `name` in `h`, if present.
pub open spec fn header_value(h: HeaderMap, name: Seq<char>) -> Option<Seq<u8>> {
    header_contents(h).get(name)
}

/// The server-suggested delay that the headers of `h` carry.
pub open spec fn retry_after_of(h: HeaderMap) -> Option<u64> {
    retry_after_from_values(
        header_value(h, "retry-after-ms"@),
        header_value(h, "x-ms-retry-after-ms"@),
        header_value(h, "retry-after"@),
    )
}

/// A millisecond header that reads always beats the lower ones; one that is missing
/// or does not read gives way to the next, down to the seconds header, exactly as if it
/// were absent.
pub proof fn lemma_retry_after_precedence(
    retry_after_ms: Option<Seq<u8>>,
    x_ms_retry_after_ms: Option<Seq<u8>>,
    retry_after: Option<Seq<u8>>,
)
    ensures
        ({
            let r = retry_after_from_values(retry_after_ms, x_ms_retry_after_ms, retry_after);
            &&& (retry_after_ms matches Some(v) && parsed_u64(v) is Some) ==> r == parsed_u64(
                retry_after_ms->0,
            )
            &&& (!(retry_after_ms matches Some(v) && parsed_u64(v) is Some) && (
            x_ms_retry_after_ms matches Some(w) && parsed_u64(w) is Some)) ==> r == parsed_u64(
                x_ms_retry_after_ms->0,
            )
            &&& (!(retry_after_ms matches Some(v) && parsed_u64(v) is Some) && !(
            x_ms_retry_after_ms matches Some(w) && parsed_u64(w) is Some)) ==> r == match retry_after {
                Some(s) => parsed_seconds_ms(s),
                None => None,
            }
        }),
        (retry_after_ms matches Some(v) && parsed_u64(v) is None) ==> retry_after_from_values(
            retry_after_ms,
            x_ms_retry_after_ms,
            retry_after,
        ) == retry_after_from_values(None, x_ms_retry_after_ms, retry_after),
        (x_ms_retry_after_ms matches Some(w) && parsed_u64(w) is None) ==> retry_after_from_values(
            retry_after_ms,
            x_ms_retry_after_ms,
            retry_after,
        ) == retry_after_from_values(retry_after_ms, None, retry_after),
{
}

fn parse_optional_ms(v: &Option<Vec<u8>>) -> (r: Option<u64>)
    ensures
        r == match *v {
            Some(b) => parsed_u64(b@),
            None => None,
        },
{
    match v {
        Some(b) => parse_u64(b.as_slice()),
        None => None,
    }
}

/// The server-suggested delay, in milliseconds, from the values of the three
/// `retry-after` headers (see `retry_after_from_values`).
pub fn parse_retry_after_values(
    retry_after_ms: &Option<Vec<u8>>,
    x_ms_retry_after_ms: &Option<Vec<u8>>,
    retry_after: &Option<Vec<u8>>,
) -> (r: Option<u64>)
    ensures
        r == retry_after_from_values(
            match *retry_after_ms {
                Some(b) => Some(b@),
                None => None,
            },
            match *x_ms_retry_after_ms {
                Some(b) => Some(b@),
                None => None,
            },
            match *retry_after {
                Some(b) => Some(b@),
                None => None,
            },
        ),
{
    let first = parse_optional_ms(retry_after_ms);
    if first.is_some() {
        return first;
    }
    let second = parse_optional_ms(x_ms_retry_after_ms);
    if second.is_some() {
        return second;
    }
    match retry_after {
        Some(b) => parse_seconds_ms(b.as_slice()),
        None => None,
    }
}

/// The server-suggested delay, in milliseconds, that a response's headers carry.
pub fn parse_retry_after_headers(headers: &HeaderMap) -> (r: Option<u64>)
    ensures
        r == retry_after_of(*headers),
{
    proof {
        reveal_strlit("retry-after-ms");
        reveal_strlit("x-ms-retry-after-ms");
        reveal_strlit("retry-after");
    }
    let first = header_bytes(headers, "retry-after-ms");
    let second = header_bytes(headers, "x-ms-retry-after-ms");
    let third = header_bytes(headers, "retry-after");
    parse_retry_after_values(&first, &second, &third)
}

/// The server delay to honour: the suggestion itself when it is within the maximum or
/// no maximum is set; `None` when there is none or it is too long.
pub open spec fn honoured_delay(server_delay: Option<u64>, max_retry_delay_ms: Option<u64>) -> Option<u64> {
    match server_delay {
        Some(d) => match max_retry_delay_ms {
            Some(m) => if d <= m {
                Some(d)
            } else {
                None
            },
            None => Some(d),
        },
        None => None,
    }
}

/// The server delay to honour (see `honoured_delay`).
pub fn select_server_delay(server_delay: Option<u64>, max_retry_delay_ms: Option<u64>) -> (r: Option<u64>)
    ensures
        r == honoured_delay(server_delay, max_retry_delay_ms),
{
    match server_delay {
        Some(d) => match max_retry_delay_ms {
            Some(m) => if d <= m {
                Some(d)
            } else {
                None
            },
            None => Some(d),
        },
        None => None,
    }
}

/// The delay before the retry that follows attempt `attempt`: the server's suggestion
/// when it is honoured, else the backoff for `attempt + 1`.
pub fn compute_retry_delay(
    headers: Option<&HeaderMap>,
    base_delay_ms: u64,
    attempt: u64,
    max_retry_delay_ms: Option<u64>,
) -> (r: u64)
    requires
        attempt < u64::MAX,
    ensures
        ({
            let server = match headers {
                Some(h) => retry_after_of(*h),
                None => None,
            };
            match honoured_delay(server, max_retry_delay_ms) {
                Some(d) => r == d,
                None => within_jitter(
                    r as nat,
                    backoff_raw(base_delay_ms as nat, (attempt + 1) as nat) as nat,
                ),
            }
        }),
{
    let server = match headers {
        Some(h) => parse_retry_after_headers(h),
        None => None,
    };
    match select_server_delay(server, max_retry_delay_ms) {
        Some(d) => d,
        None => backoff(base_delay_ms, attempt + 1),
    }
}

/// What the retry loop does after an attempt failed.
#[derive(Debug, Clone, Copy, PartialEq, Eq, Structural)]
pub enum RetryDecision {
    /// Sleep this many milliseconds, then make the next attempt.
    Retry { delay_ms: u64 },
    /// The failure is not retried: return it as it is.
    GiveUp,
    /// The failure would be retried, but the attempts are spent: return `RetryLimit`.
    Exhausted,
}

/// Whether the policy retries this kind of failure at all (ignoring the attempt count).
pub open spec fn retryable_kind(on: RetryOn, err: TransportError) -> bool {
    retries(on, err, 0, 1)
}

/// The server-suggested delay that a failure carries in its response headers.
pub open spec fn server_delay_of(err: TransportError) -> Option<u64> {
    match err {
        TransportError::Http { headers: Some(h), .. } => retry_after_of(h),
        _ => None,
    }
}

/// The decision after attempt `attempt` (counted from 0) failed with `err`: give up on
/// a failure the policy does not retry; report the attempts spent once `max_attempts`
/// is reached; otherwise wait the honoured server delay, or else the backoff for
/// `attempt + 1`.
pub fn retry_decision(policy: &RetryPolicy, err: &TransportError, attempt: u64) -> (r: RetryDecision)
    ensures
        !retryable_kind(policy.retry_on, *err) ==> r == RetryDecision::GiveUp,
        retryable_kind(policy.retry_on, *err) && attempt >= policy.max_attempts ==> r
            == RetryDecision::Exhausted,
        retryable_kind(policy.retry_on, *err) && attempt < policy.max_attempts ==> (r matches RetryDecision::Retry { delay_ms } && match honoured_delay(server_delay_of(*err), policy.max_retry_delay_ms) {
            Some(d) => delay_ms == d,
            None => within_jitter(
                delay_ms as nat,
                backoff_raw(policy.base_delay_ms as nat, (attempt + 1) as nat) as nat,
            ),
        }),
{
    if !policy.retry_on.should_retry(err, 0, 1) {
        return RetryDecision::GiveUp;
    }
    if attempt >= policy.max_attempts {
        return RetryDecision::Exhausted;
    }
    let headers = match err {
        TransportError::Http { headers, .. } => headers.as_ref(),
        _ => None,
    };
    RetryDecision::Retry {
        delay_ms: compute_retry_delay(headers, policy.base_delay_ms, attempt, policy.max_retry_delay_ms),
    }
}

} // verus!
