use vstd::prelude::*;

use http::HeaderMap;

use crate::headers::{header_bytes, header_contents};
use crate::parse::{parse_u64, parsed_u64, saturate};
use crate::retry::{backoff, backoff_raw, within_jitter};

verus! {

/// Base of the backoff between attempts on the stored-response endpoints.
pub const INITIAL_RETRY_DELAY_MS: u64 = 200;

/// What to do after one attempt on a stored-response endpoint
/// (`GET /responses/{id}`, `GET /responses/{id}/input_items`, `DELETE /responses/{id}`).
#[derive(Debug, Clone, Copy, PartialEq, Eq, Structural)]
pub enum FetchDecision {
    /// The response is the answer.
    Accept,
    /// Wait this many milliseconds, then try again.
    RetryAfter { ms: u64 },
    /// Report the response as an error.
    Fail,
}

/// Whether a status is retried: 429 or a server error.
pub open spec fn is_retryable_status(status: u16) -> bool {
    status == 429 || (500 <= status <= 599)
}

/// The server-suggested delay of a stored-response request, in milliseconds: an
/// integer `retry-after-ms`, else an integer `retry-after` in seconds.
pub open spec fn stored_retry_after(h: HeaderMap) -> Option<u64> {
    let ms = match header_contents(h).get("retry-after-ms"@) {
        Some(b) => parsed_u64(b),
        None => None,
    };
    let secs = match header_contents(h).get("retry-after"@) {
        Some(b) => parsed_u64(b),
        None => None,
    };
    if ms is Some {
        ms
    } else {
        match secs {
            Some(s) => Some(saturate((s * 1000) as nat)),
            None => None,
        }
    }
}

/// The delay before retrying attempt `attempt` (counted from 1): the server's
/// suggestion, else backoff from `INITIAL_RETRY_DELAY_MS`.
pub fn calc_retry_delay(headers: &HeaderMap, attempt: u64) -> (r: u64)
    ensures
        match stored_retry_after(*headers) {
            Some(d) => r == d,
            None => attempt > 0 ==> within_jitter(
                r as nat,
                backoff_raw(INITIAL_RETRY_DELAY_MS as nat, attempt as nat) as nat,
            ),
        },
{
    proof {
        reveal_strlit("retry-after-ms");
        reveal_strlit("retry-after");
    }
    let ms = match header_bytes(headers, "retry-after-ms") {
        Some(b) => parse_u64(b.as_slice()),
        None => None,
    };
    if let Some(d) = ms {
        return d;
    }
    let secs = match header_bytes(headers, "retry-after") {
        Some(b) => parse_u64(b.as_slice()),
        None => None,
    };
    match secs {
        Some(s) => if s <= u64::MAX / 1000 {
            s * 1000
        } else {
            u64::MAX
        },
        None => backoff(INITIAL_RETRY_DELAY_MS, attempt),
    }
}

/// The decision after attempt `attempt` (counted from 1) received `status`: accept a
/// success (and, with `accept_no_content`, a 204); retry 429 and server errors while
/// `attempt <= max_retries`; fail otherwise.
pub fn decide_after_status(
    status: u16,
    headers: &HeaderMap,
    attempt: u64,
    max_retries: u64,
    accept_no_content: bool,
) -> (r: FetchDecision)
    ensures
        (200 <= status <= 299 || (accept_no_content && status == 204)) ==> r == FetchDecision::Accept,
        !(200 <= status <= 299) && is_retryable_status(status) && attempt <= max_retries ==> (r matches FetchDecision::RetryAfter { ms } && match stored_retry_after(*headers) {
            Some(d) => ms == d,
            None => attempt > 0 ==> within_jitter(
                ms as nat,
                backoff_raw(INITIAL_RETRY_DELAY_MS as nat, attempt as nat) as nat,
            ),
        }),
        !(200 <= status <= 299 || (accept_no_content && status == 204)) && !(is_retryable_status(status) && attempt <= max_retries) ==> r == FetchDecision::Fail,
{
    if (200 <= status && status <= 299) || (accept_no_content && status == 204) {
        return FetchDecision::Accept;
    }
    if (status == 429 || (500 <= status && status <= 599)) && attempt <= max_retries {
        return FetchDecision::RetryAfter { ms: calc_retry_delay(headers, attempt) };
    }
    FetchDecision::Fail
}

/// The decision after attempt `attempt` (counted from 1) failed to reach the server:
/// back off and retry while `attempt <= max_retries`, else fail.
pub fn decide_after_transport_error(attempt: u64, max_retries: u64) -> (r: FetchDecision)
    ensures
        attempt > max_retries ==> r == FetchDecision::Fail,
        attempt <= max_retries ==> (r matches FetchDecision::RetryAfter { ms } && (attempt > 0
            ==> within_jitter(
            ms as nat,
            backoff_raw(INITIAL_RETRY_DELAY_MS as nat, attempt as nat) as nat,
        ))),
{
    if attempt > max_retries {
        return FetchDecision::Fail;
    }
    FetchDecision::RetryAfter { ms: backoff(INITIAL_RETRY_DELAY_MS, attempt) }
}

} // verus!
