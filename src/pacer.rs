use vstd::prelude::*;

verus! {

/// Rates are counted in thousandths of a request per second.
pub const RATE_SCALE: u64 = 1000;

/// A suggested rate replaces the current one only when they differ by more than this
/// (a tenth of a request per second).
pub const RATE_HYSTERESIS: u64 = 100;

/// Below this many remaining requests the pacer advises throttling.
pub const LOW_REMAINING_REQUESTS: u32 = 10;

/// Below this many remaining tokens the pacer advises throttling.
pub const LOW_REMAINING_TOKENS: u32 = 1000;

/// `x` clamped into `[lo, hi]`.
pub open spec fn clamp(x: int, lo: int, hi: int) -> int {
    if x < lo {
        lo
    } else if x > hi {
        hi
    } else {
        x
    }
}

/// The rate that `remaining` requests over `reset_seconds` seconds suggest, in
/// thousandths of a request per second, rounded down.
pub open spec fn suggested_rate(remaining: nat, reset_seconds: nat) -> int
    recommends
        reset_seconds > 0,
{
    (remaining * RATE_SCALE) as int / (reset_seconds as int)
}

/// The current rate after the pacer is offered `suggested`: the clamped suggestion when
/// it moves the rate by more than the hysteresis, else the rate unchanged.
pub open spec fn adjusted_rate(current: int, suggested: int, lo: int, hi: int) -> int {
    let target = clamp(suggested, lo, hi);
    if target - current > RATE_HYSTERESIS || current - target > RATE_HYSTERESIS {
        target
    } else {
        current
    }
}

/// Mathematical state of the adaptive pacer.
pub ghost struct PacerView {
    pub current_rate: int,
    pub min_rate: int,
    pub max_rate: int,
    pub remaining_requests: Option<u32>,
    pub remaining_tokens: Option<u32>,
    pub reset_at_ms: Option<u64>,
}

impl PacerView {
    pub open spec fn wf(self) -> bool {
        &&& 0 <= self.min_rate <= self.max_rate <= u64::MAX
        &&& 0 <= self.current_rate <= u64::MAX
    }

    /// Advisory: few requests or few tokens remain.
    pub open spec fn throttles(self) -> bool {
        (self.remaining_requests matches Some(n) && n < LOW_REMAINING_REQUESTS) || (
        self.remaining_tokens matches Some(n) && n < LOW_REMAINING_TOKENS)
    }
}

/// Holds a target request rate between a minimum and a maximum, moved by the
/// rate-limit feedback that responses carry.
#[derive(Debug, Clone, Copy)]
pub struct AdaptiveRateLimiter {
    current_rate: u64,
    min_rate: u64,
    max_rate: u64,
    remaining_requests: Option<u32>,
    remaining_tokens: Option<u32>,
    reset_at_ms: Option<u64>,
}

impl View for AdaptiveRateLimiter {
    type V = PacerView;

    closed spec fn view(&self) -> PacerView {
        PacerView {
            current_rate: self.current_rate as int,
            min_rate: self.min_rate as int,
            max_rate: self.max_rate as int,
            remaining_requests: self.remaining_requests,
            remaining_tokens: self.remaining_tokens,
            reset_at_ms: self.reset_at_ms,
        }
    }
}

impl AdaptiveRateLimiter {
    /// A pacer at `initial_rate`, bounded by `[min_rate, max_rate]` (all in thousandths
    /// of a request per second), with no feedback seen yet.
    pub fn new(initial_rate: u64, min_rate: u64, max_rate: u64) -> (r: AdaptiveRateLimiter)
        requires
            min_rate <= max_rate,
        ensures
            r@.wf(),
            r@.current_rate == initial_rate,
            r@.min_rate == min_rate,
            r@.max_rate == max_rate,
            r@.remaining_requests is None,
            r@.remaining_tokens is None,
            r@.reset_at_ms is None,
    {
        AdaptiveRateLimiter {
            current_rate: initial_rate,
            min_rate,
            max_rate,
            remaining_requests: None,
            remaining_tokens: None,
            reset_at_ms: None,
        }
    }

    /// Records the feedback of one response, received at `now_ms`. When both the
    /// remaining requests and a positive reset time are known, the rate is offered
    /// `remaining / reset`.
    pub fn update_from_headers(
        &mut self,
        remaining_requests: Option<u32>,
        remaining_tokens: Option<u32>,
        reset_after_seconds: Option<u64>,
        now_ms: u64,
    )
        requires
            old(self)@.wf(),
        ensures
            final(self)@.wf(),
            final(self)@.min_rate == old(self)@.min_rate,
            final(self)@.max_rate == old(self)@.max_rate,
            final(self)@.remaining_requests == if remaining_requests is Some {
                remaining_requests
            } else {
                old(self)@.remaining_requests
            },
            final(self)@.remaining_tokens == if remaining_tokens is Some {
                remaining_tokens
            } else {
                old(self)@.remaining_tokens
            },
            final(self)@.reset_at_ms == match reset_after_seconds {
                Some(s) => Some(
                    (if now_ms + s * 1000 <= u64::MAX {
                        now_ms + s * 1000
                    } else {
                        u64::MAX as int
                    }) as u64,
                ),
                None => old(self)@.reset_at_ms,
            },
            final(self)@.current_rate == match (remaining_requests, reset_after_seconds) {
                (Some(n), Some(s)) => if s > 0 {
                    adjusted_rate(
                        old(self)@.current_rate,
                        suggested_rate(n as nat, s as nat),
                        old(self)@.min_rate,
                        old(self)@.max_rate,
                    )
                } else {
                    old(self)@.current_rate
                },
                _ => old(self)@.current_rate,
            },
    {
        if remaining_requests.is_some() {
            self.remaining_requests = remaining_requests;
        }
        if remaining_tokens.is_some() {
            self.remaining_tokens = remaining_tokens;
        }
        if let Some(secs) = reset_after_seconds {
            let at: u64 = if secs <= (u64::MAX - now_ms) / 1000 {
                now_ms + secs * 1000
            } else {
                u64::MAX
            };
            self.reset_at_ms = Some(at);
        }
        if let (Some(n), Some(secs)) = (remaining_requests, reset_after_seconds) {
            if secs > 0 {
                let suggested: u64 = (n as u64) * RATE_SCALE / secs;
                self.adjust_rate(suggested);
            }
        }
    }

    fn adjust_rate(&mut self, suggested: u64)
        requires
            old(self)@.wf(),
        ensures
            final(self)@ == (PacerView {
                current_rate: adjusted_rate(
                    old(self)@.current_rate,
                    suggested as int,
                    old(self)@.min_rate,
                    old(self)@.max_rate,
                ),
                ..old(self)@
            }),
    {
        let target: u64 = if suggested < self.min_rate {
            self.min_rate
        } else if suggested > self.max_rate {
            self.max_rate
        } else {
            suggested
        };
        if (target > self.current_rate && target - self.current_rate > RATE_HYSTERESIS) || (
        self.current_rate > target && self.current_rate - target > RATE_HYSTERESIS) {
            self.current_rate = target;
        }
    }

    /// The current target rate, in thousandths of a request per second.
    pub fn get_rate(&self) -> (r: u64)
        ensures
            r == self@.current_rate,
    {
        self.current_rate
    }

    /// Milliseconds between two requests at the current rate (`1 / rate`), rounded
    /// down; `None` when the rate is zero and no pacing applies.
    pub fn pacing_delay_ms(&self) -> (r: Option<u64>)
        ensures
            self@.current_rate == 0 ==> r is None,
            self@.current_rate > 0 ==> r == Some((1_000_000int / self@.current_rate) as u64),
    {
        if self.current_rate == 0 {
            None
        } else {
            Some(1_000_000 / self.current_rate)
        }
    }

    /// Whether the last feedback advises throttling (advisory only).
    pub fn should_throttle(&self) -> (r: bool)
        ensures
            r == self@.throttles(),
    {
        if let Some(requests) = self.remaining_requests {
            if requests < LOW_REMAINING_REQUESTS {
                return true;
            }
        }
        if let Some(tokens) = self.remaining_tokens {
            if tokens < LOW_REMAINING_TOKENS {
                return true;
            }
        }
        false
    }
}

} // verus!
