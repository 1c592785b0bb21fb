use vstd::prelude::*;

verus! {

/// State of a circuit breaker. `Open` holds the clock reading (milliseconds) at which
/// its cool-down ends.
#[derive(Debug, Clone, Copy, PartialEq, Eq, Structural)]
pub enum CircuitState {
    Closed,
    Open { until: u64 },
    HalfOpen,
}

/// The edges of the breaker's state graph. Staying in a state is always allowed;
/// besides that only Closed to Open, Open to HalfOpen, HalfOpen to Closed and
/// HalfOpen to Open (a new cool-down window).
pub open spec fn is_breaker_edge(from: CircuitState, to: CircuitState) -> bool {
    match (from, to) {
        (CircuitState::Closed, CircuitState::Closed) => true,
        (CircuitState::Closed, CircuitState::Open { .. }) => true,
        (CircuitState::Open { until: a }, CircuitState::Open { until: b }) => a == b,
        (CircuitState::Open { .. }, CircuitState::HalfOpen) => true,
        (CircuitState::HalfOpen, CircuitState::HalfOpen) => true,
        (CircuitState::HalfOpen, CircuitState::Closed) => true,
        (CircuitState::HalfOpen, CircuitState::Open { .. }) => true,
        _ => false,
    }
}

/// Mathematical state of a circuit breaker.
pub ghost struct BreakerView {
    pub state: CircuitState,
    pub failure_count: nat,
    pub success_count: nat,
    pub failure_threshold: nat,
    pub success_threshold: nat,
    pub timeout_ms: nat,
}

/// `n + 1`, held at the largest `u32`.
pub open spec fn bump(n: nat) -> nat {
    if n < u32::MAX {
        n + 1
    } else {
        n
    }
}

/// End of a cool-down window that starts at `now_ms`, held at the largest `u64`.
pub open spec fn cool_down_end(now_ms: nat, timeout_ms: nat) -> nat {
    if now_ms + timeout_ms <= u64::MAX {
        now_ms + timeout_ms
    } else {
        u64::MAX as nat
    }
}

impl BreakerView {
    pub open spec fn wf(self) -> bool {
        &&& self.failure_count <= u32::MAX
        &&& self.success_count <= u32::MAX
        &&& self.failure_threshold <= u32::MAX
        &&& self.success_threshold <= u32::MAX
        &&& self.timeout_ms <= u64::MAX
        &&& match self.state {
            CircuitState::Open { until } => until <= u64::MAX,
            // A closed breaker counts failures only up to its threshold.
            CircuitState::Closed => self.failure_count == 0 || self.failure_count
                < self.failure_threshold,
            // A half-open breaker counts successes only up to its threshold.
            CircuitState::HalfOpen => self.success_count == 0 || self.success_count
                < self.success_threshold,
        }
    }

    /// `is_allowed` at `now_ms`: false only in Open before the cool-down ends.
    pub open spec fn allows(self, now_ms: nat) -> bool {
        match self.state {
            CircuitState::Open { until } => now_ms >= until,
            _ => true,
        }
    }

    /// The breaker after `is_allowed` at `now_ms`: an Open breaker whose cool-down has
    /// ended becomes HalfOpen with its success count reset.
    pub open spec fn after_check(self, now_ms: nat) -> BreakerView {
        match self.state {
            CircuitState::Open { until } => if now_ms >= until {
                BreakerView { state: CircuitState::HalfOpen, success_count: 0, ..self }
            } else {
                self
            },
            _ => self,
        }
    }

    /// The breaker after a success is recorded.
    pub open spec fn after_success(self) -> BreakerView {
        match self.state {
            CircuitState::HalfOpen => {
                let successes = bump(self.success_count);
                if successes >= self.success_threshold {
                    BreakerView {
                        state: CircuitState::Closed,
                        success_count: successes,
                        failure_count: 0,
                        ..self
                    }
                } else {
                    BreakerView { success_count: successes, ..self }
                }
            },
            CircuitState::Closed => BreakerView { failure_count: 0, ..self },
            CircuitState::Open { .. } => self,
        }
    }

    /// The breaker after a failure is recorded at `now_ms`.
    pub open spec fn after_failure(self, now_ms: nat) -> BreakerView {
        let reopened = CircuitState::Open { until: cool_down_end(now_ms, self.timeout_ms) as u64 };
        match self.state {
            CircuitState::Closed => {
                let failures = bump(self.failure_count);
                if failures >= self.failure_threshold {
                    BreakerView { state: reopened, failure_count: failures, ..self }
                } else {
                    BreakerView { failure_count: failures, ..self }
                }
            },
            CircuitState::HalfOpen => BreakerView { state: reopened, success_count: 0, ..self },
            CircuitState::Open { .. } => self,
        }
    }
}

/// Circuit breaker over consecutive failures: Closed until `failure_threshold` failures,
/// then Open for `timeout_ms`, then HalfOpen until `success_threshold` successes close it
/// again or one failure reopens it.
#[derive(Debug, Clone, Copy)]
pub struct CircuitBreaker {
    state: CircuitState,
    failure_count: u32,
    success_count: u32,
    failure_threshold: u32,
    success_threshold: u32,
    timeout_ms: u64,
}

impl View for CircuitBreaker {
    type V = BreakerView;

    closed spec fn view(&self) -> BreakerView {
        BreakerView {
            state: self.state,
            failure_count: self.failure_count as nat,
            success_count: self.success_count as nat,
            failure_threshold: self.failure_threshold as nat,
            success_threshold: self.success_threshold as nat,
            timeout_ms: self.timeout_ms as nat,
        }
    }
}

impl CircuitBreaker {
    /// A Closed breaker with both counters at zero.
    pub fn new(failure_threshold: u32, success_threshold: u32, timeout_ms: u64) -> (r:
        CircuitBreaker)
        ensures
            r@.wf(),
            r@.state == CircuitState::Closed,
            r@.failure_count == 0,
            r@.success_count == 0,
            r@.failure_threshold == failure_threshold,
            r@.success_threshold == success_threshold,
            r@.timeout_ms == timeout_ms,
    {
        CircuitBreaker {
            state: CircuitState::Closed,
            failure_count: 0,
            success_count: 0,
            failure_threshold,
            success_threshold,
            timeout_ms,
        }
    }

    pub fn state(&self) -> (r: CircuitState)
        ensures
            r == self@.state,
    {
        self.state
    }

    pub fn failure_count(&self) -> (r: u32)
        ensures
            r == self@.failure_count,
    {
        self.failure_count
    }

    pub fn success_count(&self) -> (r: u32)
        ensures
            r == self@.success_count,
    {
        self.success_count
    }

    /// Whether a request may go out at `now_ms`. An Open breaker whose cool-down has
    /// ended turns HalfOpen here and allows it.
    pub fn is_allowed(&mut self, now_ms: u64) -> (r: bool)
        requires
            old(self)@.wf(),
        ensures
            final(self)@.wf(),
            r == old(self)@.allows(now_ms as nat),
            final(self)@ == old(self)@.after_check(now_ms as nat),
            is_breaker_edge(old(self)@.state, final(self)@.state),
    {
        match self.state {
            CircuitState::Closed => true,
            CircuitState::Open { until } => {
                if now_ms >= until {
                    self.state = CircuitState::HalfOpen;
                    self.success_count = 0;
                    true
                } else {
                    false
                }
            },
            CircuitState::HalfOpen => true,
        }
    }

    /// Records a successful request.
    pub fn record_success(&mut self)
        requires
            old(self)@.wf(),
        ensures
            final(self)@.wf(),
            final(self)@ == old(self)@.after_success(),
            is_breaker_edge(old(self)@.state, final(self)@.state),
    {
        match self.state {
            CircuitState::HalfOpen => {
                if self.success_count < u32::MAX {
                    self.success_count = self.success_count + 1;
                }
                if self.success_count >= self.success_threshold {
                    self.state = CircuitState::Closed;
                    self.failure_count = 0;
                }
            },
            CircuitState::Closed => {
                self.failure_count = 0;
            },
            CircuitState::Open { .. } => {},
        }
    }

    /// Records a failed request at `now_ms`.
    pub fn record_failure(&mut self, now_ms: u64)
        requires
            old(self)@.wf(),
        ensures
            final(self)@.wf(),
            final(self)@ == old(self)@.after_failure(now_ms as nat),
            is_breaker_edge(old(self)@.state, final(self)@.state),
    {
        let until: u64 = if now_ms <= u64::MAX - self.timeout_ms {
            now_ms + self.timeout_ms
        } else {
            u64::MAX
        };
        match self.state {
            CircuitState::Closed => {
                if self.failure_count < u32::MAX {
                    self.failure_count = self.failure_count + 1;
                }
                if self.failure_count >= self.failure_threshold {
                    self.state = CircuitState::Open { until };
                }
            },
            CircuitState::HalfOpen => {
                self.state = CircuitState::Open { until };
                self.success_count = 0;
            },
            CircuitState::Open { .. } => {},
        }
    }
}

/// The breaker's transitions form exactly the graph of `is_breaker_edge`: every
/// operation moves along an edge, Closed never becomes HalfOpen, Open never becomes
/// Closed, and an Open breaker keeps its cool-down end until `is_allowed` moves it on.
pub proof fn lemma_breaker_transitions(b: BreakerView, now_ms: nat)
    requires
        b.wf(),
    ensures
        is_breaker_edge(b.state, b.after_check(now_ms).state),
        is_breaker_edge(b.state, b.after_success().state),
        is_breaker_edge(b.state, b.after_failure(now_ms).state),
        b.state is Closed ==> b.after_check(now_ms).state is Closed && b.after_success().state is Closed,
        b.state is Open ==> b.after_success().state == b.state && b.after_failure(now_ms).state == b.state,
        b.state is HalfOpen ==> b.after_check(now_ms).state is HalfOpen && b.after_failure(now_ms).state is Open,
        b.state is Closed && b.after_failure(now_ms).state is Open ==> bump(b.failure_count)
            >= b.failure_threshold,
        b.state is HalfOpen && b.after_success().state is Closed ==> bump(b.success_count)
            >= b.success_threshold && b.after_success().failure_count == 0,
        b.state is Closed ==> ({
            let f = b.after_failure(now_ms);
            &&& f.failure_count == b.failure_count + 1
            &&& f.success_count == b.success_count
            &&& if b.failure_count + 1 >= b.failure_threshold {
                f.state == CircuitState::Open { until: cool_down_end(now_ms, b.timeout_ms) as u64 }
            } else {
                f.state is Closed
            }
        }),
        b.state is HalfOpen ==> ({
            let g = b.after_success();
            &&& g.success_count == b.success_count + 1
            &&& if b.success_count + 1 >= b.success_threshold {
                g.state is Closed && g.failure_count == 0
            } else {
                g.state is HalfOpen && g.failure_count == b.failure_count
            }
        }),
        b.state is Closed ==> b.after_success().failure_count == 0 && b.after_success().success_count
            == b.success_count,
        !is_breaker_edge(CircuitState::Closed, CircuitState::HalfOpen),
        forall|u: u64| !is_breaker_edge(CircuitState::Open { until: u }, CircuitState::Closed),
{
}

} // verus!
