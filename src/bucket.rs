use vstd::prelude::*;

verus! {

/// Each token is split into this many units. A bucket that refills `r` tokens per
/// minute then gains exactly `r` units per elapsed millisecond, so refill is exact
/// integer arithmetic.
pub const UNITS_PER_TOKEN: u64 = 60_000;

/// How many waits `TokenBucket::acquire` grants before it gives up.
pub const MAX_ACQUIRE_ATTEMPTS: u32 = 100;

/// Mathematical state of a token bucket, in units (see `UNITS_PER_TOKEN`).
pub ghost struct BucketView {
    /// Capacity in whole tokens.
    pub capacity: nat,
    /// Refill rate in tokens per minute, which is units per millisecond.
    pub rate: nat,
    /// Current fill level in units.
    pub units: nat,
    /// Clock reading (milliseconds) of the last refill.
    pub last_refill_ms: nat,
}

impl BucketView {
    pub open spec fn capacity_units(self) -> nat {
        self.capacity * UNITS_PER_TOKEN as nat
    }

    pub open spec fn wf(self) -> bool {
        &&& self.capacity <= u32::MAX
        &&& self.rate <= u32::MAX
        &&& self.units <= self.capacity_units()
        &&& self.last_refill_ms <= u64::MAX
    }

    /// Milliseconds elapsed since the last refill; a clock that went back counts as none.
    pub open spec fn elapsed(self, now_ms: nat) -> nat {
        if now_ms >= self.last_refill_ms {
            (now_ms - self.last_refill_ms) as nat
        } else {
            0
        }
    }

    /// Fill level after lazily refilling up to `now_ms`: `min(capacity, current + elapsed * rate)`.
    pub open spec fn refilled_units(self, now_ms: nat) -> nat {
        let grown = self.units + self.elapsed(now_ms) * self.rate;
        if grown >= self.capacity_units() {
            self.capacity_units()
        } else {
            grown
        }
    }

    pub open spec fn refill(self, now_ms: nat) -> BucketView {
        BucketView {
            units: self.refilled_units(now_ms),
            last_refill_ms: if now_ms >= self.last_refill_ms { now_ms } else { self.last_refill_ms },
            ..self
        }
    }

    /// Whole tokens available after refilling up to `now_ms`.
    pub open spec fn available(self, now_ms: nat) -> nat {
        self.refilled_units(now_ms) / UNITS_PER_TOKEN as nat
    }

    /// The bucket after a refund of `tokens`: `min(capacity, current + tokens)`.
    pub open spec fn refunded(self, tokens: nat) -> BucketView {
        let grown = self.units + tokens * UNITS_PER_TOKEN as nat;
        BucketView {
            units: if grown >= self.capacity_units() { self.capacity_units() } else { grown },
            ..self
        }
    }

    /// The bucket after a forced debit of `tokens`: `max(0, current - tokens)`.
    pub open spec fn debited(self, tokens: nat) -> BucketView {
        let cost = tokens * UNITS_PER_TOKEN as nat;
        BucketView {
            units: if cost >= self.units { 0 } else { (self.units - cost) as nat },
            ..self
        }
    }

    /// Milliseconds until the refilled bucket holds `tokens`, rounded up.
    pub open spec fn wait_ms(self, tokens: nat) -> nat
        recommends
            self.rate > 0,
    {
        let deficit = tokens * UNITS_PER_TOKEN as nat - self.units;
        ((deficit + self.rate - 1) / (self.rate as int)) as nat
    }

    /// What one attempt to take `tokens` returns, and the bucket afterwards, when
    /// `attempts` waits were already made.
    pub open spec fn acquire_outcome(self, tokens: nat, now_ms: nat, attempts: nat) -> (
        AcquireStep,
        BucketView,
    ) {
        let f = self.refill(now_ms);
        let need = tokens * UNITS_PER_TOKEN as nat;
        if tokens > self.capacity {
            (AcquireStep::Unsatisfiable, self)
        } else if f.units >= need {
            (AcquireStep::Acquired, BucketView { units: (f.units - need) as nat, ..f })
        } else if self.rate == 0 {
            (AcquireStep::Unsatisfiable, f)
        } else if attempts >= MAX_ACQUIRE_ATTEMPTS {
            (AcquireStep::Exhausted, f)
        } else {
            (AcquireStep::Wait { ms: f.wait_ms(tokens) as u64 }, f)
        }
    }

    /// A full bucket of `capacity` tokens that refills its capacity once a minute.
    pub open spec fn fresh(capacity: nat, now_ms: nat) -> BucketView {
        BucketView {
            capacity,
            rate: capacity,
            units: capacity * UNITS_PER_TOKEN as nat,
            last_refill_ms: now_ms,
        }
    }
}

/// Outcome of one attempt to take tokens from a bucket.
#[derive(Debug, Clone, Copy, PartialEq, Eq, Structural)]
pub enum AcquireStep {
    /// The tokens were debited.
    Acquired,
    /// Not enough tokens yet: wait this many milliseconds and try again.
    Wait { ms: u64 },
    /// The attempt bound was reached while tokens were still missing.
    Exhausted,
    /// The request can never be met: it exceeds the capacity, or the bucket does not refill.
    Unsatisfiable,
}

/// A token bucket: a capacity, a refill rate, and a fill level that never exceeds the capacity.
/// Time is supplied by the caller as a millisecond clock reading.
#[derive(Debug, Clone, Copy)]
pub struct TokenBucket {
    capacity: u32,
    refill_per_minute: u32,
    units: u64,
    last_refill_ms: u64,
}

impl View for TokenBucket {
    type V = BucketView;

    closed spec fn view(&self) -> BucketView {
        BucketView {
            capacity: self.capacity as nat,
            rate: self.refill_per_minute as nat,
            units: self.units as nat,
            last_refill_ms: self.last_refill_ms as nat,
        }
    }
}

impl TokenBucket {
    pub open spec fn wf(&self) -> bool {
        self@.wf()
    }

    /// A full bucket of `capacity` tokens refilling `refill_per_minute` tokens per minute.
    pub fn new(capacity: u32, refill_per_minute: u32, now_ms: u64) -> (r: TokenBucket)
        ensures
            r.wf(),
            r@.capacity == capacity,
            r@.rate == refill_per_minute,
            r@.units == r@.capacity_units(),
            r@.last_refill_ms == now_ms,
    {
        TokenBucket {
            capacity,
            refill_per_minute,
            units: (capacity as u64) * UNITS_PER_TOKEN,
            last_refill_ms: now_ms,
        }
    }

    /// Capacity in whole tokens.
    pub fn capacity(&self) -> (r: u32)
        ensures
            r == self@.capacity,
    {
        self.capacity
    }

    /// Refill rate in tokens per minute.
    pub fn refill_per_minute(&self) -> (r: u32)
        ensures
            r == self@.rate,
    {
        self.refill_per_minute
    }

    fn refill(&mut self, now_ms: u64)
        requires
            old(self).wf(),
        ensures
            final(self).wf(),
            final(self)@ == old(self)@.refill(now_ms as nat),
    {
        let cap_units: u64 = (self.capacity as u64) * UNITS_PER_TOKEN;
        if now_ms >= self.last_refill_ms {
            let elapsed: u64 = now_ms - self.last_refill_ms;
            assert(elapsed as int * self.refill_per_minute as int <= u64::MAX as int * u32::MAX as int)
                by (nonlinear_arith)
                requires
                    elapsed <= u64::MAX,
                    self.refill_per_minute <= u32::MAX,
            ;
            let gained: u128 = (elapsed as u128) * (self.refill_per_minute as u128);
            let grown: u128 = (self.units as u128) + gained;
            if grown >= cap_units as u128 {
                self.units = cap_units;
            } else {
                self.units = grown as u64;
            }
            self.last_refill_ms = now_ms;
        }
    }

    /// Whole tokens available now, after refilling for the time elapsed.
    pub fn available_tokens(&mut self, now_ms: u64) -> (r: u64)
        requires
            old(self).wf(),
        ensures
            final(self).wf(),
            final(self)@ == old(self)@.refill(now_ms as nat),
            r == old(self)@.available(now_ms as nat),
            r <= old(self)@.capacity,
    {
        self.refill(now_ms);
        let r = self.units / UNITS_PER_TOKEN;
        assert(r <= self@.capacity) by (nonlinear_arith)
            requires
                r == self@.units / 60000,
                self@.units <= self@.capacity * 60000,
        ;
        r
    }

    /// Gives `tokens` back at once, without exceeding the capacity.
    pub fn refund(&mut self, tokens: u64)
        requires
            old(self).wf(),
        ensures
            final(self).wf(),
            final(self)@ == old(self)@.refunded(tokens as nat),
            old(self)@.units <= final(self)@.units <= final(self)@.capacity_units(),
    {
        let cap_units: u64 = (self.capacity as u64) * UNITS_PER_TOKEN;
        assert(tokens as int * 60000 <= u64::MAX as int * 60000) by (nonlinear_arith)
            requires
                tokens <= u64::MAX,
        ;
        let grown: u128 = (self.units as u128) + (tokens as u128) * (UNITS_PER_TOKEN as u128);
        if grown >= cap_units as u128 {
            self.units = cap_units;
        } else {
            self.units = grown as u64;
        }
    }

    /// Takes `tokens` at once, without waiting; the fill level stops at zero.
    pub fn force_debit(&mut self, tokens: u64)
        requires
            old(self).wf(),
        ensures
            final(self).wf(),
            final(self)@ == old(self)@.debited(tokens as nat),
            final(self)@.units <= old(self)@.units,
    {
        assert(tokens as int * 60000 <= u64::MAX as int * 60000) by (nonlinear_arith)
            requires
                tokens <= u64::MAX,
        ;
        let cost: u128 = (tokens as u128) * (UNITS_PER_TOKEN as u128);
        if cost >= self.units as u128 {
            self.units = 0;
        } else {
            self.units = self.units - (cost as u64);
        }
    }

    /// One attempt to take `tokens`, the `attempts`-th after as many waits.
    ///
    /// A request above the capacity fails at once, before any wait. Otherwise the
    /// bucket refills; if it then holds enough, they are debited. If not, the caller is
    /// told how long to wait, unless `MAX_ACQUIRE_ATTEMPTS` waits were already made.
    pub fn acquire(&mut self, tokens: u64, now_ms: u64, attempts: u32) -> (r: AcquireStep)
        requires
            old(self).wf(),
        ensures
            final(self).wf(),
            (r, final(self)@) == old(self)@.acquire_outcome(
                tokens as nat,
                now_ms as nat,
                attempts as nat,
            ),
            r is Wait ==> old(self)@.rate > 0,
    {
        if tokens > self.capacity as u64 {
            return AcquireStep::Unsatisfiable;
        }
        self.refill(now_ms);
        let need: u64 = tokens * UNITS_PER_TOKEN;
        if self.units >= need {
            self.units = self.units - need;
            return AcquireStep::Acquired;
        }
        if self.refill_per_minute == 0 {
            return AcquireStep::Unsatisfiable;
        }
        if attempts >= MAX_ACQUIRE_ATTEMPTS {
            return AcquireStep::Exhausted;
        }
        let deficit: u64 = need - self.units;
        let rate: u64 = self.refill_per_minute as u64;
        let ms: u64 = (deficit + rate - 1) / rate;
        AcquireStep::Wait { ms }
    }
}

/// At every time, a bucket holds no more than its capacity.
pub proof fn lemma_available_within_capacity(b: BucketView, now_ms: nat)
    requires
        b.wf(),
    ensures
        b.available(now_ms) <= b.capacity,
{
    let u = b.refilled_units(now_ms);
    assert(u / 60000 <= b.capacity) by (nonlinear_arith)
        requires
            u <= b.capacity * 60000,
    ;
}

/// A forced debit never raises the fill level; a refund never lowers it, and both
/// keep it within the capacity.
pub proof fn lemma_debit_and_refund_bounds(b: BucketView, tokens: nat)
    requires
        b.wf(),
    ensures
        b.debited(tokens).units <= b.units,
        b.debited(tokens).wf(),
        b.units <= b.refunded(tokens).units <= b.capacity_units(),
        b.refunded(tokens).wf(),
{
}

} // verus!
