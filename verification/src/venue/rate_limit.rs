//! A token bucket that refills once per whole second elapsed.
use std::time::{Duration, Instant};
use vstd::prelude::*;

verus! {

#[verifier::external_type_specification]
#[verifier::external_body]
pub struct ExInstant(Instant);

/// Calls `Instant::now`. Nothing is stated of the result: it is read from
/// the monotonic clock.
#[verifier::external_body]
fn instant_now() -> Instant {
    Instant::now()
}

/// Calls `Instant::elapsed`: the time since the instant. Nothing is stated
/// of the result: it is read from the monotonic clock.
#[verifier::external_body]
fn instant_elapsed(i: &Instant) -> Duration {
    i.elapsed()
}

/// Calls `Instant::checked_sub`: the instant a duration earlier, if the
/// clock can represent it. Nothing is stated of the result.
#[verifier::external_body]
fn instant_checked_sub(i: &Instant, d: Duration) -> Option<Instant> {
    i.checked_sub(d)
}

/// `Duration::as_secs`: the whole seconds of a duration. Nothing is stated
/// of the result, since a `Duration` is opaque here.
pub assume_specification[ core::time::Duration::as_secs ](d: &Duration) -> u64;

/// `Duration::from_secs`: a duration of whole seconds. Nothing is stated of
/// the result, since a `Duration` is opaque here.
pub assume_specification[ core::time::Duration::from_secs ](secs: u64) -> Duration;

/// What a bucket holds: its capacity, its tokens and its refill rate.
pub struct BucketModel {
    pub capacity: u32,
    pub tokens: u32,
    pub refill_per_second: u32,
}

/// A rate limiter: up to `capacity` requests at once, refilled by
/// `refill_per_second` tokens for every whole second since the last refill.
#[derive(Debug)]
pub struct TokenBucket {
    capacity: u32,
    tokens: u32,
    refill_per_second: u32,
    last_refill: Instant,
}

impl View for TokenBucket {
    type V = BucketModel;

    closed spec fn view(&self) -> BucketModel {
        BucketModel {
            capacity: self.capacity,
            tokens: self.tokens,
            refill_per_second: self.refill_per_second,
        }
    }
}

/// The tokens after a refill check `elapsed_secs` whole seconds after the
/// last refill: nothing is added under one second; otherwise the seconds
/// (truncated to `u32`) times the rate, both saturating, capped at the
/// capacity.
pub open spec fn refilled(m: BucketModel, elapsed_secs: u64) -> u32 {
    if elapsed_secs == 0 {
        m.tokens
    } else {
        let amount = (elapsed_secs as u32) * m.refill_per_second;
        let added = m.tokens + (if amount > u32::MAX {
            u32::MAX as int
        } else {
            amount
        });
        let saturated = if added > u32::MAX {
            u32::MAX as int
        } else {
            added
        };
        if saturated < m.capacity {
            saturated as u32
        } else {
            m.capacity
        }
    }
}

/// The outcome of a request `elapsed_secs` whole seconds after the last
/// refill: after the refill, a token is taken when there is one.
pub open spec fn acquire_outcome(m: BucketModel, elapsed_secs: u64) -> (bool, BucketModel) {
    let t = refilled(m, elapsed_secs);
    if t == 0 {
        (false, BucketModel { tokens: 0, ..m })
    } else {
        (true, BucketModel { tokens: (t - 1) as u32, ..m })
    }
}

impl TokenBucket {
    #[verifier::type_invariant]
    spec fn within_capacity(self) -> bool {
        self.tokens <= self.capacity
    }

    /// The instant of the last refill, from which whole seconds are
    /// counted.
    pub closed spec fn refill_instant(&self) -> Instant {
        self.last_refill
    }

    /// A full bucket.
    pub fn new(capacity: u32, refill_per_second: u32) -> (r: Self)
        ensures
            r@ == (BucketModel { capacity, tokens: capacity, refill_per_second }),
    {
        TokenBucket { capacity, tokens: capacity, refill_per_second, last_refill: instant_now() }
    }

    /// The tokens left.
    pub fn tokens(&self) -> (r: u32)
        ensures
            r == self@.tokens,
            r <= self@.capacity,
    {
        proof {
            use_type_invariant(self);
        }
        self.tokens
    }

    /// Refills for `elapsed_secs` whole seconds counted up to the clock
    /// reading `now` (see [`refilled`]). While no whole second has passed
    /// nothing changes, the instant of the last refill included; a refill
    /// restarts the second count from `now`.
    pub fn refill_at(&mut self, elapsed_secs: u64, now: Instant)
        ensures
            final(self)@ == (BucketModel { tokens: refilled(old(self)@, elapsed_secs), ..old(self)@ }),
            elapsed_secs == 0 ==> final(self).refill_instant() == old(self).refill_instant(),
            elapsed_secs > 0 ==> final(self).refill_instant() == now,
    {
        proof {
            use_type_invariant(&*self);
        }
        if elapsed_secs == 0 {
            return;
        }
        let secs = elapsed_secs as u32;
        let a: u64 = secs as u64;
        let b: u64 = self.refill_per_second as u64;
        assert(a * b <= 0xFFFF_FFFF_FFFF_FFFF) by (nonlinear_arith)
            requires
                a <= 0xFFFF_FFFF,
                b <= 0xFFFF_FFFF,
        ;
        let amount: u32 = if a * b > u32::MAX as u64 {
            u32::MAX
        } else {
            secs * self.refill_per_second
        };
        let added: u32 = if self.tokens as u64 + amount as u64 > u32::MAX as u64 {
            u32::MAX
        } else {
            self.tokens + amount
        };
        let capped: u32 = if added < self.capacity {
            added
        } else {
            self.capacity
        };
        self.tokens = capped;
        self.last_refill = now;
    }

    /// Refills for `elapsed_secs` whole seconds since the last refill (see
    /// [`refill_at`](Self::refill_at)), restarting the count from the
    /// clock's reading now when a refill happens.
    pub fn refill_after(&mut self, elapsed_secs: u64)
        ensures
            final(self)@ == (BucketModel { tokens: refilled(old(self)@, elapsed_secs), ..old(self)@ }),
            elapsed_secs == 0 ==> final(self).refill_instant() == old(self).refill_instant(),
    {
        if elapsed_secs == 0 {
            return;
        }
        let now = instant_now();
        self.refill_at(elapsed_secs, now);
    }

    /// Takes a token `elapsed_secs` whole seconds after the last refill
    /// (see [`acquire_outcome`]); the instant of the last refill is kept
    /// while no whole second has passed.
    pub fn try_acquire_after(&mut self, elapsed_secs: u64) -> (r: bool)
        ensures
            (r, final(self)@) == acquire_outcome(old(self)@, elapsed_secs),
            elapsed_secs == 0 ==> final(self).refill_instant() == old(self).refill_instant(),
    {
        self.refill_after(elapsed_secs);
        proof {
            use_type_invariant(&*self);
        }
        if self.tokens == 0 {
            return false;
        }
        self.tokens = self.tokens - 1;
        true
    }

    /// Takes a token now, refilling first for the whole seconds since the
    /// last refill: the outcome is that of [`acquire_outcome`] for the
    /// seconds the clock reports, and when that is less than one whole
    /// second the instant of the last refill is kept.
    pub fn try_acquire(&mut self) -> (r: bool)
        ensures
            exists|elapsed_secs: u64|
                (r, final(self)@) == #[trigger] acquire_outcome(old(self)@, elapsed_secs) && (elapsed_secs
                    == 0 ==> final(self).refill_instant() == old(self).refill_instant()),
    {
        let elapsed = instant_elapsed(&self.last_refill);
        let secs = elapsed.as_secs();
        self.try_acquire_after(secs)
    }

    /// Moves the last refill `seconds` back from now, as if that much time
    /// had passed; nothing changes if the clock cannot go back that far.
    pub fn force_refill_after_seconds(&mut self, seconds: u64)
        ensures
            final(self)@ == old(self)@,
    {
        proof {
            use_type_invariant(&*self);
        }
        let now = instant_now();
        let d = Duration::from_secs(seconds);
        if let Some(earlier) = instant_checked_sub(&now, d) {
            self.last_refill = earlier;
        }
    }
}

/// Law: a bucket never holds more tokens than its capacity, and a request
/// is refused only when the refilled bucket is empty.
pub proof fn law_bucket_within_capacity(m: BucketModel, elapsed_secs: u64)
    requires
        m.tokens <= m.capacity,
    ensures
        refilled(m, elapsed_secs) <= m.capacity,
        acquire_outcome(m, elapsed_secs).1.tokens <= m.capacity,
        !acquire_outcome(m, elapsed_secs).0 <==> refilled(m, elapsed_secs) == 0,
        refilled(m, elapsed_secs) >= m.tokens,
{
}

/// Law: a bucket refilled at instant `now` counts whole seconds from `now`,
/// so requests made before the next whole second add no tokens: from the
/// refilled state, `k` such requests grant `min(k, tokens)` and never more
/// than the capacity.
pub proof fn law_refill_window(m: BucketModel, elapsed_secs: u64, k: nat)
    requires
        m.tokens <= m.capacity,
    ensures
        burst(BucketModel { tokens: refilled(m, elapsed_secs), ..m }, k).0 <= m.capacity,
{
    let r = BucketModel { tokens: refilled(m, elapsed_secs), ..m };
    law_bucket_within_capacity(m, elapsed_secs);
    law_burst_up_to_capacity(r, k);
}

/// The requests granted out of `k` made one after another within the
/// first second (no refill), and the bucket after them.
pub open spec fn burst(m: BucketModel, k: nat) -> (nat, BucketModel)
    decreases k,
{
    if k == 0 {
        (0, m)
    } else {
        let (granted, before) = burst(m, (k - 1) as nat);
        let (ok, after) = acquire_outcome(before, 0);
        (if ok {
            granted + 1
        } else {
            granted
        }, after)
    }
}

/// Law: within the first second, a bucket grants as many requests as it
/// holds tokens and refuses the rest: out of `k` requests in a row,
/// `min(k, tokens)` are granted and the bucket is left with the remaining
/// tokens; its capacity and rate do not change.
pub proof fn law_burst_up_to_capacity(m: BucketModel, k: nat)
    requires
        m.tokens <= m.capacity,
    ensures
        burst(m, k).0 == (if k <= m.tokens {
            k
        } else {
            m.tokens as nat
        }),
        burst(m, k).1.tokens == m.tokens - burst(m, k).0,
        burst(m, k).1.capacity == m.capacity,
        burst(m, k).1.refill_per_second == m.refill_per_second,
    decreases k,
{
    if k > 0 {
        law_burst_up_to_capacity(m, (k - 1) as nat);
    }
}

/// Law: a request made at least one whole second after the last refill is
/// granted whenever the bucket has a positive capacity and refill rate,
/// even if it was empty (seconds beyond `u32::MAX` are left out: the
/// seconds count is truncated to `u32`).
pub proof fn law_refill_after_one_second(m: BucketModel, elapsed_secs: u64)
    requires
        m.tokens <= m.capacity,
        1 <= elapsed_secs <= u32::MAX,
        m.capacity > 0,
        m.refill_per_second > 0,
    ensures
        acquire_outcome(m, elapsed_secs).0,
{
    assert((elapsed_secs as u32) * m.refill_per_second >= 1) by (nonlinear_arith)
        requires
            1 <= elapsed_secs <= u32::MAX,
            m.refill_per_second > 0,
    ;
}

} // verus!
