//! One token bucket. Capacity `burst` tokens refill uniformly over the
//! rule's period. Token counts are scaled by the period length in
//! nanoseconds, so one token is `period_ns` scaled units and refill adds
//! `capacity` scaled units per elapsed nanosecond, exactly.

use vstd::prelude::*;
use crate::quota::Quota;

verus! {

pub const NANOS_PER_SEC: u64 = 1_000_000_000;

/// Largest period in nanoseconds a quota can denote: `u64::MAX` seconds.
pub const MAX_PERIOD_NS: u128 = 18_446_744_073_709_551_615 * 1_000_000_000;

/// The answer of one rate-limit check: either the token was granted, or the
/// caller is told how many whole seconds to wait (at least one).
#[derive(Clone, Copy, Debug)]
pub struct Decision {
    pub allowed: bool,
    pub retry_after_secs: Option<u64>,
}

/// Quota state for one identity/method key.
#[derive(Clone, Copy, Debug, PartialEq, Eq, Structural)]
pub struct TokenBucket {
    /// Tokens when full; also the refill per period.
    pub capacity: u32,
    /// Refill period in nanoseconds.
    pub period_ns: u128,
    /// Current tokens, scaled by `period_ns`.
    pub tokens_scaled: u128,
    /// Clock reading of the last refill.
    pub last_ns: u64,
}

impl TokenBucket {
    pub open spec fn wf(self) -> bool {
        &&& self.capacity >= 1
        &&& 1 <= self.period_ns <= MAX_PERIOD_NS
        &&& self.tokens_scaled <= self.full_tokens()
    }

    /// Scaled token count of a full bucket.
    pub open spec fn full_tokens(self) -> int {
        self.capacity as int * self.period_ns as int
    }

    /// Nanoseconds since the last refill; a clock that stepped backwards
    /// counts as no time passed.
    pub open spec fn elapsed_ns(self, now_ns: u64) -> int {
        if now_ns >= self.last_ns {
            now_ns - self.last_ns
        } else {
            0
        }
    }

    /// Scaled tokens available at `now_ns`, after refill, before consuming.
    pub open spec fn avail(self, now_ns: u64) -> int {
        let refilled = self.tokens_scaled + self.elapsed_ns(now_ns) * self.capacity;
        if refilled > self.full_tokens() {
            self.full_tokens()
        } else {
            refilled
        }
    }

    /// Whether a check at `now_ns` is granted: one whole token is there.
    pub open spec fn spec_allowed(self, now_ns: u64) -> bool {
        self.avail(now_ns) >= self.period_ns
    }

    /// The bucket after a check at `now_ns`, granted or not.
    pub open spec fn spec_next(self, now_ns: u64) -> TokenBucket {
        TokenBucket {
            capacity: self.capacity,
            period_ns: self.period_ns,
            tokens_scaled: (if self.spec_allowed(now_ns) {
                self.avail(now_ns) - self.period_ns as int
            } else {
                self.avail(now_ns)
            }) as u128,
            last_ns: if now_ns >= self.last_ns {
                now_ns
            } else {
                self.last_ns
            },
        }
    }

    /// Seconds until the next token, rounded up, with a floor of one.
    pub open spec fn spec_retry_secs(self, now_ns: u64) -> int {
        let deficit = self.period_ns as int - self.avail(now_ns);
        let wait_ns = (deficit + self.capacity as int - 1) / (self.capacity as int);
        let secs = (wait_ns + NANOS_PER_SEC as int - 1) / (NANOS_PER_SEC as int);
        if secs < 1 {
            1
        } else {
            secs
        }
    }

    /// The bucket a quota denotes when first observed at `now_ns`: full.
    pub open spec fn spec_fresh(q: Quota, now_ns: u64) -> TokenBucket {
        TokenBucket {
            capacity: q.burst,
            period_ns: (q.period_secs * NANOS_PER_SEC) as u128,
            tokens_scaled: (q.burst as int * (q.period_secs * NANOS_PER_SEC) as int) as u128,
            last_ns: now_ns,
        }
    }

    /// Creates the bucket for a key on its first observation: full capacity.
    pub fn new(q: Quota, now_ns: u64) -> (b: TokenBucket)
        requires
            q.burst >= 1,
            q.period_secs >= 1,
        ensures
            b == Self::spec_fresh(q, now_ns),
            b.wf(),
            b.tokens_scaled == b.full_tokens(),
    {
        proof {
            assert((q.period_secs as int) * (NANOS_PER_SEC as int) <= MAX_PERIOD_NS)
                by (nonlinear_arith)
                requires
                    1 <= q.period_secs <= u64::MAX,
            ;
            assert((q.burst as int) * (q.period_secs as int * NANOS_PER_SEC as int)
                <= 0xFFFF_FFFF * MAX_PERIOD_NS) by (nonlinear_arith)
                requires
                    1 <= q.burst <= u32::MAX,
                    1 <= q.period_secs as int * NANOS_PER_SEC as int <= MAX_PERIOD_NS,
            ;
        }
        let period_ns: u128 = (q.period_secs as u128) * (NANOS_PER_SEC as u128);
        let full: u128 = (q.burst as u128) * period_ns;
        TokenBucket { capacity: q.burst, period_ns, tokens_scaled: full, last_ns: now_ns }
    }

    /// Refills for the time passed since the last check, then tries to take
    /// one token. Exactly the granted checks consume a token; a denied
    /// check reports the wait until the next token, never less than one
    /// second.
    pub fn check(&mut self, now_ns: u64) -> (d: Decision)
        requires
            old(self).wf(),
        ensures
            final(self).wf(),
            *final(self) == old(self).spec_next(now_ns),
            d.allowed == old(self).spec_allowed(now_ns),
            d.allowed ==> d.retry_after_secs is None,
            !d.allowed ==> (d.retry_after_secs matches Some(s) && s == old(self).spec_retry_secs(
                now_ns,
            ) && s >= 1),
    {
        let cap: u128 = self.capacity as u128;
        let elapsed: u128 = if now_ns >= self.last_ns {
            (now_ns - self.last_ns) as u128
        } else {
            0
        };
        proof {
            assert(cap * self.period_ns <= 0xFFFF_FFFF * MAX_PERIOD_NS) by (nonlinear_arith)
                requires
                    1 <= cap <= 0xFFFF_FFFF,
                    1 <= self.period_ns <= MAX_PERIOD_NS,
            ;
            assert(elapsed * cap <= 0xFFFF_FFFF_FFFF_FFFF * 0xFFFF_FFFF) by (nonlinear_arith)
                requires
                    cap <= 0xFFFF_FFFF,
                    elapsed <= 0xFFFF_FFFF_FFFF_FFFF,
            ;
        }
        let full: u128 = cap * self.period_ns;
        let added: u128 = elapsed * cap;
        let refilled: u128 = self.tokens_scaled + added;
        let avail: u128 = if refilled > full {
            full
        } else {
            refilled
        };
        if now_ns > self.last_ns {
            self.last_ns = now_ns;
        }
        if avail >= self.period_ns {
            self.tokens_scaled = avail - self.period_ns;
            Decision { allowed: true, retry_after_secs: None }
        } else {
            self.tokens_scaled = avail;
            let deficit: u128 = self.period_ns - avail;
            let wait_ns: u128 = (deficit + cap - 1) / cap;
            let nanos: u128 = NANOS_PER_SEC as u128;
            proof {
                assert(wait_ns <= deficit) by (nonlinear_arith)
                    requires
                        1 <= cap,
                        1 <= deficit,
                        wait_ns == (deficit + cap - 1) / (cap as int),
                ;
                assert((wait_ns + nanos - 1) / (nanos as int) <= 0xFFFF_FFFF_FFFF_FFFF)
                    by (nonlinear_arith)
                    requires
                        nanos == NANOS_PER_SEC,
                        wait_ns <= MAX_PERIOD_NS,
                ;
            }
            let secs_wide: u128 = (wait_ns + nanos - 1) / nanos;
            let secs: u64 = if secs_wide < 1 {
                1
            } else {
                secs_wide as u64
            };
            Decision { allowed: false, retry_after_secs: Some(secs) }
        }
    }
}

/// How many of `n` checks at one instant are granted, counted over the
/// bucket's own evolution.
pub open spec fn count_allowed(b: TokenBucket, now_ns: u64, n: nat) -> nat
    decreases n,
{
    if n == 0 {
        0
    } else {
        (if b.spec_allowed(now_ns) {
            1nat
        } else {
            0nat
        }) + count_allowed(b.spec_next(now_ns), now_ns, (n - 1) as nat)
    }
}

/// A bucket holding exactly `k` whole tokens, checked `n` times at one
/// instant, grants exactly the smaller of the two.
proof fn lemma_drain_exact(b: TokenBucket, now_ns: u64, k: nat, n: nat)
    requires
        b.wf(),
        now_ns <= b.last_ns,
        b.tokens_scaled == k * b.period_ns,
        k <= b.capacity,
    ensures
        count_allowed(b, now_ns, n) == if n <= k {
            n
        } else {
            k
        },
    decreases n,
{
    if n > 0 {
        assert(b.elapsed_ns(now_ns) == 0);
        assert(b.avail(now_ns) == b.tokens_scaled) by {
            assert(b.tokens_scaled + 0 * b.capacity == b.tokens_scaled);
        }
        let next = b.spec_next(now_ns);
        if k >= 1 {
            assert(k * b.period_ns >= 1 * b.period_ns) by (nonlinear_arith)
                requires
                    k >= 1,
                    b.period_ns >= 1,
            ;
            assert(b.spec_allowed(now_ns));
            assert(k * b.period_ns as int - b.period_ns as int == (k - 1) * b.period_ns)
                by (nonlinear_arith);
            assert((k - 1) * b.period_ns as int <= b.capacity as int * b.period_ns as int)
                by (nonlinear_arith)
                requires
                    k <= b.capacity,
                    b.period_ns >= 1,
            ;
            assert(next.tokens_scaled == (k - 1) * b.period_ns);
            assert(next.wf());
            lemma_drain_exact(next, now_ns, (k - 1) as nat, (n - 1) as nat);
        } else {
            assert(b.tokens_scaled == 0) by {
                assert(0 * b.period_ns == 0);
            }
            assert(!b.spec_allowed(now_ns));
            assert(next.tokens_scaled == 0);
            assert(next.wf());
            lemma_drain_exact(next, now_ns, 0, (n - 1) as nat);
        }
    }
}

/// Of any burst of `n` immediate checks against a fresh bucket for the
/// quota `(burst = R, period = P)`, exactly `min(n, R)` are granted; every
/// denied check carries a retry hint of at least one second (see
/// [`TokenBucket::check`]).
pub proof fn lemma_burst_admits_exactly_capacity(q: Quota, now_ns: u64, n: nat)
    requires
        q.burst >= 1,
        q.period_secs >= 1,
    ensures
        count_allowed(TokenBucket::spec_fresh(q, now_ns), now_ns, n) == if n <= q.burst {
            n
        } else {
            q.burst as nat
        },
{
    let b = TokenBucket::spec_fresh(q, now_ns);
    assert((q.period_secs as int) * (NANOS_PER_SEC as int) <= MAX_PERIOD_NS) by (nonlinear_arith)
        requires
            1 <= q.period_secs <= u64::MAX,
    ;
    assert(b.period_ns == q.period_secs as int * NANOS_PER_SEC as int);
    assert(b.period_ns >= 1) by (nonlinear_arith)
        requires
            b.period_ns == q.period_secs as int * NANOS_PER_SEC as int,
            q.period_secs >= 1,
    ;
    assert((q.burst as int) * (b.period_ns as int) <= 0xFFFF_FFFF * MAX_PERIOD_NS)
        by (nonlinear_arith)
        requires
            1 <= q.burst <= u32::MAX,
            1 <= b.period_ns <= MAX_PERIOD_NS,
    ;
    assert(b.tokens_scaled == q.burst as int * b.period_ns as int);
    assert(b.wf());
    lemma_drain_exact(b, now_ns, q.burst as nat, n);
}

} // verus!
