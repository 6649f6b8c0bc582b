//! The rate limiter: one token bucket per composite key
//! `"<identity-canonical>:<method>"`, created from the effective rule on
//! first observation and drawn from on every check. A rule that does not
//! parse falls back to 100 requests per minute.

use vstd::prelude::*;
use vstd::string::StringExecFns;
use crate::bucket::{Decision, TokenBucket};
use crate::config::{LimitRule, RateLimitConfig};
use crate::identity::ClientIdentity;
use crate::policy::{base_rule, spec_base_rule};
use crate::quota::{parse_limit_rule, spec_period_secs, valid_period, Quota};
use crate::strmap::StrMap;

verus! {

/// The quota a rule denotes, after validation: the rule itself when it is
/// sound, else the fallback of 100 requests per minute.
pub open spec fn spec_quota_of(rule: LimitRule) -> Quota {
    if valid_period(rule.period@) && rule.requests >= 1 {
        Quota { burst: rule.requests, period_secs: spec_period_secs(rule.period@) as u64 }
    } else {
        Quota { burst: 100, period_secs: 60 }
    }
}

/// The bucket key for one identity (by its canonical string) and method.
pub open spec fn spec_bucket_key(canon: Seq<char>, method: Seq<char>) -> Seq<char> {
    canon + ":"@ + method
}

/// The dereferenced override rule, when one was handed in.
pub open spec fn spec_custom(custom_rule: Option<&LimitRule>) -> Option<LimitRule> {
    match custom_rule {
        Some(r) => Some(*r),
        None => None,
    }
}

pub struct RateLimiter {
    pub buckets: StrMap<TokenBucket>,
    pub config: RateLimitConfig,
}

impl RateLimiter {
    pub open spec fn wf(&self) -> bool {
        &&& self.buckets.wf()
        &&& self.config.wf()
        &&& forall|k: Seq<char>| #[trigger]
            self.buckets@.dom().contains(k) ==> self.buckets@[k].wf()
    }

    /// The rule a check runs under: the caller's override if present, else
    /// the limiter's own tables.
    pub open spec fn spec_rule(self, custom: Option<LimitRule>, method: Seq<char>) -> LimitRule {
        match custom {
            Some(r) => r,
            None => spec_base_rule(self.config, method),
        }
    }

    /// The bucket the check draws from: the stored one, or a fresh full
    /// bucket if the key has not been seen.
    pub open spec fn spec_before(
        self,
        canon: Seq<char>,
        custom: Option<LimitRule>,
        method: Seq<char>,
        now_ns: u64,
    ) -> TokenBucket {
        let key = spec_bucket_key(canon, method);
        if self.buckets@.dom().contains(key) {
            self.buckets@[key]
        } else {
            TokenBucket::spec_fresh(spec_quota_of(self.spec_rule(custom, method)), now_ns)
        }
    }

    pub fn new(config: RateLimitConfig) -> (r: RateLimiter)
        requires
            config.wf(),
        ensures
            r.wf(),
            r.buckets@ == Map::<Seq<char>, TokenBucket>::empty(),
            r.config == config,
    {
        RateLimiter { buckets: StrMap::new(), config }
    }

    /// The composite bucket key.
    pub fn make_key(identity: &ClientIdentity, method: &String) -> (r: String)
        ensures
            r@ == spec_bucket_key(identity.spec_canonical(), method@),
    {
        let mut key = identity.canonical();
        key.append(":");
        key.append(method.as_str());
        key
    }

    /// One admission check: refills the key's bucket for the time passed
    /// and takes one token if a whole one is there. The first observation
    /// of a key instantiates its bucket, full, from the effective rule.
    /// A denial reports the wait until the next token, at least one second.
    pub fn check_rate_limit(
        &mut self,
        identity: &ClientIdentity,
        method: &String,
        custom_rule: Option<&LimitRule>,
        now_ns: u64,
    ) -> (d: Decision)
        requires
            old(self).wf(),
        ensures
            final(self).wf(),
            final(self).config == old(self).config,
            final(self).buckets@ == old(self).buckets@.insert(
                spec_bucket_key(identity.spec_canonical(), method@),
                old(self).spec_before(
                    identity.spec_canonical(),
                    spec_custom(custom_rule),
                    method@,
                    now_ns,
                ).spec_next(now_ns),
            ),
            d.allowed == old(self).spec_before(
                identity.spec_canonical(),
                spec_custom(custom_rule),
                method@,
                now_ns,
            ).spec_allowed(now_ns),
            d.allowed ==> d.retry_after_secs is None,
            !d.allowed ==> (d.retry_after_secs matches Some(s) && s == old(self).spec_before(
                identity.spec_canonical(),
                spec_custom(custom_rule),
                method@,
                now_ns,
            ).spec_retry_secs(now_ns) && s >= 1),
    {
        let key = Self::make_key(identity, method);
        let quota: Quota = {
            let rule: &LimitRule = match custom_rule {
                Some(r) => r,
                None => base_rule(&self.config, method),
            };
            match parse_limit_rule(rule) {
                Ok(q) => q,
                Err(_) => Quota { burst: 100, period_secs: 60 },
            }
        };
        proof {
            let rule = self.spec_rule(spec_custom(custom_rule), method@);
            if valid_period(rule.period@) && rule.requests >= 1 {
                assert(spec_period_secs(rule.period@) >= 1) by (nonlinear_arith)
                    requires
                        spec_period_secs(rule.period@) == crate::quota::digits_val(
                            crate::quota::period_digits(rule.period@),
                        ) * crate::quota::unit_mult(rule.period@.last()),
                        crate::quota::digits_val(crate::quota::period_digits(rule.period@)) >= 1,
                        crate::quota::unit_mult(rule.period@.last()) >= 1,
                ;
            }
            assert(quota == spec_quota_of(rule));
            assert(quota.burst >= 1 && quota.period_secs >= 1);
        }
        let mut b = match self.buckets.get(&key) {
            Some(bucket) => *bucket,
            None => TokenBucket::new(quota, now_ns),
        };
        let d = b.check(now_ns);
        self.buckets.insert(key, b);
        d
    }

    /// Forgets every bucket; the next check of each key starts it fresh.
    pub fn cleanup(&mut self)
        requires
            old(self).wf(),
        ensures
            final(self).wf(),
            final(self).config == old(self).config,
            final(self).buckets@ == Map::<Seq<char>, TokenBucket>::empty(),
    {
        self.buckets.clear();
    }
}

} // verus!
