//! Selection of the effective rate rule for an identity and method.
//! Priority, first match wins: the key's own rule for the method, then the
//! key's tier rule for the method, then the global per-method rule, then
//! the fallback rule for plain addresses. The resolver is pure.

use vstd::prelude::*;
use crate::config::{ApiKeyConfig, LimitRule, RateLimitConfig, TierLimits};

verus! {

/// The rule a credential carries for a method, if any: its own rule first,
/// else its tier's rule.
pub open spec fn spec_key_rule(
    cfg: ApiKeyConfig,
    tiers: TierLimits,
    method: Seq<char>,
) -> Option<LimitRule> {
    if cfg.limits@.dom().contains(method) {
        Some(cfg.limits@[method])
    } else if tiers.spec_for_tier(cfg.tier).dom().contains(method) {
        Some(tiers.spec_for_tier(cfg.tier)[method])
    } else {
        None
    }
}

/// The rule that applies when no credential rule does: the global
/// per-method rule, else the address fallback.
pub open spec fn spec_base_rule(rl: RateLimitConfig, method: Seq<char>) -> LimitRule {
    if rl.method_limits@.dom().contains(method) {
        rl.method_limits@[method]
    } else {
        rl.default_ip_limit
    }
}

/// The effective rule for an identity and method, over all four tiers of
/// precedence; `key_cfg` is the credential record when the identity is an
/// API key, `None` for an address identity.
pub open spec fn spec_resolve_rule(
    key_cfg: Option<ApiKeyConfig>,
    tiers: TierLimits,
    rl: RateLimitConfig,
    method: Seq<char>,
) -> LimitRule {
    match key_cfg {
        Some(cfg) => match spec_key_rule(cfg, tiers, method) {
            Some(rule) => rule,
            None => spec_base_rule(rl, method),
        },
        None => spec_base_rule(rl, method),
    }
}

/// Looks up the credential-specific part of the precedence chain.
pub fn key_rule<'a>(cfg: &'a ApiKeyConfig, tiers: &'a TierLimits, method: &String) -> (r: Option<
    &'a LimitRule,
>)
    requires
        cfg.wf(),
        tiers.wf(),
    ensures
        match r {
            Some(rule) => spec_key_rule(*cfg, *tiers, method@) == Some(*rule),
            None => spec_key_rule(*cfg, *tiers, method@) is None,
        },
{
    if let Some(rule) = cfg.limits.get(method) {
        return Some(rule);
    }
    let tier_map = tiers.for_tier(cfg.tier);
    tier_map.get(method)
}

/// Looks up the credential-free part of the precedence chain.
pub fn base_rule<'a>(rl: &'a RateLimitConfig, method: &String) -> (r: &'a LimitRule)
    requires
        rl.wf(),
    ensures
        *r == spec_base_rule(*rl, method@),
{
    match rl.method_limits.get(method) {
        Some(rule) => rule,
        None => &rl.default_ip_limit,
    }
}

/// When both a key-specific rule and a tier rule exist for the method, the
/// key-specific rule governs.
pub proof fn lemma_key_rule_precedence(
    cfg: ApiKeyConfig,
    tiers: TierLimits,
    rl: RateLimitConfig,
    method: Seq<char>,
)
    requires
        cfg.limits@.dom().contains(method),
        tiers.spec_for_tier(cfg.tier).dom().contains(method),
    ensures
        spec_resolve_rule(Some(cfg), tiers, rl, method) == cfg.limits@[method],
{
}

} // verus!
