//! The admission pipeline, in its fixed order: blocklist, identity,
//! credential, rule selection, rate limit. The first failing step decides
//! the answer; a request that passes every step is forwarded. A blocked or
//! unauthenticated request never consumes a rate-limit token.

use vstd::prelude::*;
use crate::config::{ApiKeyConfig, Config, LimitRule, TierLimits};
use crate::identity::{
    spec_fingerprint, spec_resolve_key, AuthError, ClientIdentity, HeaderValue,
};
use crate::jsonrpc::{error_response, JsonRpcResponse, JsonValue};
use crate::limiter::{spec_bucket_key, RateLimiter};
use crate::metrics::Outcome;
use crate::policy::{key_rule, spec_key_rule};
use crate::strmap::StrMap;

verus! {

/// What the pipeline decides for one request: hand it to the upstream, or
/// answer it right here.
#[derive(Debug)]
pub enum Admission {
    Forward,
    Deny {
        status: u16,
        retry_after_secs: Option<u64>,
        outcome: Outcome,
        response: JsonRpcResponse,
    },
}

/// Everything the pipeline consults: the limiter and the immutable
/// credential, tier and blocklist tables.
pub struct ProxyState {
    pub rate_limiter: RateLimiter,
    pub rpc_backend_url: String,
    pub api_keys: StrMap<ApiKeyConfig>,
    pub api_key_tiers: TierLimits,
    pub blocklist: Vec<String>,
}

impl ProxyState {
    pub open spec fn wf(&self) -> bool {
        &&& self.rate_limiter.wf()
        &&& self.api_keys.wf()
        &&& forall|k: Seq<char>| #[trigger]
            self.api_keys@.dom().contains(k) ==> self.api_keys@[k].wf()
        &&& self.api_key_tiers.wf()
    }

    /// Builds the startup state from a loaded configuration: the tables
    /// carry over unchanged, and no bucket exists yet.
    pub fn from_config(cfg: Config) -> (s: ProxyState)
        requires
            cfg.wf(),
        ensures
            s.wf(),
            s.rpc_backend_url == cfg.rpc_backend.url,
            s.api_keys == cfg.api_keys,
            s.api_key_tiers == cfg.api_key_tiers,
            s.blocklist == cfg.blocklist.ips,
            s.rate_limiter.config == cfg.rate_limits,
            s.rate_limiter.buckets@ == Map::<Seq<char>, crate::bucket::TokenBucket>::empty(),
    {
        ProxyState {
            rate_limiter: RateLimiter::new(cfg.rate_limits),
            rpc_backend_url: cfg.rpc_backend.url,
            api_keys: cfg.api_keys,
            api_key_tiers: cfg.api_key_tiers,
            blocklist: cfg.blocklist.ips,
        }
    }
}

/// The peer address is on the blocklist.
pub open spec fn spec_blocked(bl: Seq<String>, ip: Seq<char>) -> bool {
    exists|i: int| 0 <= i < bl.len() && bl[i]@ == ip
}

/// Set membership over the loaded blocklist.
pub fn ip_blocked(bl: &Vec<String>, ip: &String) -> (r: bool)
    ensures
        r == spec_blocked(bl@, ip@),
{
    let n = bl.len();
    let mut i: usize = 0;
    while i < n
        invariant
            n == bl@.len(),
            i <= n,
            forall|j: int| 0 <= j < i ==> bl@[j]@ != ip@,
        decreases n - i,
    {
        if bl[i] == *ip {
            return true;
        }
        i += 1;
    }
    false
}

/// The key is known and usable.
pub open spec fn spec_key_accepted(keys: Map<Seq<char>, ApiKeyConfig>, key: Seq<char>) -> bool {
    keys.dom().contains(key) && keys[key].enabled
}

/// A denial with the given status, wire code, message and outcome, carrying
/// the request's own id and no retry hint.
pub open spec fn spec_deny(
    r: Admission,
    status: int,
    code: int,
    msg: Seq<char>,
    outcome: Outcome,
    id: Option<JsonValue>,
) -> bool {
    &&& r matches Admission::Deny {
        status: s,
        retry_after_secs: ra,
        outcome: o,
        response: resp,
    }
    &&& s == status
    &&& ra is None
    &&& o == outcome
    &&& resp.jsonrpc@ == "2.0"@
    &&& resp.result is None
    &&& (resp.error matches Some(e) && e.code == code && e.message@ == msg && e.data is None)
    &&& resp.id == id
}

/// The rate-limit denial: 429, wire code -32005, and the computed wait.
pub open spec fn spec_deny_rate_limited(r: Admission, retry: int, id: Option<JsonValue>) -> bool {
    &&& r matches Admission::Deny {
        status: s,
        retry_after_secs: ra,
        outcome: o,
        response: resp,
    }
    &&& s == 429
    &&& (ra matches Some(w) && w == retry && w >= 1)
    &&& o is RateLimited
    &&& resp.jsonrpc@ == "2.0"@
    &&& resp.result is None
    &&& (resp.error matches Some(e) && e.code == -32005 && e.message@ == "Rate limit exceeded"@
        && e.data is None)
    &&& resp.id == id
}

/// The canonical identity string a request will be accounted under once it
/// reaches the limiter.
pub open spec fn spec_canon_of(key: Option<Seq<char>>, peer: Seq<char>) -> Seq<char> {
    match key {
        Some(k) => "apikey:"@ + spec_fingerprint(k),
        None => "ip:"@ + peer,
    }
}

/// Runs the admission pipeline on one request. The contract walks the
/// steps in their fixed order; each early denial leaves the whole state —
/// in particular every bucket — untouched, and only a request that passed
/// blocklist, identity and credential checks consumes a token.
pub fn admit_request(
    state: &mut ProxyState,
    peer_ip: &String,
    authorization: Option<&HeaderValue>,
    x_api_key: Option<&HeaderValue>,
    method: String,
    id: Option<JsonValue>,
    now_ns: u64,
) -> (r: Admission)
    requires
        old(state).wf(),
    ensures
        final(state).wf(),
        final(state).rpc_backend_url == old(state).rpc_backend_url,
        final(state).api_keys == old(state).api_keys,
        final(state).api_key_tiers == old(state).api_key_tiers,
        final(state).blocklist == old(state).blocklist,
        final(state).rate_limiter.config == old(state).rate_limiter.config,
        ({
            let blocked = spec_blocked(old(state).blocklist@, peer_ip@);
            let keyres = spec_resolve_key(authorization, x_api_key);
            if blocked {
                &&& *final(state) == *old(state)
                &&& spec_deny(r, 403, -32001, "IP blocked"@, Outcome::Blocked, id)
            } else {
                match keyres {
                    None => {
                        &&& *final(state) == *old(state)
                        &&& spec_deny(
                            r,
                            401,
                            -32000,
                            "Invalid authorization scheme"@,
                            Outcome::AuthFailed,
                            id,
                        )
                    },
                    Some(Some(key)) => {
                        if !spec_key_accepted(old(state).api_keys@, key) {
                            &&& *final(state) == *old(state)
                            &&& spec_deny(
                                r,
                                401,
                                -32000,
                                "Invalid API key"@,
                                Outcome::AuthFailed,
                                id,
                            )
                        } else {
                            let canon = spec_canon_of(Some(key), peer_ip@);
                            let custom = spec_key_rule(
                                old(state).api_keys@[key],
                                old(state).api_key_tiers,
                                method@,
                            );
                            let before = old(state).rate_limiter.spec_before(
                                canon,
                                custom,
                                method@,
                                now_ns,
                            );
                            &&& final(state).rate_limiter.buckets@ == old(
                                state,
                            ).rate_limiter.buckets@.insert(
                                spec_bucket_key(canon, method@),
                                before.spec_next(now_ns),
                            )
                            &&& if before.spec_allowed(now_ns) {
                                r is Forward
                            } else {
                                spec_deny_rate_limited(r, before.spec_retry_secs(now_ns), id)
                            }
                        }
                    },
                    Some(None) => {
                        let canon = spec_canon_of(None, peer_ip@);
                        let before = old(state).rate_limiter.spec_before(
                            canon,
                            None,
                            method@,
                            now_ns,
                        );
                        &&& final(state).rate_limiter.buckets@ == old(
                            state,
                        ).rate_limiter.buckets@.insert(
                            spec_bucket_key(canon, method@),
                            before.spec_next(now_ns),
                        )
                        &&& if before.spec_allowed(now_ns) {
                            r is Forward
                        } else {
                            spec_deny_rate_limited(r, before.spec_retry_secs(now_ns), id)
                        }
                    },
                }
            }
        }),
{
    if ip_blocked(&state.blocklist, peer_ip) {
        return Admission::Deny {
            status: 403,
            retry_after_secs: None,
            outcome: Outcome::Blocked,
            response: error_response(-32001, "IP blocked", id),
        };
    }
    let identity = match ClientIdentity::from_request(authorization, x_api_key, peer_ip) {
        Ok(ident) => ident,
        Err(AuthError::InvalidScheme) => {
            return Admission::Deny {
                status: 401,
                retry_after_secs: None,
                outcome: Outcome::AuthFailed,
                response: error_response(-32000, "Invalid authorization scheme", id),
            };
        },
    };
    let custom_rule: Option<&LimitRule> = match &identity {
        ClientIdentity::ApiKey { raw, fingerprint: _ } => {
            match state.api_keys.get(raw) {
                Some(cfg) => {
                    if cfg.enabled {
                        key_rule(cfg, &state.api_key_tiers, &method)
                    } else {
                        return Admission::Deny {
                            status: 401,
                            retry_after_secs: None,
                            outcome: Outcome::AuthFailed,
                            response: error_response(-32000, "Invalid API key", id),
                        };
                    }
                },
                None => {
                    return Admission::Deny {
                        status: 401,
                        retry_after_secs: None,
                        outcome: Outcome::AuthFailed,
                        response: error_response(-32000, "Invalid API key", id),
                    };
                },
            }
        },
        ClientIdentity::IpAddress(_) => None,
    };
    let decision = state.rate_limiter.check_rate_limit(&identity, &method, custom_rule, now_ns);
    if decision.allowed {
        Admission::Forward
    } else {
        let retry = decision.retry_after_secs;
        Admission::Deny {
            status: 429,
            retry_after_secs: retry,
            outcome: Outcome::RateLimited,
            response: error_response(-32005, "Rate limit exceeded", id),
        }
    }
}

/// Settles a forwarded request from the upstream's answer: the decoded
/// reply is returned verbatim with status 200 and outcome `Allowed`; a
/// failed call (timeout, transport error, non-2xx, undecodable body)
/// becomes a 502 reply that still carries the request's own id. In
/// particular, when the upstream echoes the request's id, so does the
/// final reply — whichever way the call went.
pub fn finish_forward(id: Option<JsonValue>, upstream: Option<JsonRpcResponse>) -> (r: (
    JsonRpcResponse,
    u16,
    Outcome,
))
    ensures
        upstream matches Some(u) ==> r.0 == u && r.1 == 200 && r.2 is Allowed,
        upstream is None ==> ({
            &&& r.1 == 502
            &&& r.2 is UpstreamFail
            &&& r.0.jsonrpc@ == "2.0"@
            &&& r.0.result is None
            &&& (r.0.error matches Some(e) && e.code == -32007 && e.message@
                == "Upstream error"@)
            &&& r.0.id == id
        }),
        (match upstream {
            Some(u) => u.id == id,
            None => true,
        }) ==> r.0.id == id,
{
    match upstream {
        Some(resp) => (resp, 200, Outcome::Allowed),
        None => (error_response(-32007, "Upstream error", id), 502, Outcome::UpstreamFail),
    }
}

} // verus!
