//! Configuration records: the bind addresses, the upstream endpoint, the
//! rate rules, the credential table, the tier defaults, and the blocklist.
//! They are loaded once at startup and immutable afterwards.

use vstd::prelude::*;
use crate::strmap::StrMap;

verus! {

/// One rate rule: a token bucket of capacity `requests` that refills
/// uniformly to full over `period` ("1s", "5m", "2h", ...).
#[derive(Clone, Debug)]
pub struct LimitRule {
    pub requests: u32,
    pub period: String,
}

/// The named class a credential belongs to; each tier groups default
/// per-method rules.
#[derive(Clone, Copy, Debug, PartialEq, Eq, Structural)]
pub enum SubscriptionTier {
    Free,
    Pro,
    Enterprise,
}

/// Bind address of the request listener.
#[derive(Clone, Debug)]
pub struct ServerConfig {
    pub host: String,
    pub port: u16,
}

/// Upstream endpoint and per-call deadline.
#[derive(Clone, Debug)]
pub struct RpcBackendConfig {
    pub url: String,
    pub timeout_seconds: u64,
}

/// IP denylist, plus auto-ban parameters that are recorded but not acted on.
#[derive(Clone, Debug)]
pub struct BlocklistConfig {
    pub ips: Vec<String>,
    pub enable_auto_ban: bool,
    pub auto_ban_threshold: u32,
}

/// Optional persistent store settings; recorded only.
#[derive(Clone, Debug)]
pub struct DatabaseConfig {
    pub url: String,
    pub max_connections: u32,
}

/// Metrics bind port and logger verbosity.
#[derive(Clone, Debug)]
pub struct MonitoringConfig {
    pub prometheus_port: u16,
    pub log_level: String,
}

/// The rule tables for clients without a credential: per-method overrides
/// and the fallback rule for plain peer addresses.
pub struct RateLimitConfig {
    pub default_ip_limit: LimitRule,
    pub method_limits: StrMap<LimitRule>,
}

impl RateLimitConfig {
    pub open spec fn wf(&self) -> bool {
        self.method_limits.wf()
    }
}

/// One credential record: its tier, its own per-method rules, and whether
/// it is usable at all. A disabled key behaves like an unknown one.
pub struct ApiKeyConfig {
    pub tier: SubscriptionTier,
    pub limits: StrMap<LimitRule>,
    pub enabled: bool,
}

impl ApiKeyConfig {
    pub open spec fn wf(&self) -> bool {
        self.limits.wf()
    }
}

/// Per-tier per-method default rules.
pub struct TierLimits {
    pub free: StrMap<LimitRule>,
    pub pro: StrMap<LimitRule>,
    pub enterprise: StrMap<LimitRule>,
}

impl TierLimits {
    pub open spec fn wf(&self) -> bool {
        self.free.wf() && self.pro.wf() && self.enterprise.wf()
    }

    /// The rule table of one tier.
    pub open spec fn spec_for_tier(&self, t: SubscriptionTier) -> Map<Seq<char>, LimitRule> {
        match t {
            SubscriptionTier::Free => self.free@,
            SubscriptionTier::Pro => self.pro@,
            SubscriptionTier::Enterprise => self.enterprise@,
        }
    }

    pub fn for_tier(&self, t: SubscriptionTier) -> (r: &StrMap<LimitRule>)
        requires
            self.wf(),
        ensures
            r.wf(),
            r@ == self.spec_for_tier(t),
    {
        match t {
            SubscriptionTier::Free => &self.free,
            SubscriptionTier::Pro => &self.pro,
            SubscriptionTier::Enterprise => &self.enterprise,
        }
    }

    /// Empty tables for every tier.
    pub fn new() -> (r: TierLimits)
        ensures
            r.wf(),
            r.free@ == Map::<Seq<char>, LimitRule>::empty(),
            r.pro@ == Map::<Seq<char>, LimitRule>::empty(),
            r.enterprise@ == Map::<Seq<char>, LimitRule>::empty(),
    {
        TierLimits { free: StrMap::new(), pro: StrMap::new(), enterprise: StrMap::new() }
    }
}

/// Everything the proxy is told at startup.
pub struct Config {
    pub server: ServerConfig,
    pub rpc_backend: RpcBackendConfig,
    pub rate_limits: RateLimitConfig,
    pub api_keys: StrMap<ApiKeyConfig>,
    pub api_key_tiers: TierLimits,
    pub blocklist: BlocklistConfig,
    pub database: Option<DatabaseConfig>,
    pub monitoring: MonitoringConfig,
}

impl Config {
    pub open spec fn wf(&self) -> bool {
        &&& self.rate_limits.wf()
        &&& self.api_keys.wf()
        &&& forall|k: Seq<char>| #[trigger]
            self.api_keys@.dom().contains(k) ==> self.api_keys@[k].wf()
        &&& self.api_key_tiers.wf()
    }
}

} // verus!
