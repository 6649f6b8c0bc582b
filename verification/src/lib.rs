//! A protective layer for a JSON-RPC backend: it derives a client identity
//! from request headers, checks a blocklist and the client's credentials,
//! selects the applicable rate rule, enforces a token-bucket quota per
//! identity and method, and accounts every request's outcome in a set of
//! monotonic counters.
//!
//! All decision logic lives here and is verified; transport (HTTP listeners,
//! the upstream client, configuration files) stays outside and hands this
//! crate plain values.

pub mod bucket;
pub mod config;
pub mod identity;
pub mod jsonrpc;
pub mod limiter;
pub mod metrics;
pub mod pipeline;
pub mod policy;
pub mod quota;
pub mod strmap;
