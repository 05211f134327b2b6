//! The gateway's declarative configuration.
use vstd::prelude::*;
use std::collections::HashMap;

verus! {

/// The whole gateway configuration.
#[derive(Debug, Clone)]
pub struct GatewayConfig {
    pub server: ServerConfig,
    pub routes: Vec<RouteConfig>,
    pub rate_limits: Option<HashMap<String, RateLimitSpec>>,
    pub waf: Option<WafConfig>,
}

/// Where the gateway listens.
#[derive(Debug, Clone)]
pub struct ServerConfig {
    pub host: String,
    pub port: u16,
    pub admin_port: Option<u16>,
    pub workers: Option<usize>,
}

/// One upstream route, selected by path prefix and, optionally, by method.
#[derive(Debug, Clone)]
pub struct RouteConfig {
    pub id: String,
    pub path_prefix: String,
    pub upstream_url: String,
    pub methods: Option<Vec<String>>,
    pub strip_prefix: Option<bool>,
    pub auth_required: Option<bool>,
    pub rate_limit_tier: Option<String>,
    pub timeout_ms: Option<u64>,
}

/// A token-bucket tier: refill rate and burst size.
#[derive(Debug, Clone)]
pub struct RateLimitSpec {
    pub rate_per_second: u64,
    pub burst_capacity: u64,
}

/// Which request filters are switched on, and the addresses refused outright.
#[derive(Debug, Clone)]
pub struct WafConfig {
    pub enabled: bool,
    pub block_sqli: bool,
    pub block_xss: bool,
    pub block_path_traversal: bool,
    pub blocked_ips: Option<Vec<String>>,
}

} // verus!
