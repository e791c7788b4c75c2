//! Node configuration: pricing, resource limits, network settings.
//!
//! The values are immutable for the process lifetime once loaded. Reading
//! and writing the configuration file is the surrounding program's concern;
//! the defaults and their invariants live here.

use vstd::prelude::*;

verus! {

pub struct PricingConfig {
    /// Price per GPU-hour in cents.
    pub gpu_hour_cents: u32,
    /// Price per CPU core-hour in cents.
    pub cpu_core_hour_cents: u32,
    /// Price per GB RAM-hour in cents.
    pub memory_gb_hour_cents: u32,
    /// Price per GB storage-hour in cents.
    pub storage_gb_hour_cents: u32,
    /// Minimum job cost in cents.
    pub minimum_cents: u32,
}

pub struct ResourceLimits {
    /// Maximum concurrent jobs.
    pub max_concurrent_jobs: u32,
    /// Maximum memory to allocate to jobs (MB); absent means all available.
    pub max_memory_mb: Option<u64>,
    /// GPUs to expose, by index; absent means all.
    pub gpu_indices: Option<Vec<u32>>,
    /// CPU cores to allocate; absent means all.
    pub cpu_cores: Option<u32>,
    /// Storage quota for job data (GB).
    pub storage_quota_gb: u64,
}

pub struct NetworkConfig {
    /// Port for the local API server.
    pub api_port: u16,
    /// Whether to expose a public API.
    pub public_api: bool,
    /// Orchestrator URLs jobs are accepted from; empty accepts any.
    pub allowed_orchestrators: Vec<String>,
}

pub struct NodeConfig {
    /// Display name shown to clients.
    pub name: Option<String>,
    /// Wallet address for receiving payments.
    pub wallet_address: Option<String>,
    /// Preferred currency for payments.
    pub currency: String,
    pub pricing: PricingConfig,
    pub limits: ResourceLimits,
    pub network: NetworkConfig,
    /// Enabled adapters.
    pub mcp_adapters: Vec<String>,
    /// Token from registration, if registered.
    pub auth_token: Option<String>,
    /// Registered node identifier, if registered.
    pub node_id: Option<String>,
}

/// What a usable configuration satisfies: a memory cap small enough that
/// its byte count fits a signed 64-bit engine field.
pub open spec fn config_wf(c: NodeConfig) -> bool {
    match c.limits.max_memory_mb {
        Option::Some(m) => m <= 0x7ff_ffff_ffff,
        Option::None => true,
    }
}

pub fn default_currency() -> (r: String)
    ensures
        r@ == "USDC"@,
{
    String::from_str("USDC")
}

pub fn default_gpu_price() -> (r: u32)
    ensures
        r == 50,
{
    50
}

pub fn default_cpu_price() -> (r: u32)
    ensures
        r == 5,
{
    5
}

pub fn default_memory_price() -> (r: u32)
    ensures
        r == 1,
{
    1
}

pub fn default_storage_price() -> (r: u32)
    ensures
        r == 1,
{
    1
}

pub fn default_minimum() -> (r: u32)
    ensures
        r == 10,
{
    10
}

pub fn default_max_jobs() -> (r: u32)
    ensures
        r == 4,
{
    4
}

pub fn default_storage_quota() -> (r: u64)
    ensures
        r == 100,
{
    100
}

pub fn default_api_port() -> (r: u16)
    ensures
        r == 9876,
{
    9876
}

impl Default for PricingConfig {
    fn default() -> (c: Self)
        ensures
            c.gpu_hour_cents == 50,
            c.cpu_core_hour_cents == 5,
            c.memory_gb_hour_cents == 1,
            c.storage_gb_hour_cents == 1,
            c.minimum_cents == 10,
    {
        PricingConfig {
            gpu_hour_cents: default_gpu_price(),
            cpu_core_hour_cents: default_cpu_price(),
            memory_gb_hour_cents: default_memory_price(),
            storage_gb_hour_cents: default_storage_price(),
            minimum_cents: default_minimum(),
        }
    }
}

impl Default for ResourceLimits {
    fn default() -> (c: Self)
        ensures
            c.max_concurrent_jobs == 4,
            c.max_memory_mb is None,
            c.gpu_indices is None,
            c.cpu_cores is None,
            c.storage_quota_gb == 100,
    {
        ResourceLimits {
            max_concurrent_jobs: default_max_jobs(),
            max_memory_mb: None,
            gpu_indices: None,
            cpu_cores: None,
            storage_quota_gb: default_storage_quota(),
        }
    }
}

impl Default for NetworkConfig {
    fn default() -> (c: Self)
        ensures
            c.api_port == 9876,
            c.public_api == false,
            c.allowed_orchestrators@.len() == 0,
    {
        NetworkConfig {
            api_port: default_api_port(),
            public_api: false,
            allowed_orchestrators: Vec::new(),
        }
    }
}

impl Default for NodeConfig {
    fn default() -> (c: Self)
        ensures
            c.name is None,
            c.wallet_address is None,
            c.currency@ == "USDC"@,
            c.pricing.gpu_hour_cents == 50,
            c.pricing.cpu_core_hour_cents == 5,
            c.pricing.memory_gb_hour_cents == 1,
            c.pricing.storage_gb_hour_cents == 1,
            c.pricing.minimum_cents == 10,
            c.limits.max_concurrent_jobs == 4,
            c.limits.max_memory_mb is None,
            c.limits.gpu_indices is None,
            c.limits.cpu_cores is None,
            c.limits.storage_quota_gb == 100,
            c.network.api_port == 9876,
            c.network.public_api == false,
            c.network.allowed_orchestrators@.len() == 0,
            c.mcp_adapters@.len() == 2,
            c.mcp_adapters@[0]@ == "docker"@,
            c.mcp_adapters@[1]@ == "llm-inference"@,
            c.auth_token is None,
            c.node_id is None,
            config_wf(c),
    {
        let mut adapters: Vec<String> = Vec::new();
        adapters.push(String::from_str("docker"));
        adapters.push(String::from_str("llm-inference"));
        NodeConfig {
            name: None,
            wallet_address: None,
            currency: default_currency(),
            pricing: PricingConfig::default(),
            limits: ResourceLimits::default(),
            network: NetworkConfig::default(),
            mcp_adapters: adapters,
            auth_token: None,
            node_id: None,
        }
    }
}

} // verus!
