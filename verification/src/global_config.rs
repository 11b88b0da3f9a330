//! Global configuration of berth (`~/.berth/berth.toml`): its sections and
//! the default of every setting.

use vstd::prelude::*;

verus! {

/// Top-level global configuration.
#[derive(Debug, Clone)]
pub struct GlobalConfig {
    pub registry: RegistryConfig,
    pub runtime: RuntimeConfig,
    pub security: SecurityConfig,
    pub clients: ClientsConfig,
}

/// Registry connection settings.
#[derive(Debug, Clone)]
pub struct RegistryConfig {
    pub url: String,
    pub cache_ttl: u64,
}

/// Runtime behaviour defaults.
#[derive(Debug, Clone)]
pub struct RuntimeConfig {
    pub auto_restart: bool,
    pub health_check_interval: u64,
    pub log_level: String,
    pub max_servers: u64,
}

/// Security policy defaults.
#[derive(Debug, Clone)]
pub struct SecurityConfig {
    pub default_trust_level: String,
    pub audit_enabled: bool,
    pub sandbox_enabled: bool,
}

/// Client auto-linking preferences.
#[derive(Debug, Clone)]
pub struct ClientsConfig {
    pub auto_link: Vec<String>,
}

/// The registry that berth talks to unless configured otherwise.
pub fn default_registry_url() -> (r: String)
    ensures
        r@ == "https://registry.berth.dev"@,
{
    String::from_str("https://registry.berth.dev")
}

/// How long registry answers are cached, in seconds.
pub fn default_cache_ttl() -> (r: u64)
    ensures
        r == 3600,
{
    3600
}

/// Seconds between health checks.
pub fn default_health_check_interval() -> (r: u64)
    ensures
        r == 30,
{
    30
}

/// The log level.
pub fn default_log_level() -> (r: String)
    ensures
        r@ == "warn"@,
{
    String::from_str("warn")
}

/// The largest number of servers run at once.
pub fn default_max_servers() -> (r: u64)
    ensures
        r == 20,
{
    20
}

/// The trust level given to servers of unknown standing.
pub fn default_trust_level() -> (r: String)
    ensures
        r@ == "community"@,
{
    String::from_str("community")
}

/// The default of settings that are on unless turned off.
pub fn default_true() -> (r: bool)
    ensures
        r,
{
    true
}

impl RegistryConfig {
    /// Whether every setting has its default.
    pub open spec fn is_default(&self) -> bool {
        &&& self.url@ == "https://registry.berth.dev"@
        &&& self.cache_ttl == 3600
    }
}

impl RuntimeConfig {
    /// Whether every setting has its default.
    pub open spec fn is_default(&self) -> bool {
        &&& !self.auto_restart
        &&& self.health_check_interval == 30
        &&& self.log_level@ == "warn"@
        &&& self.max_servers == 20
    }
}

impl SecurityConfig {
    /// Whether every setting has its default.
    pub open spec fn is_default(&self) -> bool {
        &&& self.default_trust_level@ == "community"@
        &&& self.audit_enabled
        &&& !self.sandbox_enabled
    }
}

impl ClientsConfig {
    /// Whether every setting has its default.
    pub open spec fn is_default(&self) -> bool {
        self.auto_link@.len() == 0
    }
}

impl GlobalConfig {
    /// Whether every setting has its default.
    pub open spec fn is_default(&self) -> bool {
        &&& self.registry.is_default()
        &&& self.runtime.is_default()
        &&& self.security.is_default()
        &&& self.clients.is_default()
    }
}

impl Default for RegistryConfig {
    fn default() -> (r: Self)
        ensures
            r.is_default(),
    {
        RegistryConfig { url: default_registry_url(), cache_ttl: default_cache_ttl() }
    }
}

impl Default for RuntimeConfig {
    fn default() -> (r: Self)
        ensures
            r.is_default(),
    {
        RuntimeConfig {
            auto_restart: false,
            health_check_interval: default_health_check_interval(),
            log_level: default_log_level(),
            max_servers: default_max_servers(),
        }
    }
}

impl Default for SecurityConfig {
    fn default() -> (r: Self)
        ensures
            r.is_default(),
    {
        SecurityConfig {
            default_trust_level: default_trust_level(),
            audit_enabled: true,
            sandbox_enabled: false,
        }
    }
}

impl Default for ClientsConfig {
    fn default() -> (r: Self)
        ensures
            r.is_default(),
    {
        ClientsConfig { auto_link: Vec::new() }
    }
}

impl Default for GlobalConfig {
    fn default() -> (r: Self)
        ensures
            r.is_default(),
    {
        GlobalConfig {
            registry: RegistryConfig::default(),
            runtime: RuntimeConfig::default(),
            security: SecurityConfig::default(),
            clients: ClientsConfig::default(),
        }
    }
}

/// The configuration in effect once the global config file has been looked
/// for: what it holds when it was found and read, else the defaults.
pub fn config_or_default(loaded: Option<GlobalConfig>) -> (r: GlobalConfig)
    ensures
        match loaded {
            Some(c) => r == c,
            None => r.is_default(),
        },
{
    match loaded {
        Some(c) => c,
        None => GlobalConfig::default(),
    }
}

} // verus!
