use berth::global_config::{
    config_or_default, default_cache_ttl, default_log_level, default_max_servers,
    default_registry_url, default_true, default_trust_level, GlobalConfig,
};

#[test]
fn default_when_no_file() {
    let cfg = GlobalConfig::default();
    assert!(!cfg.runtime.auto_restart);
    assert_eq!(cfg.runtime.health_check_interval, 30);
    assert_eq!(cfg.security.default_trust_level, "community");
    assert!(cfg.security.audit_enabled);
    assert!(cfg.clients.auto_link.is_empty());
}

#[test]
fn every_default_value() {
    let cfg = GlobalConfig::default();
    assert_eq!(cfg.registry.url, "https://registry.berth.dev");
    assert_eq!(cfg.registry.cache_ttl, 3600);
    assert_eq!(cfg.runtime.log_level, "warn");
    assert_eq!(cfg.runtime.max_servers, 20);
    assert!(!cfg.security.sandbox_enabled);
    assert_eq!(default_registry_url(), "https://registry.berth.dev");
    assert_eq!(default_cache_ttl(), 3600);
    assert_eq!(default_log_level(), "warn");
    assert_eq!(default_max_servers(), 20);
    assert_eq!(default_trust_level(), "community");
    assert!(default_true());
}

#[test]
fn missing_config_falls_back_to_defaults() {
    let cfg = config_or_default(None);
    assert_eq!(cfg.runtime.health_check_interval, 30);
    assert!(cfg.security.audit_enabled);

    let mut loaded = GlobalConfig::default();
    loaded.runtime.auto_restart = true;
    loaded.clients.auto_link.push("cursor".to_string());
    let cfg = config_or_default(Some(loaded));
    assert!(cfg.runtime.auto_restart);
    assert_eq!(cfg.clients.auto_link, vec!["cursor".to_string()]);
}
