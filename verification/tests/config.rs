use pied_piper::config::{ConfigError, ConfigFormat, PiedPiperConfig};

#[test]
fn test_default_config() {
    let config = PiedPiperConfig::default();
    assert_eq!(config.gateway.port, 8080);
    assert_eq!(config.network.tcp_port, 0);
    assert_eq!(config.storage.max_cache_entries, 256);
}

#[test]
fn test_validate_https_requires_tls() {
    let mut config = PiedPiperConfig::default();
    config.gateway.https_port = 8443;

    let result = config.validate();
    assert!(result.is_err());
    assert!(result.unwrap_err().message().contains("tls_cert_path"));
}

#[test]
fn test_validate_log_level() {
    let mut config = PiedPiperConfig::default();
    config.logging.level = "invalid".to_string();

    let result = config.validate();
    assert!(result.is_err());
    assert!(result.unwrap_err().message().contains("Invalid log level"));
}

#[test]
fn test_resolve_paths() {
    let mut config = PiedPiperConfig::default();
    config.storage.data_dir = "/custom/data".to_string();
    config.storage.cache_dir = None;
    config.storage.dht_dir = None;

    config.resolve_paths();

    assert_eq!(config.storage.cache_dir, Some("/custom/data/modules".to_string()));
    assert_eq!(config.storage.dht_dir, Some("/custom/data".to_string()));
}

#[test]
fn default_config_is_valid() {
    assert!(PiedPiperConfig::default().validate().is_ok());
}

#[test]
fn validate_reports_missing_key_after_cert() {
    let mut config = PiedPiperConfig::default();
    config.gateway.https_port = 8443;
    config.gateway.tls_cert_path = Some("cert.pem".to_string());
    let err = config.validate().unwrap_err();
    assert!(matches!(err, ConfigError::MissingTlsKey));
    assert_eq!(err.message(), "HTTPS enabled but tls_key_path not specified");
}

#[test]
fn validate_rejects_zero_limits() {
    let mut config = PiedPiperConfig::default();
    config.storage.max_cache_size_bytes = 0;
    assert!(matches!(config.validate(), Err(ConfigError::ZeroCacheSize)));
    let mut config = PiedPiperConfig::default();
    config.storage.max_cache_entries = 0;
    assert!(matches!(config.validate(), Err(ConfigError::ZeroCacheEntries)));
    let mut config = PiedPiperConfig::default();
    config.performance.wasm_memory_limit_bytes = 0;
    assert!(matches!(config.validate(), Err(ConfigError::ZeroWasmMemory)));
}

#[test]
fn invalid_log_level_message_names_level() {
    let mut config = PiedPiperConfig::default();
    config.logging.level = "loud".to_string();
    let err = config.validate().unwrap_err();
    assert_eq!(
        err.message(),
        "Invalid log level 'loud'. Must be one of: trace, debug, info, warn, error"
    );
}

#[test]
fn config_format_from_extension() {
    assert!(matches!(PiedPiperConfig::detect_format("a/b.yaml"), Ok(ConfigFormat::Yaml)));
    assert!(matches!(PiedPiperConfig::detect_format("b.yml"), Ok(ConfigFormat::Yaml)));
    assert!(matches!(PiedPiperConfig::detect_format("c.toml"), Ok(ConfigFormat::Toml)));
    assert!(matches!(PiedPiperConfig::detect_format("d.json"), Ok(ConfigFormat::Json)));
    assert!(matches!(PiedPiperConfig::detect_format("e.ini"), Err(ConfigError::UnsupportedFormat)));
    assert!(matches!(PiedPiperConfig::detect_format("noext"), Err(ConfigError::UnsupportedFormat)));
}

#[test]
fn resolve_paths_keeps_given_dirs() {
    let mut config = PiedPiperConfig::default();
    config.storage.cache_dir = Some("/c".to_string());
    config.storage.dht_dir = Some("/d".to_string());
    config.resolve_paths();
    assert_eq!(config.storage.cache_dir, Some("/c".to_string()));
    assert_eq!(config.storage.dht_dir, Some("/d".to_string()));
}


#[test]
fn config_example_values() {
    let c = PiedPiperConfig::example();
    assert_eq!(c.network.tcp_port, 4001);
    assert_eq!(c.network.bootstrap_peers, vec!["12D3KooWExamplePeer@/ip4/203.0.113.1/tcp/4001".to_string()]);
    assert_eq!(c.gateway.https_port, 8443);
    assert_eq!(c.gateway.tls_key_path.as_deref(), Some("/path/to/key.pem"));
    assert_eq!(c.storage.cache_dir.as_deref(), Some(".pied-piper/modules"));
    assert!(c.validate().is_ok());
}

#[test]
fn config_init_formats() {
    assert_eq!(PiedPiperConfig::init_format("yml"), Ok(ConfigFormat::Yaml));
    assert_eq!(PiedPiperConfig::init_format("toml"), Ok(ConfigFormat::Toml));
    assert_eq!(PiedPiperConfig::init_format("json"), Ok(ConfigFormat::Json));
    assert_eq!(
        PiedPiperConfig::init_format("ini"),
        Err("Unsupported format 'ini'. Use yaml, toml, or json.".to_string())
    );
}
