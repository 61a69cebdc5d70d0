//! Node configuration: defaults, validation and derived paths.

use vstd::prelude::*;
use vstd::string::StringExecFns;
use crate::paths::{path_join, join_path, spec_path_extension, path_extension};
use crate::text::{chars_of, chars_eq, copy_string, lit, texts_of, opt_text};

verus! {

/// Main configuration of a node.
#[derive(Debug, Clone)]
pub struct PiedPiperConfig {
    pub network: NetworkConfig,
    pub gateway: GatewayConfig,
    pub storage: StorageConfig,
    pub performance: PerformanceConfig,
    pub logging: LoggingConfig,
}

/// Peer-to-peer network settings.
#[derive(Debug, Clone)]
pub struct NetworkConfig {
    /// TCP listening port (0 for random)
    pub tcp_port: u16,
    /// QUIC listening port (0 for random)
    pub quic_port: u16,
    /// Enable mDNS for local peer discovery
    pub enable_mdns: bool,
    /// Bootstrap peers (peer_id@multiaddr)
    pub bootstrap_peers: Vec<String>,
    /// GossipSub topics to subscribe to
    pub topics: Vec<String>,
    /// Maximum number of connections
    pub max_connections: usize,
    /// Connection idle timeout in seconds
    pub idle_timeout_secs: u64,
}

/// HTTP gateway settings.
#[derive(Debug, Clone)]
pub struct GatewayConfig {
    /// HTTP server port
    pub port: u16,
    /// HTTPS server port (0 to disable)
    pub https_port: u16,
    /// Path to the TLS certificate file
    pub tls_cert_path: Option<String>,
    /// Path to the TLS private key file
    pub tls_key_path: Option<String>,
    /// Default index file for directory requests
    pub index_file: String,
    /// Enable response compression
    pub enable_compression: bool,
    /// Request timeout in seconds
    pub request_timeout_secs: u64,
}

/// Cache and storage settings.
#[derive(Debug, Clone)]
pub struct StorageConfig {
    /// Data directory for cache and persistence
    pub data_dir: String,
    /// Module cache directory
    pub cache_dir: Option<String>,
    /// DHT state directory
    pub dht_dir: Option<String>,
    /// Maximum cache size in bytes
    pub max_cache_size_bytes: usize,
    /// Maximum number of cached modules
    pub max_cache_entries: usize,
}

/// Performance settings.
#[derive(Debug, Clone)]
pub struct PerformanceConfig {
    /// Number of worker threads (0 for auto)
    pub worker_threads: usize,
    /// HTTP connection pool size per host
    pub connection_pool_size: usize,
    /// HTTP connection pool timeout in seconds
    pub pool_timeout_secs: u64,
    /// Enable TCP keepalive
    pub tcp_keepalive: bool,
    /// WASM execution fuel limit (0 for unlimited)
    pub wasm_fuel_limit: u64,
    /// WASM memory limit in bytes
    pub wasm_memory_limit_bytes: usize,
}

/// Logging settings.
#[derive(Debug, Clone)]
pub struct LoggingConfig {
    /// Log level (trace, debug, info, warn, error)
    pub level: String,
    /// Emit JSON formatted logs
    pub json_format: bool,
    /// Log file path (none for stdout only)
    pub file_path: Option<String>,
}

/// Why a configuration was rejected.
#[derive(Debug, Clone)]
pub enum ConfigError {
    /// HTTPS is enabled without a certificate path
    MissingTlsCert,
    /// HTTPS is enabled without a key path
    MissingTlsKey,
    /// The log level is not one of the known levels
    InvalidLogLevel(String),
    /// The cache size limit is zero
    ZeroCacheSize,
    /// The cache entry limit is zero
    ZeroCacheEntries,
    /// The WASM memory limit is zero
    ZeroWasmMemory,
    /// The config file extension is not yaml, yml, toml or json
    UnsupportedFormat,
}

/// The format of a configuration file.
#[derive(Debug, Clone, Copy, PartialEq, Eq, Structural)]
pub enum ConfigFormat {
    Yaml,
    Toml,
    Json,
}

/// The log levels that the configuration accepts.
pub open spec fn is_log_level(l: Seq<char>) -> bool {
    l == "trace"@ || l == "debug"@ || l == "info"@ || l == "warn"@ || l == "error"@
}

/// HTTPS is enabled but a TLS path is missing.
pub open spec fn tls_incomplete(g: GatewayConfig) -> bool {
    g.https_port > 0 && (g.tls_cert_path is None || g.tls_key_path is None)
}

/// Every check of `validate` passes.
pub open spec fn config_is_valid(c: PiedPiperConfig) -> bool {
    &&& !tls_incomplete(c.gateway)
    &&& is_log_level(c.logging.level@)
    &&& c.storage.max_cache_size_bytes > 0
    &&& c.storage.max_cache_entries > 0
    &&& c.performance.wasm_memory_limit_bytes > 0
}

/// The format that a file extension names.
pub open spec fn format_of_extension(e: Option<Seq<char>>) -> Option<ConfigFormat> {
    match e {
        Some(x) => if x == "yaml"@ || x == "yml"@ {
            Some(ConfigFormat::Yaml)
        } else if x == "toml"@ {
            Some(ConfigFormat::Toml)
        } else if x == "json"@ {
            Some(ConfigFormat::Json)
        } else {
            None
        },
        None => None,
    }
}

fn eq_lit(a: &str, b: &str) -> (r: bool)
    ensures
        r == (a@ == b@),
{
    let x = chars_of(a);
    let y = chars_of(b);
    chars_eq(x.as_slice(), y.as_slice())
}

fn default_tcp_port() -> (r: u16)
    ensures
        r == 0,
{
    0
}

fn default_quic_port() -> (r: u16)
    ensures
        r == 0,
{
    0
}

fn default_true() -> (r: bool)
    ensures
        r,
{
    true
}

fn default_max_connections() -> (r: usize)
    ensures
        r == 100,
{
    100
}

fn default_idle_timeout() -> (r: u64)
    ensures
        r == 60,
{
    60
}

fn default_http_port() -> (r: u16)
    ensures
        r == 8080,
{
    8080
}

fn default_index_file() -> (r: String)
    ensures
        r@ == "index.html"@,
{
    lit("index.html")
}

fn default_request_timeout() -> (r: u64)
    ensures
        r == 30,
{
    30
}

fn default_data_dir() -> (r: String)
    ensures
        r@ == ".pied-piper"@,
{
    lit(".pied-piper")
}

/// 512 MiB.
fn default_cache_size() -> (r: usize)
    ensures
        r == 512 * 1024 * 1024,
{
    512 * 1024 * 1024
}

fn default_cache_entries() -> (r: usize)
    ensures
        r == 256,
{
    256
}

fn default_connection_pool_size() -> (r: usize)
    ensures
        r == 10,
{
    10
}

fn default_pool_timeout() -> (r: u64)
    ensures
        r == 90,
{
    90
}

fn default_fuel_limit() -> (r: u64)
    ensures
        r == 100_000_000,
{
    100_000_000
}

/// 64 MiB.
fn default_wasm_memory_limit() -> (r: usize)
    ensures
        r == 64 * 1024 * 1024,
{
    64 * 1024 * 1024
}

fn default_log_level() -> (r: String)
    ensures
        r@ == "info"@,
{
    lit("info")
}

impl Default for NetworkConfig {
    fn default() -> (r: Self)
        ensures
            r.tcp_port == 0,
            r.quic_port == 0,
            r.enable_mdns,
            r.bootstrap_peers@.len() == 0,
            r.topics@.len() == 0,
            r.max_connections == 100,
            r.idle_timeout_secs == 60,
    {
        NetworkConfig {
            tcp_port: default_tcp_port(),
            quic_port: default_quic_port(),
            enable_mdns: default_true(),
            bootstrap_peers: Vec::new(),
            topics: Vec::new(),
            max_connections: default_max_connections(),
            idle_timeout_secs: default_idle_timeout(),
        }
    }
}

impl Default for GatewayConfig {
    fn default() -> (r: Self)
        ensures
            r.port == 8080,
            r.https_port == 0,
            r.tls_cert_path is None,
            r.tls_key_path is None,
            r.index_file@ == "index.html"@,
            r.enable_compression,
            r.request_timeout_secs == 30,
    {
        GatewayConfig {
            port: default_http_port(),
            https_port: 0,
            tls_cert_path: None,
            tls_key_path: None,
            index_file: default_index_file(),
            enable_compression: default_true(),
            request_timeout_secs: default_request_timeout(),
        }
    }
}

impl Default for StorageConfig {
    fn default() -> (r: Self)
        ensures
            r.data_dir@ == ".pied-piper"@,
            r.cache_dir is None,
            r.dht_dir is None,
            r.max_cache_size_bytes == 512 * 1024 * 1024,
            r.max_cache_entries == 256,
    {
        StorageConfig {
            data_dir: default_data_dir(),
            cache_dir: None,
            dht_dir: None,
            max_cache_size_bytes: default_cache_size(),
            max_cache_entries: default_cache_entries(),
        }
    }
}

impl Default for PerformanceConfig {
    fn default() -> (r: Self)
        ensures
            r.worker_threads == 0,
            r.connection_pool_size == 10,
            r.pool_timeout_secs == 90,
            r.tcp_keepalive,
            r.wasm_fuel_limit == 100_000_000,
            r.wasm_memory_limit_bytes == 64 * 1024 * 1024,
    {
        PerformanceConfig {
            worker_threads: 0,
            connection_pool_size: default_connection_pool_size(),
            pool_timeout_secs: default_pool_timeout(),
            tcp_keepalive: default_true(),
            wasm_fuel_limit: default_fuel_limit(),
            wasm_memory_limit_bytes: default_wasm_memory_limit(),
        }
    }
}

impl Default for LoggingConfig {
    fn default() -> (r: Self)
        ensures
            r.level@ == "info"@,
            !r.json_format,
            r.file_path is None,
    {
        LoggingConfig { level: default_log_level(), json_format: false, file_path: None }
    }
}

impl Default for PiedPiperConfig {
    fn default() -> (r: Self)
        ensures
            r.network.tcp_port == 0,
            r.network.quic_port == 0,
            r.network.enable_mdns,
            r.network.bootstrap_peers@.len() == 0,
            r.network.topics@.len() == 0,
            r.network.max_connections == 100,
            r.network.idle_timeout_secs == 60,
            r.gateway.port == 8080,
            r.gateway.https_port == 0,
            r.gateway.tls_cert_path is None,
            r.gateway.tls_key_path is None,
            r.gateway.index_file@ == "index.html"@,
            r.gateway.enable_compression,
            r.gateway.request_timeout_secs == 30,
            r.storage.data_dir@ == ".pied-piper"@,
            r.storage.cache_dir is None,
            r.storage.dht_dir is None,
            r.storage.max_cache_size_bytes == 512 * 1024 * 1024,
            r.storage.max_cache_entries == 256,
            r.performance.worker_threads == 0,
            r.performance.connection_pool_size == 10,
            r.performance.pool_timeout_secs == 90,
            r.performance.tcp_keepalive,
            r.performance.wasm_fuel_limit == 100_000_000,
            r.performance.wasm_memory_limit_bytes == 64 * 1024 * 1024,
            r.logging.level@ == "info"@,
            !r.logging.json_format,
            r.logging.file_path is None,
    {
        PiedPiperConfig {
            network: NetworkConfig::default(),
            gateway: GatewayConfig::default(),
            storage: StorageConfig::default(),
            performance: PerformanceConfig::default(),
            logging: LoggingConfig::default(),
        }
    }
}

impl ConfigError {
    /// The human-readable message of the error.
    pub fn message(&self) -> (r: String)
        ensures
            match self {
                ConfigError::MissingTlsCert => r@ == "HTTPS enabled but tls_cert_path not specified"@,
                ConfigError::MissingTlsKey => r@ == "HTTPS enabled but tls_key_path not specified"@,
                ConfigError::InvalidLogLevel(l) => r@ == "Invalid log level '"@ + l@
                    + "'. Must be one of: trace, debug, info, warn, error"@,
                ConfigError::ZeroCacheSize => r@ == "max_cache_size_bytes must be greater than 0"@,
                ConfigError::ZeroCacheEntries => r@ == "max_cache_entries must be greater than 0"@,
                ConfigError::ZeroWasmMemory => r@ == "wasm_memory_limit_bytes must be greater than 0"@,
                ConfigError::UnsupportedFormat => r@
                    == "Unsupported config file format. Use .yaml, .toml, or .json"@,
            },
    {
        match self {
            ConfigError::MissingTlsCert => lit("HTTPS enabled but tls_cert_path not specified"),
            ConfigError::MissingTlsKey => lit("HTTPS enabled but tls_key_path not specified"),
            ConfigError::InvalidLogLevel(l) => {
                let mut m = lit("Invalid log level '");
                m.append(l.as_str());
                m.append("'. Must be one of: trace, debug, info, warn, error");
                m
            },
            ConfigError::ZeroCacheSize => lit("max_cache_size_bytes must be greater than 0"),
            ConfigError::ZeroCacheEntries => lit("max_cache_entries must be greater than 0"),
            ConfigError::ZeroWasmMemory => lit("wasm_memory_limit_bytes must be greater than 0"),
            ConfigError::UnsupportedFormat => lit(
                "Unsupported config file format. Use .yaml, .toml, or .json",
            ),
        }
    }
}

impl PiedPiperConfig {
    /// The format of a configuration file, from its extension.
    pub fn detect_format(path: &str) -> (r: Result<ConfigFormat, ConfigError>)
        ensures
            match format_of_extension(spec_path_extension(path@)) {
                Some(f) => r == Ok::<ConfigFormat, ConfigError>(f),
                None => r matches Err(ConfigError::UnsupportedFormat),
            },
    {
        match path_extension(path) {
            Some(e) => {
                if eq_lit(e.as_str(), "yaml") || eq_lit(e.as_str(), "yml") {
                    Ok(ConfigFormat::Yaml)
                } else if eq_lit(e.as_str(), "toml") {
                    Ok(ConfigFormat::Toml)
                } else if eq_lit(e.as_str(), "json") {
                    Ok(ConfigFormat::Json)
                } else {
                    Err(ConfigError::UnsupportedFormat)
                }
            },
            None => Err(ConfigError::UnsupportedFormat),
        }
    }

    /// Fill in the directories derived from `data_dir`: the module cache in
    /// `data_dir/modules` and the DHT state in `data_dir` itself.
    pub fn resolve_paths(&mut self)
        ensures
            final(self).network == old(self).network,
            final(self).gateway == old(self).gateway,
            final(self).performance == old(self).performance,
            final(self).logging == old(self).logging,
            final(self).storage.data_dir == old(self).storage.data_dir,
            final(self).storage.max_cache_size_bytes == old(self).storage.max_cache_size_bytes,
            final(self).storage.max_cache_entries == old(self).storage.max_cache_entries,
            match old(self).storage.cache_dir {
                Some(d) => final(self).storage.cache_dir == Some(d),
                None => (final(self).storage.cache_dir matches Some(d) && d@ == path_join(
                    old(self).storage.data_dir@,
                    "modules"@,
                )),
            },
            match old(self).storage.dht_dir {
                Some(d) => final(self).storage.dht_dir == Some(d),
                None => (final(self).storage.dht_dir matches Some(d) && d@
                    == old(self).storage.data_dir@),
            },
    {
        if self.storage.cache_dir.is_none() {
            let d = join_path(self.storage.data_dir.as_str(), "modules");
            self.storage.cache_dir = Some(d);
        }
        if self.storage.dht_dir.is_none() {
            let d = copy_string(self.storage.data_dir.as_str());
            self.storage.dht_dir = Some(d);
        }
    }

    /// Check the configuration; the first failing check decides the error.
    pub fn validate(&self) -> (r: Result<(), ConfigError>)
        ensures
            r is Ok <==> config_is_valid(*self),
            self.gateway.https_port > 0 && self.gateway.tls_cert_path is None ==> r matches Err(
                ConfigError::MissingTlsCert,
            ),
            self.gateway.https_port > 0 && self.gateway.tls_cert_path is Some
                && self.gateway.tls_key_path is None ==> r matches Err(ConfigError::MissingTlsKey),
            !tls_incomplete(self.gateway) && !is_log_level(self.logging.level@) ==> (r matches Err(
                ConfigError::InvalidLogLevel(l),
            ) && l@ == self.logging.level@),
            !tls_incomplete(self.gateway) && is_log_level(self.logging.level@)
                && self.storage.max_cache_size_bytes == 0 ==> r matches Err(
                ConfigError::ZeroCacheSize,
            ),
            !tls_incomplete(self.gateway) && is_log_level(self.logging.level@)
                && self.storage.max_cache_size_bytes > 0 && self.storage.max_cache_entries == 0
                ==> r matches Err(ConfigError::ZeroCacheEntries),
            !tls_incomplete(self.gateway) && is_log_level(self.logging.level@)
                && self.storage.max_cache_size_bytes > 0 && self.storage.max_cache_entries > 0
                && self.performance.wasm_memory_limit_bytes == 0 ==> r matches Err(
                ConfigError::ZeroWasmMemory,
            ),
    {
        if self.gateway.https_port > 0 {
            if self.gateway.tls_cert_path.is_none() {
                return Err(ConfigError::MissingTlsCert);
            }
            if self.gateway.tls_key_path.is_none() {
                return Err(ConfigError::MissingTlsKey);
            }
        }
        let level = self.logging.level.as_str();
        if !(eq_lit(level, "trace") || eq_lit(level, "debug") || eq_lit(level, "info") || eq_lit(
            level,
            "warn",
        ) || eq_lit(level, "error")) {
            return Err(ConfigError::InvalidLogLevel(copy_string(level)));
        }
        if self.storage.max_cache_size_bytes == 0 {
            return Err(ConfigError::ZeroCacheSize);
        }
        if self.storage.max_cache_entries == 0 {
            return Err(ConfigError::ZeroCacheEntries);
        }
        if self.performance.wasm_memory_limit_bytes == 0 {
            return Err(ConfigError::ZeroWasmMemory);
        }
        Ok(())
    }
}

impl PiedPiperConfig {
    /// The example configuration written by `config init`: ports 4001 and
    /// 4002, one example bootstrap peer and topic, HTTPS on 8443 with
    /// example certificate paths, the cache and DHT under `.pied-piper`, and
    /// the default limits.
    pub fn example() -> (r: Self)
        ensures
            r.network.tcp_port == 4001,
            r.network.quic_port == 4002,
            r.network.enable_mdns,
            texts_of(r.network.bootstrap_peers@) == seq!["12D3KooWExamplePeer@/ip4/203.0.113.1/tcp/4001"@],
            texts_of(r.network.topics@) == seq!["pied-piper"@],
            r.network.max_connections == 100,
            r.network.idle_timeout_secs == 60,
            r.gateway.port == 8080,
            r.gateway.https_port == 8443,
            opt_text(r.gateway.tls_cert_path) == Some("/path/to/cert.pem"@),
            opt_text(r.gateway.tls_key_path) == Some("/path/to/key.pem"@),
            r.gateway.index_file@ == "index.html"@,
            r.gateway.enable_compression,
            r.gateway.request_timeout_secs == 30,
            r.storage.data_dir@ == ".pied-piper"@,
            opt_text(r.storage.cache_dir) == Some(".pied-piper/modules"@),
            opt_text(r.storage.dht_dir) == Some(".pied-piper"@),
            r.storage.max_cache_size_bytes == 512 * 1024 * 1024,
            r.storage.max_cache_entries == 256,
            r.performance.worker_threads == 0,
            r.performance.connection_pool_size == 10,
            r.performance.pool_timeout_secs == 90,
            r.performance.tcp_keepalive,
            r.performance.wasm_fuel_limit == 100_000_000,
            r.performance.wasm_memory_limit_bytes == 64 * 1024 * 1024,
            r.logging.level@ == "info"@,
            !r.logging.json_format,
            r.logging.file_path is None,
    {
        let mut peers: Vec<String> = Vec::new();
        peers.push(lit("12D3KooWExamplePeer@/ip4/203.0.113.1/tcp/4001"));
        let mut topics: Vec<String> = Vec::new();
        topics.push(lit("pied-piper"));
        assert(texts_of(peers@) =~= seq!["12D3KooWExamplePeer@/ip4/203.0.113.1/tcp/4001"@]);
        assert(texts_of(topics@) =~= seq!["pied-piper"@]);
        PiedPiperConfig {
            network: NetworkConfig {
                tcp_port: 4001,
                quic_port: 4002,
                enable_mdns: true,
                bootstrap_peers: peers,
                topics,
                max_connections: 100,
                idle_timeout_secs: 60,
            },
            gateway: GatewayConfig {
                port: 8080,
                https_port: 8443,
                tls_cert_path: Some(lit("/path/to/cert.pem")),
                tls_key_path: Some(lit("/path/to/key.pem")),
                index_file: lit("index.html"),
                enable_compression: true,
                request_timeout_secs: 30,
            },
            storage: StorageConfig {
                data_dir: lit(".pied-piper"),
                cache_dir: Some(lit(".pied-piper/modules")),
                dht_dir: Some(lit(".pied-piper")),
                max_cache_size_bytes: 512 * 1024 * 1024,
                max_cache_entries: 256,
            },
            performance: PerformanceConfig {
                worker_threads: 0,
                connection_pool_size: 10,
                pool_timeout_secs: 90,
                tcp_keepalive: true,
                wasm_fuel_limit: 100_000_000,
                wasm_memory_limit_bytes: 64 * 1024 * 1024,
            },
            logging: LoggingConfig { level: lit("info"), json_format: false, file_path: None },
        }
    }

    /// The format `config init` writes for the name given: `yaml` or `yml`,
    /// `toml`, `json`; any other name is refused with the message shown.
    pub fn init_format(format: &str) -> (r: Result<ConfigFormat, String>)
        ensures
            format@ == "yaml"@ || format@ == "yml"@ ==> r == Ok::<ConfigFormat, String>(ConfigFormat::Yaml),
            format@ == "toml"@ ==> r == Ok::<ConfigFormat, String>(ConfigFormat::Toml),
            format@ == "json"@ ==> r == Ok::<ConfigFormat, String>(ConfigFormat::Json),
            !(format@ == "yaml"@ || format@ == "yml"@ || format@ == "toml"@ || format@ == "json"@) ==> (r matches Err(m)
                && m@ == "Unsupported format '"@ + format@ + "'. Use yaml, toml, or json."@),
    {
        proof {
            reveal_strlit("yaml");
            reveal_strlit("yml");
            reveal_strlit("toml");
            reveal_strlit("json");
            assert("toml"@[0] != "yaml"@[0] && "toml"@[0] != "yml"@[0]);
            assert("json"@[0] != "yaml"@[0] && "json"@[0] != "yml"@[0] && "json"@[0] != "toml"@[0]);
        }
        if eq_lit(format, "yaml") || eq_lit(format, "yml") {
            Ok(ConfigFormat::Yaml)
        } else if eq_lit(format, "toml") {
            Ok(ConfigFormat::Toml)
        } else if eq_lit(format, "json") {
            Ok(ConfigFormat::Json)
        } else {
            let mut m = lit("Unsupported format '");
            m.append(format);
            m.append("'. Use yaml, toml, or json.");
            Err(m)
        }
    }
}

spec fn level_sig(l: Seq<char>) -> (int, char, char) {
    (l.len() as int, l[0], l[l.len() - 1])
}

/// The log level decides validation exactly by being one of the five
/// documented levels `trace`, `debug`, `info`, `warn` and `error`: a
/// configuration whose other checks pass validates with any of them, and
/// with any other level it does not.
pub proof fn lemma_documented_log_levels(c: PiedPiperConfig)
    requires
        !tls_incomplete(c.gateway),
        c.storage.max_cache_size_bytes > 0,
        c.storage.max_cache_entries > 0,
        c.performance.wasm_memory_limit_bytes > 0,
    ensures
        config_is_valid(c) <==> (c.logging.level@ == "trace"@ || c.logging.level@ == "debug"@ || c.logging.level@ == "info"@ || c.logging.level@ == "warn"@ || c.logging.level@ == "error"@),
{
    reveal_strlit("trace");
    assert(level_sig("trace"@) == (5int, 't', 'e'));
    reveal_strlit("debug");
    assert(level_sig("debug"@) == (5int, 'd', 'g'));
    reveal_strlit("info");
    assert(level_sig("info"@) == (4int, 'i', 'o'));
    reveal_strlit("warn");
    assert(level_sig("warn"@) == (4int, 'w', 'n'));
    reveal_strlit("error");
    assert(level_sig("error"@) == (5int, 'e', 'r'));
}

/// Two configurations that differ at most in their log level, each one of
/// the documented levels, validate alike.
pub proof fn lemma_log_level_choice_irrelevant(a: PiedPiperConfig, b: PiedPiperConfig)
    requires
        a.network == b.network,
        a.gateway == b.gateway,
        a.storage == b.storage,
        a.performance == b.performance,
        a.logging.level@ == "trace"@ || a.logging.level@ == "debug"@ || a.logging.level@ == "info"@
            || a.logging.level@ == "warn"@ || a.logging.level@ == "error"@,
        b.logging.level@ == "trace"@ || b.logging.level@ == "debug"@ || b.logging.level@ == "info"@
            || b.logging.level@ == "warn"@ || b.logging.level@ == "error"@,
    ensures
        config_is_valid(a) == config_is_valid(b),
{
    reveal_strlit("trace");
    assert(level_sig("trace"@) == (5int, 't', 'e'));
    reveal_strlit("debug");
    assert(level_sig("debug"@) == (5int, 'd', 'g'));
    reveal_strlit("info");
    assert(level_sig("info"@) == (4int, 'i', 'o'));
    reveal_strlit("warn");
    assert(level_sig("warn"@) == (4int, 'w', 'n'));
    reveal_strlit("error");
    assert(level_sig("error"@) == (5int, 'e', 'r'));
}

/// A configuration file is read by its extension: `yaml` and `yml` as YAML,
/// `toml` as TOML, `json` as JSON; any other extension, or none, names no
/// format.
pub proof fn lemma_config_file_formats(e: Option<Seq<char>>)
    ensures
        e == Some("yaml"@) || e == Some("yml"@) ==> format_of_extension(e) == Some(ConfigFormat::Yaml),
        e == Some("toml"@) ==> format_of_extension(e) == Some(ConfigFormat::Toml),
        e == Some("json"@) ==> format_of_extension(e) == Some(ConfigFormat::Json),
        !(e == Some("yaml"@) || e == Some("yml"@) || e == Some("toml"@) || e == Some("json"@))
            ==> format_of_extension(e) is None,
{
    reveal_strlit("yaml");
    assert(level_sig("yaml"@) == (4int, 'y', 'l'));
    reveal_strlit("yml");
    assert(level_sig("yml"@) == (3int, 'y', 'l'));
    reveal_strlit("toml");
    assert(level_sig("toml"@) == (4int, 't', 'l'));
    reveal_strlit("json");
    assert(level_sig("json"@) == (4int, 'j', 'n'));
}

} // verus!
