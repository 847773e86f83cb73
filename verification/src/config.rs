//! Configuration: its structure, the defaults of every setting, and where
//! the configuration file is looked for.
use vstd::prelude::*;

use crate::text::{concat2, str_to_string};

verus! {

/// Default configuration file name.
pub const DEFAULT_CONFIG_NAME: &'static str = "zfswatch.toml";

/// The operating system the tool runs on; several defaults depend on it.
#[derive(Debug, Clone, Copy, PartialEq, Eq, Structural)]
pub enum Platform {
    MacOs,
    Linux,
    Other,
}

/// Main configuration structure.
#[derive(Debug, Clone, PartialEq)]
pub struct Config {
    /// Daemon settings
    pub daemon: DaemonConfig,
    /// Encryption defaults
    pub encryption: EncryptionConfig,
    /// Performance tuning
    pub performance: PerformanceConfig,
    /// Known pools / per-pool overrides
    pub pools: Vec<PoolConfig>,
    /// Logging configuration
    pub logging: LoggingConfig,
}

#[derive(Debug, Clone, PartialEq)]
pub struct DaemonConfig {
    /// Unix socket path for daemon <-> CLI communication
    pub socket_path: String,
    /// Enable automatic pool detection on USB insertion
    pub auto_detect: bool,
    /// Enable automatic mounting (only for unencrypted pools unless key cached)
    pub auto_mount: bool,
    /// Require user confirmation before importing unknown pools
    pub confirm_unknown_pools: bool,
    /// Polling interval in seconds for manual device scans (0 = disabled)
    pub scan_interval_sec: u64,
}

#[derive(Debug, Clone, PartialEq)]
pub struct EncryptionConfig {
    /// Default encryption algorithm
    pub default_algorithm: String,
    /// Default key format (passphrase, raw, hex)
    pub default_keyformat: String,
    /// Default key location (prompt, file://..., https://...)
    pub default_keylocation: String,
    /// Minimum passphrase length
    pub min_passphrase_length: usize,
}

#[derive(Debug, Clone, PartialEq)]
pub struct PerformanceConfig {
    /// Limit ZFS ARC maximum size in MB (0 = use ZFS default)
    pub arc_max_mb: u64,
    /// Default recordsize for new pools in KB (128 = 128K)
    pub recordsize_kb: u64,
    /// Disable atime on new pools
    pub disable_atime: bool,
    /// Default compression algorithm
    pub compression: String,
}

#[derive(Debug, Clone, PartialEq)]
pub struct PoolConfig {
    /// Pool name
    pub name: String,
    /// Expected device stable identifier (for matching on insert)
    pub device_uuid: Option<String>,
    /// Auto-import this pool when device is connected
    pub auto_import: bool,
    /// Auto-mount this pool when imported
    pub auto_mount: bool,
    /// Key source for this pool
    pub key_source: KeySource,
    /// Path to key file (if key_source is File)
    pub key_file: Option<String>,
    /// URL for remote key (if key_source is Https)
    pub key_url: Option<String>,
}

#[derive(Debug, Clone, Copy, PartialEq, Eq, Structural)]
pub enum KeySource {
    Prompt,
    Keyring,
    File,
    Https,
}

#[derive(Debug, Clone, PartialEq)]
pub struct LoggingConfig {
    pub level: String,
    pub format: LogFormat,
    /// Optional log file path (default: stderr/syslog)
    pub file: Option<String>,
}

#[derive(Debug, Clone, Copy, PartialEq, Eq, Structural)]
pub enum LogFormat {
    Pretty,
    Json,
    Compact,
}

/// The daemon's socket on each platform.
pub open spec fn socket_path_for(p: Platform) -> Seq<char> {
    match p {
        Platform::MacOs => "/var/run/zfswatch.sock"@,
        Platform::Linux => "/run/zfswatch/zfswatch.sock"@,
        Platform::Other => "/tmp/zfswatch.sock"@,
    }
}

/// The configuration file on each platform.
pub open spec fn config_path_for(p: Platform) -> Seq<char> {
    match p {
        Platform::MacOs => "/usr/local/etc/zfswatch/"@ + DEFAULT_CONFIG_NAME@,
        Platform::Linux => "/etc/zfswatch/"@ + DEFAULT_CONFIG_NAME@,
        Platform::Other => "./"@ + DEFAULT_CONFIG_NAME@,
    }
}

pub fn default_socket_path(platform: Platform) -> (r: String)
    ensures
        r@ == socket_path_for(platform),
{
    match platform {
        Platform::MacOs => str_to_string("/var/run/zfswatch.sock"),
        Platform::Linux => str_to_string("/run/zfswatch/zfswatch.sock"),
        Platform::Other => str_to_string("/tmp/zfswatch.sock"),
    }
}

pub fn default_true() -> (r: bool)
    ensures
        r,
{
    true
}

pub fn default_false() -> (r: bool)
    ensures
        !r,
{
    false
}

pub fn default_scan_interval() -> (r: u64)
    ensures
        r == 0,
{
    0
}

pub fn default_encryption_algorithm() -> (r: String)
    ensures
        r@ == "aes-256-gcm"@,
{
    str_to_string("aes-256-gcm")
}

pub fn default_keyformat() -> (r: String)
    ensures
        r@ == "passphrase"@,
{
    str_to_string("passphrase")
}

pub fn default_keylocation() -> (r: String)
    ensures
        r@ == "prompt"@,
{
    str_to_string("prompt")
}

pub fn default_min_passphrase_length() -> (r: usize)
    ensures
        r == 12,
{
    12
}

pub fn default_recordsize() -> (r: u64)
    ensures
        r == 128,
{
    128
}

pub fn default_compression() -> (r: String)
    ensures
        r@ == "zstd"@,
{
    str_to_string("zstd")
}

pub fn default_key_source() -> (r: KeySource)
    ensures
        r == KeySource::Prompt,
{
    KeySource::Prompt
}

pub fn default_log_level() -> (r: String)
    ensures
        r@ == "info"@,
{
    str_to_string("info")
}

pub fn default_log_format() -> (r: LogFormat)
    ensures
        r == LogFormat::Pretty,
{
    LogFormat::Pretty
}

/// The daemon defaults hold.
pub open spec fn daemon_defaults(d: DaemonConfig, p: Platform) -> bool {
    &&& d.socket_path@ == socket_path_for(p)
    &&& d.auto_detect
    &&& !d.auto_mount
    &&& d.confirm_unknown_pools
    &&& d.scan_interval_sec == 0
}

pub open spec fn encryption_defaults(e: EncryptionConfig) -> bool {
    &&& e.default_algorithm@ == "aes-256-gcm"@
    &&& e.default_keyformat@ == "passphrase"@
    &&& e.default_keylocation@ == "prompt"@
    &&& e.min_passphrase_length == 12
}

pub open spec fn performance_defaults(p: PerformanceConfig) -> bool {
    &&& p.arc_max_mb == 0
    &&& p.recordsize_kb == 128
    &&& p.disable_atime
    &&& p.compression@ == "zstd"@
}

pub open spec fn logging_defaults(l: LoggingConfig) -> bool {
    &&& l.level@ == "info"@
    &&& l.format == LogFormat::Pretty
    &&& l.file is None
}

impl DaemonConfig {
    /// The daemon settings used when the configuration gives none.
    pub fn default_for(platform: Platform) -> (r: Self)
        ensures
            daemon_defaults(r, platform),
    {
        DaemonConfig {
            socket_path: default_socket_path(platform),
            auto_detect: true,
            auto_mount: false,
            confirm_unknown_pools: true,
            scan_interval_sec: 0,
        }
    }
}

impl Default for EncryptionConfig {
    fn default() -> (r: Self)
        ensures
            encryption_defaults(r),
    {
        EncryptionConfig {
            default_algorithm: default_encryption_algorithm(),
            default_keyformat: default_keyformat(),
            default_keylocation: default_keylocation(),
            min_passphrase_length: default_min_passphrase_length(),
        }
    }
}

impl Default for PerformanceConfig {
    fn default() -> (r: Self)
        ensures
            performance_defaults(r),
    {
        PerformanceConfig {
            arc_max_mb: 0,
            recordsize_kb: default_recordsize(),
            disable_atime: true,
            compression: default_compression(),
        }
    }
}

impl Default for LoggingConfig {
    fn default() -> (r: Self)
        ensures
            logging_defaults(r),
    {
        LoggingConfig { level: default_log_level(), format: default_log_format(), file: None }
    }
}

/// Where the configuration comes from.
#[derive(Debug, Clone, PartialEq, Eq)]
pub enum ConfigSource {
    /// Read it from the file at this path.
    File(String),
    /// No file: use the defaults.
    Defaults,
}

impl Config {
    /// The configuration used when there is no file.
    pub fn default_for(platform: Platform) -> (r: Self)
        ensures
            daemon_defaults(r.daemon, platform),
            encryption_defaults(r.encryption),
            performance_defaults(r.performance),
            r.pools@.len() == 0,
            logging_defaults(r.logging),
    {
        Config {
            daemon: DaemonConfig::default_for(platform),
            encryption: EncryptionConfig::default(),
            performance: PerformanceConfig::default(),
            pools: Vec::new(),
            logging: LoggingConfig::default(),
        }
    }

    /// Get the default config path for the platform.
    pub fn default_path(platform: Platform) -> (r: String)
        ensures
            r@ == config_path_for(platform),
    {
        match platform {
            Platform::MacOs => concat2("/usr/local/etc/zfswatch/", DEFAULT_CONFIG_NAME),
            Platform::Linux => concat2("/etc/zfswatch/", DEFAULT_CONFIG_NAME),
            Platform::Other => concat2("./", DEFAULT_CONFIG_NAME),
        }
    }

    /// Find the config file: an explicit path first, then the default system
    /// path when a file exists there, else the defaults.
    pub fn resolve(path: Option<&String>, platform: Platform, default_exists: bool) -> (r:
        ConfigSource)
        ensures
            path matches Some(p) ==> (r matches ConfigSource::File(f) && f@ == p@),
            path is None && default_exists ==> (r matches ConfigSource::File(f) && f@
                == config_path_for(platform)),
            path is None && !default_exists ==> r is Defaults,
    {
        match path {
            Some(p) => ConfigSource::File(p.clone()),
            None => {
                if default_exists {
                    ConfigSource::File(Self::default_path(platform))
                } else {
                    ConfigSource::Defaults
                }
            },
        }
    }
}

} // verus!
