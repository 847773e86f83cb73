//! Messages exchanged between the CLI and the daemon.
use vstd::prelude::*;

use crate::text::str_to_string;
use crate::types::{DeviceInfo, PoolInfo};

verus! {

/// Messages sent from CLI to daemon.
#[derive(Debug, Clone, PartialEq)]
pub enum DaemonRequest {
    /// Ping the daemon for liveness
    Ping,
    /// Get daemon status and recent events
    Status,
    /// List all known/imported pools
    ListPools,
    /// List all connected USB storage devices
    ListDevices,
    /// Manually trigger pool import
    ImportPool { pool_name: String, device_path: Option<String> },
    /// Manually trigger pool export
    ExportPool { pool_name: String, force: bool },
    /// Mount a dataset (with optional passphrase)
    Mount { dataset: String, passphrase: Option<String> },
    /// Unmount a dataset and optionally unload key
    Unmount { dataset: String, unload_key: bool },
    /// Create a new encrypted ZFS pool on a device
    InitPool {
        pool_name: String,
        device_path: String,
        passphrase: String,
        options: PoolCreationOptions,
    },
    /// Change passphrase for an encrypted dataset
    ChangeKey { dataset: String, old_passphrase: String, new_passphrase: String },
    /// Subscribe to real-time events (daemon will push event notifications)
    SubscribeEvents,
    /// Reload configuration
    ReloadConfig,
}

/// Options for pool creation.
#[derive(Debug, Clone, PartialEq)]
pub struct PoolCreationOptions {
    pub encryption: bool,
    pub algorithm: String,
    pub compression: String,
    pub recordsize_kb: u64,
    pub disable_atime: bool,
    /// Enable only conservative feature flags for cross-platform compatibility
    pub cross_platform_safe: bool,
}

impl Default for PoolCreationOptions {
    /// Encrypted with AES-256-GCM, zstd compression, 128K records, atime off,
    /// cross-platform safe feature flags.
    fn default() -> (r: Self)
        ensures
            r.encryption,
            r.algorithm@ == "aes-256-gcm"@,
            r.compression@ == "zstd"@,
            r.recordsize_kb == 128,
            r.disable_atime,
            r.cross_platform_safe,
    {
        PoolCreationOptions {
            encryption: true,
            algorithm: str_to_string("aes-256-gcm"),
            compression: str_to_string("zstd"),
            recordsize_kb: 128,
            disable_atime: true,
            cross_platform_safe: true,
        }
    }
}

/// Messages sent from daemon to CLI.
#[derive(Debug, Clone, PartialEq)]
pub enum DaemonResponse {
    Pong,
    Status {
        version: String,
        uptime_sec: u64,
        pools_imported: Vec<PoolInfo>,
        devices_connected: Vec<DeviceInfo>,
        auto_detect_enabled: bool,
    },
    PoolList(Vec<PoolInfo>),
    DeviceList(Vec<DeviceInfo>),
    Success { message: String },
    Error { code: String, message: String },
    EventStream,
}

} // verus!
