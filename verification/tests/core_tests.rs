use zfswatch::config::{
    default_socket_path, Config, ConfigSource, DaemonConfig, EncryptionConfig, KeySource, LogFormat,
    LoggingConfig, PerformanceConfig, Platform, PoolConfig,
};
use zfswatch::error::Error;
use zfswatch::command::{run_failure, stdin_line, RunStage};
use zfswatch::keys::{
    keyring_failure, keyring_payload, secure_zero, secure_zero_string, KeyringFailure, LinuxKeyring,
    MemoryKeyVault,
};
use zfswatch::protocol::PoolCreationOptions;
use zfswatch::types::{DeviceInfo, PoolHealth, PoolInfo, UsbSpeed};

#[test]
fn test_types_comprehensive() {
    let speeds = vec![
        UsbSpeed::Unknown,
        UsbSpeed::LowSpeed,
        UsbSpeed::FullSpeed,
        UsbSpeed::HighSpeed,
        UsbSpeed::SuperSpeed,
        UsbSpeed::SuperSpeed10,
        UsbSpeed::SuperSpeed20,
        UsbSpeed::Usb4_40G,
        UsbSpeed::Usb4_80G,
    ];

    for speed in speeds {
        let desc = speed.description();
        assert!(!desc.is_empty());
        let _mbps = speed.max_throughput_mbps();
    }

    let healths = vec![
        PoolHealth::Online,
        PoolHealth::Degraded,
        PoolHealth::Faulted,
        PoolHealth::Offline,
        PoolHealth::Unavailable,
        PoolHealth::Removed,
        PoolHealth::Unknown,
    ];

    for health in healths {
        let s = health.as_str();
        assert!(!s.is_empty());
    }

    let device = DeviceInfo {
        device_path: "/dev/sdb".to_string(),
        stable_id: "usb-123".to_string(),
        model: "Test".to_string(),
        vendor_id: Some("Vendor".to_string()),
        product_id: Some("Product".to_string()),
        serial: Some("SN123".to_string()),
        usb_speed: UsbSpeed::SuperSpeed,
        capacity_bytes: Some(1_000_000_000_000),
        is_removable: true,
        detected_fs: Some("zfs_member".to_string()),
    };
    assert_eq!(device.clone(), device);

    let pool = PoolInfo {
        name: "tank".to_string(),
        guid: "guid123".to_string(),
        health: PoolHealth::Online,
        size_bytes: 1_000_000,
        allocated_bytes: 500_000,
        free_bytes: 500_000,
        encrypted: true,
        mounted: true,
        mountpoint: Some("/mnt".to_string()),
        datasets: vec![],
        features: vec![],
        version: "2.3".to_string(),
    };
    assert_eq!(pool.clone(), pool);
}

#[test]
fn speed_descriptions_and_throughput() {
    assert_eq!(UsbSpeed::HighSpeed.description(), "USB 2.0 High-Speed (480 Mbps)");
    assert_eq!(UsbSpeed::Usb4_40G.max_throughput_mbps(), 3500);
    assert_eq!(UsbSpeed::SuperSpeed10.max_throughput_mbps(), 900);
    assert_eq!(UsbSpeed::Unknown.max_throughput_mbps(), 0);
    assert_eq!(PoolHealth::Unavailable.as_str(), "UNAVAIL");
}

#[test]
fn test_config_full() {
    let config = Config {
        daemon: DaemonConfig {
            socket_path: "/tmp/test.sock".to_string(),
            auto_detect: true,
            auto_mount: false,
            confirm_unknown_pools: true,
            scan_interval_sec: 30,
        },
        encryption: EncryptionConfig {
            default_algorithm: "aes-256-gcm".to_string(),
            default_keyformat: "passphrase".to_string(),
            default_keylocation: "prompt".to_string(),
            min_passphrase_length: 12,
        },
        performance: PerformanceConfig {
            arc_max_mb: 8192,
            recordsize_kb: 256,
            disable_atime: true,
            compression: "lz4".to_string(),
        },
        pools: vec![PoolConfig {
            name: "tank".to_string(),
            device_uuid: Some("usb-123".to_string()),
            auto_import: true,
            auto_mount: false,
            key_source: KeySource::Prompt,
            key_file: None,
            key_url: None,
        }],
        logging: LoggingConfig {
            level: "debug".to_string(),
            format: LogFormat::Json,
            file: Some("/tmp/zfswatch.log".to_string()),
        },
    };
    assert_eq!(config.clone(), config);
}

#[test]
fn config_defaults_per_platform() {
    let c = Config::default_for(Platform::Linux);
    assert_eq!(c.daemon.socket_path, "/run/zfswatch/zfswatch.sock");
    assert!(c.daemon.auto_detect);
    assert!(!c.daemon.auto_mount);
    assert!(c.daemon.confirm_unknown_pools);
    assert_eq!(c.daemon.scan_interval_sec, 0);
    assert_eq!(c.encryption.default_algorithm, "aes-256-gcm");
    assert_eq!(c.encryption.min_passphrase_length, 12);
    assert_eq!(c.performance.recordsize_kb, 128);
    assert_eq!(c.performance.compression, "zstd");
    assert_eq!(c.logging.level, "info");
    assert_eq!(c.logging.format, LogFormat::Pretty);
    assert!(c.pools.is_empty());
    assert_eq!(default_socket_path(Platform::Other), "/tmp/zfswatch.sock");
    assert_eq!(Config::default_path(Platform::MacOs), "/usr/local/etc/zfswatch/zfswatch.toml");
    assert_eq!(Config::default_path(Platform::Linux), "/etc/zfswatch/zfswatch.toml");
}

#[test]
fn config_resolution_order() {
    let explicit = "/home/me/z.toml".to_string();
    assert_eq!(
        Config::resolve(Some(&explicit), Platform::Linux, true),
        ConfigSource::File(explicit.clone())
    );
    assert_eq!(
        Config::resolve(None, Platform::Linux, true),
        ConfigSource::File("/etc/zfswatch/zfswatch.toml".to_string())
    );
    assert_eq!(Config::resolve(None, Platform::Linux, false), ConfigSource::Defaults);
}

#[test]
fn pool_creation_defaults() {
    let o = PoolCreationOptions::default();
    assert!(o.encryption);
    assert_eq!(o.algorithm, "aes-256-gcm");
    assert_eq!(o.compression, "zstd");
    assert_eq!(o.recordsize_kb, 128);
    assert!(o.disable_atime);
    assert!(o.cross_platform_safe);
}

#[test]
fn error_texts() {
    assert_eq!(Error::Zfs("boom".into()).message(), "ZFS error: boom");
    assert_eq!(Error::NotFound("tank".into()).message(), "Not found: tank");
    assert_eq!(Error::CrossPlatform("x".into()).message(), "Cross-platform compatibility: x");
    assert_eq!(Error::Config("c".into()).message(), "Configuration error: c");
    assert_eq!(Error::Protocol("p".into()).message(), "Protocol error: p");
    assert_eq!(Error::Platform("q".into()).message(), "Platform error: q");
    assert_eq!(Error::KeyVault("k".into()).message(), "Key vault error: k");
    assert_eq!(Error::PermissionDenied("r".into()).message(), "Permission denied: r");
    assert_eq!(Error::InvalidArgument("a".into()).message(), "Invalid argument: a");
    let io = std::io::Error::new(std::io::ErrorKind::Other, "disk gone");
    assert_eq!(Error::from(io).message(), "IO error: disk gone");
}

#[test]
fn secure_zero_clears_bytes() {
    let mut bytes = *b"secret";
    secure_zero(&mut bytes);
    assert_eq!(bytes, [0u8; 6]);
    let mut s = String::from("hunter2");
    secure_zero_string(&mut s);
    assert!(s.is_empty());
}

#[test]
fn keyring_description_names_the_pool() {
    assert_eq!(LinuxKeyring::key_description("tank"), "zfswatch:tank");
    let _vault = MemoryKeyVault::new();
    let _ring = LinuxKeyring::default();
}

#[test]
fn keyring_failures_and_payloads() {
    assert_eq!(
        keyring_failure(KeyringFailure::Store, "Permission denied (os error 13)").message(),
        "Key vault error: Failed to store key in keyring: Permission denied (os error 13)"
    );
    assert_eq!(
        keyring_failure(KeyringFailure::Revoke, "x").message(),
        "Key vault error: Failed to revoke key: x"
    );
    assert_eq!(keyring_payload(vec![1, 2, 3, 4], 2), vec![1, 2]);
    assert_eq!(keyring_payload(vec![1, 2], 9), vec![1, 2]);
}

#[test]
fn command_failures_and_input() {
    assert_eq!(
        run_failure(RunStage::Spawn, "zpool", "No such file").message(),
        "ZFS error: Failed to spawn zpool: No such file"
    );
    assert_eq!(run_failure(RunStage::Run, "zfs", "x").message(), "ZFS error: Failed to run zfs: x");
    assert_eq!(run_failure(RunStage::Wait, "zfs", "x").message(), "ZFS error: Command failed: x");
    assert_eq!(run_failure(RunStage::WriteInput, "zfs", "x").message(), "ZFS error: Failed to write stdin: x");
    assert_eq!(stdin_line("secret"), "secret\n");
}

#[test]
fn faster_classes_promise_more_throughput() {
    let ordered = [
        UsbSpeed::Unknown,
        UsbSpeed::LowSpeed,
        UsbSpeed::FullSpeed,
        UsbSpeed::HighSpeed,
        UsbSpeed::SuperSpeed,
        UsbSpeed::SuperSpeed10,
        UsbSpeed::SuperSpeed20,
        UsbSpeed::Usb4_40G,
        UsbSpeed::Usb4_80G,
    ];
    for w in ordered.windows(2) {
        assert!(w[0].max_throughput_mbps() <= w[1].max_throughput_mbps());
    }
}

#[test]
fn health_labels_read_back() {
    let all = [
        PoolHealth::Online,
        PoolHealth::Degraded,
        PoolHealth::Faulted,
        PoolHealth::Offline,
        PoolHealth::Unavailable,
        PoolHealth::Removed,
        PoolHealth::Unknown,
    ];
    for h in all {
        assert_eq!(zfswatch::size::parse_health(h.as_str()), h);
    }
}
