use zfswatch::cli::{
    asks_for_passphrase, byte_len_below, changed_passphrase_problem, client_socket_path,
    daemon_start_lines, device_table, init_request, new_passphrase_problem, optional_passphrase,
    outcome_line, padded_left, padded_right, pool_table, size_label, status_lines,
};
use zfswatch::config::Platform;
use zfswatch::protocol::{DaemonRequest, DaemonResponse};
use zfswatch::types::{DatasetInfo, DeviceInfo, PoolHealth, PoolInfo, UsbSpeed};

fn pool(name: &str, size: u64, used: u64, encrypted: bool) -> PoolInfo {
    PoolInfo {
        name: name.to_string(),
        guid: "1".to_string(),
        health: PoolHealth::Online,
        size_bytes: size,
        allocated_bytes: used,
        free_bytes: size - used,
        encrypted,
        mounted: false,
        mountpoint: None,
        datasets: vec![DatasetInfo {
            name: format!("{name}/data"),
            mountpoint: None,
            mounted: true,
            encrypted,
            compression: None,
            recordsize: None,
            quota: None,
        }],
        features: vec![],
        version: String::new(),
    }
}

#[test]
fn padding_matches_format_widths() {
    assert_eq!(padded_right("ab", 5), format!("{:<5}", "ab"));
    assert_eq!(padded_left("ab", 5), format!("{:>5}", "ab"));
    assert_eq!(padded_right("abcdef", 3), "abcdef");
    assert_eq!(padded_left("\u{e9}t\u{e9}", 5), format!("{:>5}", "\u{e9}t\u{e9}"));
}

#[test]
fn size_labels() {
    assert_eq!(size_label(None), "?");
    assert_eq!(size_label(Some(512)), "512B");
    assert_eq!(size_label(Some(1024 * 1024)), "1048576B");
    assert_eq!(size_label(Some(5 * 1024 * 1024)), "5M");
    assert_eq!(size_label(Some(3 * 1024 * 1024 * 1024 + 1)), "3G");
    assert_eq!(size_label(Some(4_000_787_030_016)), "3T");
}

#[test]
fn pool_table_matches_the_listing_format() {
    assert_eq!(pool_table(&vec![], false), vec!["No ZFS pools found.".to_string()]);
    let gib = 1024 * 1024 * 1024u64;
    let pools = vec![pool("tank", 100 * gib, 40 * gib, true)];
    let lines = pool_table(&pools, true);
    assert_eq!(
        lines[0],
        format!("{:<20} {:>10} {:>10} {:>12} {:>10}", "NAME", "SIZE", "USED", "HEALTH", "ENCRYPTED")
    );
    assert_eq!(
        lines[1],
        format!("{:<20} {:>8}G {:>8}G {:>12} {:>10}", "tank", 100, 40, "ONLINE", "yes")
    );
    assert_eq!(lines[2], format!("  {:<30} {:>10}", "tank/data", "mounted"));
    assert_eq!(pool_table(&pools, false).len(), 2);
}

#[test]
fn device_table_matches_the_listing_format() {
    assert_eq!(device_table(&vec![]), vec!["No USB storage devices detected.".to_string()]);
    let dev = DeviceInfo {
        device_path: "/dev/disk5".to_string(),
        stable_id: "disk5".to_string(),
        model: "A very long model name that goes on and on".to_string(),
        vendor_id: None,
        product_id: None,
        serial: None,
        usb_speed: UsbSpeed::Usb4_40G,
        capacity_bytes: Some(2 * 1024 * 1024 * 1024 * 1024 + 1),
        is_removable: true,
        detected_fs: None,
    };
    let lines = device_table(&vec![dev]);
    assert_eq!(lines[0], format!("{:<15} {:<30} {:<15} {:<20}", "DEVICE", "MODEL", "SIZE", "SPEED"));
    let model: String = "A very long model name that goes on and on".chars().take(28).collect();
    assert_eq!(
        lines[1],
        format!("{:<15} {:<30} {:<15} {:<20}", "/dev/disk5", model, "2T", "USB4 / Thunderbolt 3/4 (40 Gbps)")
    );
}

#[test]
fn status_and_start_lines() {
    let pools = vec![pool("tank", 1, 0, false)];
    let lines = status_lines(&"0.1.0".to_string(), 42, true, &pools);
    assert_eq!(
        lines,
        vec![
            "zfswatchd 0.1.0".to_string(),
            "Uptime: 42s".to_string(),
            "Auto-detect: true".to_string(),
            "Imported pools: 1".to_string(),
            "  tank (ONLINE)".to_string(),
        ]
    );
    assert_eq!(daemon_start_lines()[2], "On Linux: sudo systemctl start zfswatchd");
}

#[test]
fn outcome_lines() {
    let ok = DaemonResponse::Success { message: "done".to_string() };
    assert_eq!(outcome_line(&ok), Some((false, "\u{2713} done".to_string())));
    let err = DaemonResponse::Error { code: "IMPORT_ERROR".to_string(), message: "boom".to_string() };
    assert_eq!(outcome_line(&err), Some((true, "\u{2717} Error [IMPORT_ERROR]: boom".to_string())));
    assert_eq!(outcome_line(&DaemonResponse::Pong), None);
}

#[test]
fn socket_choice_order() {
    assert_eq!(client_socket_path(Some("/a".into()), Some("/b".into()), Platform::Linux), "/a");
    assert_eq!(client_socket_path(None, Some("/b".into()), Platform::Linux), "/b");
    assert_eq!(client_socket_path(None, None, Platform::Linux), "/run/zfswatch/zfswatch.sock");
}

#[test]
fn new_passphrase_rules() {
    assert_eq!(new_passphrase_problem("abc", "abd"), Some("Passphrases do not match".to_string()));
    assert_eq!(
        new_passphrase_problem("short", "short"),
        Some("Passphrase must be at least 8 characters".to_string())
    );
    // Bytes are counted: four two-byte characters make eight bytes.
    assert_eq!(new_passphrase_problem("\u{e9}\u{e9}\u{e9}\u{e9}", "\u{e9}\u{e9}\u{e9}\u{e9}"), None);
    assert_eq!(new_passphrase_problem("longenough", "longenough"), None);
    assert!(byte_len_below("1234567", 8));
    assert!(!byte_len_below("12345678", 8));
    assert_eq!(changed_passphrase_problem("a", "a"), None);
    assert_eq!(changed_passphrase_problem("a", "b"), Some("Passphrases do not match".to_string()));
}

#[test]
fn init_request_options() {
    match init_request("p".into(), "/dev/sdb".into(), String::new(), true, false) {
        DaemonRequest::InitPool { pool_name, device_path, passphrase, options } => {
            assert_eq!(pool_name, "p");
            assert_eq!(device_path, "/dev/sdb");
            assert!(passphrase.is_empty());
            assert!(!options.encryption);
            assert!(!options.cross_platform_safe);
            assert_eq!(options.recordsize_kb, 128);
        }
        other => panic!("unexpected {other:?}"),
    }
}

#[test]
fn import_errors_that_ask_for_a_passphrase() {
    assert!(asks_for_passphrase("ZFS error: zpool import failed: encryption key not loaded"));
    assert!(asks_for_passphrase("missing key"));
    assert!(!asks_for_passphrase("no such pool"));
    assert_eq!(optional_passphrase(String::new()), None);
    assert_eq!(optional_passphrase("x".to_string()), Some("x".to_string()));
}
