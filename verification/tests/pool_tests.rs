use std::sync::{Arc, Mutex};

use zfswatch::command::{CommandRunner, MockCommandRunner};
use zfswatch::error::Result;
use zfswatch::pool::PoolManager;
use zfswatch::protocol::PoolCreationOptions;
use zfswatch::size::{parse_health, parse_zfs_size};
use zfswatch::types::PoolHealth;

/// A scripted runner whose clones share one set of replies and one call log,
/// so a test can hand a clone to a manager and read the calls through the
/// other.
#[derive(Clone)]
struct SharedMock(Arc<Mutex<MockCommandRunner>>);

impl SharedMock {
    fn new() -> Self {
        SharedMock(Arc::new(Mutex::new(MockCommandRunner::new())))
    }

    fn add_response(&self, cmd: &str, args: &[&str], stdout: &str, stderr: &str, success: bool) {
        self.0.lock().unwrap().add_response(cmd, args, stdout, stderr, success);
    }

    fn get_calls(&self) -> Vec<(String, Vec<String>, Option<String>)> {
        self.0.lock().unwrap().get_calls()
    }
}

impl CommandRunner for SharedMock {
    fn run(&mut self, cmd: &str, args: &[&str], stdin_input: Option<&str>) -> Result<(String, String, bool)> {
        self.0.lock().unwrap().run(cmd, args, stdin_input)
    }
}

#[test]
fn test_parse_zfs_size() {
    // 1.5T = 1.5 * 1024^4 = 1,649,267,441,664
    assert_eq!(parse_zfs_size("1.5T"), 1_649_267_441_664);
    assert_eq!(parse_zfs_size("500G"), 536_870_912_000);
    assert_eq!(parse_zfs_size("128K"), 131_072);
    assert_eq!(parse_zfs_size("8M"), 8_388_608);
    assert_eq!(parse_zfs_size("-"), 0);
    assert_eq!(parse_zfs_size(""), 0);
    assert_eq!(parse_zfs_size("0"), 0);
}

#[test]
fn test_parse_health() {
    assert!(matches!(parse_health("ONLINE"), PoolHealth::Online));
    assert!(matches!(parse_health("DEGRADED"), PoolHealth::Degraded));
    assert!(matches!(parse_health("FAULTED"), PoolHealth::Faulted));
    assert!(matches!(parse_health("OFFLINE"), PoolHealth::Offline));
    assert!(matches!(parse_health("UNAVAIL"), PoolHealth::Unavailable));
    assert!(matches!(parse_health("REMOVED"), PoolHealth::Removed));
    assert!(matches!(parse_health("UNKNOWN"), PoolHealth::Unknown));
    assert!(matches!(parse_health("online"), PoolHealth::Online));
}

const LIST_ARGS: [&str; 4] = ["list", "-H", "-o", "name,size,allocated,free,health,guid"];

#[test]
fn test_check_zfs_installed() {
    let mut runner = MockCommandRunner::new();
    runner.add_response("zpool", &["--version"], "zfs-2.3.1", "", true);
    let mut mgr = PoolManager::new(runner);
    assert!(mgr.check_zfs_installed().unwrap());
}

#[test]
fn test_check_zfs_not_installed() {
    let mut runner = MockCommandRunner::new();
    runner.add_response("zpool", &["--version"], "", "command not found", false);
    let mut mgr = PoolManager::new(runner);
    assert!(!mgr.check_zfs_installed().unwrap());
}

#[test]
fn test_zfs_version() {
    let mut runner = MockCommandRunner::new();
    runner.add_response("zpool", &["--version"], "zfs-2.3.1", "", true);
    let mut mgr = PoolManager::new(runner);
    assert_eq!(mgr.zfs_version().unwrap(), "zfs-2.3.1");
}

#[test]
fn test_list_pools() {
    let mut runner = MockCommandRunner::new();
    let stdout = "tank\t1.5T\t500G\t1T\tONLINE\t12345\n";
    runner.add_response("zpool", &LIST_ARGS, stdout, "", true);
    runner.add_response("zfs", &["get", "-H", "-o", "value", "encryption", "tank"], "off\n", "", true);
    runner.add_response(
        "zfs",
        &["get", "-H", "-o", "value", "mounted,mountpoint", "tank"],
        "yes\n/Volumes/tank\n",
        "",
        true,
    );
    runner.add_response(
        "zfs",
        &["list", "-H", "-r", "-o", "name,mountpoint,mounted,encryption,compression,recordsize,quota", "tank"],
        "",
        "",
        true,
    );

    let mut mgr = PoolManager::new(runner);
    let pools = mgr.list_pools().unwrap();
    assert_eq!(pools.len(), 1);
    assert_eq!(pools[0].name, "tank");
    assert_eq!(pools[0].health, PoolHealth::Online);
    assert_eq!(pools[0].mounted, true);
}

#[test]
fn test_import_pool() {
    let runner = SharedMock::new();
    runner.add_response("zpool", &["import", "tank"], "", "", true);
    let mut mgr = PoolManager::new(runner.clone());
    mgr.import_pool("tank", None).unwrap();

    let calls = runner.get_calls();
    assert_eq!(calls.len(), 1);
    assert_eq!(calls[0].0, "zpool");
    assert_eq!(calls[0].1, vec!["import", "tank"]);
}

#[test]
fn test_import_pool_with_device() {
    let mut runner = MockCommandRunner::new();
    runner.add_response("zpool", &["import", "-d", "/dev/sdb", "tank"], "", "", true);
    let mut mgr = PoolManager::new(runner);
    mgr.import_pool("tank", Some(&String::from("/dev/sdb"))).unwrap();
}

#[test]
fn test_export_pool() {
    let mut runner = MockCommandRunner::new();
    runner.add_response("zpool", &["export", "tank"], "", "", true);
    let mut mgr = PoolManager::new(runner);
    mgr.export_pool("tank", false).unwrap();
}

#[test]
fn test_export_pool_force() {
    let mut runner = MockCommandRunner::new();
    runner.add_response("zpool", &["export", "-f", "tank"], "", "", true);
    let mut mgr = PoolManager::new(runner);
    mgr.export_pool("tank", true).unwrap();
}

#[test]
fn test_create_pool() {
    let mut runner = MockCommandRunner::new();
    runner.add_response("zpool", &["create", "-f", "-O", "atime=off", "-O", "compression=zstd", "-O", "recordsize=128K", "-O", "encryption=on", "-O", "encryption=aes-256-gcm", "-O", "keyformat=passphrase", "-O", "keylocation=prompt", "-o", "feature@allocation_classes=enabled", "-o", "feature@async_destroy=enabled", "-o", "feature@bookmarks=enabled", "-o", "feature@encryption=enabled", "-o", "feature@extensible_dataset=enabled", "-o", "feature@large_blocks=enabled", "-o", "feature@lz4_compress=enabled", "-o", "feature@spacemap_v2=enabled", "-o", "feature@zstd_compress=enabled", "-o", "feature@block_cloning_endian=disabled", "-o", "feature@fast_dedup=disabled", "-o", "feature@raidz_expansion=disabled", "-o", "feature@longname=disabled", "testpool", "/dev/sdb"], "", "", true);

    let mut mgr = PoolManager::new(runner);
    let options = PoolCreationOptions::default();
    mgr.create_pool("testpool", &String::from("/dev/sdb"), "mypass", &options).unwrap();
}

#[test]
fn test_find_importable_pools() {
    let mut runner = MockCommandRunner::new();
    runner.add_response("zpool", &["import", "-N"], "pool: tank\n     id: 123\n", "", true);
    let mut mgr = PoolManager::new(runner);
    let pools = mgr.find_importable_pools(None).unwrap();
    assert_eq!(pools, vec!["tank"]);
}

#[test]
fn test_create_pool_no_cross_platform() {
    let runner = SharedMock::new();
    runner.add_response("zpool", &["create", "-f", "-O", "atime=off", "-O", "compression=zstd", "-O", "recordsize=128K", "-O", "encryption=on", "-O", "encryption=aes-256-gcm", "-O", "keyformat=passphrase", "-O", "keylocation=prompt", "testpool2", "/dev/sdc"], "", "", true);

    let mut mgr = PoolManager::new(runner.clone());
    let mut options = PoolCreationOptions::default();
    options.cross_platform_safe = false;
    mgr.create_pool("testpool2", &String::from("/dev/sdc"), "mypass", &options).unwrap();

    let calls = runner.get_calls();
    assert_eq!(calls.len(), 1);
    assert_eq!(
        calls[0].1,
        vec!["create", "-f", "-O", "atime=off", "-O", "compression=zstd", "-O", "recordsize=128K", "-O", "encryption=on", "-O", "encryption=aes-256-gcm", "-O", "keyformat=passphrase", "-O", "keylocation=prompt", "testpool2", "/dev/sdc"]
    );
    assert_eq!(calls[0].2, Some("mypass".to_string()));
}

#[test]
fn test_list_imported_pools_empty() {
    let mut runner = MockCommandRunner::new();
    runner.add_response("zpool", &LIST_ARGS, "", "", true);
    let mut mgr = PoolManager::new(runner);
    let pools = mgr.list_pools().unwrap();
    assert!(pools.is_empty());
}

#[test]
fn test_list_imported_pools_malformed_line() {
    let mut runner = MockCommandRunner::new();
    runner.add_response("zpool", &LIST_ARGS, "short_line\n", "", true);
    let mut mgr = PoolManager::new(runner);
    let pools = mgr.list_pools().unwrap();
    assert!(pools.is_empty());
}

#[test]
fn test_create_pool_no_encryption() {
    let mut runner = MockCommandRunner::new();
    runner.add_response("zpool", &["create", "-f", "-O", "atime=off", "-O", "compression=zstd", "-O", "recordsize=128K", "-o", "feature@allocation_classes=enabled", "-o", "feature@async_destroy=enabled", "-o", "feature@bookmarks=enabled", "-o", "feature@encryption=enabled", "-o", "feature@extensible_dataset=enabled", "-o", "feature@large_blocks=enabled", "-o", "feature@lz4_compress=enabled", "-o", "feature@spacemap_v2=enabled", "-o", "feature@zstd_compress=enabled", "-o", "feature@block_cloning_endian=disabled", "-o", "feature@fast_dedup=disabled", "-o", "feature@raidz_expansion=disabled", "-o", "feature@longname=disabled", "plainpool", "/dev/sdd"], "", "", true);

    let mut mgr = PoolManager::new(runner);
    let mut options = PoolCreationOptions::default();
    options.encryption = false;
    mgr.create_pool("plainpool", &String::from("/dev/sdd"), "", &options).unwrap();
}

#[test]
fn listing_queries_each_pool_three_times() {
    let mut runner = MockCommandRunner::new();
    runner.add_response("zpool", &LIST_ARGS, "a\t1K\t0\t1K\tONLINE\t1\nb\t2K\t0\t2K\tDEGRADED\t2\n", "", true);
    let mut mgr = PoolManager::new(runner);
    let pools = mgr.list_pools().unwrap();
    assert_eq!(pools.len(), 2);
    assert_eq!(pools[1].health, PoolHealth::Degraded);
    assert_eq!(pools[1].size_bytes, 2048);
    let calls = mgr.runner_ref().get_calls();
    assert_eq!(calls.len(), 7);
    assert_eq!(calls[4].1, vec!["get", "-H", "-o", "value", "encryption", "b"]);
}

#[test]
fn failed_listing_is_a_zfs_error() {
    let mut runner = MockCommandRunner::new();
    runner.add_response("zpool", &LIST_ARGS, "", "no pools available", false);
    let mut mgr = PoolManager::new(runner);
    let err = mgr.list_pools().unwrap_err();
    assert_eq!(err.message(), "ZFS error: zpool list failed: no pools available");
    assert_eq!(mgr.into_runner().get_calls().len(), 1);
}

#[test]
fn whole_sizes_scale_by_their_unit() {
    assert_eq!(parse_zfs_size("3P"), 3 * 1024u64.pow(5));
    assert_eq!(parse_zfs_size("7k"), 7 * 1024);
    assert_eq!(parse_zfs_size("123"), 123);
    assert_eq!(parse_zfs_size(" 2T "), 2 * 1024u64.pow(4));
    // Beyond u64::MAX the value is capped.
    assert_eq!(parse_zfs_size("99999999P"), u64::MAX);
    assert_eq!(parse_zfs_size("0.5K"), 512);
    assert_eq!(parse_zfs_size("abc"), 0);
}

#[test]
fn sizes_with_fractions_of_a_unit() {
    assert_eq!(parse_zfs_size("4.5K"), 4608);
    assert_eq!(parse_zfs_size("2.25M"), 2_359_296);
    assert_eq!(parse_zfs_size("1.5t"), 1_649_267_441_664);
    assert_eq!(parse_zfs_size("1.2.3G"), 0);
    assert_eq!(parse_zfs_size(".5K"), 512);
}

#[test]
fn health_ignores_case_and_surrounding_blanks() {
    assert_eq!(parse_health("  degraded "), parse_health("DEGRADED"));
    assert_eq!(parse_health("\tOnLine\n"), parse_health("ONLINE"));
}
