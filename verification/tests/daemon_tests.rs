use zfswatch::command::{CommandRunner, MockCommandRunner};
use zfswatch::config::{Config, Platform};
use zfswatch::daemon::{
    config_loaded, created_message_text, daemon_socket_path, devices_scanned, missing_zfs_lines,
    mounted_message_text, process_request, refused_request_reply, DaemonState, Step,
};
use zfswatch::error::Error;
use zfswatch::protocol::{DaemonRequest, DaemonResponse, PoolCreationOptions};

fn state() -> DaemonState {
    DaemonState { config: Config::default_for(Platform::Linux), imported_pools: Vec::new() }
}

fn reply(step: Step) -> DaemonResponse {
    match step {
        Step::Reply(r) => r,
        Step::ScanDevices => panic!("unexpected scan"),
        Step::LoadConfig => panic!("unexpected reload"),
    }
}

fn success(message: &str) -> DaemonResponse {
    DaemonResponse::Success { message: message.to_string() }
}

#[test]
fn ping_is_answered_with_pong() {
    let r = reply(process_request(DaemonRequest::Ping, &state(), MockCommandRunner::new(), "0.1.0").0);
    assert_eq!(r, DaemonResponse::Pong);
}

#[test]
fn status_reports_version_and_auto_detect() {
    let r = reply(process_request(DaemonRequest::Status, &state(), MockCommandRunner::new(), "0.1.0").0);
    assert_eq!(
        r,
        DaemonResponse::Status {
            version: "0.1.0".to_string(),
            uptime_sec: 0,
            pools_imported: Vec::new(),
            devices_connected: Vec::new(),
            auto_detect_enabled: true,
        }
    );
}

#[test]
fn import_success_and_failure() {
    let mut runner = MockCommandRunner::new();
    runner.add_response("zpool", &["import", "tank"], "", "", true);
    let req = DaemonRequest::ImportPool { pool_name: "tank".to_string(), device_path: None };
    let r = reply(process_request(req, &state(), runner, "0.1.0").0);
    assert_eq!(r, success("Pool 'tank' imported successfully"));

    let mut runner = MockCommandRunner::new();
    runner.add_response("zpool", &["import", "tank"], "", "no such pool", false);
    let req = DaemonRequest::ImportPool { pool_name: "tank".to_string(), device_path: None };
    let r = reply(process_request(req, &state(), runner, "0.1.0").0);
    assert_eq!(
        r,
        DaemonResponse::Error {
            code: "IMPORT_ERROR".to_string(),
            message: "ZFS error: zpool import failed: no such pool".to_string(),
        }
    );
}

#[test]
fn export_and_unmount_messages() {
    let req = DaemonRequest::ExportPool { pool_name: "tank".to_string(), force: true };
    let r = reply(process_request(req, &state(), MockCommandRunner::new(), "0.1.0").0);
    assert_eq!(r, success("Pool 'tank' exported successfully"));
    let req = DaemonRequest::Unmount { dataset: "tank/data".to_string(), unload_key: false };
    let r = reply(process_request(req, &state(), MockCommandRunner::new(), "0.1.0").0);
    assert_eq!(r, success("Dataset 'tank/data' unmounted"));
}

#[test]
fn mount_reports_the_quoted_mountpoint() {
    let mut runner = MockCommandRunner::new();
    runner.add_response("zfs", &["get", "-H", "-o", "value", "mountpoint", "tank"], "/Volumes/tank\n", "", true);
    let req = DaemonRequest::Mount { dataset: "tank".to_string(), passphrase: None };
    let r = reply(process_request(req, &state(), runner, "0.1.0").0);
    assert_eq!(r, success("Dataset 'tank' mounted at \"/Volumes/tank\""));
}

#[test]
fn mount_with_wrong_passphrase_is_a_mount_error() {
    let mut runner = MockCommandRunner::new();
    runner.add_response("zfs", &["load-key", "tank"], "", "bad passphrase", false);
    let req = DaemonRequest::Mount { dataset: "tank".to_string(), passphrase: Some("x".to_string()) };
    let r = reply(process_request(req, &state(), runner, "0.1.0").0);
    assert_eq!(
        r,
        DaemonResponse::Error {
            code: "MOUNT_ERROR".to_string(),
            message: "ZFS error: Key load failed: bad passphrase".to_string(),
        }
    );
}

#[test]
fn init_pool_message_quotes_the_device() {
    let req = DaemonRequest::InitPool {
        pool_name: "usb".to_string(),
        device_path: "/dev/sdb".to_string(),
        passphrase: "correct horse".to_string(),
        options: PoolCreationOptions::default(),
    };
    let r = reply(process_request(req, &state(), MockCommandRunner::new(), "0.1.0").0);
    assert_eq!(r, success("Pool 'usb' created on \"/dev/sdb\" with encryption"));
}

#[test]
fn change_key_failure_code() {
    let mut runner = MockCommandRunner::new();
    runner.add_response("zfs", &["load-key", "tank"], "", "wrong", false);
    let req = DaemonRequest::ChangeKey {
        dataset: "tank".to_string(),
        old_passphrase: "a".to_string(),
        new_passphrase: "b".to_string(),
    };
    match reply(process_request(req, &state(), runner, "0.1.0").0) {
        DaemonResponse::Error { code, .. } => assert_eq!(code, "CHANGE_KEY_ERROR"),
        other => panic!("unexpected {other:?}"),
    }
}

#[test]
fn list_pools_error_code() {
    let mut runner = MockCommandRunner::new();
    runner.add_response("zpool", &["list", "-H", "-o", "name,size,allocated,free,health,guid"], "", "no pools", false);
    match reply(process_request(DaemonRequest::ListPools, &state(), runner, "0.1.0").0) {
        DaemonResponse::Error { code, message } => {
            assert_eq!(code, "POOL_LIST_ERROR");
            assert_eq!(message, "ZFS error: zpool list failed: no pools");
        }
        other => panic!("unexpected {other:?}"),
    }
}

#[test]
fn devices_and_reload_are_handed_to_the_event_loop() {
    assert!(matches!(
        process_request(DaemonRequest::ListDevices, &state(), MockCommandRunner::new(), "0.1.0").0,
        Step::ScanDevices
    ));
    assert!(matches!(
        process_request(DaemonRequest::ReloadConfig, &state(), MockCommandRunner::new(), "0.1.0").0,
        Step::LoadConfig
    ));
    assert_eq!(
        reply(process_request(DaemonRequest::SubscribeEvents, &state(), MockCommandRunner::new(), "0.1.0").0),
        DaemonResponse::EventStream
    );
}

#[test]
fn scan_outcomes() {
    assert_eq!(devices_scanned(Ok(Vec::new())), DaemonResponse::DeviceList(Vec::new()));
    assert_eq!(
        devices_scanned(Err("udev unavailable".to_string())),
        DaemonResponse::Error { code: "DEVICE_SCAN_ERROR".to_string(), message: "udev unavailable".to_string() }
    );
}

#[test]
fn reload_outcomes() {
    let mut s = state();
    let mut fresh = Config::default_for(Platform::Linux);
    fresh.daemon.auto_detect = false;
    assert_eq!(config_loaded(&mut s, Ok(fresh)), success("Configuration reloaded"));
    assert!(!s.config.daemon.auto_detect);
    let r = config_loaded(&mut s, Err(Error::Config("bad toml".to_string())));
    assert_eq!(
        r,
        DaemonResponse::Error { code: "CONFIG_ERROR".to_string(), message: "Configuration error: bad toml".to_string() }
    );
    assert!(!s.config.daemon.auto_detect);
}

#[test]
fn refused_request_is_invalid_request() {
    assert_eq!(
        refused_request_reply("expected value at line 1 column 1".to_string()),
        DaemonResponse::Error {
            code: "INVALID_REQUEST".to_string(),
            message: "expected value at line 1 column 1".to_string(),
        }
    );
}

#[test]
fn success_messages_from_shown_paths() {
    assert_eq!(mounted_message_text("tank", "\"/mnt\""), "Dataset 'tank' mounted at \"/mnt\"");
    assert_eq!(created_message_text("usb", "\"/dev/sdb\""), "Pool 'usb' created on \"/dev/sdb\" with encryption");
    assert_eq!(daemon_socket_path(None, Platform::Linux), "/etc/zfswatch/zfswatch.sock");
    assert_eq!(daemon_socket_path(Some("/tmp/z.sock".into()), Platform::Linux), "/tmp/z.sock");
    assert_eq!(missing_zfs_lines(Platform::Linux).len(), 6);
    assert_eq!(missing_zfs_lines(Platform::Other).len(), 2);
}

/// A runner that cannot start any command.
struct BrokenRunner;

impl CommandRunner for BrokenRunner {
    fn run(&mut self, _cmd: &str, _args: &[&str], _stdin_input: Option<&str>) -> zfswatch::error::Result<(String, String, bool)> {
        Err(Error::Platform("cannot spawn".to_string()))
    }
}

#[test]
fn a_failing_runner_is_reported_with_its_own_text() {
    let req = DaemonRequest::ImportPool { pool_name: "tank".to_string(), device_path: None };
    let r = reply(process_request(req, &state(), BrokenRunner, "0.1.0").0);
    assert_eq!(
        r,
        DaemonResponse::Error {
            code: "IMPORT_ERROR".to_string(),
            message: "Platform error: cannot spawn".to_string(),
        }
    );
    let req = DaemonRequest::Mount { dataset: "tank".to_string(), passphrase: Some("pw".to_string()) };
    let r = reply(process_request(req, &state(), BrokenRunner, "0.1.0").0);
    assert_eq!(
        r,
        DaemonResponse::Error {
            code: "MOUNT_ERROR".to_string(),
            message: "Platform error: cannot spawn".to_string(),
        }
    );
    match reply(process_request(DaemonRequest::ListPools, &state(), BrokenRunner, "0.1.0").0) {
        DaemonResponse::Error { code, message } => {
            assert_eq!(code, "POOL_LIST_ERROR");
            assert_eq!(message, "Platform error: cannot spawn");
        },
        other => panic!("unexpected {other:?}"),
    }
}
