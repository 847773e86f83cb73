use std::sync::{Arc, Mutex};

use zfswatch::command::{CommandRunner, MockCommandRunner};
use zfswatch::error::Result;
use zfswatch::dataset::DatasetManager;
use zfswatch::encryption::{EncryptionManager, KeyStatus};

/// A scripted runner whose clones share one set of replies and one call log,
/// so a test can hand a clone to a manager and read the calls through the
/// other.
#[derive(Clone)]
struct SharedMock(Arc<Mutex<MockCommandRunner>>);

impl SharedMock {
    fn new() -> Self {
        SharedMock(Arc::new(Mutex::new(MockCommandRunner::new())))
    }

    fn add_response(&self, cmd: &str, args: &[&str], stdout: &str, stderr: &str, success: bool) {
        self.0.lock().unwrap().add_response(cmd, args, stdout, stderr, success);
    }

    fn clear(&self) {
        self.0.lock().unwrap().clear();
    }

    fn get_calls(&self) -> Vec<(String, Vec<String>, Option<String>)> {
        self.0.lock().unwrap().get_calls()
    }
}

impl CommandRunner for SharedMock {
    fn run(&mut self, cmd: &str, args: &[&str], stdin_input: Option<&str>) -> Result<(String, String, bool)> {
        self.0.lock().unwrap().run(cmd, args, stdin_input)
    }
}

#[test]
fn test_mock_runner_basic() {
    let mut runner = MockCommandRunner::new();
    runner.add_response("echo", &["hello"], "hello output", "", true);

    let (stdout, stderr, success) = runner.run("echo", &["hello"], None).unwrap();
    assert_eq!(stdout, "hello output");
    assert_eq!(stderr, "");
    assert!(success);
}

#[test]
fn test_mock_runner_default_response() {
    let mut runner = MockCommandRunner::new();
    // No response registered, should return empty success
    let (stdout, stderr, success) = runner.run("unknown", &["cmd"], None).unwrap();
    assert_eq!(stdout, "");
    assert_eq!(stderr, "");
    assert!(success);
}

#[test]
fn test_mock_runner_call_log() {
    let mut runner = MockCommandRunner::new();
    runner.add_response("test", &["a", "b"], "out", "err", false);

    let _ = runner.run("test", &["a", "b"], Some("stdin"));
    let calls = runner.get_calls();
    assert_eq!(calls.len(), 1);
    assert_eq!(calls[0].0, "test");
    assert_eq!(calls[0].1, vec!["a", "b"]);
    assert_eq!(calls[0].2, Some("stdin".to_string()));
}

#[test]
fn test_mock_runner_error_response() {
    let mut runner = MockCommandRunner::new();
    runner.add_response("zpool", &["create"], "", "invalid vdev", false);

    let (_stdout, stderr, success) = runner.run("zpool", &["create"], None).unwrap();
    assert!(!success);
    assert_eq!(stderr, "invalid vdev");
}

#[test]
fn mock_runner_later_reply_replaces_earlier() {
    let mut runner = MockCommandRunner::new();
    runner.add_response("zpool", &["status"], "first", "", true);
    runner.add_response("zpool", &["status"], "second", "oops", false);
    let (stdout, stderr, success) = runner.run("zpool", &["status"], None).unwrap();
    assert_eq!(stdout, "second");
    assert_eq!(stderr, "oops");
    assert!(!success);
}

#[test]
fn mock_runner_clear_forgets_replies_and_calls() {
    let mut runner = MockCommandRunner::default();
    runner.add_response("zpool", &["status"], "out", "", false);
    let _ = runner.run("zpool", &["status"], None);
    runner.clear();
    assert!(runner.get_calls().is_empty());
    let (stdout, stderr, success) = runner.run("zpool", &["status"], None).unwrap();
    assert_eq!(stdout, "");
    assert_eq!(stderr, "");
    assert!(success);
}

#[test]
fn test_mount_success() {
    let mut runner = MockCommandRunner::new();
    runner.add_response("zfs", &["mount", "tank"], "", "", true);
    runner.add_response("zfs", &["get", "-H", "-o", "value", "mountpoint", "tank"], "/Volumes/tank\n", "", true);

    let mut mgr = DatasetManager::new(runner);
    let mp = mgr.mount("tank").unwrap();
    assert_eq!(mp, "/Volumes/tank");
}

#[test]
fn test_mount_encrypted_error() {
    let mut runner = MockCommandRunner::new();
    runner.add_response("zfs", &["mount", "tank"], "", "encryption key not loaded", false);

    let mut mgr = DatasetManager::new(runner);
    let err = mgr.mount("tank").unwrap_err().message();
    assert!(err.contains("encrypted"));
}

#[test]
fn test_mount_default_mountpoint() {
    let mut runner = MockCommandRunner::new();
    runner.add_response("zfs", &["mount", "tank/data"], "", "", true);
    runner.add_response("zfs", &["get", "-H", "-o", "value", "mountpoint", "tank/data"], "none\n", "", true);

    let mut mgr = DatasetManager::new(runner);
    let mp = mgr.mount("tank/data").unwrap();
    assert_eq!(mp, "/tank/data");
}

#[test]
fn test_mount_with_keyload() {
    let mut runner = MockCommandRunner::new();
    runner.add_response("zfs", &["mount", "-l", "tank"], "", "", true);
    runner.add_response("zfs", &["get", "-H", "-o", "value", "mountpoint", "tank"], "/mnt/tank\n", "", true);

    let mut mgr = DatasetManager::new(runner);
    let mp = mgr.mount_with_keyload("tank", "mypass").unwrap();
    assert_eq!(mp, "/mnt/tank");
}

#[test]
fn test_unmount() {
    let mut runner = MockCommandRunner::new();
    runner.add_response("zfs", &["unmount", "tank"], "", "", true);

    let mut mgr = DatasetManager::new(runner);
    mgr.unmount("tank", false).unwrap();
}

#[test]
fn test_unmount_with_key_unload() {
    let mut runner = MockCommandRunner::new();
    runner.add_response("zfs", &["unmount", "-u", "tank"], "", "", true);

    let mut mgr = DatasetManager::new(runner);
    mgr.unmount("tank", true).unwrap();
}

#[test]
fn test_load_key() {
    let mut runner = MockCommandRunner::new();
    runner.add_response("zfs", &["load-key", "tank"], "", "", true);

    let mut mgr = EncryptionManager::new(runner);
    mgr.load_key("tank", "mypass").unwrap();
}

#[test]
fn test_load_key_failure() {
    let mut runner = MockCommandRunner::new();
    runner.add_response("zfs", &["load-key", "tank"], "", "wrong passphrase", false);

    let mut mgr = EncryptionManager::new(runner);
    let err = mgr.load_key("tank", "badpass").unwrap_err().message();
    assert!(err.contains("wrong passphrase"));
}

#[test]
fn test_unload_key() {
    let mut runner = MockCommandRunner::new();
    runner.add_response("zfs", &["unload-key", "tank"], "", "", true);

    let mut mgr = EncryptionManager::new(runner);
    mgr.unload_key("tank").unwrap();
}

#[test]
fn test_change_key() {
    let mut runner = MockCommandRunner::new();
    runner.add_response("zfs", &["load-key", "tank"], "", "", true);
    runner.add_response("zfs", &["change-key", "-o", "keyformat=passphrase", "-o", "keylocation=prompt", "tank"], "", "", true);

    let mut mgr = EncryptionManager::new(runner);
    mgr.change_key("tank", "oldpass", "newpass").unwrap();
}

#[test]
fn test_key_status_available() {
    let mut runner = MockCommandRunner::new();
    runner.add_response("zfs", &["get", "-H", "-o", "value", "keystatus", "tank"], "available\n", "", true);

    let mut mgr = EncryptionManager::new(runner);
    assert!(matches!(mgr.key_status("tank").unwrap(), KeyStatus::Available));
}

#[test]
fn test_key_status_unavailable() {
    let mut runner = MockCommandRunner::new();
    runner.add_response("zfs", &["get", "-H", "-o", "value", "keystatus", "tank"], "unavailable\n", "", true);

    let mut mgr = EncryptionManager::new(runner);
    assert!(matches!(mgr.key_status("tank").unwrap(), KeyStatus::Unavailable));
}

#[test]
fn test_get_encryption_props() {
    let mut runner = MockCommandRunner::new();
    let stdout = "encryption\taes-256-gcm\nkeyformat\tpassphrase\nkeylocation\tprompt\nkeystatus\tavailable\npbkdf2iters\t350000\n";
    runner.add_response("zfs", &["get", "-H", "-o", "property,value", "encryption,keyformat,keylocation,keystatus,pbkdf2iters", "tank"], stdout, "", true);

    let mut mgr = EncryptionManager::new(runner);
    let props = mgr.get_encryption_props("tank").unwrap();
    assert_eq!(props.algorithm, Some("aes-256-gcm".to_string()));
    assert_eq!(props.keyformat, Some("passphrase".to_string()));
    assert_eq!(props.keylocation, Some("prompt".to_string()));
    assert!(matches!(props.keystatus, KeyStatus::Available));
    assert_eq!(props.pbkdf2_iterations, Some(350000));
}

#[test]
fn managers_issue_exactly_the_documented_commands() {
    let mut runner = MockCommandRunner::new();
    runner.add_response("zfs", &["mount", "tank"], "", "busy", false);
    let mut datasets = DatasetManager::new(runner);
    assert!(datasets.mount("tank").is_err());
    // A failed mount does not ask for the mountpoint.
    assert_eq!(datasets.runner_ref().get_calls().len(), 1);

    let mut keys = EncryptionManager::new(datasets.into_runner());
    keys.change_key("tank", "old", "new").unwrap();
    let calls = keys.runner_ref().get_calls();
    assert_eq!(calls.len(), 3);
    assert_eq!(calls[1].1, vec!["load-key", "tank"]);
    assert_eq!(calls[1].2, Some("old".to_string()));
    assert_eq!(calls[2].1, vec!["change-key", "-o", "keyformat=passphrase", "-o", "keylocation=prompt", "tank"]);
    assert_eq!(calls[2].2, Some("new".to_string()));
}

#[test]
fn failed_key_load_stops_a_key_change() {
    let mut runner = MockCommandRunner::new();
    runner.add_response("zfs", &["load-key", "tank"], "", "wrong passphrase", false);
    let mut keys = EncryptionManager::new(runner);
    let err = keys.change_key("tank", "old", "new").unwrap_err().message();
    assert_eq!(err, "ZFS error: Key load failed: wrong passphrase");
    let calls = keys.runner_ref().get_calls();
    assert_eq!(calls.len(), 1);
    assert_eq!(calls[0].1, vec!["load-key", "tank"]);
    assert_eq!(calls[0].2, Some("old".to_string()));
}

#[test]
fn calls_and_clearing_are_seen_through_every_clone() {
    let runner = SharedMock::new();
    runner.add_response("test", &["a", "b"], "out", "err", false);
    let mut other = runner.clone();
    let _ = other.run("test", &["a", "b"], Some("stdin"));
    let calls = runner.get_calls();
    assert_eq!(calls.len(), 1);
    assert_eq!(calls[0].0, "test");
    assert_eq!(calls[0].1, vec!["a", "b"]);
    assert_eq!(calls[0].2, Some("stdin".to_string()));

    runner.clear();
    assert!(other.get_calls().is_empty());
    let (stdout, stderr, success) = other.run("test", &["a", "b"], None).unwrap();
    assert_eq!((stdout.as_str(), stderr.as_str(), success), ("", "", true));
    assert_eq!(runner.get_calls().len(), 1);
}
