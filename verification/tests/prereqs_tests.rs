use zfswatch::config::{LogFormat, Platform};
use zfswatch::prereqs::{
    first_line_trimmed, kext_listed, module_listed, platform_install_hint, CheckStatus, DiagnosticReport, DiskProbe, PrerequisiteCheck,
    PrerequisiteChecker, SystemObservations, SystemPrerequisiteChecker, ToolProbe,
};

fn check(name: &str, description: &str, status: CheckStatus, fix_hint: Option<&str>) -> PrerequisiteCheck {
    PrerequisiteCheck {
        name: name.into(),
        description: description.into(),
        status,
        fix_hint: fix_hint.map(|h| h.to_string()),
    }
}

fn linux_observations(disk: Option<(String, DiskProbe)>) -> SystemObservations {
    SystemObservations {
        platform: Platform::Linux,
        platform_label: "linux x86_64".to_string(),
        euid: 1000,
        zpool: ToolProbe::Missing("No such file or directory (os error 2)".to_string()),
        kernel_module_loaded: false,
        version_output: None,
        disk,
    }
}

#[test]
fn test_log_format_variants() {
    // Verify all variants exist and are distinct
    let formats = vec![LogFormat::Pretty, LogFormat::Json, LogFormat::Compact];
    assert_eq!(formats.len(), 3);
}

#[test]
fn test_diagnostic_report_new() {
    let report = DiagnosticReport::new("linux x86_64".to_string());
    assert!(report.checks.is_empty());
    assert!(report.overall_ok);
}

#[test]
fn test_diagnostic_report_add_ok() {
    let mut report = DiagnosticReport::new("linux x86_64".to_string());
    report.add(check("Test", "Test check", CheckStatus::Passed, None));
    assert!(report.overall_ok);
    assert_eq!(report.checks.len(), 1);
}

#[test]
fn test_diagnostic_report_add_error() {
    let mut report = DiagnosticReport::new("linux x86_64".to_string());
    report.add(check("Test", "Test check", CheckStatus::Passed, None));
    report.add(check("Test2", "Test check 2", CheckStatus::Error("fail".into()), Some("fix it")));
    assert!(!report.overall_ok);
    assert_eq!(report.issues().len(), 1);
}

#[test]
fn test_diagnostic_report_add_warning_only() {
    let mut report = DiagnosticReport::new("linux x86_64".to_string());
    report.add(check("Test", "Test check", CheckStatus::Warning("careful".into()), Some("be careful")));
    assert!(report.overall_ok); // warnings don't block
    assert_eq!(report.issues().len(), 1);
}

#[test]
fn test_platform_install_hint() {
    let hint = platform_install_hint(Platform::Linux);
    assert!(!hint.is_empty());
    assert!(hint.contains("apt") || hint.contains("zfsutils"));
    let mac = platform_install_hint(Platform::MacOs);
    assert!(mac.contains("brew"));
}

#[test]
fn test_diagnostic_report_print_does_not_panic() {
    let mut report = DiagnosticReport::new("linux x86_64".to_string());
    report.add(check("All Good", "Everything is fine", CheckStatus::Passed, None));
    report.add(check("Warn", "Something to watch", CheckStatus::Warning("low disk".into()), Some("clean up")));
    report.add(check("Fail", "Something broken", CheckStatus::Error("missing".into()), Some("install it")));
    let lines = report.render();
    assert_eq!(lines[0], "zfswatch System Diagnostic Report");
    assert_eq!(lines[2], "Platform: linux x86_64");
    assert_eq!(lines[lines.len() - 2], "Summary: 1 passed, 1 warnings, 1 errors");
    assert_eq!(lines[lines.len() - 1], "Status: BLOCKED \u{2014} fix errors above before using zfswatch");
}

#[test]
fn test_diagnostic_report_empty_print() {
    let report = DiagnosticReport::new("linux x86_64".to_string());
    let lines = report.render();
    assert_eq!(lines.len(), 6);
    assert!(report.overall_ok);
    assert!(report.issues().is_empty());
}

#[test]
fn test_system_checker_privileges() {
    let checker = SystemPrerequisiteChecker::new();
    let check = checker.check_privileges(1000).unwrap();
    assert_eq!(check.name, "Root Privileges");
}

#[test]
fn test_system_checker_disk_exists() {
    let checker = SystemPrerequisiteChecker::new();
    let check = checker.check_disk("/tmp", &DiskProbe::NotSpecial).unwrap();
    assert_eq!(check.name, "Disk /tmp");
    // /tmp exists but is not a block device -> Warning on unix
    assert!(
        matches!(check.status, CheckStatus::Warning(_)),
        "Expected Warning for /tmp (not block device), got {:?}",
        check.status
    );
}

#[test]
fn test_system_checker_disk_missing() {
    let checker = SystemPrerequisiteChecker::new();
    let check = checker
        .check_disk(
            "/dev/nonexistent_disk_12345",
            &DiskProbe::Inaccessible("No such file or directory (os error 2)".to_string()),
        )
        .unwrap();
    assert!(matches!(check.status, CheckStatus::Error(_)));
}

#[test]
fn test_system_checker_zfs_tools() {
    let checker = SystemPrerequisiteChecker::new();
    let check = checker
        .check_zfs_tools(Platform::Linux, &ToolProbe::Missing("No such file or directory (os error 2)".to_string()))
        .unwrap();
    assert_eq!(check.name, "ZFS Tools");
    // In this test environment zpool is not installed
    assert!(
        matches!(check.status, CheckStatus::Error(_)),
        "Expected Error (zpool not installed), got {:?}",
        check.status
    );
    assert!(check.fix_hint.is_some());
}

#[test]
fn test_system_checker_kernel_module() {
    let checker = SystemPrerequisiteChecker::new();
    let check = checker.check_kernel_module(Platform::Linux, false).unwrap();
    // Name is platform-specific
    assert!(
        check.name.contains("Kernel") || check.name.contains("Module") || check.name.contains("Extension")
    );
    // In this test environment ZFS kext/module is not loaded
    assert!(
        matches!(check.status, CheckStatus::Error(_)),
        "Expected Error (module not loaded), got {:?}",
        check.status
    );
    assert!(check.fix_hint.is_some());
}

#[test]
fn test_system_checker_zfs_version() {
    let checker = SystemPrerequisiteChecker::new();
    let check = checker.check_zfs_version(Platform::Linux, &None).unwrap();
    assert_eq!(check.name, "ZFS Version");
    // zpool is not installed in test env
    assert!(
        matches!(check.status, CheckStatus::Error(_)),
        "Expected Error (version unknown), got {:?}",
        check.status
    );
}

#[test]
fn test_system_checker_check_all() {
    let checker = SystemPrerequisiteChecker::new();
    let obs = linux_observations(Some((
        "/dev/disk5".to_string(),
        DiskProbe::Inaccessible("No such file or directory (os error 2)".to_string()),
    )));
    let report = checker.check_all(&obs).unwrap();
    // Should contain checks for disk, privileges, tools, module, version
    assert!(!report.checks.is_empty());
    let names: Vec<&str> = report.checks.iter().map(|c| c.name.as_str()).collect();
    assert!(names.iter().any(|n| n.contains("Disk")));
    assert!(names.iter().any(|n| n.contains("Privileges")));
    assert!(names.iter().any(|n| n.contains("ZFS Tools")));
}

#[test]
fn test_diagnostic_report_print_all_ok() {
    let mut report = DiagnosticReport::new("linux x86_64".to_string());
    report.add(check("A", "desc", CheckStatus::Passed, None));
    report.add(check("B", "desc", CheckStatus::Passed, None));
    let lines = report.render();
    assert_eq!(lines[lines.len() - 1], "Status: Ready to use zfswatch!");
    assert!(report.overall_ok);
}

#[test]
fn test_diagnostic_report_print_warnings_only() {
    let mut report = DiagnosticReport::new("linux x86_64".to_string());
    report.add(check("A", "desc", CheckStatus::Passed, None));
    report.add(check("B", "desc", CheckStatus::Warning("warn".into()), Some("fix")));
    let lines = report.render();
    // A warning leaves the report usable: overall_ok stays set.
    assert_eq!(lines[lines.len() - 1], "Status: Ready to use zfswatch!");
    assert_eq!(lines[lines.len() - 2], "Summary: 1 passed, 1 warnings, 0 errors");
    assert!(report.overall_ok); // warnings don't block overall_ok
}

#[test]
fn test_system_checker_with_fake_zpool() {
    let checker = SystemPrerequisiteChecker::new();
    let tools = checker.check_zfs_tools(Platform::Linux, &ToolProbe::Succeeded).unwrap();
    assert!(matches!(tools.status, CheckStatus::Passed), "Expected Ok for fake zpool, got {:?}", tools.status);

    let version = checker.check_zfs_version(Platform::Linux, &Some("zfs-2.3.1".to_string())).unwrap();
    assert!(matches!(version.status, CheckStatus::Passed), "Expected Ok for version 2.3.1, got {:?}", version.status);
}

#[test]
fn report_counts_by_status() {
    let mut report = DiagnosticReport::new("darwin aarch64".to_string());
    report.add(check("A", "d", CheckStatus::Passed, None));
    report.add(check("B", "d", CheckStatus::Warning("w".into()), None));
    report.add(check("C", "d", CheckStatus::Error("e".into()), None));
    report.add(check("D", "d", CheckStatus::Error("e".into()), None));
    assert_eq!(report.counts(), (1, 1, 2));
    assert_eq!(report.issues().len(), 3);
    assert!(!report.overall_ok);
}

#[test]
fn privileges_warning_names_the_uid() {
    let checker = SystemPrerequisiteChecker::new();
    let c = checker.check_privileges(501).unwrap();
    assert_eq!(c.status, CheckStatus::Warning("Running as UID 501 \u{2014} ZFS operations require root".to_string()));
    let root = checker.check_privileges(0).unwrap();
    assert_eq!(root.status, CheckStatus::Passed);
    assert_eq!(root.fix_hint, None);
}

#[test]
fn old_zfs_version_warns() {
    let checker = SystemPrerequisiteChecker::new();
    let c = checker.check_zfs_version(Platform::MacOs, &Some("zfs-2.1.5".to_string())).unwrap();
    assert_eq!(
        c.status,
        CheckStatus::Warning("ZFS version zfs-2.1.5 \u{2014} verify cross-platform compatibility".to_string())
    );
}

#[test]
fn check_all_without_disk_has_four_checks() {
    let checker = SystemPrerequisiteChecker::new();
    let report = checker.check_all(&linux_observations(None)).unwrap();
    assert_eq!(report.checks.len(), 4);
    assert_eq!(report.platform, "linux x86_64");
    assert!(!report.overall_ok);
    assert_eq!(report.checks[2].name, "ZFS Kernel Module");
}

#[test]
fn loaded_module_and_extension_listings() {
    assert!(kext_listed("Index Refs Address\n  191    0 0xffffff7f 0x1 org.openzfsonosx.ZFS (2.2.2)\n"));
    assert!(!kext_listed("Index Refs Address\n  12 com.apple.iokit\n"));
    assert!(module_listed("Module Size Used\nzfs 6000000 3\nspl 100000 1 zfs\n"));
    assert!(!module_listed("Module Size Used\nzfs_foo 1 0\n spl 1 0\n"));
    assert_eq!(first_line_trimmed("  zfs-2.3.1 \nzfs-kmod-2.3.1\n"), Some("zfs-2.3.1".to_string()));
    assert_eq!(first_line_trimmed(""), None);
}
