use zfswatch::config::{default_socket_path, Platform};
use zfswatch::device::{
    device_from_udev, event_from_udev, UdevAction, devices_from_diskutil, has_required_privileges, parse_device_info_from_string,
    parse_usb_speed, poll_step, removed_stable_id, UdevDevice, UsbEvent,
};
use zfswatch::types::UsbSpeed;

#[test]
fn test_parse_device_info_external() {
    let info = "Device Identifier: disk5\nExternal: Yes\nRemovable Media: Fixed\nEjectable: Yes\nDevice / Media Name: WD_BLACK\nProtocol: PCI-Express\nDisk Size: 8.0 TB\n";
    let dev = parse_device_info_from_string("disk5", info).unwrap();
    assert_eq!(dev.device_path, "/dev/disk5");
    assert_eq!(dev.model, "WD_BLACK");
    assert_eq!(dev.usb_speed, UsbSpeed::Usb4_40G);
    assert!(dev.is_removable);
}

#[test]
fn test_parse_device_info_not_external() {
    let info = "Device Identifier: disk0\nExternal: No\n";
    assert!(parse_device_info_from_string("disk0", info).is_none());
}

#[test]
fn test_parse_device_info_usb_speed() {
    let tb_info = "External: Yes\nProtocol: PCI-Express\n";
    let dev = parse_device_info_from_string("disk5", tb_info).unwrap();
    assert_eq!(dev.usb_speed, UsbSpeed::Usb4_40G);

    let usb_info = "External: Yes\nProtocol: USB\n";
    let dev2 = parse_device_info_from_string("disk6", usb_info).unwrap();
    assert_eq!(dev2.usb_speed, UsbSpeed::SuperSpeed10);
}

#[test]
fn test_parse_device_info_capacity() {
    let info = "External: Yes\nDisk Size: 4.0 TB (4000787030016 Bytes)\n";
    let dev = parse_device_info_from_string("disk4", info).unwrap();
    assert_eq!(dev.capacity_bytes, Some(4000787030016));
}

#[test]
fn test_macos_backend_default_socket() {
    assert_eq!(default_socket_path(Platform::MacOs), "/var/run/zfswatch.sock");
}

#[test]
fn test_macos_backend_privileges() {
    // The test runner is an ordinary user.
    assert_eq!(has_required_privileges(501), false);
}

#[test]
fn test_parse_device_info_removable_media() {
    let info = "External: No\nRemovable Media: Yes\nDevice / Media Name: SD Card\n";
    let dev = parse_device_info_from_string("disk2", info).unwrap();
    assert_eq!(dev.model, "SD Card");
    assert!(dev.is_removable);
}

#[test]
fn test_parse_device_info_unknown_speed() {
    let info = "External: Yes\nEjectable: Yes\nProtocol: SATA\n";
    let dev = parse_device_info_from_string("disk3", info).unwrap();
    assert_eq!(dev.usb_speed, UsbSpeed::Unknown);
}

#[test]
fn test_parse_device_info_no_size() {
    let info = "External: Yes\nEjectable: Yes\nDevice / Media Name: NoSize\n";
    let dev = parse_device_info_from_string("disk7", info).unwrap();
    assert_eq!(dev.capacity_bytes, None);
    assert_eq!(dev.model, "NoSize");
}

#[test]
fn test_parse_device_info_usb_protocol() {
    let info = "External: Yes\nEjectable: Yes\nProtocol: USB\nDevice / Media Name: USBDrive\n";
    let dev = parse_device_info_from_string("disk8", info).unwrap();
    assert_eq!(dev.usb_speed, UsbSpeed::SuperSpeed10);
    assert_eq!(dev.model, "USBDrive");
}

#[test]
fn test_parse_device_info_default_model() {
    let info = "External: Yes\nEjectable: Yes\n";
    let dev = parse_device_info_from_string("disk9", info).unwrap();
    assert_eq!(dev.model, "disk9");
}

#[test]
fn external_flag_with_two_spaces() {
    let dev = parse_device_info_from_string("disk3", "External:  Yes\n").unwrap();
    assert!(!dev.is_removable);
    assert_eq!(dev.stable_id, "disk3");
}

fn usb_disk(devname: &str) -> UdevDevice {
    UdevDevice {
        devnode: format!("/dev/{devname}"),
        devname: devname.to_string(),
        model: Some("Ultra".to_string()),
        model_enc: None,
        vendor: Some("SanDisk".to_string()),
        serial_short: Some("4C530001".to_string()),
        wwn: None,
        bus: Some("usb".to_string()),
        removable: Some("0\n".to_string()),
        size: Some("1000".to_string()),
        fs_type: Some("zfs_member".to_string()),
        usb_speed: Some(UsbSpeed::SuperSpeed),
    }
}

#[test]
fn udev_usb_whole_disk_is_a_device() {
    let dev = device_from_udev(&usb_disk("sdb")).unwrap();
    assert_eq!(dev.device_path, "/dev/sdb");
    assert_eq!(dev.stable_id, "4C530001");
    assert_eq!(dev.model, "Ultra");
    assert_eq!(dev.vendor_id, Some("SanDisk".to_string()));
    assert_eq!(dev.serial, Some("4C530001".to_string()));
    assert_eq!(dev.capacity_bytes, Some(512_000));
    assert!(!dev.is_removable);
    assert_eq!(dev.usb_speed, UsbSpeed::SuperSpeed);
    assert_eq!(dev.detected_fs, Some("zfs_member".to_string()));
}

#[test]
fn udev_partition_is_not_a_device() {
    assert!(device_from_udev(&usb_disk("sdb1")).is_none());
    assert!(device_from_udev(&usb_disk("loop0")).is_none());
}

#[test]
fn udev_fixed_internal_disk_is_not_a_device() {
    let mut d = usb_disk("sda");
    d.bus = Some("ata".to_string());
    d.removable = Some("0".to_string());
    assert!(device_from_udev(&d).is_none());
}

#[test]
fn udev_identifier_falls_back_to_wwn_then_name() {
    let mut d = usb_disk("nvme0n1");
    d.serial_short = None;
    d.wwn = Some("0x5000".to_string());
    d.model = None;
    d.bus = None;
    d.removable = Some("1".to_string());
    let dev = device_from_udev(&d).unwrap();
    assert_eq!(dev.stable_id, "0x5000");
    assert_eq!(dev.model, "nvme0n1");
    assert!(dev.is_removable);
    d.wwn = None;
    assert_eq!(device_from_udev(&d).unwrap().stable_id, "nvme0n1");
    assert_eq!(removed_stable_id(&"sdc".to_string(), &None), "sdc");
    assert_eq!(removed_stable_id(&"sdc".to_string(), &Some("X1".to_string())), "X1");
}

#[test]
fn usb_speed_classes() {
    assert_eq!(parse_usb_speed(480), UsbSpeed::HighSpeed);
    assert_eq!(parse_usb_speed(5000), UsbSpeed::SuperSpeed);
    assert_eq!(parse_usb_speed(120000), UsbSpeed::Usb4_80G);
    assert_eq!(parse_usb_speed(100), UsbSpeed::Unknown);
}

const LISTING: &str = "/dev/disk4\n   #: TYPE NAME SIZE\n  /dev/disk5\n/dev/disk6 \n";

#[test]
fn diskutil_listing_gives_external_disks() {
    let devs = devices_from_diskutil(LISTING);
    assert_eq!(devs.len(), 2);
    assert_eq!(devs[0].stable_id, "disk4");
    assert_eq!(devs[1].device_path, "/dev/disk6");
    assert_eq!(devs[1].model, "disk6");
    // The whole trimmed line after "/dev/" names the disk.
    let named = devices_from_diskutil("/dev/disk2 (external, physical):\n");
    assert_eq!(named[0].stable_id, "disk2 (external, physical):");
}

#[test]
fn poll_reports_insertions_then_removals() {
    let known = vec!["disk4".to_string(), "disk9".to_string()];
    let (now, events) = poll_step(&known, LISTING);
    assert_eq!(now, vec!["disk4".to_string(), "disk6".to_string()]);
    assert_eq!(events.len(), 2);
    match &events[0] {
        UsbEvent::DeviceInserted(d) => assert_eq!(d.stable_id, "disk6"),
        other => panic!("unexpected event {other:?}"),
    }
    assert_eq!(events[1], UsbEvent::DeviceRemoved { stable_id: "disk9".to_string() });
    let (again, quiet) = poll_step(&now, LISTING);
    assert_eq!(again, now);
    assert!(quiet.is_empty());
}

#[test]
fn udev_events() {
    let d = usb_disk("sdb");
    match event_from_udev(UdevAction::Add, &d) {
        Some(UsbEvent::DeviceInserted(info)) => assert_eq!(info.stable_id, "4C530001"),
        other => panic!("unexpected {other:?}"),
    }
    assert_eq!(
        event_from_udev(UdevAction::Remove, &usb_disk("sdb1")),
        Some(UsbEvent::DeviceRemoved { stable_id: "4C530001".to_string() })
    );
    assert_eq!(event_from_udev(UdevAction::Add, &usb_disk("sdb1")), None);
    assert_eq!(event_from_udev(UdevAction::Other, &d), None);
}
