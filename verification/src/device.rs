//! USB storage devices: how the facts that udev (Linux) or `diskutil`
//! (macOS) report about a disk become a `DeviceInfo`, and how successive
//! scans become insertion and removal events.
use vstd::prelude::*;

use crate::command::opt_view;
use crate::text::{
    before_first, chars_of, concat2, contains, is_ascii_digit, lines, lines_of, parse_u64,
    parse_u64_spec, split_char, split_of, starts_with, str_before_first, str_contains, str_eq,
    str_starts_with, string_from, trim, trimmed, views,
};
use crate::types::{DeviceInfo, UsbSpeed};

verus! {

/// Events emitted by the platform USB monitor.
#[derive(Debug, Clone, PartialEq)]
pub enum UsbEvent {
    /// USB storage device connected
    DeviceInserted(DeviceInfo),
    /// USB storage device disconnected
    DeviceRemoved { stable_id: String },
}

/// The speed class of a link that reports `speed_mbps` megabits per second.
pub open spec fn usb_speed_of(speed_mbps: u64) -> UsbSpeed {
    if speed_mbps == 0 {
        UsbSpeed::Unknown
    } else if speed_mbps == 1 {
        UsbSpeed::LowSpeed
    } else if speed_mbps == 12 {
        UsbSpeed::FullSpeed
    } else if speed_mbps == 480 {
        UsbSpeed::HighSpeed
    } else if speed_mbps == 5000 {
        UsbSpeed::SuperSpeed
    } else if speed_mbps == 10000 {
        UsbSpeed::SuperSpeed10
    } else if speed_mbps == 20000 {
        UsbSpeed::SuperSpeed20
    } else if speed_mbps == 40000 {
        UsbSpeed::Usb4_40G
    } else if speed_mbps >= 80000 {
        UsbSpeed::Usb4_80G
    } else {
        UsbSpeed::Unknown
    }
}

/// The signalling rate, in Mbps, that a speed class is named for (0 for
/// `Unknown`).
pub open spec fn nominal_mbps(c: UsbSpeed) -> u64 {
    match c {
        UsbSpeed::Unknown => 0,
        UsbSpeed::LowSpeed => 1,
        UsbSpeed::FullSpeed => 12,
        UsbSpeed::HighSpeed => 480,
        UsbSpeed::SuperSpeed => 5000,
        UsbSpeed::SuperSpeed10 => 10000,
        UsbSpeed::SuperSpeed20 => 20000,
        UsbSpeed::Usb4_40G => 40000,
        UsbSpeed::Usb4_80G => 80000,
    }
}

/// Reading a link speed gives the class named for that rate: each known
/// class reads back from its own rate (10000 Mbps is USB 3.1 Gen 2, not
/// USB 3.0), and a rate reads as a known class only when it is that class's
/// rate, or at least 80000 Mbps for the fastest class.
pub proof fn law_speed_class_matches_its_rate(c: UsbSpeed, speed_mbps: u64)
    ensures
        c != UsbSpeed::Unknown ==> usb_speed_of(nominal_mbps(c)) == c,
        usb_speed_of(speed_mbps) != UsbSpeed::Unknown && usb_speed_of(speed_mbps)
            != UsbSpeed::Usb4_80G ==> speed_mbps == nominal_mbps(usb_speed_of(speed_mbps)),
        usb_speed_of(speed_mbps) == UsbSpeed::Usb4_80G ==> speed_mbps >= 80000,
        usb_speed_of(speed_mbps) == UsbSpeed::Unknown ==> (speed_mbps != 1 && speed_mbps != 12
            && speed_mbps != 480 && speed_mbps != 5000 && speed_mbps != 10000 && speed_mbps
            != 20000 && speed_mbps != 40000 && speed_mbps < 80000),
{
}

/// The speed class for the `speed` attribute of a USB device, in Mbps.
pub fn parse_usb_speed(speed_mbps: u64) -> (r: UsbSpeed)
    ensures
        r == usb_speed_of(speed_mbps),
{
    match speed_mbps {
        0 => UsbSpeed::Unknown,
        1 => UsbSpeed::LowSpeed,
        12 => UsbSpeed::FullSpeed,
        480 => UsbSpeed::HighSpeed,
        5000 => UsbSpeed::SuperSpeed,
        10000 => UsbSpeed::SuperSpeed10,
        20000 => UsbSpeed::SuperSpeed20,
        40000 => UsbSpeed::Usb4_40G,
        80000 => UsbSpeed::Usb4_80G,
        _ => {
            if speed_mbps > 80000 {
                UsbSpeed::Usb4_80G
            } else {
                UsbSpeed::Unknown
            }
        },
    }
}

/// Whether a process with effective user id `euid` may manage ZFS pools:
/// only root may.
pub fn has_required_privileges(euid: u32) -> (r: bool)
    ensures
        r == (euid == 0),
{
    euid == 0
}

/// The facts that udev reports about a block device.
#[derive(Debug, Clone, PartialEq, Eq)]
pub struct UdevDevice {
    /// The device node, e.g. /dev/sdb
    pub devnode: String,
    /// The last component of the device node, e.g. sdb
    pub devname: String,
    /// The ID_MODEL property
    pub model: Option<String>,
    /// The ID_MODEL_ENC property
    pub model_enc: Option<String>,
    /// The ID_VENDOR property
    pub vendor: Option<String>,
    /// The ID_SERIAL_SHORT property
    pub serial_short: Option<String>,
    /// The ID_WWN property
    pub wwn: Option<String>,
    /// The ID_BUS property
    pub bus: Option<String>,
    /// The `removable` sysfs attribute
    pub removable: Option<String>,
    /// The SIZE property, in 512-byte sectors
    pub size: Option<String>,
    /// The ID_FS_TYPE property
    pub fs_type: Option<String>,
    /// The speed of the nearest USB ancestor that reports one
    pub usb_speed: Option<UsbSpeed>,
}

pub open spec fn or_else(a: Option<Seq<char>>, b: Seq<char>) -> Seq<char> {
    match a {
        Some(x) => x,
        None => b,
    }
}

/// A whole disk of a kind that USB storage shows up as: `sd*` not ending in
/// a digit (a partition), `nvme*` or `vd*`.
pub open spec fn whole_disk_name(n: Seq<char>) -> bool {
    let disk_kind = starts_with(n, "sd"@) || starts_with(n, "nvme"@) || starts_with(n, "vd"@);
    let partition = n.len() > 0 && is_ascii_digit(n.last()) && starts_with(n, "sd"@);
    disk_kind && !partition
}

pub open spec fn udev_is_usb(d: UdevDevice) -> bool {
    opt_view(d.bus) == Some("usb"@)
}

pub open spec fn udev_is_removable(d: UdevDevice) -> bool {
    match d.removable {
        Some(r) => trim(r@) == "1"@,
        None => udev_is_usb(d),
    }
}

/// The capacity that the SIZE property reports, in bytes (the sector count
/// times 512, wrapping past `u64::MAX`).
pub open spec fn udev_capacity(d: UdevDevice) -> Option<u64> {
    match d.size {
        Some(s) => match parse_u64_spec(s@) {
            Some(n) => Some(((n as nat * 512) % 0x1_0000_0000_0000_0000) as u64),
            None => None,
        },
        None => None,
    }
}

/// Whether `info` describes the removable whole disk `d`.
pub open spec fn udev_info_matches(info: DeviceInfo, d: UdevDevice) -> bool {
    let serial = opt_view(d.serial_short);
    &&& info.device_path@ == d.devnode@
    &&& info.stable_id@ == or_else(serial, or_else(opt_view(d.wwn), d.devname@))
    &&& info.model@ == or_else(opt_view(d.model), or_else(opt_view(d.model_enc), d.devname@))
    &&& opt_view(info.vendor_id) == opt_view(d.vendor)
    &&& info.product_id is None
    &&& opt_view(info.serial) == serial
    &&& info.usb_speed == match d.usb_speed {
        Some(s) => s,
        None => UsbSpeed::Unknown,
    }
    &&& info.capacity_bytes == udev_capacity(d)
    &&& info.is_removable == udev_is_removable(d)
    &&& opt_view(info.detected_fs) == opt_view(d.fs_type)
}

fn first_or(a: &Option<String>, b: &String) -> (r: String)
    ensures
        r@ == or_else(opt_view(*a), b@),
{
    match a {
        Some(x) => x.clone(),
        None => b.clone(),
    }
}

fn clone_opt(o: &Option<String>) -> (r: Option<String>)
    ensures
        opt_view(r) == opt_view(*o),
{
    match o {
        Some(s) => Some(s.clone()),
        None => None,
    }
}

fn is_whole_disk(n: &str) -> (r: bool)
    ensures
        r == whole_disk_name(n@),
{
    let disk_kind = str_starts_with(n, "sd") || str_starts_with(n, "nvme") || str_starts_with(
        n,
        "vd",
    );
    let v = chars_of(n);
    let last = if v.len() > 0 {
        v[v.len() - 1]
    } else {
        '0'
    };
    let partition = '0' <= last && last <= '9' && str_starts_with(n, "sd");
    proof {
        if v@.len() == 0 {
            reveal_strlit("sd");
            assert(!starts_with(n@, "sd"@));
        }
    }
    disk_kind && !partition
}

/// The device a udev block device stands for, when it is a removable or USB
/// whole disk.
pub fn device_from_udev(d: &UdevDevice) -> (r: Option<DeviceInfo>)
    ensures
        match r {
            Some(info) => whole_disk_name(d.devname@) && (udev_is_usb(*d) || udev_is_removable(*d))
                && udev_info_matches(info, *d),
            None => !whole_disk_name(d.devname@) || (!udev_is_usb(*d) && !udev_is_removable(*d)),
        },
{
    if !is_whole_disk(d.devname.as_str()) {
        return None;
    }
    let model = match &d.model {
        Some(m) => m.clone(),
        None => first_or(&d.model_enc, &d.devname),
    };
    let serial = clone_opt(&d.serial_short);
    let stable_id = match &d.serial_short {
        Some(s) => s.clone(),
        None => first_or(&d.wwn, &d.devname),
    };
    let is_usb = match &d.bus {
        Some(b) => str_eq(b.as_str(), "usb"),
        None => false,
    };
    let is_removable = match &d.removable {
        Some(v) => {
            let t = trimmed(v.as_str());
            str_eq(t.as_str(), "1")
        },
        None => is_usb,
    };
    if !is_usb && !is_removable {
        return None;
    }
    let capacity_bytes = match &d.size {
        Some(s) => match parse_u64(s.as_str()) {
            Some(n) => Some(n.wrapping_mul(512)),
            None => None,
        },
        None => None,
    };
    let usb_speed = match d.usb_speed {
        Some(s) => s,
        None => UsbSpeed::Unknown,
    };
    Some(
        DeviceInfo {
            device_path: d.devnode.clone(),
            stable_id,
            model,
            vendor_id: clone_opt(&d.vendor),
            product_id: None,
            serial,
            usb_speed,
            capacity_bytes,
            is_removable,
            detected_fs: clone_opt(&d.fs_type),
        },
    )
}

/// The identifier a removal event names: the short serial, else the
/// device name.
pub fn removed_stable_id(devname: &String, serial_short: &Option<String>) -> (r: String)
    ensures
        r@ == or_else(opt_view(*serial_short), devname@),
{
    first_or(serial_short, devname)
}

/// The kinds of udev event the monitor acts on; it ignores the others.
#[derive(Debug, Clone, Copy, PartialEq, Eq, Structural)]
pub enum UdevAction {
    Add,
    Remove,
    Other,
}

/// What the Linux monitor reports for a udev event about the block device
/// `d`: an insertion when a removable or USB whole disk is added, a removal
/// (named by its short serial, else its device name) when a device goes,
/// nothing otherwise.
pub fn event_from_udev(action: UdevAction, d: &UdevDevice) -> (r: Option<UsbEvent>)
    ensures
        action == UdevAction::Add ==> match r {
            Some(UsbEvent::DeviceInserted(info)) => whole_disk_name(d.devname@) && (udev_is_usb(*d)
                || udev_is_removable(*d)) && udev_info_matches(info, *d),
            Some(_) => false,
            None => !whole_disk_name(d.devname@) || (!udev_is_usb(*d) && !udev_is_removable(*d)),
        },
        action == UdevAction::Remove ==> (r matches Some(UsbEvent::DeviceRemoved { stable_id })
            && stable_id@ == or_else(opt_view(d.serial_short), d.devname@)),
        action == UdevAction::Other ==> r is None,
{
    match action {
        UdevAction::Add => match device_from_udev(d) {
            Some(info) => Some(UsbEvent::DeviceInserted(info)),
            None => None,
        },
        UdevAction::Remove => Some(
            UsbEvent::DeviceRemoved { stable_id: removed_stable_id(&d.devname, &d.serial_short) },
        ),
        UdevAction::Other => None,
    }
}

/// `diskutil info` reports the flag `key` as set, with one or two spaces
/// after the colon.
pub open spec fn flag_yes(info: Seq<char>, one: Seq<char>, two: Seq<char>) -> bool {
    contains(info, one) || contains(info, two)
}

/// The first of the lines that contains `pat`.
pub open spec fn first_line_with(ls: Seq<Seq<char>>, pat: Seq<char>) -> Option<Seq<char>>
    decreases ls.len(),
{
    if ls.len() == 0 {
        None
    } else if contains(ls[0], pat) {
        Some(ls[0])
    } else {
        first_line_with(ls.drop_first(), pat)
    }
}

/// The model on a "Device / Media Name:" line: the text after its first
/// colon (up to a second one), trimmed.
pub open spec fn model_on_line(l: Seq<char>) -> Seq<char> {
    let p = split_char(l, ':');
    if p.len() > 1 {
        trim(p[1])
    } else {
        Seq::empty()
    }
}

/// The byte count on a "Disk Size:" line: the number after the first "("
/// and before "Bytes".
pub open spec fn capacity_on_line(l: Seq<char>) -> Option<u64> {
    let p = split_char(l, '(');
    if p.len() > 1 {
        parse_u64_spec(trim(before_first(p[1], "Bytes"@)))
    } else {
        None
    }
}

pub open spec fn macos_speed(info: Seq<char>) -> UsbSpeed {
    if contains(info, "PCI-Express"@) || contains(info, "Thunderbolt"@) {
        UsbSpeed::Usb4_40G
    } else if contains(info, "USB"@) {
        UsbSpeed::SuperSpeed10
    } else {
        UsbSpeed::Unknown
    }
}

pub open spec fn macos_external(info: Seq<char>) -> bool {
    flag_yes(info, "External: Yes"@, "External:  Yes"@)
}

pub open spec fn macos_removable(info: Seq<char>) -> bool {
    flag_yes(info, "Removable Media: Yes"@, "Removable Media:  Yes"@)
}

pub open spec fn macos_ejectable(info: Seq<char>) -> bool {
    flag_yes(info, "Ejectable: Yes"@, "Ejectable:  Yes"@)
}

/// Whether `d` is the device that the `diskutil info` text `info` describes
/// for the disk `name`.
pub open spec fn macos_info_matches(d: DeviceInfo, name: Seq<char>, info: Seq<char>) -> bool {
    &&& d.device_path@ == "/dev/"@ + name
    &&& d.stable_id@ == name
    &&& d.model@ == match first_line_with(lines(info), "Device / Media Name:"@) {
        Some(l) => model_on_line(l),
        None => name,
    }
    &&& d.vendor_id is None
    &&& d.product_id is None
    &&& d.serial is None
    &&& d.usb_speed == macos_speed(info)
    &&& d.capacity_bytes == match first_line_with(lines(info), "Disk Size:"@) {
        Some(l) => capacity_on_line(l),
        None => None,
    }
    &&& d.is_removable == (macos_removable(info) || macos_ejectable(info))
    &&& d.detected_fs is None
}

/// The first line of `ls[from..]` that contains `pat`.
fn find_line_with(ls: &Vec<String>, pat: &str) -> (r: Option<usize>)
    ensures
        match r {
            Some(i) => i < ls@.len() && first_line_with(views(ls@), pat@) == Some(ls@[i as int]@),
            None => first_line_with(views(ls@), pat@) is None,
        },
{
    let ghost lv = views(ls@);
    let mut i: usize = 0;
    assert(lv.subrange(0, lv.len() as int) == lv);
    while i < ls.len()
        invariant
            i <= ls@.len(),
            lv == views(ls@),
            first_line_with(lv, pat@) == first_line_with(lv.subrange(i as int, lv.len() as int), pat@),
        decreases ls@.len() - i,
    {
        let ghost rest = lv.subrange(i as int, lv.len() as int);
        assert(rest[0] == ls@[i as int]@);
        if str_contains(ls[i].as_str(), pat) {
            return Some(i);
        }
        assert(rest.drop_first() == lv.subrange(i + 1, lv.len() as int));
        i += 1;
    }
    None
}

fn model_from_line(l: &String) -> (r: String)
    ensures
        r@ == model_on_line(l@),
{
    let p = split_of(l.as_str(), ':');
    if p.len() > 1 {
        trimmed(p[1].as_str())
    } else {
        String::new()
    }
}

fn capacity_from_line(l: &String) -> (r: Option<u64>)
    ensures
        r == capacity_on_line(l@),
{
    let p = split_of(l.as_str(), '(');
    if p.len() > 1 {
        let before = str_before_first(p[1].as_str(), "Bytes");
        let t = trimmed(before.as_str());
        parse_u64(t.as_str())
    } else {
        None
    }
}

/// Parse device info from `diskutil info` output: `None` unless the disk
/// is external, removable or ejectable.
pub fn parse_device_info_from_string(disk_name: &str, info: &str) -> (r: Option<DeviceInfo>)
    ensures
        match r {
            Some(d) => (macos_external(info@) || macos_removable(info@) || macos_ejectable(info@))
                && macos_info_matches(d, disk_name@, info@),
            None => !macos_external(info@) && !macos_removable(info@) && !macos_ejectable(info@),
        },
{
    let is_external = str_contains(info, "External: Yes") || str_contains(info, "External:  Yes");
    let is_removable = str_contains(info, "Removable Media: Yes") || str_contains(
        info,
        "Removable Media:  Yes",
    );
    let is_ejectable = str_contains(info, "Ejectable: Yes") || str_contains(info, "Ejectable:  Yes");
    if !is_external && !is_removable && !is_ejectable {
        return None;
    }
    let ls = lines_of(info);
    let model = match find_line_with(&ls, "Device / Media Name:") {
        Some(i) => model_from_line(&ls[i]),
        None => crate::text::str_to_string(disk_name),
    };
    let capacity_bytes = match find_line_with(&ls, "Disk Size:") {
        Some(i) => capacity_from_line(&ls[i]),
        None => None,
    };
    let usb_speed = if str_contains(info, "PCI-Express") || str_contains(info, "Thunderbolt") {
        UsbSpeed::Usb4_40G
    } else if str_contains(info, "USB") {
        UsbSpeed::SuperSpeed10
    } else {
        UsbSpeed::Unknown
    };
    Some(
        DeviceInfo {
            device_path: concat2("/dev/", disk_name),
            stable_id: crate::text::str_to_string(disk_name),
            model,
            vendor_id: None,
            product_id: None,
            serial: None,
            usb_speed,
            capacity_bytes,
            is_removable: is_removable || is_ejectable,
            detected_fs: None,
        },
    )
}

/// The disk names on the lines of `diskutil list external physical` that
/// name a disk ("/dev/diskN ..."), in order.
pub open spec fn disk_names(ls: Seq<Seq<char>>) -> Seq<Seq<char>>
    decreases ls.len(),
{
    if ls.len() == 0 {
        Seq::empty()
    } else {
        let prev = disk_names(ls.drop_last());
        let l = ls.last();
        if starts_with(l, "/dev/disk"@) {
            let t = trim(l);
            prev.push(t.subrange(5, t.len() as int))
        } else {
            prev
        }
    }
}

proof fn lemma_trim_keeps_prefix(l: Seq<char>)
    requires
        starts_with(l, "/dev/disk"@),
    ensures
        starts_with(trim(l), "/dev/"@),
{
    reveal_strlit("/dev/disk");
    reveal_strlit("/dev/");
    let p = "/dev/disk"@;
    assert forall|j: int| 0 <= j < 9 implies !crate::text::is_whitespace(#[trigger] l[j]) by {
        assert(l[j] == l.subrange(0, 9)[j]);
        assert(l[j] == p[j]);
        assert(0x2f <= p[j] as u32 <= 0x76) by {
            if j == 0 {} else if j == 1 {} else if j == 2 {} else if j == 3 {} else if j == 4 {}
            else if j == 5 {} else if j == 6 {} else if j == 7 {} else {}
        }
    }
    assert(crate::text::trim_start(l) == l);
    lemma_trim_end_prefix(l, 9);
    let t = trim(l);
    assert forall|j: int| 0 <= j < 5 implies #[trigger] t.subrange(0, 5)[j] == "/dev/"@[j] by {
        assert(t[j] == l[j]);
        assert(l[j] == l.subrange(0, 9)[j]);
        if j == 0 {} else if j == 1 {} else if j == 2 {} else if j == 3 {} else {}
    }
    assert(t.subrange(0, 5) =~= "/dev/"@);
}

proof fn lemma_trim_end_prefix(l: Seq<char>, k: int)
    requires
        0 <= k <= l.len(),
        forall|j: int| 0 <= j < k ==> !crate::text::is_whitespace(#[trigger] l[j]),
    ensures
        crate::text::trim_end(l).len() >= k,
        forall|j: int| 0 <= j < k ==> #[trigger] crate::text::trim_end(l)[j] == l[j],
    decreases l.len(),
{
    if l.len() > 0 && crate::text::is_whitespace(l.last()) {
        assert(l.len() - 1 >= k);
        let d = l.drop_last();
        assert forall|j: int| 0 <= j < k implies !crate::text::is_whitespace(#[trigger] d[j]) by {
            assert(d[j] == l[j]);
        }
        lemma_trim_end_prefix(d, k);
    }
}

/// The names of the disks that `diskutil list external physical` lists.
pub fn disk_names_from_diskutil(stdout: &str) -> (r: Vec<String>)
    ensures
        views(r@) == disk_names(lines(stdout@)),
{
    let ls = lines_of(stdout);
    let ghost lv = lines(stdout@);
    let mut r: Vec<String> = Vec::new();
    let mut i: usize = 0;
    while i < ls.len()
        invariant
            i <= ls@.len(),
            views(ls@) == lv,
            lv == lines(stdout@),
            views(r@) == disk_names(lv.subrange(0, i as int)),
        decreases ls@.len() - i,
    {
        proof {
            assert(lv.subrange(0, i + 1).drop_last() == lv.subrange(0, i as int));
            assert(lv.subrange(0, i + 1).last() == ls@[i as int]@);
        }
        if str_starts_with(ls[i].as_str(), "/dev/disk") {
            proof {
                lemma_trim_keeps_prefix(ls@[i as int]@);
            }
            let t = trimmed(ls[i].as_str());
            let tv = chars_of(t.as_str());
            proof {
                reveal_strlit("/dev/");
            }
            let name = string_from(&tv, 5, tv.len());
            let ghost before = views(r@);
            r.push(name);
            assert(views(r@) =~= before.push(t@.subrange(5, t@.len() as int)));
        }
        i += 1;
    }
    assert(lv.subrange(0, ls@.len() as int) == lv);
    r
}

/// What a scan of `diskutil list external physical` finds: each listed disk,
/// described as an external disk.
pub fn devices_from_diskutil(stdout: &str) -> (r: Vec<DeviceInfo>)
    ensures
        r@.len() == disk_names(lines(stdout@)).len(),
        forall|k: int|
            0 <= k < r@.len() ==> macos_info_matches(
                #[trigger] r@[k],
                disk_names(lines(stdout@))[k],
                "External: Yes\n"@,
            ),
{
    let names = disk_names_from_diskutil(stdout);
    let mut r: Vec<DeviceInfo> = Vec::new();
    let mut k: usize = 0;
    while k < names.len()
        invariant
            k <= names@.len(),
            views(names@) == disk_names(lines(stdout@)),
            r@.len() == k,
            forall|j: int|
                0 <= j < k ==> macos_info_matches(
                    #[trigger] r@[j],
                    disk_names(lines(stdout@))[j],
                    "External: Yes\n"@,
                ),
        decreases names@.len() - k,
    {
        let d = external_device(names[k].as_str());
        assert(names@[k as int]@ == disk_names(lines(stdout@))[k as int]);
        r.push(d);
        k += 1;
    }
    r
}

/// The device for a disk that `diskutil` lists as external.
fn external_device(name: &str) -> (d: DeviceInfo)
    ensures
        macos_info_matches(d, name@, "External: Yes\n"@),
{
    let info = "External: Yes\n";
    proof {
        reveal_strlit("External: Yes\n");
        reveal_strlit("External: Yes");
        assert(info@.subrange(0, 13) =~= "External: Yes"@);
        assert(crate::text::occurs_at(info@, "External: Yes"@, 0));
    }
    match parse_device_info_from_string(name, info) {
        Some(d) => d,
        None => {
            assert(false);
            parse_device_info_from_string(name, info).unwrap()
        },
    }
}

/// `s` without repeated elements, each kept where it first appears.
pub open spec fn dedup(s: Seq<Seq<char>>) -> Seq<Seq<char>>
    decreases s.len(),
{
    if s.len() == 0 {
        Seq::empty()
    } else {
        let d = dedup(s.drop_last());
        if d.contains(s.last()) {
            d
        } else {
            d.push(s.last())
        }
    }
}

/// The names in `names` that are not in `known`, in order.
pub open spec fn new_names(names: Seq<Seq<char>>, known: Seq<Seq<char>>) -> Seq<Seq<char>>
    decreases names.len(),
{
    if names.len() == 0 {
        Seq::empty()
    } else {
        let prev = new_names(names.drop_last(), known);
        if known.contains(names.last()) {
            prev
        } else {
            prev.push(names.last())
        }
    }
}

/// An event as plain values: the name of the disk that came or went.
pub enum EventView {
    Inserted(Seq<char>),
    Removed(Seq<char>),
}

pub open spec fn event_view(e: UsbEvent) -> EventView {
    match e {
        UsbEvent::DeviceInserted(d) => EventView::Inserted(d.stable_id@),
        UsbEvent::DeviceRemoved { stable_id } => EventView::Removed(stable_id@),
    }
}

pub open spec fn event_views(es: Seq<UsbEvent>) -> Seq<EventView> {
    es.map_values(|e: UsbEvent| event_view(e))
}

pub open spec fn inserted_views(ns: Seq<Seq<char>>) -> Seq<EventView> {
    ns.map_values(|n: Seq<char>| EventView::Inserted(n))
}

pub open spec fn removed_views(ns: Seq<Seq<char>>) -> Seq<EventView> {
    ns.map_values(|n: Seq<char>| EventView::Removed(n))
}

/// The events of one poll: an insertion for each listed disk that was not
/// known (once per listing line), then a removal for each known disk that
/// is no longer listed.
pub open spec fn poll_events(known: Seq<Seq<char>>, names: Seq<Seq<char>>) -> Seq<EventView> {
    inserted_views(new_names(names, known)) + removed_views(new_names(known, names))
}

proof fn lemma_new_names_contains(a: Seq<Seq<char>>, b: Seq<Seq<char>>, x: Seq<char>)
    ensures
        new_names(a, b).contains(x) <==> (a.contains(x) && !b.contains(x)),
    decreases a.len(),
{
    if a.len() > 0 {
        let d = a.drop_last();
        lemma_new_names_contains(d, b, x);
        let p = new_names(d, b);
        if a.contains(x) && !b.contains(x) {
            let i = choose|i: int| 0 <= i < a.len() && a[i] == x;
            if i < d.len() {
                assert(d[i] == x);
                let k = choose|k: int| 0 <= k < p.len() && p[k] == x;
                assert(p.push(a.last())[k] == x);
            } else {
                assert(a.last() == x);
                assert(p.push(x)[p.len() as int] == x);
            }
        }
        if new_names(a, b).contains(x) {
            if !b.contains(a.last()) {
                let q = p.push(a.last());
                let j = choose|j: int| 0 <= j < q.len() && q[j] == x;
                if j < p.len() {
                    assert(p[j] == x);
                } else {
                    assert(a[a.len() - 1] == x);
                }
            }
            if p.contains(x) {
                let k = choose|k: int| 0 <= k < d.len() && d[k] == x;
                assert(a[k] == x);
            }
        }
    }
}

proof fn lemma_dedup_contains(s: Seq<Seq<char>>, x: Seq<char>)
    ensures
        dedup(s).contains(x) <==> s.contains(x),
    decreases s.len(),
{
    if s.len() > 0 {
        let d = s.drop_last();
        lemma_dedup_contains(d, x);
        let p = dedup(d);
        if s.contains(x) {
            let i = choose|i: int| 0 <= i < s.len() && s[i] == x;
            if i < d.len() {
                assert(d[i] == x);
                if !p.contains(s.last()) {
                    let k = choose|k: int| 0 <= k < p.len() && p[k] == x;
                    assert(p.push(s.last())[k] == x);
                }
            } else if !p.contains(s.last()) {
                assert(p.push(s.last())[p.len() as int] == x);
            }
        }
        if dedup(s).contains(x) {
            if !p.contains(s.last()) {
                let q = p.push(s.last());
                let j = choose|j: int| 0 <= j < q.len() && q[j] == x;
                if j == p.len() {
                    assert(s[s.len() - 1] == x);
                } else {
                    assert(p[j] == x);
                }
            }
            if d.contains(x) {
                let k = choose|k: int| 0 <= k < d.len() && d[k] == x;
                assert(s[k] == x);
            }
        }
    }
}

proof fn lemma_new_names_empty(a: Seq<Seq<char>>, b: Seq<Seq<char>>)
    requires
        forall|i: int| 0 <= i < a.len() ==> b.contains(#[trigger] a[i]),
    ensures
        new_names(a, b) == Seq::<Seq<char>>::empty(),
    decreases a.len(),
{
    if a.len() > 0 {
        let d = a.drop_last();
        assert forall|i: int| 0 <= i < d.len() implies b.contains(#[trigger] d[i]) by {
            assert(d[i] == a[i]);
        }
        lemma_new_names_empty(d, b);
        assert(b.contains(a[a.len() - 1]));
    }
}

/// Polling a listing that has not changed since the previous poll reports
/// nothing.
pub proof fn law_unchanged_listing_reports_nothing(names: Seq<Seq<char>>)
    ensures
        poll_events(dedup(names), names) == Seq::<EventView>::empty(),
{
    assert forall|i: int| 0 <= i < names.len() implies dedup(names).contains(#[trigger] names[i]) by {
        lemma_dedup_contains(names, names[i]);
        assert(names.contains(names[i]));
    }
    lemma_new_names_empty(names, dedup(names));
    assert forall|i: int| 0 <= i < dedup(names).len() implies names.contains(
        #[trigger] dedup(names)[i],
    ) by {
        lemma_dedup_contains(names, dedup(names)[i]);
        assert(dedup(names).contains(dedup(names)[i]));
    }
    lemma_new_names_empty(dedup(names), names);
    assert(poll_events(dedup(names), names) =~= Seq::<EventView>::empty());
}

/// A poll reports a disk as inserted exactly when it is listed and was not
/// known, and as removed exactly when it was known and is no longer listed.
pub proof fn law_poll_reports_exactly_the_changes(
    known: Seq<Seq<char>>,
    names: Seq<Seq<char>>,
    n: Seq<char>,
)
    ensures
        poll_events(known, names).contains(EventView::Inserted(n)) <==> (names.contains(n)
            && !known.contains(n)),
        poll_events(known, names).contains(EventView::Removed(n)) <==> (known.contains(n)
            && !names.contains(n)),
{
    let ins = new_names(names, known);
    let rem = new_names(known, names);
    let iv = inserted_views(ins);
    let rv = removed_views(rem);
    let ev = poll_events(known, names);
    lemma_new_names_contains(names, known, n);
    lemma_new_names_contains(known, names, n);
    assert(ev == iv + rv);
    if ins.contains(n) {
        let i = choose|i: int| 0 <= i < ins.len() && ins[i] == n;
        assert(ev[i] == EventView::Inserted(n));
    }
    if rem.contains(n) {
        let i = choose|i: int| 0 <= i < rem.len() && rem[i] == n;
        assert(ev[iv.len() + i] == EventView::Removed(n));
    }
    if ev.contains(EventView::Inserted(n)) {
        let k = choose|k: int| 0 <= k < ev.len() && ev[k] == EventView::Inserted(n);
        if k < iv.len() {
            assert(ins[k] == n);
        } else {
            assert(rv[k - iv.len()] == EventView::Inserted(n));
        }
    }
    if ev.contains(EventView::Removed(n)) {
        let k = choose|k: int| 0 <= k < ev.len() && ev[k] == EventView::Removed(n);
        if k < iv.len() {
            assert(iv[k] == EventView::Removed(n));
        } else {
            assert(rem[k - iv.len()] == n);
        }
    }
}

fn contains_string(v: &Vec<String>, s: &String) -> (r: bool)
    ensures
        r == views(v@).contains(s@),
{
    let mut i: usize = 0;
    while i < v.len()
        invariant
            i <= v@.len(),
            forall|j: int| 0 <= j < i ==> v@[j]@ != s@,
        decreases v@.len() - i,
    {
        if v[i] == *s {
            assert(views(v@)[i as int] == s@);
            return true;
        }
        i += 1;
    }
    assert(!views(v@).contains(s@)) by {
        if views(v@).contains(s@) {
            let j = choose|j: int| 0 <= j < views(v@).len() && views(v@)[j] == s@;
            assert(v@[j]@ == s@);
        }
    }
    false
}

/// The names of `a` that `b` does not hold, in order.
fn names_not_in(a: &Vec<String>, b: &Vec<String>) -> (r: Vec<String>)
    ensures
        views(r@) == new_names(views(a@), views(b@)),
{
    let mut r: Vec<String> = Vec::new();
    let mut i: usize = 0;
    while i < a.len()
        invariant
            i <= a@.len(),
            views(r@) == new_names(views(a@.subrange(0, i as int)), views(b@)),
        decreases a@.len() - i,
    {
        proof {
            assert(views(a@.subrange(0, i + 1)).drop_last() =~= views(a@.subrange(0, i as int)));
            assert(views(a@.subrange(0, i + 1)).last() == a@[i as int]@);
        }
        if !contains_string(b, &a[i]) {
            let ghost before = views(r@);
            r.push(a[i].clone());
            assert(views(r@) =~= before.push(a@[i as int]@));
        }
        i += 1;
    }
    assert(a@.subrange(0, a@.len() as int) == a@);
    r
}

fn dedup_strings(a: &Vec<String>) -> (r: Vec<String>)
    ensures
        views(r@) == dedup(views(a@)),
{
    let mut r: Vec<String> = Vec::new();
    let mut i: usize = 0;
    while i < a.len()
        invariant
            i <= a@.len(),
            views(r@) == dedup(views(a@.subrange(0, i as int))),
        decreases a@.len() - i,
    {
        proof {
            assert(views(a@.subrange(0, i + 1)).drop_last() =~= views(a@.subrange(0, i as int)));
            assert(views(a@.subrange(0, i + 1)).last() == a@[i as int]@);
        }
        if !contains_string(&r, &a[i]) {
            let ghost before = views(r@);
            r.push(a[i].clone());
            assert(views(r@) =~= before.push(a@[i as int]@));
        }
        i += 1;
    }
    assert(a@.subrange(0, a@.len() as int) == a@);
    r
}

/// One poll of the macOS monitor: from the disks known after the previous
/// poll and the output of `diskutil list external physical`, the disks
/// known now and the events to report.
pub fn poll_step(known: &Vec<String>, stdout: &str) -> (r: (Vec<String>, Vec<UsbEvent>))
    ensures
        views(r.0@) == dedup(disk_names(lines(stdout@))),
        event_views(r.1@) == poll_events(
            views(known@),
            disk_names(lines(stdout@)),
        ),
        forall|k: int|
            0 <= k < r.1@.len() ==> (#[trigger] r.1@[k] matches UsbEvent::DeviceInserted(d)
                ==> macos_info_matches(d, d.stable_id@, "External: Yes\n"@)),
{
    let names = disk_names_from_diskutil(stdout);
    let inserted = names_not_in(&names, known);
    let removed = names_not_in(known, &names);
    let mut events: Vec<UsbEvent> = Vec::new();
    let mut i: usize = 0;
    while i < inserted.len()
        invariant
            i <= inserted@.len(),
            event_views(events@) == inserted_views(
                views(inserted@.subrange(0, i as int)),
            ),
            forall|k: int|
                0 <= k < events@.len() ==> (#[trigger] events@[k] matches UsbEvent::DeviceInserted(d)
                    ==> macos_info_matches(d, d.stable_id@, "External: Yes\n"@)),
        decreases inserted@.len() - i,
    {
        let d = external_device(inserted[i].as_str());
        let ghost before = events@;
        events.push(UsbEvent::DeviceInserted(d));
        proof {
            assert(event_views(events@) =~= event_views(before).push(
                EventView::Inserted(inserted@[i as int]@),
            ));
            assert(views(inserted@.subrange(0, i + 1)) =~= views(inserted@.subrange(0, i as int)).push(
                inserted@[i as int]@,
            ));
            assert(event_views(events@) =~= inserted_views(views(inserted@.subrange(0, i + 1))));
        }
        i += 1;
    }
    assert(inserted@.subrange(0, inserted@.len() as int) == inserted@);
    let ghost ins = events@;
    let mut j: usize = 0;
    while j < removed.len()
        invariant
            j <= removed@.len(),
            event_views(ins) == inserted_views(views(inserted@)),
            event_views(events@) == inserted_views(views(inserted@))
                + removed_views(views(removed@.subrange(0, j as int))),
            forall|k: int|
                0 <= k < events@.len() ==> (#[trigger] events@[k] matches UsbEvent::DeviceInserted(d)
                    ==> macos_info_matches(d, d.stable_id@, "External: Yes\n"@)),
        decreases removed@.len() - j,
    {
        let ghost before = events@;
        events.push(UsbEvent::DeviceRemoved { stable_id: removed[j].clone() });
        proof {
            assert(event_views(events@) =~= event_views(before).push(
                EventView::Removed(removed@[j as int]@),
            ));
            assert(views(removed@.subrange(0, j + 1)) =~= views(removed@.subrange(0, j as int)).push(
                removed@[j as int]@,
            ));
            assert(removed_views(views(removed@.subrange(0, j + 1))) =~= removed_views(
                views(removed@.subrange(0, j as int)),
            ).push(EventView::Removed(removed@[j as int]@)));
            assert(event_views(events@) =~= inserted_views(views(inserted@)) + removed_views(
                views(removed@.subrange(0, j + 1)),
            ));
        }
        j += 1;
    }
    assert(removed@.subrange(0, removed@.len() as int) == removed@);
    let now = dedup_strings(&names);
    (now, events)
}

} // verus!
