//! Plain data shared by the daemon, the CLI and the ZFS layer.
use vstd::prelude::*;

verus! {

/// USB connection speed classification.
#[derive(Debug, Clone, Copy, PartialEq, Eq, Structural)]
pub enum UsbSpeed {
    Unknown,
    /// 1.5 Mbps (USB 1.0)
    LowSpeed,
    /// 12 Mbps (USB 1.1)
    FullSpeed,
    /// 480 Mbps (USB 2.0)
    HighSpeed,
    /// 5 Gbps (USB 3.0/3.1 Gen 1)
    SuperSpeed,
    /// 10 Gbps (USB 3.1 Gen 2 / 3.2 Gen 2)
    SuperSpeed10,
    /// 20 Gbps (USB 3.2 Gen 2x2 / USB4 20G)
    SuperSpeed20,
    /// 40 Gbps (USB4 / Thunderbolt 3/4)
    Usb4_40G,
    /// 80 Gbps (USB4 v2 / Thunderbolt 5)
    Usb4_80G,
}

impl UsbSpeed {
    /// Approximate maximum throughput in MB/s, used for ZFS planning.
    pub open spec fn throughput(self) -> u64 {
        match self {
            UsbSpeed::Unknown => 0,
            UsbSpeed::LowSpeed => 0,
            UsbSpeed::FullSpeed => 1,
            UsbSpeed::HighSpeed => 35,
            UsbSpeed::SuperSpeed => 450,
            UsbSpeed::SuperSpeed10 => 900,
            UsbSpeed::SuperSpeed20 => 1800,
            UsbSpeed::Usb4_40G => 3500,
            UsbSpeed::Usb4_80G => 7000,
        }
    }

    /// The position of the class in order of nominal signalling rate.
    pub open spec fn rank(self) -> nat {
        match self {
            UsbSpeed::Unknown => 0,
            UsbSpeed::LowSpeed => 1,
            UsbSpeed::FullSpeed => 2,
            UsbSpeed::HighSpeed => 3,
            UsbSpeed::SuperSpeed => 4,
            UsbSpeed::SuperSpeed10 => 5,
            UsbSpeed::SuperSpeed20 => 6,
            UsbSpeed::Usb4_40G => 7,
            UsbSpeed::Usb4_80G => 8,
        }
    }

    /// Human-readable description of the class.
    pub open spec fn description_text(self) -> Seq<char> {
        match self {
            UsbSpeed::Unknown => "Unknown"@,
            UsbSpeed::LowSpeed => "USB 1.0 Low-Speed (1.5 Mbps)"@,
            UsbSpeed::FullSpeed => "USB 1.1 Full-Speed (12 Mbps)"@,
            UsbSpeed::HighSpeed => "USB 2.0 High-Speed (480 Mbps)"@,
            UsbSpeed::SuperSpeed => "USB 3.0 SuperSpeed (5 Gbps)"@,
            UsbSpeed::SuperSpeed10 => "USB 3.1 Gen 2 (10 Gbps)"@,
            UsbSpeed::SuperSpeed20 => "USB 3.2 Gen 2x2 (20 Gbps)"@,
            UsbSpeed::Usb4_40G => "USB4 / Thunderbolt 3/4 (40 Gbps)"@,
            UsbSpeed::Usb4_80G => "USB4 v2 / Thunderbolt 5 (80 Gbps)"@,
        }
    }

    /// Get the approximate maximum throughput in MB/s for ZFS planning.
    pub fn max_throughput_mbps(&self) -> (r: u64)
        ensures
            r == self.throughput(),
    {
        match self {
            UsbSpeed::Unknown => 0,
            UsbSpeed::LowSpeed => 0,
            UsbSpeed::FullSpeed => 1,
            UsbSpeed::HighSpeed => 35,
            UsbSpeed::SuperSpeed => 450,
            UsbSpeed::SuperSpeed10 => 900,
            UsbSpeed::SuperSpeed20 => 1800,
            UsbSpeed::Usb4_40G => 3500,
            UsbSpeed::Usb4_80G => 7000,
        }
    }

    /// Human-readable description; it is also what the type displays as.
    pub fn description(&self) -> (r: &'static str)
        ensures
            r@ == self.description_text(),
    {
        match self {
            UsbSpeed::Unknown => "Unknown",
            UsbSpeed::LowSpeed => "USB 1.0 Low-Speed (1.5 Mbps)",
            UsbSpeed::FullSpeed => "USB 1.1 Full-Speed (12 Mbps)",
            UsbSpeed::HighSpeed => "USB 2.0 High-Speed (480 Mbps)",
            UsbSpeed::SuperSpeed => "USB 3.0 SuperSpeed (5 Gbps)",
            UsbSpeed::SuperSpeed10 => "USB 3.1 Gen 2 (10 Gbps)",
            UsbSpeed::SuperSpeed20 => "USB 3.2 Gen 2x2 (20 Gbps)",
            UsbSpeed::Usb4_40G => "USB4 / Thunderbolt 3/4 (40 Gbps)",
            UsbSpeed::Usb4_80G => "USB4 v2 / Thunderbolt 5 (80 Gbps)",
        }
    }
}

/// A faster speed class never promises less throughput than a slower one.
pub proof fn lemma_throughput_monotone(a: UsbSpeed, b: UsbSpeed)
    requires
        a.rank() <= b.rank(),
    ensures
        a.throughput() <= b.throughput(),
{
}

/// Information about a detected USB storage device.
#[derive(Debug, Clone, PartialEq, Eq)]
pub struct DeviceInfo {
    /// Platform device path, e.g. /dev/disk5 or /dev/sdb
    pub device_path: String,
    /// Stable identifier (serial, WWN, or USB ID)
    pub stable_id: String,
    /// Human-readable model name
    pub model: String,
    /// USB vendor ID
    pub vendor_id: Option<String>,
    /// USB product ID
    pub product_id: Option<String>,
    /// Serial number from device
    pub serial: Option<String>,
    /// Connection speed
    pub usb_speed: UsbSpeed,
    /// Total capacity in bytes
    pub capacity_bytes: Option<u64>,
    /// Whether device is removable
    pub is_removable: bool,
    /// Filesystem type detected by the OS (if any)
    pub detected_fs: Option<String>,
}

/// Information about a ZFS pool.
#[derive(Debug, Clone, PartialEq, Eq)]
pub struct PoolInfo {
    /// Pool name
    pub name: String,
    /// Pool GUID
    pub guid: String,
    /// Current health status
    pub health: PoolHealth,
    /// Total size in bytes
    pub size_bytes: u64,
    /// Allocated bytes
    pub allocated_bytes: u64,
    /// Free bytes
    pub free_bytes: u64,
    /// Whether the pool is encrypted
    pub encrypted: bool,
    /// Whether the pool is currently mounted
    pub mounted: bool,
    /// Mount point (if mounted)
    pub mountpoint: Option<String>,
    /// Dataset properties
    pub datasets: Vec<DatasetInfo>,
    /// Enabled feature flags
    pub features: Vec<String>,
    /// Current version / compatibility level
    pub version: String,
}

/// Health of a pool as `zpool` reports it.
#[derive(Debug, Clone, Copy, PartialEq, Eq, Structural)]
pub enum PoolHealth {
    Online,
    Degraded,
    Faulted,
    Offline,
    Unavailable,
    Removed,
    Unknown,
}

impl PoolHealth {
    /// The word `zpool` uses for the state; it is what the type displays as.
    pub open spec fn label(self) -> Seq<char> {
        match self {
            PoolHealth::Online => "ONLINE"@,
            PoolHealth::Degraded => "DEGRADED"@,
            PoolHealth::Faulted => "FAULTED"@,
            PoolHealth::Offline => "OFFLINE"@,
            PoolHealth::Unavailable => "UNAVAIL"@,
            PoolHealth::Removed => "REMOVED"@,
            PoolHealth::Unknown => "UNKNOWN"@,
        }
    }

    /// The text the type displays as.
    pub fn as_str(&self) -> (r: &'static str)
        ensures
            r@ == self.label(),
    {
        match self {
            PoolHealth::Online => "ONLINE",
            PoolHealth::Degraded => "DEGRADED",
            PoolHealth::Faulted => "FAULTED",
            PoolHealth::Offline => "OFFLINE",
            PoolHealth::Unavailable => "UNAVAIL",
            PoolHealth::Removed => "REMOVED",
            PoolHealth::Unknown => "UNKNOWN",
        }
    }
}

/// Information about a ZFS dataset.
#[derive(Debug, Clone, PartialEq, Eq)]
pub struct DatasetInfo {
    pub name: String,
    pub mountpoint: Option<String>,
    pub mounted: bool,
    pub encrypted: bool,
    pub compression: Option<String>,
    pub recordsize: Option<u64>,
    pub quota: Option<u64>,
}

} // verus!
