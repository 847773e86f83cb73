//! Verified core of zfswatch: parsing of ZFS command output, the commands the
//! tool issues, configuration defaults, prerequisite diagnostics, USB device
//! classification and the daemon's request handling.
use vstd::prelude::*;

pub mod cli;
pub mod command;
pub mod config;
pub mod daemon;
pub mod dataset;
pub mod device;
pub mod encryption;
pub mod error;
pub mod keys;
pub mod pool;
pub mod prereqs;
pub mod protocol;
pub mod size;
pub mod text;
pub mod types;

pub use error::{Error, Result};

verus! {
}
