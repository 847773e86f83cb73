//! The library's error type and the text each error reads as.
use vstd::prelude::*;
use vstd::std_specs::convert::FromSpecImpl;
use vstd::string::to_string_from_display_ensures;

use crate::text::{concat2, str_to_string};

verus! {

/// `std::io::Error`, carried through unchanged.
#[verifier::external_type_specification]
#[verifier::external_body]
pub struct ExIoError(std::io::Error);

#[derive(Debug)]
pub enum Error {
    Io(std::io::Error),
    Config(String),
    Protocol(String),
    Zfs(String),
    Platform(String),
    KeyVault(String),
    NotFound(String),
    PermissionDenied(String),
    InvalidArgument(String),
    CrossPlatform(String),
}

pub type Result<T> = core::result::Result<T, Error>;

impl Error {
    /// The words that open the text of an error of this kind.
    pub open spec fn prefix(self) -> Seq<char> {
        match self {
            Error::Io(_) => "IO error: "@,
            Error::Config(_) => "Configuration error: "@,
            Error::Protocol(_) => "Protocol error: "@,
            Error::Zfs(_) => "ZFS error: "@,
            Error::Platform(_) => "Platform error: "@,
            Error::KeyVault(_) => "Key vault error: "@,
            Error::NotFound(_) => "Not found: "@,
            Error::PermissionDenied(_) => "Permission denied: "@,
            Error::InvalidArgument(_) => "Invalid argument: "@,
            Error::CrossPlatform(_) => "Cross-platform compatibility: "@,
        }
    }

    /// The message an error of a kind other than `Io` carries.
    pub open spec fn detail(self) -> Seq<char> {
        match self {
            Error::Io(_) => Seq::empty(),
            Error::Config(m) => m@,
            Error::Protocol(m) => m@,
            Error::Zfs(m) => m@,
            Error::Platform(m) => m@,
            Error::KeyVault(m) => m@,
            Error::NotFound(m) => m@,
            Error::PermissionDenied(m) => m@,
            Error::InvalidArgument(m) => m@,
            Error::CrossPlatform(m) => m@,
        }
    }

    /// `m` is the text the error displays as: the kind's prefix, then the
    /// message (for `Io`, the text that the I/O error displays as).
    pub open spec fn shows_as(self, m: Seq<char>) -> bool {
        &&& !(self is Io) ==> m == self.prefix() + self.detail()
        &&& self matches Error::Io(e) ==> exists|s: String|
            to_string_from_display_ensures::<std::io::Error>(&e, s) && m == self.prefix() + s@
    }

    /// The text the error displays as.
    pub fn message(&self) -> (r: String)
        ensures
            self.shows_as(r@),
    {
        match self {
            Error::Io(e) => {
                let s = e.to_string();
                concat2("IO error: ", s.as_str())
            },
            Error::Config(m) => concat2("Configuration error: ", m.as_str()),
            Error::Protocol(m) => concat2("Protocol error: ", m.as_str()),
            Error::Zfs(m) => concat2("ZFS error: ", m.as_str()),
            Error::Platform(m) => concat2("Platform error: ", m.as_str()),
            Error::KeyVault(m) => concat2("Key vault error: ", m.as_str()),
            Error::NotFound(m) => concat2("Not found: ", m.as_str()),
            Error::PermissionDenied(m) => concat2("Permission denied: ", m.as_str()),
            Error::InvalidArgument(m) => concat2("Invalid argument: ", m.as_str()),
            Error::CrossPlatform(m) => concat2("Cross-platform compatibility: ", m.as_str()),
        }
    }

    /// A `Zfs` error carrying `msg`.
    pub fn zfs(msg: &str) -> (r: Error)
        ensures
            r matches Error::Zfs(m) && m@ == msg@,
    {
        Error::Zfs(str_to_string(msg))
    }
}

impl From<std::io::Error> for Error {
    fn from(err: std::io::Error) -> (r: Self) {
        Error::Io(err)
    }
}

impl FromSpecImpl<std::io::Error> for Error {
    open spec fn obeys_from_spec() -> bool {
        true
    }

    open spec fn from_spec(v: std::io::Error) -> Error {
        Error::Io(v)
    }
}

} // verus!
