//! Key storage backends and the wiping of secret bytes.
use vstd::prelude::*;

use zeroize::Zeroize;

use crate::error::Error;
use crate::text::concat2;

verus! {

/// `<[u8] as Zeroize>::zeroize`: every byte of the slice is overwritten
/// with zero (by volatile writes, so the compiler keeps them); the length
/// stays. It asserts that the length fits in an `isize`, which the
/// `requires` states.
#[verifier::external_body]
fn zeroize_bytes(bytes: &mut [u8])
    requires
        old(bytes)@.len() <= isize::MAX,
    ensures
        final(bytes)@ == Seq::new(old(bytes)@.len(), |i: int| 0u8),
{
    bytes.zeroize();
}

/// `<String as Zeroize>::zeroize`: the string's bytes and spare capacity are
/// overwritten with zero, then the string is cleared.
#[verifier::external_body]
fn zeroize_string(s: &mut String)
    ensures
        final(s)@ == Seq::<char>::empty(),
{
    s.zeroize();
}

/// Zero out a mutable byte slice.
pub fn secure_zero(bytes: &mut [u8])
    requires
        old(bytes)@.len() <= isize::MAX,
    ensures
        final(bytes)@.len() == old(bytes)@.len(),
        forall|i: int| 0 <= i < final(bytes)@.len() ==> #[trigger] final(bytes)@[i] == 0,
{
    zeroize_bytes(bytes);
}

/// Zero out a String: its bytes are overwritten, then it is left empty.
pub fn secure_zero_string(s: &mut String)
    ensures
        final(s)@ == Seq::<char>::empty(),
{
    zeroize_string(s);
}

/// In-memory key vault (ephemeral, cleared on daemon restart): it keeps
/// nothing.
pub struct MemoryKeyVault;

impl MemoryKeyVault {
    pub fn new() -> Self {
        MemoryKeyVault
    }
}

/// Linux kernel keyring storage backend.
pub struct LinuxKeyring;

impl LinuxKeyring {
    pub fn new() -> Self {
        LinuxKeyring
    }

    /// The description under which the passphrase of `pool` is kept in the
    /// keyring.
    pub fn key_description(pool: &str) -> (r: String)
        ensures
            r@ == "zfswatch:"@ + pool@,
    {
        concat2("zfswatch:", pool)
    }
}

impl Default for LinuxKeyring {
    fn default() -> (r: Self)
        ensures
            r == LinuxKeyring,
    {
        Self::new()
    }
}

/// The keyring operation that failed.
#[derive(Debug, Clone, Copy, PartialEq, Eq, Structural)]
pub enum KeyringFailure {
    Store,
    Read,
    Revoke,
    /// The stored passphrase is not UTF-8.
    InvalidUtf8,
}

pub open spec fn keyring_failure_text(what: KeyringFailure, cause: Seq<char>) -> Seq<char> {
    match what {
        KeyringFailure::Store => "Failed to store key in keyring: "@ + cause,
        KeyringFailure::Read => "Failed to read key from keyring: "@ + cause,
        KeyringFailure::Revoke => "Failed to revoke key: "@ + cause,
        KeyringFailure::InvalidUtf8 => "Invalid UTF-8 in keyring: "@ + cause,
    }
}

/// The key vault error for a failed keyring operation.
pub fn keyring_failure(what: KeyringFailure, cause: &str) -> (e: Error)
    ensures
        e matches Error::KeyVault(m) && m@ == keyring_failure_text(what, cause@),
{
    let head = match what {
        KeyringFailure::Store => "Failed to store key in keyring: ",
        KeyringFailure::Read => "Failed to read key from keyring: ",
        KeyringFailure::Revoke => "Failed to revoke key: ",
        KeyringFailure::InvalidUtf8 => "Invalid UTF-8 in keyring: ",
    };
    Error::KeyVault(concat2(head, cause))
}

/// The payload of a key read into `buf`, when the keyring reported its
/// length as `len`: the first `len` bytes, or all of `buf` when the key is
/// longer than the buffer.
pub fn keyring_payload(buf: Vec<u8>, len: usize) -> (r: Vec<u8>)
    ensures
        len <= buf@.len() ==> r@ == buf@.subrange(0, len as int),
        len > buf@.len() ==> r@ == buf@,
{
    let mut b = buf;
    b.truncate(len);
    b
}

} // verus!
