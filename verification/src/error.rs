//! The ways in which an operation on the vault can fail.

use vstd::prelude::*;

verus! {

/// What went wrong. Every failure ends the operation it occurs in; nothing is
/// tried a second time.
#[derive(Clone, Copy, Debug, PartialEq, Eq, Structural)]
pub enum VaultError {
    /// The entry name is not one that stands for a file inside the vault.
    InvalidName,
    /// The vault has no identity marker yet.
    VaultNotInitialized,
    /// There is something under that name already.
    AlreadyExists,
    /// There is no entry under that name.
    EntryNotFound,
    /// The encryption backend reported a failure.
    EncryptionFailed,
    /// The encryption backend could not decrypt the entry.
    DecryptionFailed,
    /// The entry could not be renamed.
    MoveFailed,
    /// The editor did not end normally.
    EditorFailed,
    /// The scratch file could not be removed.
    CleanupFailed,
    /// The answer to a yes-or-no question was neither.
    InvalidConfirmation,
}

} // verus!
