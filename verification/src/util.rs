//! Where the vault lies and whom it is encrypted to.

use vstd::prelude::*;
use vstd::string::*;
use crate::error::VaultError;
use crate::path::{attach, attach_path};

verus! {

/// The place of the vault under the home directory, where no other is
/// configured.
pub open spec fn default_vault() -> Seq<char> {
    ".local/vault"@
}

/// The name of the identity marker inside the vault root.
pub open spec fn marker_name() -> Seq<char> {
    ".keyid"@
}

/// The directory for temporary files, where no other is configured.
pub open spec fn default_temporary() -> Seq<char> {
    "/tmp"@
}

/// The name of the vault's own directory among the temporary files.
pub open spec fn scratch_name() -> Seq<char> {
    "vault"@
}

/// The editor, where no other is configured.
pub open spec fn default_editor() -> Seq<char> {
    "/usr/bin/vi"@
}

/// The vault root: the configured one where there is one, else the default
/// place under the home directory, and none where there is no home either.
pub open spec fn vault_path_from(configured: Option<Seq<char>>, home: Option<Seq<char>>) -> Option<
    Seq<char>,
> {
    match (configured, home) {
        (Some(path), _) => Some(path),
        (None, Some(home)) => Some(attach(home, default_vault())),
        (None, None) => None,
    }
}

/// `home::home_dir`: the home directory of the current user, as the
/// environment or the system's user database gives it, or `None` where
/// neither does or where the path is not valid UTF-8. Nothing is promised of
/// it: it depends on the process's environment.
#[verifier::external_body]
fn home_directory() -> (home: Option<String>) {
    home::home_dir().and_then(|path| path.into_os_string().into_string().ok())
}

/// The vault root for a configured path and a home directory, each of which
/// may be missing.
pub fn vault_path(configured: Option<String>, home: Option<String>) -> (out: Option<String>)
    ensures
        out is Some <==> configured is Some || home is Some,
        out matches Some(path) ==> Some(path@) == vault_path_from(
            match configured {
                Some(c) => Some(c@),
                None => None,
            },
            match home {
                Some(h) => Some(h@),
                None => None,
            },
        ),
{
    match configured {
        Some(path) => Some(path),
        None => match home {
            Some(home) => Some(attach_path(home.as_str(), ".local/vault")),
            None => None,
        },
    }
}

/// The vault root: `configured` where it is given. Where it is not, the
/// default place under the user's home directory, which is looked up, and
/// `None` if no home directory can be found.
pub fn get_vault_path(configured: Option<String>) -> (out: Option<String>)
    ensures
        configured matches Some(path) ==> (out matches Some(same) && same@ == path@),
        configured is None ==> (out matches Some(path) ==> exists|home: Seq<char>|
            path@ == attach(home, default_vault())),
{
    match configured {
        Some(path) => Some(path),
        None => {
            let home = home_directory();
            let ghost looked_up = home;
            let out = vault_path(None, home);
            proof {
                if out is Some {
                    assert(out->0@ == attach(looked_up->0@, default_vault()));
                }
            }
            out
        },
    }
}

/// The directory under which scratch files are made: the vault's own
/// directory under `temporary`, the directory that is configured for
/// temporary files, or under `/tmp` where none is configured.
pub fn scratch_root(temporary: Option<String>) -> (out: String)
    ensures
        out@ == attach(
            match temporary {
                Some(directory) => directory@,
                None => default_temporary(),
            },
            scratch_name(),
        ),
{
    match temporary {
        Some(directory) => attach_path(directory.as_str(), "vault"),
        None => attach_path("/tmp", "vault"),
    }
}

/// The program that edits a scratch file: the configured one, or
/// `/usr/bin/vi` where none is configured.
pub fn editor_command(configured: Option<String>) -> (out: String)
    ensures
        out@ == match configured {
            Some(command) => command@,
            None => default_editor(),
        },
{
    match configured {
        Some(command) => command,
        None => String::from_str("/usr/bin/vi"),
    }
}

/// The path of the identity marker of the vault at `vault_root`.
pub fn marker_path(vault_root: &str) -> (out: String)
    ensures
        out@ == attach(vault_root@, marker_name()),
{
    attach_path(vault_root, ".keyid")
}

/// The key identity of the vault, given what its identity marker holds:
/// `None` stands for a vault without a marker, which is not initialised.
pub fn get_key_id(marker: Option<String>) -> (out: Result<String, VaultError>)
    ensures
        marker matches Some(text) ==> (out matches Ok(key_id) && key_id@ == text@),
        marker is None ==> (out matches Err(e) && e == VaultError::VaultNotInitialized),
{
    match marker {
        Some(key_id) => Ok(key_id),
        None => Err(VaultError::VaultNotInitialized),
    }
}

} // verus!
