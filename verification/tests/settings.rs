use vault::error::VaultError;
use vault::util::{
    editor_command, get_key_id, get_vault_path, marker_path, scratch_root, vault_path,
};

#[test]
fn a_configured_vault_path_is_taken_as_it_is() {
    assert_eq!(
        vault_path(Some(String::from("/srv/vault")), Some(String::from("/home/user"))),
        Some(String::from("/srv/vault"))
    );
    assert_eq!(vault_path(Some(String::from("relative/vault")), None), Some(String::from("relative/vault")));
    assert_eq!(get_vault_path(Some(String::from("/srv/vault"))), Some(String::from("/srv/vault")));
    assert_eq!(get_vault_path(Some(String::new())), Some(String::new()));
}

#[test]
fn the_default_vault_lies_under_the_home_directory() {
    assert_eq!(vault_path(None, Some(String::from("/home/user"))), Some(String::from("/home/user/.local/vault")));
    assert_eq!(vault_path(None, Some(String::from("/home/user/"))), Some(String::from("/home/user/.local/vault")));
    assert_eq!(vault_path(None, Some(String::from("/"))), Some(String::from("/.local/vault")));
}

#[test]
fn without_configuration_and_home_there_is_no_vault_path() {
    assert_eq!(vault_path(None, None), None);
}

#[test]
fn the_looked_up_vault_path_ends_in_the_default_place() {
    if let Some(path) = get_vault_path(None) {
        assert!(path.ends_with(".local/vault"));
    }
}

#[test]
fn the_marker_lies_in_the_vault_root() {
    assert_eq!(marker_path("/srv/vault"), "/srv/vault/.keyid");
    assert_eq!(marker_path("/srv/vault/"), "/srv/vault/.keyid");
}

#[test]
fn the_key_identity_is_what_the_marker_holds() {
    assert_eq!(get_key_id(Some(String::from("alice@example.org"))), Ok(String::from("alice@example.org")));
    assert_eq!(get_key_id(Some(String::from("0xDEADBEEF\n"))), Ok(String::from("0xDEADBEEF\n")));
    assert_eq!(get_key_id(Some(String::new())), Ok(String::new()));
}

#[test]
fn a_vault_without_marker_is_not_initialised() {
    assert_eq!(get_key_id(None), Err(VaultError::VaultNotInitialized));
}

#[test]
fn scratch_files_go_under_the_directory_for_temporary_files() {
    assert_eq!(scratch_root(None), "/tmp/vault");
    assert_eq!(scratch_root(Some(String::from("/var/tmp"))), "/var/tmp/vault");
    assert_eq!(scratch_root(Some(String::from("/run/user/1000/"))), "/run/user/1000/vault");
}

#[test]
fn the_editor_is_the_configured_one_or_vi() {
    assert_eq!(editor_command(None), "/usr/bin/vi");
    assert_eq!(editor_command(Some(String::from("nano"))), "nano");
}
