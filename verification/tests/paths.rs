use vault::error::VaultError;
use vault::path::{attach_path, canonicalize_path, is_valid_name, resolve, scratch_path};

#[test]
fn resolve_puts_the_entry_under_the_root() {
    assert_eq!(resolve("/vault", "github"), Ok(String::from("/vault/github.gpg")));
    assert_eq!(resolve("/vault", "web/github"), Ok(String::from("/vault/web/github.gpg")));
    assert_eq!(resolve("/vault", "a/b/c"), Ok(String::from("/vault/a/b/c.gpg")));
}

#[test]
fn resolve_keeps_dots_that_are_part_of_a_segment() {
    assert_eq!(resolve("/vault", "..."), Ok(String::from("/vault/....gpg")));
    assert_eq!(resolve("/vault", ".hidden"), Ok(String::from("/vault/.hidden.gpg")));
    assert_eq!(resolve("/vault", "a..b/c."), Ok(String::from("/vault/a..b/c..gpg")));
    assert_eq!(resolve("/vault", "mail.example.org"), Ok(String::from("/vault/mail.example.org.gpg")));
}

#[test]
fn resolve_brings_the_root_into_canonical_form() {
    assert_eq!(resolve("/vault/", "a"), Ok(String::from("/vault/a.gpg")));
    assert_eq!(resolve("/home/user/../store/./vault", "a/b"), Ok(String::from("/home/store/vault/a/b.gpg")));
    assert_eq!(resolve("/", "a"), Ok(String::from("/a.gpg")));
    assert_eq!(resolve("//vault//x", "a"), Ok(String::from("/vault/x/a.gpg")));
}

#[test]
fn resolve_works_under_a_relative_root() {
    assert_eq!(resolve("vault", "a"), Ok(String::from("vault/a.gpg")));
    assert_eq!(resolve("", "a/b"), Ok(String::from("a/b.gpg")));
    assert_eq!(resolve("../vault", "a"), Ok(String::from("../vault/a.gpg")));
    assert_eq!(resolve(".", "a"), Ok(String::from("a.gpg")));
}

#[test]
fn resolve_refuses_the_empty_name() {
    assert_eq!(resolve("/vault", ""), Err(VaultError::InvalidName));
}

#[test]
fn resolve_refuses_parent_segments() {
    assert_eq!(resolve("/vault", ".."), Err(VaultError::InvalidName));
    assert_eq!(resolve("/vault", "../../etc/passwd"), Err(VaultError::InvalidName));
    assert_eq!(resolve("/vault", "a/../b"), Err(VaultError::InvalidName));
    assert_eq!(resolve("/vault", "a/b/.."), Err(VaultError::InvalidName));
    assert_eq!(resolve("/vault", "a/../../../etc/passwd"), Err(VaultError::InvalidName));
}

#[test]
fn resolve_refuses_absolute_names() {
    assert_eq!(resolve("/vault", "/etc/passwd"), Err(VaultError::InvalidName));
    assert_eq!(resolve("/vault", "/vault/a"), Err(VaultError::InvalidName));
    assert_eq!(resolve("/vault", "/"), Err(VaultError::InvalidName));
}

#[test]
fn resolve_refuses_a_nul() {
    assert_eq!(resolve("/vault", "a\0b"), Err(VaultError::InvalidName));
    assert_eq!(resolve("/vault", "\0"), Err(VaultError::InvalidName));
    assert_eq!(resolve("/vault", "a/b\0"), Err(VaultError::InvalidName));
}

#[test]
fn resolve_refuses_empty_and_dot_segments() {
    assert_eq!(resolve("/vault", "a//b"), Err(VaultError::InvalidName));
    assert_eq!(resolve("/vault", "a/"), Err(VaultError::InvalidName));
    assert_eq!(resolve("/vault", "."), Err(VaultError::InvalidName));
    assert_eq!(resolve("/vault", "./a"), Err(VaultError::InvalidName));
    assert_eq!(resolve("/vault", "a/./b"), Err(VaultError::InvalidName));
}

#[test]
fn resolved_paths_stay_below_the_root() {
    let names = ["a", "a/b", "web/mail/work", "...", ".a/.b", "x y/z"];
    for name in names {
        let path = resolve("/srv/vault", name).unwrap();
        assert!(path.starts_with("/srv/vault/"));
        assert!(path.len() > "/srv/vault/".len());
        assert!(path.ends_with(".gpg"));
        assert!(!path.split('/').any(|segment| segment == ".."));
    }
}

#[test]
fn different_names_have_different_paths() {
    let names = ["a", "b", "a/b", "a.gpg", "a/a", "ab"];
    for first in names {
        for second in names {
            let same = resolve("/vault", first) == resolve("/vault", second);
            assert_eq!(same, first == second);
        }
    }
}

#[test]
fn valid_names_are_told_from_others() {
    assert!(is_valid_name("a"));
    assert!(is_valid_name("a/b"));
    assert!(is_valid_name("..a"));
    assert!(is_valid_name("a b"));
    assert!(is_valid_name("pässe/wörter"));
    assert!(!is_valid_name(""));
    assert!(!is_valid_name("/a"));
    assert!(!is_valid_name("a/"));
    assert!(!is_valid_name(".."));
    assert!(!is_valid_name("."));
    assert!(!is_valid_name("a/../b"));
    assert!(!is_valid_name("a\0"));
}

#[test]
fn scratch_path_keeps_the_directories_of_the_name() {
    assert_eq!(scratch_path("/tmp/vault", "github"), Ok(String::from("/tmp/vault/github")));
    assert_eq!(scratch_path("/tmp/vault", "web/github"), Ok(String::from("/tmp/vault/web/github")));
    assert_eq!(scratch_path("/tmp/./vault/", "a/b/c"), Ok(String::from("/tmp/vault/a/b/c")));
}

#[test]
fn scratch_path_refuses_what_resolve_refuses() {
    assert_eq!(scratch_path("/tmp/vault", ""), Err(VaultError::InvalidName));
    assert_eq!(scratch_path("/tmp/vault", "../x"), Err(VaultError::InvalidName));
    assert_eq!(scratch_path("/tmp/vault", "/x"), Err(VaultError::InvalidName));
    assert_eq!(scratch_path("/tmp/vault", "a\0"), Err(VaultError::InvalidName));
    assert_eq!(scratch_path("/tmp/vault", "a/."), Err(VaultError::InvalidName));
}

#[test]
fn canonical_form_drops_empty_and_dot_segments() {
    assert_eq!(canonicalize_path("/a/./b//c"), "/a/b/c");
    assert_eq!(canonicalize_path("a/b/"), "a/b");
    assert_eq!(canonicalize_path("./a"), "a");
    assert_eq!(canonicalize_path("/a/b/c"), "/a/b/c");
}

#[test]
fn canonical_form_resolves_parents_where_they_stand() {
    assert_eq!(canonicalize_path("/a/b/../c"), "/a/c");
    assert_eq!(canonicalize_path("/a/../b/../c"), "/c");
    assert_eq!(canonicalize_path("/vault/x/../../etc/passwd.gpg"), "/etc/passwd.gpg");
    assert_eq!(canonicalize_path("a/b/../../c"), "c");
    assert_eq!(canonicalize_path("/a/b/c/../d/e.gpg"), "/a/b/d/e.gpg");
}

#[test]
fn canonical_form_at_the_edges() {
    assert_eq!(canonicalize_path(""), ".");
    assert_eq!(canonicalize_path("."), ".");
    assert_eq!(canonicalize_path("a/.."), ".");
    assert_eq!(canonicalize_path("/"), "/");
    assert_eq!(canonicalize_path("/.."), "/");
    assert_eq!(canonicalize_path("/../a"), "/a");
    assert_eq!(canonicalize_path(".."), "..");
    assert_eq!(canonicalize_path("a/../.."), "..");
    assert_eq!(canonicalize_path("../../a"), "../../a");
    assert_eq!(canonicalize_path("../a/.."), "..");
}

#[test]
fn canonical_form_is_its_own_canonical_form() {
    let paths = ["", "/", "a/../..", "/a/./b//c/../d", "../x/./y", "//", "a//b/", "/../.."];
    for path in paths {
        let once = canonicalize_path(path);
        assert_eq!(canonicalize_path(&once), once);
    }
}

#[test]
fn attach_path_puts_one_separator_between() {
    assert_eq!(attach_path("/home/user", ".local/vault"), "/home/user/.local/vault");
    assert_eq!(attach_path("/home/user/", ".local/vault"), "/home/user/.local/vault");
    assert_eq!(attach_path("/", "a"), "/a");
    assert_eq!(attach_path("", "a"), "a");
    assert_eq!(attach_path("a", ""), "a/");
}
