use vault::cli::cmd::{create, edit, get, init, move_entry, remove, resume, resume_with, trim_newline};
use vault::cli::{parse, Command, Config};
use vault::error::VaultError;
use vault::session::{
    CreatePoint, EditPoint, Outcome, Point, Reply, Request, Session, Step,
};

fn config() -> Config {
    Config {
        vault_root: String::from("/vault"),
        key_identity: Some(String::from("alice@example.org")),
        scratch_root: String::from("/tmp/vault"),
    }
}

fn fresh() -> Config {
    Config {
        vault_root: String::from("/vault"),
        key_identity: None,
        scratch_root: String::from("/tmp/vault"),
    }
}

fn ok() -> Step {
    Step::Finish(Outcome { result: Ok(()), detail: String::new(), warning: None })
}

fn failure(error: VaultError, detail: &str) -> Step {
    Step::Finish(Outcome { result: Err(error), detail: String::from(detail), warning: None })
}

fn asked(step: Step) -> (Session, Request) {
    match step {
        Step::Ask(session, request) => (session, request),
        Step::Finish(outcome) => panic!("the session ended: {:?}", outcome),
    }
}

fn ended(step: Step) -> Outcome {
    match step {
        Step::Finish(outcome) => outcome,
        Step::Ask(_, request) => panic!("the session goes on: {:?}", request),
    }
}

fn probe(path: &str) -> Request {
    Request::Probe { path: String::from(path) }
}

fn line(text: &str) -> Reply {
    Reply::Line(String::from(text))
}

fn failed(text: &str) -> Reply {
    Reply::Failed(String::from(text))
}

#[test]
fn init_writes_the_marker_of_a_fresh_vault() {
    let (session, request) = asked(init(&fresh(), String::from("alice@example.org")));
    assert_eq!(
        request,
        Request::WriteMarker {
            path: String::from("/vault/.keyid"),
            key_id: String::from("alice@example.org"),
        }
    );
    assert_eq!(resume(session, Reply::Done), ok());
}

#[test]
fn init_refuses_a_vault_that_has_a_marker() {
    assert_eq!(init(&config(), String::from("bob@example.org")), failure(VaultError::AlreadyExists, ""));
}

#[test]
fn every_entry_operation_needs_an_initialised_vault() {
    let fresh = fresh();
    assert_eq!(create(&fresh, "a"), failure(VaultError::VaultNotInitialized, ""));
    assert_eq!(get(&fresh, "a", false), failure(VaultError::VaultNotInitialized, ""));
    assert_eq!(edit(&fresh, "a"), failure(VaultError::VaultNotInitialized, ""));
    assert_eq!(remove(&fresh, "a"), failure(VaultError::VaultNotInitialized, ""));
    assert_eq!(move_entry(&fresh, "a", "b"), failure(VaultError::VaultNotInitialized, ""));
    assert_eq!(create(&fresh, "../a"), failure(VaultError::VaultNotInitialized, ""));
}

#[test]
fn every_entry_operation_refuses_an_invalid_name() {
    let config = config();
    assert_eq!(create(&config, "../a"), failure(VaultError::InvalidName, ""));
    assert_eq!(get(&config, "/etc/passwd", false), failure(VaultError::InvalidName, ""));
    assert_eq!(edit(&config, "a/../../b"), failure(VaultError::InvalidName, ""));
    assert_eq!(remove(&config, ""), failure(VaultError::InvalidName, ""));
    assert_eq!(move_entry(&config, "a\0", "b"), failure(VaultError::InvalidName, ""));
    assert_eq!(move_entry(&config, "a", "../b"), failure(VaultError::InvalidName, ""));
}

#[test]
fn create_stores_the_secret_that_was_typed() {
    let (session, request) = asked(create(&config(), "web/github"));
    assert_eq!(request, Request::AskSecret);
    let (session, request) = asked(resume(session, line("hunter2")));
    assert_eq!(request, probe("/vault/web/github.gpg"));
    let (session, request) = asked(resume(session, Reply::Present(false)));
    assert_eq!(
        request,
        Request::Encrypt {
            plaintext: b"hunter2".to_vec(),
            recipient: String::from("alice@example.org"),
            destination: String::from("/vault/web/github.gpg"),
        }
    );
    let (session, request) = asked(resume(session, Reply::Done));
    assert_eq!(request, Request::Reveal { plaintext: b"hunter2".to_vec(), clip: false });
    assert_eq!(resume(session, Reply::Done), ok());
}

#[test]
fn create_keeps_a_secret_that_is_not_ascii() {
    let (session, _) = asked(create(&config(), "a"));
    let (session, _) = asked(resume(session, line("pässwörd ✓")));
    let (_, request) = asked(resume(session, Reply::Present(false)));
    assert_eq!(
        request,
        Request::Encrypt {
            plaintext: "pässwörd ✓".as_bytes().to_vec(),
            recipient: String::from("alice@example.org"),
            destination: String::from("/vault/a.gpg"),
        }
    );
}

#[test]
fn create_generates_a_password_where_none_is_typed() {
    for reply in [line(""), Reply::Done, failed("no terminal")] {
        let (session, _) = asked(create(&config(), "a"));
        let (session, request) = asked(resume(session, reply));
        assert_eq!(request, probe("/vault/a.gpg"));
        assert_eq!(session.point, Point::Create(CreatePoint::Probing));
        assert_eq!(session.plaintext.len(), 20);
        let generated = session.plaintext.clone();
        for byte in &generated {
            assert!(byte.is_ascii_graphic() || *byte == b' ');
        }
        let (session, request) = asked(resume(session, Reply::Present(false)));
        assert_eq!(
            request,
            Request::Encrypt {
                plaintext: generated.clone(),
                recipient: String::from("alice@example.org"),
                destination: String::from("/vault/a.gpg"),
            }
        );
        let (_, request) = asked(resume(session, Reply::Done));
        assert_eq!(request, Request::Reveal { plaintext: generated, clip: false });
    }
}

#[test]
fn create_with_a_given_password_for_an_empty_secret() {
    let (session, _) = asked(create(&config(), "a"));
    let (session, _) = asked(resume_with(session, line(""), String::from("Abc123!? xyzABC789-_+")));
    assert_eq!(session.plaintext, b"Abc123!? xyzABC789-_+".to_vec());
    let (session, _) = asked(create(&config(), "a"));
    let (session, _) = asked(resume_with(session, line("typed"), String::from("generated")));
    assert_eq!(session.plaintext, b"typed".to_vec());
}

#[test]
fn create_refuses_an_entry_that_is_there() {
    let (session, _) = asked(create(&config(), "x"));
    let (session, request) = asked(resume(session, line("secret")));
    assert_eq!(request, probe("/vault/x.gpg"));
    assert_eq!(resume(session, Reply::Present(true)), failure(VaultError::AlreadyExists, ""));
}

#[test]
fn create_does_not_write_unless_the_probe_found_nothing() {
    for reply in [Reply::Present(true), Reply::Done, failed("stat failed"), line("no"), Reply::Content(vec![])] {
        let (session, _) = asked(create(&config(), "x"));
        let (session, _) = asked(resume(session, line("secret")));
        assert_eq!(resume(session, reply), failure(VaultError::AlreadyExists, ""));
    }
}

#[test]
fn create_hands_on_what_the_backend_said_of_a_failure() {
    let (session, _) = asked(create(&config(), "x"));
    let (session, _) = asked(resume(session, line("secret")));
    let (session, _) = asked(resume(session, Reply::Present(false)));
    assert_eq!(
        resume(session, failed("gpg: alice@example.org: skipped: No public key")),
        failure(VaultError::EncryptionFailed, "gpg: alice@example.org: skipped: No public key")
    );
}

#[test]
fn get_shows_the_plaintext_of_the_entry() {
    let (session, request) = asked(get(&config(), "web/github", false));
    assert_eq!(request, probe("/vault/web/github.gpg"));
    let (session, request) = asked(resume(session, Reply::Present(true)));
    assert_eq!(request, Request::Decrypt { source: String::from("/vault/web/github.gpg") });
    let (session, request) = asked(resume(session, Reply::Content(b"line one\nline\0two\n".to_vec())));
    assert_eq!(request, Request::Reveal { plaintext: b"line one\nline\0two\n".to_vec(), clip: false });
    assert_eq!(resume(session, Reply::Done), ok());
}

#[test]
fn get_copies_where_it_is_asked_to() {
    let (session, _) = asked(get(&config(), "a", true));
    let (session, _) = asked(resume(session, Reply::Present(true)));
    let (_, request) = asked(resume(session, Reply::Content(b"s3cret".to_vec())));
    assert_eq!(request, Request::Reveal { plaintext: b"s3cret".to_vec(), clip: true });
}

#[test]
fn get_of_a_missing_entry_is_not_found() {
    let (session, _) = asked(get(&config(), "a", false));
    assert_eq!(resume(session, Reply::Present(false)), failure(VaultError::EntryNotFound, ""));
}

#[test]
fn get_reports_a_failed_decryption() {
    let (session, _) = asked(get(&config(), "a", false));
    let (session, _) = asked(resume(session, Reply::Present(true)));
    assert_eq!(
        resume(session, failed("gpg: decryption failed: No secret key")),
        failure(VaultError::DecryptionFailed, "gpg: decryption failed: No secret key")
    );
    let (session, _) = asked(get(&config(), "a", false));
    let (session, _) = asked(resume(session, Reply::Present(true)));
    assert_eq!(resume(session, Reply::Done), failure(VaultError::DecryptionFailed, ""));
}

fn edit_until_editor(name: &str) -> Session {
    let (session, _) = asked(edit(&config(), name));
    let (session, _) = asked(resume(session, Reply::Present(true)));
    let (session, _) = asked(resume(session, Reply::Done));
    session
}

#[test]
fn edit_goes_through_the_scratch_file_and_removes_it() {
    let (session, request) = asked(edit(&config(), "web/github"));
    assert_eq!(request, probe("/vault/web/github.gpg"));
    let (session, request) = asked(resume(session, Reply::Present(true)));
    assert_eq!(
        request,
        Request::DecryptInto {
            source: String::from("/vault/web/github.gpg"),
            scratch: String::from("/tmp/vault/web/github"),
        }
    );
    let (session, request) = asked(resume(session, Reply::Done));
    assert_eq!(request, Request::Edit { path: String::from("/tmp/vault/web/github") });
    let (session, request) = asked(resume(session, Reply::Content(b"new secret\n".to_vec())));
    assert_eq!(
        request,
        Request::Encrypt {
            plaintext: b"new secret".to_vec(),
            recipient: String::from("alice@example.org"),
            destination: String::from("/vault/web/github.gpg"),
        }
    );
    let (session, request) = asked(resume(session, Reply::Done));
    assert_eq!(request, Request::RemoveScratch { path: String::from("/tmp/vault/web/github") });
    assert_eq!(session.point, Point::Edit(EditPoint::Cleaning));
    assert_eq!(resume(session, Reply::Done), ok());
}

#[test]
fn edit_takes_one_line_feed_off_and_no_more() {
    for (read, written) in [
        (&b"secret"[..], &b"secret"[..]),
        (b"secret\n", b"secret"),
        (b"secret\n\n", b"secret\n"),
        (b"a\nb\n", b"a\nb"),
        (b"\n", b""),
        (b"", b""),
        (b"secret\r\n", b"secret\r"),
        (b"nul\0\n", b"nul\0"),
    ] {
        let session = edit_until_editor("a");
        let (_, request) = asked(resume(session, Reply::Content(read.to_vec())));
        assert_eq!(
            request,
            Request::Encrypt {
                plaintext: written.to_vec(),
                recipient: String::from("alice@example.org"),
                destination: String::from("/vault/a.gpg"),
            }
        );
        assert_eq!(trim_newline(read.to_vec()), written.to_vec());
    }
}

#[test]
fn edit_with_an_editor_that_changes_nothing_keeps_the_content() {
    for content in [&b"secret"[..], b"two\nlines", b"\0\x01\xff", b""] {
        let session = edit_until_editor("a");
        let (_, request) = asked(resume(session, Reply::Content(content.to_vec())));
        match request {
            Request::Encrypt { plaintext, .. } => assert_eq!(plaintext, content.to_vec()),
            other => panic!("{:?}", other),
        }
    }
}

#[test]
fn edit_of_a_missing_entry_is_not_found_and_makes_no_scratch_file() {
    let (session, _) = asked(edit(&config(), "a"));
    assert_eq!(resume(session, Reply::Present(false)), failure(VaultError::EntryNotFound, ""));
}

#[test]
fn edit_removes_the_scratch_file_after_a_failed_decryption() {
    let (session, _) = asked(edit(&config(), "a"));
    let (session, _) = asked(resume(session, Reply::Present(true)));
    let (session, request) = asked(resume(session, failed("gpg: no secret key")));
    assert_eq!(request, Request::RemoveScratch { path: String::from("/tmp/vault/a") });
    assert_eq!(resume(session, Reply::Done), failure(VaultError::DecryptionFailed, "gpg: no secret key"));
}

#[test]
fn edit_removes_the_scratch_file_after_a_failed_editor() {
    let session = edit_until_editor("a");
    let (session, request) = asked(resume(session, failed("exit status: 1")));
    assert_eq!(request, Request::RemoveScratch { path: String::from("/tmp/vault/a") });
    assert_eq!(resume(session, Reply::Done), failure(VaultError::EditorFailed, "exit status: 1"));
}

#[test]
fn edit_removes_the_scratch_file_after_a_failed_encryption() {
    let session = edit_until_editor("a");
    let (session, _) = asked(resume(session, Reply::Content(b"new".to_vec())));
    let (session, request) = asked(resume(session, failed("gpg: no public key")));
    assert_eq!(request, Request::RemoveScratch { path: String::from("/tmp/vault/a") });
    assert_eq!(resume(session, Reply::Done), failure(VaultError::EncryptionFailed, "gpg: no public key"));
}

#[test]
fn edit_warns_of_a_failed_cleanup_beside_a_good_result() {
    let session = edit_until_editor("a");
    let (session, _) = asked(resume(session, Reply::Content(b"new".to_vec())));
    let (session, _) = asked(resume(session, Reply::Done));
    let outcome = ended(resume(session, failed("permission denied")));
    assert_eq!(outcome, Outcome { result: Ok(()), detail: String::new(), warning: Some(VaultError::CleanupFailed) });
}

#[test]
fn edit_keeps_the_first_failure_when_the_cleanup_fails_too() {
    let session = edit_until_editor("a");
    let (session, _) = asked(resume(session, failed("editor crashed")));
    let outcome = ended(resume(session, failed("permission denied")));
    assert_eq!(
        outcome,
        Outcome {
            result: Err(VaultError::EditorFailed),
            detail: String::from("editor crashed"),
            warning: Some(VaultError::CleanupFailed),
        }
    );
}

#[test]
fn edit_ends_only_after_asking_for_the_scratch_file_to_be_removed() {
    let replies = || {
        vec![
            Reply::Present(true),
            Reply::Present(false),
            Reply::Done,
            failed("x"),
            Reply::Content(b"c\n".to_vec()),
            line("y"),
        ]
    };
    let mut runs: Vec<Vec<usize>> = vec![vec![]];
    for _ in 0..6 {
        let mut longer = Vec::new();
        for run in &runs {
            for choice in 0..6 {
                let mut next = run.clone();
                next.push(choice);
                longer.push(next);
            }
        }
        runs = longer;
    }
    for run in runs {
        let mut step = edit(&config(), "a/b");
        let mut made = Vec::new();
        for choice in run {
            match step {
                Step::Finish(_) => break,
                Step::Ask(session, request) => {
                    made.push(request);
                    step = resume(session, replies().remove(choice));
                }
            }
        }
        if let Step::Finish(_) = step {
            let opened = made.iter().any(|request| matches!(request, Request::DecryptInto { .. }));
            let last = made.last().unwrap();
            if opened {
                assert_eq!(*last, Request::RemoveScratch { path: String::from("/tmp/vault/a/b") });
            } else {
                assert_eq!(made, vec![probe("/vault/a/b.gpg")]);
            }
        } else {
            panic!("an edit takes at most six replies");
        }
    }
}

#[test]
fn remove_does_nothing_without_a_yes() {
    for answer in ["n", "", "N"] {
        let (session, request) = asked(remove(&config(), "x"));
        assert_eq!(request, Request::AskConfirmation);
        assert_eq!(resume(session, line(answer)), ok());
    }
}

#[test]
fn remove_deletes_the_entry_after_a_yes() {
    let (session, _) = asked(remove(&config(), "x"));
    let (session, request) = asked(resume(session, line("y")));
    assert_eq!(request, probe("/vault/x.gpg"));
    let (session, request) = asked(resume(session, Reply::Present(true)));
    assert_eq!(request, Request::RemoveEntry { path: String::from("/vault/x.gpg") });
    assert_eq!(resume(session, Reply::Done), ok());
}

#[test]
fn remove_refuses_any_other_answer() {
    for answer in ["Y", "yes", "no", "y ", " y", "nn", "0", "j", "\n", "ÿ"] {
        let (session, _) = asked(remove(&config(), "x"));
        assert_eq!(resume(session, line(answer)), failure(VaultError::InvalidConfirmation, ""));
    }
}

#[test]
fn remove_takes_a_missing_answer_for_an_empty_one() {
    for reply in [failed("stdin closed"), Reply::Done, Reply::Present(true), Reply::Content(b"y".to_vec())] {
        let (session, _) = asked(remove(&config(), "x"));
        assert_eq!(resume(session, reply), ok());
    }
}

#[test]
fn remove_of_a_missing_entry_is_not_found() {
    let (session, _) = asked(remove(&config(), "x"));
    let (session, _) = asked(resume(session, line("y")));
    assert_eq!(resume(session, Reply::Present(false)), failure(VaultError::EntryNotFound, ""));
}

#[test]
fn move_renames_the_source_to_a_free_target() {
    let (session, request) = asked(move_entry(&config(), "a/b", "c/d"));
    assert_eq!(request, probe("/vault/a/b.gpg"));
    let (session, request) = asked(resume(session, Reply::Present(true)));
    assert_eq!(request, probe("/vault/c/d.gpg"));
    let (session, request) = asked(resume(session, Reply::Present(false)));
    assert_eq!(
        request,
        Request::Rename { from: String::from("/vault/a/b.gpg"), to: String::from("/vault/c/d.gpg") }
    );
    assert_eq!(resume(session, Reply::Done), ok());
}

#[test]
fn move_then_get_reads_the_file_that_was_moved() {
    let (session, _) = asked(move_entry(&config(), "a/b", "c/d"));
    let (session, _) = asked(resume(session, Reply::Present(true)));
    let (_, rename) = asked(resume(session, Reply::Present(false)));
    let (from, to) = match rename {
        Request::Rename { from, to } => (from, to),
        other => panic!("{:?}", other),
    };
    let (session, request) = asked(get(&config(), "c/d", false));
    assert_eq!(request, Request::Probe { path: to.clone() });
    let (_, request) = asked(resume(session, Reply::Present(true)));
    assert_eq!(request, Request::Decrypt { source: to.clone() });
    let (session, request) = asked(get(&config(), "a/b", false));
    assert_eq!(request, Request::Probe { path: from.clone() });
    assert_ne!(from, to);
    assert_eq!(resume(session, Reply::Present(false)), failure(VaultError::EntryNotFound, ""));
}

#[test]
fn move_of_a_missing_source_is_not_found() {
    let (session, _) = asked(move_entry(&config(), "a", "b"));
    assert_eq!(resume(session, Reply::Present(false)), failure(VaultError::EntryNotFound, ""));
}

#[test]
fn move_does_not_rename_onto_a_target_that_is_there() {
    let (session, _) = asked(move_entry(&config(), "a", "b"));
    let (session, _) = asked(resume(session, Reply::Present(true)));
    assert_eq!(resume(session, Reply::Present(true)), failure(VaultError::MoveFailed, "destination exists"));
}

#[test]
fn move_hands_on_why_the_rename_failed() {
    let (session, _) = asked(move_entry(&config(), "a", "b"));
    let (session, _) = asked(resume(session, Reply::Present(true)));
    let (session, _) = asked(resume(session, Reply::Present(false)));
    assert_eq!(
        resume(session, failed("Invalid cross-device link (os error 18)")),
        failure(VaultError::MoveFailed, "Invalid cross-device link (os error 18)")
    );
}

#[test]
fn parse_starts_the_operation_of_the_command() {
    let config = config();
    assert_eq!(
        parse(&fresh(), Command::Init { key_id: String::from("k") }),
        init(&fresh(), String::from("k"))
    );
    assert_eq!(parse(&config, Command::Create { name: String::from("a") }), create(&config, "a"));
    assert_eq!(parse(&config, Command::Get { name: String::from("a"), clip: true }), get(&config, "a", true));
    assert_eq!(parse(&config, Command::Get { name: String::from("a"), clip: false }), get(&config, "a", false));
    assert_eq!(parse(&config, Command::Edit { name: String::from("a") }), edit(&config, "a"));
    assert_eq!(parse(&config, Command::Rm { name: String::from("a") }), remove(&config, "a"));
    assert_eq!(
        parse(&config, Command::Mv { source: String::from("a"), target: String::from("b") }),
        move_entry(&config, "a", "b")
    );
    assert_eq!(
        parse(&config, Command::Edit { name: String::from("../a") }),
        failure(VaultError::InvalidName, "")
    );
}

#[test]
fn parse_gives_each_command_its_first_request() {
    let config = config();
    let (_, request) = asked(parse(&config, Command::Create { name: String::from("a") }));
    assert_eq!(request, Request::AskSecret);
    let (_, request) = asked(parse(&config, Command::Get { name: String::from("a"), clip: false }));
    assert_eq!(request, probe("/vault/a.gpg"));
    let (_, request) = asked(parse(&config, Command::Edit { name: String::from("a") }));
    assert_eq!(request, probe("/vault/a.gpg"));
    let (_, request) = asked(parse(&config, Command::Rm { name: String::from("a") }));
    assert_eq!(request, Request::AskConfirmation);
    let (_, request) = asked(parse(&config, Command::Mv { source: String::from("a"), target: String::from("b") }));
    assert_eq!(request, probe("/vault/a.gpg"));
}

#[test]
fn trim_newline_takes_off_one_line_feed() {
    assert_eq!(trim_newline(b"abc\n".to_vec()), b"abc".to_vec());
    assert_eq!(trim_newline(b"abc\n\n".to_vec()), b"abc\n".to_vec());
    assert_eq!(trim_newline(b"abc".to_vec()), b"abc".to_vec());
    assert_eq!(trim_newline(b"\nabc".to_vec()), b"\nabc".to_vec());
    assert_eq!(trim_newline(Vec::new()), Vec::<u8>::new());
}
