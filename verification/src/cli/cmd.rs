//! The operations on the vault: what each one asks for, and what it makes of
//! each reply.

use vstd::prelude::*;
use vstd::string::*;
use vstd::utf8::encode_utf8;
use crate::cli::{Config, ConfigView};
use crate::crypto::{generate_password, is_password_char, DEFAULT_LENGTH};
use crate::error::VaultError;
use crate::path::{attach, entry_path, resolve, scratch_path, scratch_path_of, valid_name};
use crate::session::{
    failed, finish_failed, finish_ok, succeeded, CreatePoint, EditPoint, GetPoint, InitPoint,
    MovePoint, Outcome, OutcomeView, Point, RemovePoint, Reply, ReplyView, Request, RequestView,
    Session, SessionView, Step, StepView,
};
use crate::text::chars_of;
use crate::util::{get_key_id, marker_name, marker_path};

verus! {

/// A session at `point` that carries nothing yet.
pub open spec fn blank(point: Point) -> SessionView {
    SessionView {
        point,
        entry: Seq::empty(),
        scratch: Seq::empty(),
        target: Seq::empty(),
        recipient: Seq::empty(),
        plaintext: Seq::empty(),
        clip: false,
        result: Ok(()),
        detail: Seq::empty(),
    }
}

/// The session `s`, moved on to `point`.
pub open spec fn at(s: SessionView, point: Point) -> SessionView {
    SessionView { point, ..s }
}

/// The operation ends with `error` and nothing more to say.
pub open spec fn refuse(error: VaultError) -> StepView {
    StepView::Finish(failed(error, Seq::empty()))
}

/// What the backend said of a failure: the text of a `Failed` reply, and
/// nothing for any other reply.
pub open spec fn detail_of(r: ReplyView) -> Seq<char> {
    match r {
        ReplyView::Failed(text) => text,
        _ => Seq::empty(),
    }
}

/// `content` without its last byte, if that is a line feed. Only one line
/// feed is taken off.
pub open spec fn trimmed(content: Seq<u8>) -> Seq<u8> {
    if content.len() > 0 && content.last() == 10u8 {
        content.drop_last()
    } else {
        content
    }
}

/// The answer that confirms a deletion: `y`.
pub open spec fn is_yes(answer: Seq<char>) -> bool {
    answer.len() == 1 && answer[0] == 'y'
}

/// The answers that decline a deletion: nothing at all, `n` and `N`.
pub open spec fn is_no(answer: Seq<char>) -> bool {
    answer.len() == 0 || (answer.len() == 1 && (answer[0] == 'n' || answer[0] == 'N'))
}

/// What is said of a move whose target is taken.
pub open spec fn occupied() -> Seq<char> {
    "destination exists"@
}

/// A password as it is generated where the user gives none.
pub open spec fn is_password(text: Seq<char>) -> bool {
    &&& text.len() == DEFAULT_LENGTH
    &&& forall|i: int| 0 <= i < text.len() ==> is_password_char(#[trigger] text[i])
}

/// `init` refuses a vault that has its marker, and otherwise asks for the
/// marker to be written.
pub open spec fn init_start(config: ConfigView, key_id: Seq<char>) -> StepView {
    if config.key_identity is Some {
        refuse(VaultError::AlreadyExists)
    } else {
        let marker = attach(config.vault_root, marker_name());
        StepView::Ask(
            SessionView { entry: marker, ..blank(Point::Init(InitPoint::Writing)) },
            RequestView::WriteMarker { path: marker, key_id },
        )
    }
}

/// `create` first asks for the secret.
pub open spec fn create_start(config: ConfigView, name: Seq<char>) -> StepView {
    match config.key_identity {
        None => refuse(VaultError::VaultNotInitialized),
        Some(recipient) => if !valid_name(name) {
            refuse(VaultError::InvalidName)
        } else {
            StepView::Ask(
                SessionView {
                    entry: entry_path(config.vault_root, name),
                    recipient,
                    ..blank(Point::Create(CreatePoint::Asking))
                },
                RequestView::AskSecret,
            )
        },
    }
}

/// `get` first asks whether the entry is there.
pub open spec fn get_start(config: ConfigView, name: Seq<char>, clip: bool) -> StepView {
    match config.key_identity {
        None => refuse(VaultError::VaultNotInitialized),
        Some(recipient) => if !valid_name(name) {
            refuse(VaultError::InvalidName)
        } else {
            let entry = entry_path(config.vault_root, name);
            StepView::Ask(
                SessionView { entry, recipient, clip, ..blank(Point::Get(GetPoint::Probing)) },
                RequestView::Probe { path: entry },
            )
        },
    }
}

/// `edit` first asks whether the entry is there.
pub open spec fn edit_start(config: ConfigView, name: Seq<char>) -> StepView {
    match config.key_identity {
        None => refuse(VaultError::VaultNotInitialized),
        Some(recipient) => if !valid_name(name) {
            refuse(VaultError::InvalidName)
        } else {
            let entry = entry_path(config.vault_root, name);
            StepView::Ask(
                SessionView {
                    entry,
                    scratch: scratch_path_of(config.scratch_root, name),
                    recipient,
                    ..blank(Point::Edit(EditPoint::Probing))
                },
                RequestView::Probe { path: entry },
            )
        },
    }
}

/// `remove` first asks the user whether the entry is to go.
pub open spec fn remove_start(config: ConfigView, name: Seq<char>) -> StepView {
    match config.key_identity {
        None => refuse(VaultError::VaultNotInitialized),
        Some(recipient) => if !valid_name(name) {
            refuse(VaultError::InvalidName)
        } else {
            StepView::Ask(
                SessionView {
                    entry: entry_path(config.vault_root, name),
                    recipient,
                    ..blank(Point::Remove(RemovePoint::Confirming))
                },
                RequestView::AskConfirmation,
            )
        },
    }
}

/// `move_entry` first asks whether the source is there.
pub open spec fn move_start(config: ConfigView, source: Seq<char>, target: Seq<char>) -> StepView {
    match config.key_identity {
        None => refuse(VaultError::VaultNotInitialized),
        Some(recipient) => if !valid_name(source) || !valid_name(target) {
            refuse(VaultError::InvalidName)
        } else {
            let entry = entry_path(config.vault_root, source);
            StepView::Ask(
                SessionView {
                    entry,
                    target: entry_path(config.vault_root, target),
                    recipient,
                    ..blank(Point::Move(MovePoint::ProbingSource))
                },
                RequestView::Probe { path: entry },
            )
        },
    }
}

/// What `create` makes of a reply. The secret is what the user typed, or
/// `generated` where the user typed nothing; it is written only once the
/// entry is known not to be there, and shown once it is written.
pub open spec fn create_next(
    s: SessionView,
    point: CreatePoint,
    r: ReplyView,
    generated: Seq<char>,
) -> StepView {
    match point {
        CreatePoint::Asking => {
            let secret = match r {
                ReplyView::Line(text) => if text.len() > 0 {
                    text
                } else {
                    generated
                },
                _ => generated,
            };
            StepView::Ask(
                SessionView {
                    plaintext: encode_utf8(secret),
                    ..at(s, Point::Create(CreatePoint::Probing))
                },
                RequestView::Probe { path: s.entry },
            )
        },
        CreatePoint::Probing => if r == ReplyView::Present(false) {
            StepView::Ask(
                at(s, Point::Create(CreatePoint::Encrypting)),
                RequestView::Encrypt {
                    plaintext: s.plaintext,
                    recipient: s.recipient,
                    destination: s.entry,
                },
            )
        } else {
            refuse(VaultError::AlreadyExists)
        },
        CreatePoint::Encrypting => if r == ReplyView::Done {
            StepView::Ask(
                at(s, Point::Create(CreatePoint::Revealing)),
                RequestView::Reveal { plaintext: s.plaintext, clip: false },
            )
        } else {
            StepView::Finish(failed(VaultError::EncryptionFailed, detail_of(r)))
        },
        CreatePoint::Revealing => StepView::Finish(succeeded()),
    }
}

/// What `get` makes of a reply.
pub open spec fn get_next(s: SessionView, point: GetPoint, r: ReplyView) -> StepView {
    match point {
        GetPoint::Probing => if r == ReplyView::Present(true) {
            StepView::Ask(
                at(s, Point::Get(GetPoint::Decrypting)),
                RequestView::Decrypt { source: s.entry },
            )
        } else {
            refuse(VaultError::EntryNotFound)
        },
        GetPoint::Decrypting => match r {
            ReplyView::Content(plaintext) => StepView::Ask(
                at(s, Point::Get(GetPoint::Revealing)),
                RequestView::Reveal { plaintext, clip: s.clip },
            ),
            _ => StepView::Finish(failed(VaultError::DecryptionFailed, detail_of(r))),
        },
        GetPoint::Revealing => StepView::Finish(succeeded()),
    }
}

/// `edit` goes on to remove its scratch file, keeping what it has come to.
pub open spec fn clean_up(s: SessionView, result: Result<(), VaultError>, detail: Seq<char>) -> StepView {
    StepView::Ask(
        SessionView { result, detail, ..at(s, Point::Edit(EditPoint::Cleaning)) },
        RequestView::RemoveScratch { path: s.scratch },
    )
}

/// What `edit` makes of a reply. Once it has asked for the scratch file,
/// every way on leads through the removal of that file; a removal that
/// failed is reported as a warning beside the result and never in its place.
pub open spec fn edit_next(s: SessionView, point: EditPoint, r: ReplyView) -> StepView {
    match point {
        EditPoint::Probing => if r == ReplyView::Present(true) {
            StepView::Ask(
                at(s, Point::Edit(EditPoint::Decrypting)),
                RequestView::DecryptInto { source: s.entry, scratch: s.scratch },
            )
        } else {
            refuse(VaultError::EntryNotFound)
        },
        EditPoint::Decrypting => if r == ReplyView::Done {
            StepView::Ask(
                at(s, Point::Edit(EditPoint::Editing)),
                RequestView::Edit { path: s.scratch },
            )
        } else {
            clean_up(s, Err(VaultError::DecryptionFailed), detail_of(r))
        },
        EditPoint::Editing => match r {
            ReplyView::Content(content) => StepView::Ask(
                at(s, Point::Edit(EditPoint::Encrypting)),
                RequestView::Encrypt {
                    plaintext: trimmed(content),
                    recipient: s.recipient,
                    destination: s.entry,
                },
            ),
            _ => clean_up(s, Err(VaultError::EditorFailed), detail_of(r)),
        },
        EditPoint::Encrypting => if r == ReplyView::Done {
            clean_up(s, Ok(()), Seq::empty())
        } else {
            clean_up(s, Err(VaultError::EncryptionFailed), detail_of(r))
        },
        EditPoint::Cleaning => StepView::Finish(
            OutcomeView {
                result: s.result,
                detail: s.detail,
                warning: if r == ReplyView::Done {
                    None
                } else {
                    Some(VaultError::CleanupFailed)
                },
            },
        ),
    }
}

/// What `remove` makes of a reply. Only the answer `y` leads on; a missing
/// answer counts as an empty one.
pub open spec fn remove_next(s: SessionView, point: RemovePoint, r: ReplyView) -> StepView {
    match point {
        RemovePoint::Confirming => match r {
            ReplyView::Line(answer) => if is_yes(answer) {
                StepView::Ask(
                    at(s, Point::Remove(RemovePoint::Probing)),
                    RequestView::Probe { path: s.entry },
                )
            } else if is_no(answer) {
                StepView::Finish(succeeded())
            } else {
                refuse(VaultError::InvalidConfirmation)
            },
            _ => StepView::Finish(succeeded()),
        },
        RemovePoint::Probing => if r == ReplyView::Present(true) {
            StepView::Ask(
                at(s, Point::Remove(RemovePoint::Removing)),
                RequestView::RemoveEntry { path: s.entry },
            )
        } else {
            refuse(VaultError::EntryNotFound)
        },
        RemovePoint::Removing => StepView::Finish(succeeded()),
    }
}

/// What `move_entry` makes of a reply. It renames only a source that is
/// there, and only to a target that is known to be free.
pub open spec fn move_next(s: SessionView, point: MovePoint, r: ReplyView) -> StepView {
    match point {
        MovePoint::ProbingSource => if r == ReplyView::Present(true) {
            StepView::Ask(
                at(s, Point::Move(MovePoint::ProbingTarget)),
                RequestView::Probe { path: s.target },
            )
        } else {
            refuse(VaultError::EntryNotFound)
        },
        MovePoint::ProbingTarget => if r == ReplyView::Present(false) {
            StepView::Ask(
                at(s, Point::Move(MovePoint::Renaming)),
                RequestView::Rename { from: s.entry, to: s.target },
            )
        } else {
            StepView::Finish(failed(VaultError::MoveFailed, occupied()))
        },
        MovePoint::Renaming => if r == ReplyView::Done {
            StepView::Finish(succeeded())
        } else {
            StepView::Finish(failed(VaultError::MoveFailed, detail_of(r)))
        },
    }
}

/// What the session `s` makes of the reply `r`, with `generated` as the
/// password for a `create` that was given none.
pub open spec fn next(s: SessionView, r: ReplyView, generated: Seq<char>) -> StepView {
    match s.point {
        Point::Init(_) => StepView::Finish(succeeded()),
        Point::Create(point) => create_next(s, point, r, generated),
        Point::Get(point) => get_next(s, point, r),
        Point::Edit(point) => edit_next(s, point, r),
        Point::Remove(point) => remove_next(s, point, r),
        Point::Move(point) => move_next(s, point, r),
    }
}

/// Whether the session `s` needs a generated password to go on from `r`:
/// it is a `create` that has asked for the secret and was given none.
pub open spec fn wants_password(s: SessionView, r: ReplyView) -> bool {
    s.point == Point::Create(CreatePoint::Asking) && match r {
        ReplyView::Line(text) => text.len() == 0,
        _ => true,
    }
}

fn blank_session(point: Point) -> (session: Session)
    ensures
        session@ == blank(point),
{
    Session {
        point,
        entry: String::new(),
        scratch: String::new(),
        target: String::new(),
        recipient: String::new(),
        plaintext: Vec::new(),
        clip: false,
        result: Ok(()),
        detail: String::new(),
    }
}

fn copy_bytes(bytes: &Vec<u8>) -> (out: Vec<u8>)
    ensures
        out@ == bytes@,
{
    let mut out: Vec<u8> = Vec::new();
    let mut i: usize = 0;
    while i < bytes.len()
        invariant
            i <= bytes.len(),
            out@ == bytes@.take(i as int),
        decreases bytes.len() - i,
    {
        out.push(bytes[i]);
        i += 1;
    }
    out
}

fn is_present(reply: &Reply, expected: bool) -> (b: bool)
    ensures
        b == (reply@ == ReplyView::Present(expected)),
{
    match reply {
        Reply::Present(present) => *present == expected,
        _ => false,
    }
}

fn is_done(reply: &Reply) -> (b: bool)
    ensures
        b == (reply@ == ReplyView::Done),
{
    match reply {
        Reply::Done => true,
        _ => false,
    }
}

fn take_detail(reply: Reply) -> (detail: String)
    ensures
        detail@ == detail_of(reply@),
{
    match reply {
        Reply::Failed(text) => text,
        _ => String::new(),
    }
}

/// Takes one line feed off the end of `content`, if there is one.
pub fn trim_newline(content: Vec<u8>) -> (out: Vec<u8>)
    ensures
        out@ == trimmed(content@),
{
    let mut content = content;
    let n = content.len();
    if n > 0 && content[n - 1] == 10u8 {
        content.pop();
    }
    content
}

/// The key identity and the entry file for `name`, or the refusal that an
/// operation on that entry starts with: of a vault without identity
/// marker first, then of a name that is not valid.
fn entry_of(config: &Config, name: &str) -> (out: Result<(String, String), VaultError>)
    ensures
        match config@.key_identity {
            None => out == Err::<(String, String), VaultError>(VaultError::VaultNotInitialized),
            Some(recipient) => if !valid_name(name@) {
                out == Err::<(String, String), VaultError>(VaultError::InvalidName)
            } else {
                out matches Ok(pair) && pair.0@ == recipient && pair.1@ == entry_path(
                    config@.vault_root,
                    name@,
                )
            },
        },
{
    let marker = match &config.key_identity {
        Some(text) => Some(text.clone()),
        None => None,
    };
    match get_key_id(marker) {
        Err(error) => Err(error),
        Ok(recipient) => match resolve(config.vault_root.as_str(), name) {
            Err(error) => Err(error),
            Ok(entry) => Ok((recipient, entry)),
        },
    }
}

/// Starts the making of a vault for the key `key_id`: a vault that has its
/// identity marker is refused with `AlreadyExists`; for any other, the
/// marker is to be written.
pub fn init(config: &Config, key_id: String) -> (step: Step)
    ensures
        step@ == init_start(config@, key_id@),
{
    if config.key_identity.is_some() {
        return finish_failed(VaultError::AlreadyExists, String::new());
    }
    let marker = marker_path(config.vault_root.as_str());
    let mut session = blank_session(Point::Init(InitPoint::Writing));
    session.entry = marker.clone();
    Step::Ask(session, Request::WriteMarker { path: marker, key_id })
}

/// Starts the storing of a new secret under `name`.
pub fn create(config: &Config, name: &str) -> (step: Step)
    ensures
        step@ == create_start(config@, name@),
{
    match entry_of(config, name) {
        Err(error) => finish_failed(error, String::new()),
        Ok((recipient, entry)) => {
            let mut session = blank_session(Point::Create(CreatePoint::Asking));
            session.entry = entry;
            session.recipient = recipient;
            Step::Ask(session, Request::AskSecret)
        },
    }
}

/// Starts the showing of the secret under `name`.
pub fn get(config: &Config, name: &str, clip: bool) -> (step: Step)
    ensures
        step@ == get_start(config@, name@, clip),
{
    match entry_of(config, name) {
        Err(error) => finish_failed(error, String::new()),
        Ok((recipient, entry)) => {
            let mut session = blank_session(Point::Get(GetPoint::Probing));
            session.entry = entry.clone();
            session.recipient = recipient;
            session.clip = clip;
            Step::Ask(session, Request::Probe { path: entry })
        },
    }
}

/// Starts the editing of the secret under `name`.
pub fn edit(config: &Config, name: &str) -> (step: Step)
    ensures
        step@ == edit_start(config@, name@),
{
    match entry_of(config, name) {
        Err(error) => finish_failed(error, String::new()),
        Ok((recipient, entry)) => match scratch_path(config.scratch_root.as_str(), name) {
            Err(error) => finish_failed(error, String::new()),
            Ok(scratch) => {
                let mut session = blank_session(Point::Edit(EditPoint::Probing));
                session.entry = entry.clone();
                session.scratch = scratch;
                session.recipient = recipient;
                Step::Ask(session, Request::Probe { path: entry })
            },
        },
    }
}

/// Starts the deletion of the entry `name`.
pub fn remove(config: &Config, name: &str) -> (step: Step)
    ensures
        step@ == remove_start(config@, name@),
{
    match entry_of(config, name) {
        Err(error) => finish_failed(error, String::new()),
        Ok((recipient, entry)) => {
            let mut session = blank_session(Point::Remove(RemovePoint::Confirming));
            session.entry = entry;
            session.recipient = recipient;
            Step::Ask(session, Request::AskConfirmation)
        },
    }
}

/// Starts the renaming of the entry `source` to `target`.
pub fn move_entry(config: &Config, source: &str, target: &str) -> (step: Step)
    ensures
        step@ == move_start(config@, source@, target@),
{
    match entry_of(config, source) {
        Err(error) => {
            finish_failed(error, String::new())
        },
        Ok((recipient, entry)) => match resolve(config.vault_root.as_str(), target) {
            Err(error) => finish_failed(error, String::new()),
            Ok(destination) => {
                let mut session = blank_session(Point::Move(MovePoint::ProbingSource));
                session.entry = entry.clone();
                session.target = destination;
                session.recipient = recipient;
                Step::Ask(session, Request::Probe { path: entry })
            },
        },
    }
}

fn resume_create(session: Session, point: CreatePoint, reply: Reply, generated: String) -> (step:
    Step)
    ensures
        step@ == create_next(session@, point, reply@, generated@),
{
    let mut session = session;
    match point {
        CreatePoint::Asking => {
            let secret = match reply {
                Reply::Line(text) => if !text.as_str().is_empty() {
                    text
                } else {
                    generated
                },
                _ => generated,
            };
            session.point = Point::Create(CreatePoint::Probing);
            session.plaintext = secret.as_str().as_bytes_vec();
            let request = Request::Probe { path: session.entry.clone() };
            Step::Ask(session, request)
        },
        CreatePoint::Probing => if is_present(&reply, false) {
            session.point = Point::Create(CreatePoint::Encrypting);
            let request = Request::Encrypt {
                plaintext: copy_bytes(&session.plaintext),
                recipient: session.recipient.clone(),
                destination: session.entry.clone(),
            };
            Step::Ask(session, request)
        } else {
            finish_failed(VaultError::AlreadyExists, String::new())
        },
        CreatePoint::Encrypting => if is_done(&reply) {
            session.point = Point::Create(CreatePoint::Revealing);
            let request = Request::Reveal { plaintext: copy_bytes(&session.plaintext), clip: false };
            Step::Ask(session, request)
        } else {
            finish_failed(VaultError::EncryptionFailed, take_detail(reply))
        },
        CreatePoint::Revealing => finish_ok(),
    }
}

fn resume_get(session: Session, point: GetPoint, reply: Reply) -> (step: Step)
    ensures
        step@ == get_next(session@, point, reply@),
{
    let mut session = session;
    match point {
        GetPoint::Probing => if is_present(&reply, true) {
            session.point = Point::Get(GetPoint::Decrypting);
            let request = Request::Decrypt { source: session.entry.clone() };
            Step::Ask(session, request)
        } else {
            finish_failed(VaultError::EntryNotFound, String::new())
        },
        GetPoint::Decrypting => match reply {
            Reply::Content(plaintext) => {
                session.point = Point::Get(GetPoint::Revealing);
                let clip = session.clip;
                Step::Ask(session, Request::Reveal { plaintext, clip })
            },
            other => finish_failed(VaultError::DecryptionFailed, take_detail(other)),
        },
        GetPoint::Revealing => finish_ok(),
    }
}

fn resume_clean_up(session: Session, result: Result<(), VaultError>, detail: String) -> (step: Step)
    ensures
        step@ == clean_up(session@, result, detail@),
{
    let mut session = session;
    session.point = Point::Edit(EditPoint::Cleaning);
    session.result = result;
    session.detail = detail;
    let request = Request::RemoveScratch { path: session.scratch.clone() };
    Step::Ask(session, request)
}

fn resume_edit(session: Session, point: EditPoint, reply: Reply) -> (step: Step)
    ensures
        step@ == edit_next(session@, point, reply@),
{
    let mut session = session;
    match point {
        EditPoint::Probing => if is_present(&reply, true) {
            session.point = Point::Edit(EditPoint::Decrypting);
            let request = Request::DecryptInto {
                source: session.entry.clone(),
                scratch: session.scratch.clone(),
            };
            Step::Ask(session, request)
        } else {
            finish_failed(VaultError::EntryNotFound, String::new())
        },
        EditPoint::Decrypting => if is_done(&reply) {
            session.point = Point::Edit(EditPoint::Editing);
            let request = Request::Edit { path: session.scratch.clone() };
            Step::Ask(session, request)
        } else {
            resume_clean_up(session, Err(VaultError::DecryptionFailed), take_detail(reply))
        },
        EditPoint::Editing => match reply {
            Reply::Content(content) => {
                session.point = Point::Edit(EditPoint::Encrypting);
                let request = Request::Encrypt {
                    plaintext: trim_newline(content),
                    recipient: session.recipient.clone(),
                    destination: session.entry.clone(),
                };
                Step::Ask(session, request)
            },
            other => resume_clean_up(session, Err(VaultError::EditorFailed), take_detail(other)),
        },
        EditPoint::Encrypting => if is_done(&reply) {
            resume_clean_up(session, Ok(()), String::new())
        } else {
            resume_clean_up(session, Err(VaultError::EncryptionFailed), take_detail(reply))
        },
        EditPoint::Cleaning => Step::Finish(
            Outcome {
                result: session.result,
                detail: session.detail,
                warning: if is_done(&reply) {
                    None
                } else {
                    Some(VaultError::CleanupFailed)
                },
            },
        ),
    }
}

fn resume_remove(session: Session, point: RemovePoint, reply: Reply) -> (step: Step)
    ensures
        step@ == remove_next(session@, point, reply@),
{
    let mut session = session;
    match point {
        RemovePoint::Confirming => match reply {
            Reply::Line(answer) => {
                let chars = chars_of(answer.as_str());
                if chars.len() == 1 && chars[0] == 'y' {
                    session.point = Point::Remove(RemovePoint::Probing);
                    let request = Request::Probe { path: session.entry.clone() };
                    Step::Ask(session, request)
                } else if chars.len() == 0 || (chars.len() == 1 && (chars[0] == 'n' || chars[0]
                    == 'N')) {
                    finish_ok()
                } else {
                    finish_failed(VaultError::InvalidConfirmation, String::new())
                }
            },
            _ => finish_ok(),
        },
        RemovePoint::Probing => if is_present(&reply, true) {
            session.point = Point::Remove(RemovePoint::Removing);
            let request = Request::RemoveEntry { path: session.entry.clone() };
            Step::Ask(session, request)
        } else {
            finish_failed(VaultError::EntryNotFound, String::new())
        },
        RemovePoint::Removing => finish_ok(),
    }
}

fn resume_move(session: Session, point: MovePoint, reply: Reply) -> (step: Step)
    ensures
        step@ == move_next(session@, point, reply@),
{
    let mut session = session;
    match point {
        MovePoint::ProbingSource => if is_present(&reply, true) {
            session.point = Point::Move(MovePoint::ProbingTarget);
            let request = Request::Probe { path: session.target.clone() };
            Step::Ask(session, request)
        } else {
            finish_failed(VaultError::EntryNotFound, String::new())
        },
        MovePoint::ProbingTarget => if is_present(&reply, false) {
            session.point = Point::Move(MovePoint::Renaming);
            let request = Request::Rename {
                from: session.entry.clone(),
                to: session.target.clone(),
            };
            Step::Ask(session, request)
        } else {
            finish_failed(VaultError::MoveFailed, String::from_str("destination exists"))
        },
        MovePoint::Renaming => if is_done(&reply) {
            finish_ok()
        } else {
            finish_failed(VaultError::MoveFailed, take_detail(reply))
        },
    }
}

/// Goes on with `session` from `reply`, with `generated` as the password
/// for a `create` that was given no secret.
pub fn resume_with(session: Session, reply: Reply, generated: String) -> (step: Step)
    ensures
        step@ == next(session@, reply@, generated@),
{
    match session.point {
        Point::Init(_) => finish_ok(),
        Point::Create(point) => resume_create(session, point, reply, generated),
        Point::Get(point) => resume_get(session, point, reply),
        Point::Edit(point) => resume_edit(session, point, reply),
        Point::Remove(point) => resume_remove(session, point, reply),
        Point::Move(point) => resume_move(session, point, reply),
    }
}

fn needs_password(session: &Session, reply: &Reply) -> (b: bool)
    ensures
        b == wants_password(session@, reply@),
{
    match session.point {
        Point::Create(CreatePoint::Asking) => match reply {
            Reply::Line(text) => text.as_str().is_empty(),
            _ => true,
        },
        _ => false,
    }
}

/// Goes on with `session` from `reply`. A `create` that was given no secret
/// gets a password that is generated here; nothing else is left to chance.
pub fn resume(session: Session, reply: Reply) -> (step: Step)
    ensures
        !wants_password(session@, reply@) ==> step@ == next(session@, reply@, Seq::empty()),
        wants_password(session@, reply@) ==> exists|generated: Seq<char>| #[trigger]
            is_password(generated) && step@ == next(session@, reply@, generated),
{
    if needs_password(&session, &reply) {
        let generated = generate_password(DEFAULT_LENGTH);
        assert(is_password(generated@));
        resume_with(session, reply, generated)
    } else {
        resume_with(session, reply, String::new())
    }
}

} // verus!
