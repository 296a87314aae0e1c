//! The conversation between the vault's logic and the world around it.
//!
//! An operation on the vault is a session. The logic never touches a file, a
//! terminal or the encryption backend: it hands out one `Request` at a time,
//! is told what came of it in a `Reply`, and decides what follows, until it
//! ends the session with an `Outcome`.

use vstd::prelude::*;
use crate::error::VaultError;

verus! {

/// `init` has asked for the identity marker to be written.
#[derive(Clone, Copy, Debug, PartialEq, Eq, Structural)]
pub enum InitPoint {
    Writing,
}

/// How far `create` has come: what it has asked for last.
#[derive(Clone, Copy, Debug, PartialEq, Eq, Structural)]
pub enum CreatePoint {
    /// The secret to store.
    Asking,
    /// Whether the entry is there already.
    Probing,
    /// The encryption of the secret.
    Encrypting,
    /// The secret to be shown.
    Revealing,
}

/// How far `get` has come: what it has asked for last.
#[derive(Clone, Copy, Debug, PartialEq, Eq, Structural)]
pub enum GetPoint {
    /// Whether the entry is there.
    Probing,
    /// The entry's plaintext.
    Decrypting,
    /// The plaintext to be shown.
    Revealing,
}

/// How far `edit` has come: what it has asked for last.
#[derive(Clone, Copy, Debug, PartialEq, Eq, Structural)]
pub enum EditPoint {
    /// Whether the entry is there.
    Probing,
    /// The entry decrypted into the scratch file.
    Decrypting,
    /// The editor run on the scratch file.
    Editing,
    /// The edited text encrypted over the entry.
    Encrypting,
    /// The scratch file removed.
    Cleaning,
}

/// How far `remove` has come: what it has asked for last.
#[derive(Clone, Copy, Debug, PartialEq, Eq, Structural)]
pub enum RemovePoint {
    /// Whether the user means it.
    Confirming,
    /// Whether the entry is there.
    Probing,
    /// The entry deleted.
    Removing,
}

/// How far `move_entry` has come: what it has asked for last.
#[derive(Clone, Copy, Debug, PartialEq, Eq, Structural)]
pub enum MovePoint {
    /// Whether the source is there.
    ProbingSource,
    /// Whether the target is taken.
    ProbingTarget,
    /// The source renamed to the target.
    Renaming,
}

/// The operation that a session runs, and how far it has come.
#[derive(Clone, Copy, Debug, PartialEq, Eq, Structural)]
pub enum Point {
    Init(InitPoint),
    Create(CreatePoint),
    Get(GetPoint),
    Edit(EditPoint),
    Remove(RemovePoint),
    Move(MovePoint),
}

/// A running operation: where it stands and what it carries along. A field
/// that the operation has no use for is empty.
#[derive(Debug, PartialEq, Eq)]
pub struct Session {
    /// Where the operation stands.
    pub point: Point,
    /// The file of the entry that the operation is about; for `init`, the
    /// identity marker.
    pub entry: String,
    /// The scratch file of an `edit`.
    pub scratch: String,
    /// The file that a `move_entry` renames the entry to.
    pub target: String,
    /// The key identity that new envelopes are encrypted to.
    pub recipient: String,
    /// The secret that `create` stores.
    pub plaintext: Vec<u8>,
    /// Whether `get` copies the secret in place of printing it.
    pub clip: bool,
    /// What an `edit` has come to while its scratch file is still to be
    /// removed.
    pub result: Result<(), VaultError>,
    /// What the backend had to say of a failure.
    pub detail: String,
}

/// A `Session` as the contracts see it.
pub struct SessionView {
    pub point: Point,
    pub entry: Seq<char>,
    pub scratch: Seq<char>,
    pub target: Seq<char>,
    pub recipient: Seq<char>,
    pub plaintext: Seq<u8>,
    pub clip: bool,
    pub result: Result<(), VaultError>,
    pub detail: Seq<char>,
}

impl View for Session {
    type V = SessionView;

    open spec fn view(&self) -> SessionView {
        SessionView {
            point: self.point,
            entry: self.entry@,
            scratch: self.scratch@,
            target: self.target@,
            recipient: self.recipient@,
            plaintext: self.plaintext@,
            clip: self.clip,
            result: self.result,
            detail: self.detail@,
        }
    }
}

/// What the logic asks the world to do next. Each request is answered by
/// one `Reply`.
#[derive(Debug, PartialEq, Eq)]
pub enum Request {
    /// Say whether there is a file at `path`. Answered by `Present`.
    Probe { path: String },
    /// Ask the user, without echo, for the secret to store. Answered by
    /// `Line`.
    AskSecret,
    /// Ask the user whether the entry is to be deleted. Answered by `Line`.
    AskConfirmation,
    /// Create the directories above `path` and write `key_id` to the file.
    /// Answered by `Done`.
    WriteMarker { path: String, key_id: String },
    /// Encrypt `plaintext` to `recipient` and put the whole envelope at
    /// `destination`, readable by its owner alone, creating the directories
    /// above it. Answered by `Done` or `Failed`.
    Encrypt { plaintext: Vec<u8>, recipient: String, destination: String },
    /// Decrypt the envelope at `source`. Answered by `Content` or `Failed`.
    Decrypt { source: String },
    /// Create the file `scratch`, readable by its owner alone, with the
    /// directories above it, and decrypt the envelope at `source` into it.
    /// Answered by `Done` or `Failed`.
    DecryptInto { source: String, scratch: String },
    /// Run the editor on the file at `path`, wait for it to end, and read
    /// what the file then holds. Answered by `Content` or `Failed`.
    Edit { path: String },
    /// Remove the scratch file at `path`. Answered by `Done` or `Failed`.
    RemoveScratch { path: String },
    /// Delete the entry file at `path`. Answered by `Done`.
    RemoveEntry { path: String },
    /// Create the directories above `to` and rename `from` to `to`.
    /// Answered by `Done` or `Failed`.
    Rename { from: String, to: String },
    /// Hand `plaintext` to the user: on the clipboard if `clip`, else on the
    /// output. Answered by `Done`.
    Reveal { plaintext: Vec<u8>, clip: bool },
}

/// A `Request` as the contracts see it.
pub enum RequestView {
    Probe { path: Seq<char> },
    AskSecret,
    AskConfirmation,
    WriteMarker { path: Seq<char>, key_id: Seq<char> },
    Encrypt { plaintext: Seq<u8>, recipient: Seq<char>, destination: Seq<char> },
    Decrypt { source: Seq<char> },
    DecryptInto { source: Seq<char>, scratch: Seq<char> },
    Edit { path: Seq<char> },
    RemoveScratch { path: Seq<char> },
    RemoveEntry { path: Seq<char> },
    Rename { from: Seq<char>, to: Seq<char> },
    Reveal { plaintext: Seq<u8>, clip: bool },
}

impl View for Request {
    type V = RequestView;

    open spec fn view(&self) -> RequestView {
        match *self {
            Request::Probe { path } => RequestView::Probe { path: path@ },
            Request::AskSecret => RequestView::AskSecret,
            Request::AskConfirmation => RequestView::AskConfirmation,
            Request::WriteMarker { path, key_id } => RequestView::WriteMarker {
                path: path@,
                key_id: key_id@,
            },
            Request::Encrypt { plaintext, recipient, destination } => RequestView::Encrypt {
                plaintext: plaintext@,
                recipient: recipient@,
                destination: destination@,
            },
            Request::Decrypt { source } => RequestView::Decrypt { source: source@ },
            Request::DecryptInto { source, scratch } => RequestView::DecryptInto {
                source: source@,
                scratch: scratch@,
            },
            Request::Edit { path } => RequestView::Edit { path: path@ },
            Request::RemoveScratch { path } => RequestView::RemoveScratch { path: path@ },
            Request::RemoveEntry { path } => RequestView::RemoveEntry { path: path@ },
            Request::Rename { from, to } => RequestView::Rename { from: from@, to: to@ },
            Request::Reveal { plaintext, clip } => RequestView::Reveal {
                plaintext: plaintext@,
                clip,
            },
        }
    }
}

/// What came of a request.
#[derive(Debug, PartialEq, Eq)]
pub enum Reply {
    /// Whether the file is there.
    Present(bool),
    /// What the user typed, without the end of the line.
    Line(String),
    /// The bytes that were read or decrypted.
    Content(Vec<u8>),
    /// The request was carried out.
    Done,
    /// The request failed; the text is what the backend said of it.
    Failed(String),
}

/// A `Reply` as the contracts see it.
pub enum ReplyView {
    Present(bool),
    Line(Seq<char>),
    Content(Seq<u8>),
    Done,
    Failed(Seq<char>),
}

impl View for Reply {
    type V = ReplyView;

    open spec fn view(&self) -> ReplyView {
        match *self {
            Reply::Present(present) => ReplyView::Present(present),
            Reply::Line(text) => ReplyView::Line(text@),
            Reply::Content(bytes) => ReplyView::Content(bytes@),
            Reply::Done => ReplyView::Done,
            Reply::Failed(text) => ReplyView::Failed(text@),
        }
    }
}

/// How an operation ended.
#[derive(Debug, PartialEq, Eq)]
pub struct Outcome {
    /// Whether the operation did what it was asked to, and if not, why.
    pub result: Result<(), VaultError>,
    /// What the backend had to say of the failure, if anything.
    pub detail: String,
    /// What went wrong beside that, if anything: `CleanupFailed` where a
    /// scratch file could not be removed. A warning comes beside `result`
    /// and never in its place.
    pub warning: Option<VaultError>,
}

/// An `Outcome` as the contracts see it.
pub struct OutcomeView {
    pub result: Result<(), VaultError>,
    pub detail: Seq<char>,
    pub warning: Option<VaultError>,
}

impl View for Outcome {
    type V = OutcomeView;

    open spec fn view(&self) -> OutcomeView {
        OutcomeView {
            result: self.result,
            detail: self.detail@,
            warning: self.warning,
        }
    }
}

/// What the logic decides: to go on with a request, or to end.
#[derive(Debug, PartialEq, Eq)]
pub enum Step {
    /// The session goes on: carry out the request and come back with the
    /// reply.
    Ask(Session, Request),
    /// The session is over.
    Finish(Outcome),
}

/// A `Step` as the contracts see it.
pub enum StepView {
    Ask(SessionView, RequestView),
    Finish(OutcomeView),
}

impl View for Step {
    type V = StepView;

    open spec fn view(&self) -> StepView {
        match *self {
            Step::Ask(session, request) => StepView::Ask(session@, request@),
            Step::Finish(outcome) => StepView::Finish(outcome@),
        }
    }
}

/// The outcome of an operation that did what it was asked to.
pub open spec fn succeeded() -> OutcomeView {
    OutcomeView { result: Ok(()), detail: Seq::empty(), warning: None }
}

/// The outcome of an operation that failed with `error`, of which the
/// backend said `detail`.
pub open spec fn failed(error: VaultError, detail: Seq<char>) -> OutcomeView {
    OutcomeView { result: Err(error), detail, warning: None }
}

/// The session ends well.
pub fn finish_ok() -> (step: Step)
    ensures
        step@ == StepView::Finish(succeeded()),
{
    Step::Finish(Outcome { result: Ok(()), detail: String::new(), warning: None })
}

/// The session ends with `error`, of which the backend said `detail`.
pub fn finish_failed(error: VaultError, detail: String) -> (step: Step)
    ensures
        step@ == StepView::Finish(failed(error, detail@)),
{
    Step::Finish(Outcome { result: Err(error), detail, warning: None })
}

} // verus!
