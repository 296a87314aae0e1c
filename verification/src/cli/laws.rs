//! What holds of every run of an operation, whatever the replies are.

use vstd::prelude::*;
use crate::cli::cmd::{
    clean_up, create_start, edit_start, get_start, is_no, is_yes, move_start, next, refuse,
    remove_start, trimmed,
};
use crate::cli::ConfigView;
use crate::error::VaultError;
use crate::path::laws::lemma_entry_path_injective;
use crate::path::{entry_path, scratch_path_of, valid_name};
use crate::session::{
    succeeded, CreatePoint, EditPoint, GetPoint, MovePoint, Point, RemovePoint, ReplyView,
    RequestView, SessionView, StepView,
};

verus! {

/// The requests that are made from `step` on while the replies come in, in
/// the order in which they are made. The first is the one that `step` holds;
/// each reply but the last is followed by one more, until the session ends.
pub open spec fn requests_made(step: StepView, replies: Seq<ReplyView>, generated: Seq<char>) -> Seq<
    RequestView,
>
    decreases replies.len(),
{
    match step {
        StepView::Finish(_) => Seq::empty(),
        StepView::Ask(s, q) => if replies.len() == 0 {
            seq![q]
        } else {
            seq![q] + requests_made(next(s, replies[0], generated), replies.drop_first(), generated)
        },
    }
}

/// The step that is reached from `step` once the replies have come in. A
/// session that has ended stays as it is.
pub open spec fn reached(step: StepView, replies: Seq<ReplyView>, generated: Seq<char>) -> StepView
    decreases replies.len(),
{
    match step {
        StepView::Finish(_) => step,
        StepView::Ask(s, _) => if replies.len() == 0 {
            step
        } else {
            reached(next(s, replies[0], generated), replies.drop_first(), generated)
        },
    }
}

/// The number of replies after which a session at `point` has ended at the
/// latest.
pub open spec fn replies_left(point: Point) -> nat {
    match point {
        Point::Init(_) => 1,
        Point::Create(CreatePoint::Asking) => 4,
        Point::Create(CreatePoint::Probing) => 3,
        Point::Create(CreatePoint::Encrypting) => 2,
        Point::Create(CreatePoint::Revealing) => 1,
        Point::Get(GetPoint::Probing) => 3,
        Point::Get(GetPoint::Decrypting) => 2,
        Point::Get(GetPoint::Revealing) => 1,
        Point::Edit(EditPoint::Probing) => 5,
        Point::Edit(EditPoint::Decrypting) => 4,
        Point::Edit(EditPoint::Editing) => 3,
        Point::Edit(EditPoint::Encrypting) => 2,
        Point::Edit(EditPoint::Cleaning) => 1,
        Point::Remove(RemovePoint::Confirming) => 3,
        Point::Remove(RemovePoint::Probing) => 2,
        Point::Remove(RemovePoint::Removing) => 1,
        Point::Move(MovePoint::ProbingSource) => 3,
        Point::Move(MovePoint::ProbingTarget) => 2,
        Point::Move(MovePoint::Renaming) => 1,
    }
}

/// Every session ends, whatever the replies are: each reply brings it
/// closer to its end, and none takes it back.
pub proof fn lemma_session_ends(
    s: SessionView,
    q: RequestView,
    replies: Seq<ReplyView>,
    generated: Seq<char>,
)
    requires
        replies.len() >= replies_left(s.point),
    ensures
        reached(StepView::Ask(s, q), replies, generated) is Finish,
    decreases replies.len(),
{
    let then = next(s, replies[0], generated);
    assert(reached(StepView::Ask(s, q), replies, generated) == reached(
        then,
        replies.drop_first(),
        generated,
    ));
    match then {
        StepView::Finish(_) => {
            assert(reached(then, replies.drop_first(), generated) == then);
        },
        StepView::Ask(s2, q2) => {
            assert(replies_left(s2.point) < replies_left(s.point));
            lemma_session_ends(s2, q2, replies.drop_first(), generated);
        },
    }
}

/// The request that an `edit` at `point` has made, as far as the scratch
/// file is concerned.
pub open spec fn edit_awaits(s: SessionView, point: EditPoint, q: RequestView) -> bool {
    match point {
        EditPoint::Probing => q is Probe,
        EditPoint::Decrypting => q == (RequestView::DecryptInto {
            source: s.entry,
            scratch: s.scratch,
        }),
        EditPoint::Editing => q == (RequestView::Edit { path: s.scratch }),
        EditPoint::Encrypting => q is Encrypt,
        EditPoint::Cleaning => q == (RequestView::RemoveScratch { path: s.scratch }),
    }
}

/// From any point of an `edit`: if the session ends, then the last thing it
/// asked for is the removal of its scratch file, unless it never asked for
/// that file at all.
pub proof fn lemma_edit_run(
    s: SessionView,
    point: EditPoint,
    q: RequestView,
    replies: Seq<ReplyView>,
    generated: Seq<char>,
)
    requires
        s.point == Point::Edit(point),
        edit_awaits(s, point, q),
        reached(StepView::Ask(s, q), replies, generated) is Finish,
    ensures
        ({
            let made = requests_made(StepView::Ask(s, q), replies, generated);
            &&& made.len() > 0
            &&& made.last() == (RequestView::RemoveScratch { path: s.scratch }) || (point
                == EditPoint::Probing && forall|i: int|
                0 <= i < made.len() ==> !(#[trigger] made[i] is DecryptInto))
        }),
    decreases replies.len(),
{
    let made = requests_made(StepView::Ask(s, q), replies, generated);
    assert(replies.len() > 0);
    let then = next(s, replies[0], generated);
    let rest = replies.drop_first();
    let later = requests_made(then, rest, generated);
    assert(made == seq![q] + later);
    match then {
        StepView::Finish(_) => {
            assert(later =~= Seq::empty());
            assert(made =~= seq![q]);
        },
        StepView::Ask(s2, q2) => {
            let point2 = s2.point->Edit_0;
            assert(s2.point == Point::Edit(point2));
            assert(s2.scratch == s.scratch);
            assert(edit_awaits(s2, point2, q2));
            assert(point2 != EditPoint::Probing);
            lemma_edit_run(s2, point2, q2, rest, generated);
            assert(made.last() == later.last());
        },
    }
}

/// Whatever the replies to an `edit` are: if the session ends and it has
/// asked for its scratch file to be made, then the last thing it asked for
/// is the removal of that file.
pub proof fn lemma_edit_removes_scratch(
    config: ConfigView,
    name: Seq<char>,
    replies: Seq<ReplyView>,
    generated: Seq<char>,
)
    requires
        reached(edit_start(config, name), replies, generated) is Finish,
    ensures
        ({
            let made = requests_made(edit_start(config, name), replies, generated);
            ||| forall|i: int| 0 <= i < made.len() ==> !(#[trigger] made[i] is DecryptInto)
            ||| made.len() > 0 && made.last() == (RequestView::RemoveScratch {
                path: scratch_path_of(config.scratch_root, name),
            })
        }),
{
    match edit_start(config, name) {
        StepView::Finish(_) => {},
        StepView::Ask(s, q) => {
            lemma_edit_run(s, EditPoint::Probing, q, replies, generated);
        },
    }
}

/// What an `edit` has come to is what it ends with: the reply to the
/// removal of the scratch file decides the warning and nothing else.
pub proof fn lemma_edit_keeps_result(s: SessionView, r: ReplyView, generated: Seq<char>)
    requires
        s.point == Point::Edit(EditPoint::Cleaning),
    ensures
        next(s, r, generated) matches StepView::Finish(outcome) && outcome.result == s.result
            && outcome.detail == s.detail && outcome.warning == (if r == ReplyView::Done {
            None
        } else {
            Some(VaultError::CleanupFailed)
        }),
{
}

/// One line feed at the end is taken off, and nothing else is changed: text
/// that does not end in a line feed stays as it is, and text that was given
/// one more line feed is the text again.
pub proof fn lemma_trimmed(content: Seq<u8>)
    ensures
        content.len() == 0 || content.last() != 10u8 ==> trimmed(content) == content,
        trimmed(content.push(10u8)) == content,
{
    assert(content.push(10u8).drop_last() =~= content);
}

/// An editor that leaves the scratch file as it found it leaves the entry's
/// plaintext as it was: what is encrypted over the entry is the text that
/// was decrypted, for every text that does not end in a line feed.
pub proof fn lemma_edit_unchanged(s: SessionView, plaintext: Seq<u8>, generated: Seq<char>)
    requires
        s.point == Point::Edit(EditPoint::Editing),
        plaintext.len() == 0 || plaintext.last() != 10u8,
    ensures
        next(s, ReplyView::Content(plaintext), generated) matches StepView::Ask(
            _,
            RequestView::Encrypt { plaintext: written, recipient, destination },
        ) && written == plaintext && recipient == s.recipient && destination == s.entry,
{
}

/// A deletion goes by the answer alone. The answers `n`, `N` and the empty
/// one end the session well with nothing asked for; any answer but those
/// and `y` ends it with `InvalidConfirmation`, again with nothing asked
/// for; and after `y` the entry is deleted if it is there, and
/// `EntryNotFound` is the end if it is not.
pub proof fn lemma_remove_by_answer(
    config: ConfigView,
    name: Seq<char>,
    answer: Seq<char>,
    present: bool,
    generated: Seq<char>,
)
    requires
        config.key_identity is Some,
        valid_name(name),
    ensures
        ({
            let first = remove_start(config, name);
            let entry = entry_path(config.vault_root, name);
            let answered = seq![ReplyView::Line(answer)];
            let probed = seq![ReplyView::Line(answer), ReplyView::Present(present)];
            &&& is_no(answer) ==> reached(first, answered, generated) == StepView::Finish(
                succeeded(),
            ) && requests_made(first, answered, generated) == seq![RequestView::AskConfirmation]
            &&& !is_no(answer) && !is_yes(answer) ==> reached(first, answered, generated) == refuse(
                VaultError::InvalidConfirmation,
            ) && requests_made(first, answered, generated) == seq![RequestView::AskConfirmation]
            &&& is_yes(answer) && present ==> requests_made(first, probed, generated) == seq![
                RequestView::AskConfirmation,
                RequestView::Probe { path: entry },
                RequestView::RemoveEntry { path: entry },
            ]
            &&& is_yes(answer) && !present ==> reached(first, probed, generated) == refuse(
                VaultError::EntryNotFound,
            ) && requests_made(first, probed, generated) == seq![
                RequestView::AskConfirmation,
                RequestView::Probe { path: entry },
            ]
        }),
{
    reveal_with_fuel(requests_made, 3);
    reveal_with_fuel(reached, 3);
    let first = remove_start(config, name);
    let entry = entry_path(config.vault_root, name);
    let answered = seq![ReplyView::Line(answer)];
    let probed = seq![ReplyView::Line(answer), ReplyView::Present(present)];
    assert(answered.drop_first() =~= Seq::empty());
    assert(probed.drop_first() =~= seq![ReplyView::Present(present)]);
    assert(probed.drop_first().drop_first() =~= Seq::empty());
    if is_no(answer) || !is_yes(answer) {
        assert(requests_made(first, answered, generated) =~= seq![RequestView::AskConfirmation]);
    } else if present {
        assert(requests_made(first, probed, generated) =~= seq![
            RequestView::AskConfirmation,
            RequestView::Probe { path: entry },
            RequestView::RemoveEntry { path: entry },
        ]);
    } else {
        assert(requests_made(first, probed, generated) =~= seq![
            RequestView::AskConfirmation,
            RequestView::Probe { path: entry },
        ]);
    }
}

/// A `create` writes nothing over an entry that is there: unless the reply
/// to its probe says that there is no file, the session ends with
/// `AlreadyExists`, and all it has asked for is the secret and the probe.
pub proof fn lemma_create_keeps_existing(
    config: ConfigView,
    name: Seq<char>,
    secret: ReplyView,
    probe: ReplyView,
    generated: Seq<char>,
)
    requires
        config.key_identity is Some,
        valid_name(name),
        probe != ReplyView::Present(false),
    ensures
        ({
            let first = create_start(config, name);
            let replies = seq![secret, probe];
            &&& reached(first, replies, generated) == refuse(VaultError::AlreadyExists)
            &&& requests_made(first, replies, generated) == seq![
                RequestView::AskSecret,
                RequestView::Probe { path: entry_path(config.vault_root, name) },
            ]
        }),
{
    reveal_with_fuel(requests_made, 3);
    reveal_with_fuel(reached, 3);
    let first = create_start(config, name);
    let replies = seq![secret, probe];
    assert(replies.drop_first() =~= seq![probe]);
    assert(replies.drop_first().drop_first() =~= Seq::empty());
    assert(requests_made(first, replies, generated) =~= seq![
        RequestView::AskSecret,
        RequestView::Probe { path: entry_path(config.vault_root, name) },
    ]);
}

/// In every `create`, whatever the replies: an envelope is written only
/// straight after a probe of its destination that found no file there.
pub proof fn lemma_create_writes_after_probe(s: SessionView, r: ReplyView, generated: Seq<char>)
    requires
        s.point is Create,
        next(s, r, generated) matches StepView::Ask(_, q) && q is Encrypt,
    ensures
        s.point == Point::Create(CreatePoint::Probing),
        r == ReplyView::Present(false),
        next(s, r, generated) matches StepView::Ask(_, RequestView::Encrypt { destination, .. })
            && destination == s.entry,
{
}

/// A move of `source` to `target` renames the file that `get` of `source`
/// would have read to the file that `get` of `target` reads afterwards, and
/// the two are different files where the names differ. So `get` of `target`
/// then decrypts what was stored under `source`, and `get` of `source`,
/// finding no file, ends with `EntryNotFound`.
pub proof fn lemma_move_then_get(
    config: ConfigView,
    source: Seq<char>,
    target: Seq<char>,
    clip: bool,
    generated: Seq<char>,
)
    requires
        config.key_identity is Some,
        valid_name(source),
        valid_name(target),
        source != target,
    ensures
        ({
            let from = entry_path(config.vault_root, source);
            let to = entry_path(config.vault_root, target);
            let there = ReplyView::Present(true);
            let free = ReplyView::Present(false);
            &&& from != to
            &&& requests_made(move_start(config, source, target), seq![there, free], generated)
                == seq![
                RequestView::Probe { path: from },
                RequestView::Probe { path: to },
                RequestView::Rename { from, to },
            ]
            &&& reached(
                move_start(config, source, target),
                seq![there, free, ReplyView::Done],
                generated,
            ) == StepView::Finish(succeeded())
            &&& requests_made(get_start(config, target, clip), seq![there], generated) == seq![
                RequestView::Probe { path: to },
                RequestView::Decrypt { source: to },
            ]
            &&& reached(get_start(config, source, clip), seq![free], generated) == refuse(
                VaultError::EntryNotFound,
            )
            &&& requests_made(get_start(config, source, clip), seq![free], generated) == seq![
                RequestView::Probe { path: from },
            ]
        }),
{
    reveal_with_fuel(requests_made, 4);
    reveal_with_fuel(reached, 4);
    let from = entry_path(config.vault_root, source);
    let to = entry_path(config.vault_root, target);
    let there = ReplyView::Present(true);
    let free = ReplyView::Present(false);
    if from == to {
        lemma_entry_path_injective(config.vault_root, source, target);
    }
    let two = seq![there, free];
    let three = seq![there, free, ReplyView::Done];
    assert(two.drop_first() =~= seq![free]);
    assert(two.drop_first().drop_first() =~= Seq::empty());
    assert(three.drop_first() =~= seq![free, ReplyView::Done]);
    assert(three.drop_first().drop_first() =~= seq![ReplyView::Done]);
    assert(three.drop_first().drop_first().drop_first() =~= Seq::empty());
    assert(seq![there].drop_first() =~= Seq::empty());
    assert(seq![free].drop_first() =~= Seq::empty());
    assert(requests_made(move_start(config, source, target), two, generated) =~= seq![
        RequestView::Probe { path: from },
        RequestView::Probe { path: to },
        RequestView::Rename { from, to },
    ]);
    assert(requests_made(get_start(config, target, clip), seq![there], generated) =~= seq![
        RequestView::Probe { path: to },
        RequestView::Decrypt { source: to },
    ]);
    assert(requests_made(get_start(config, source, clip), seq![free], generated) =~= seq![
        RequestView::Probe { path: from },
    ]);
}

/// A `get` changes nothing on disk: all that it ever asks for is a probe,
/// a decryption and the showing of the plaintext.
pub proof fn lemma_get_writes_nothing(
    config: ConfigView,
    name: Seq<char>,
    clip: bool,
    s: SessionView,
    r: ReplyView,
    generated: Seq<char>,
)
    ensures
        get_start(config, name, clip) matches StepView::Ask(first, q) ==> first.point is Get
            && q is Probe,
        s.point is Get ==> (next(s, r, generated) matches StepView::Ask(then, q) ==> then.point
            is Get && (q is Decrypt || q is Reveal)),
{
}

/// A move never renames onto a file that is there: the rename is asked for
/// only straight after a probe of the target that found no file.
pub proof fn lemma_move_keeps_target(s: SessionView, r: ReplyView, generated: Seq<char>)
    requires
        s.point is Move,
        next(s, r, generated) matches StepView::Ask(_, q) && q is Rename,
    ensures
        r == ReplyView::Present(false),
        next(s, r, generated) matches StepView::Ask(_, RequestView::Rename { from, to }) && from
            == s.entry && to == s.target,
{
}

} // verus!
