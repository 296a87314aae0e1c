//! What holds of splitting, walking and canonical forms.

use vstd::prelude::*;
use crate::path::{
    apart, attach, base_of, canonical, climb, entry_path, extension, free_of, is_absolute, is_dot, is_dotdot,
    is_plain, is_strictly_inside, join, relative_steps, scratch_path_of, settled, split, steps,
    valid_name, walk,
};

verus! {

/// A text always has a first segment, and no segment holds a `/`.
pub proof fn lemma_split_segments(s: Seq<char>)
    ensures
        split(s).len() >= 1,
        forall|i: int| 0 <= i < split(s).len() ==> free_of(#[trigger] split(s)[i], '/'),
    decreases s.len(),
{
    if s.len() > 0 {
        lemma_split_segments(s.drop_last());
    }
}

/// An absolute path starts with an empty segment, followed by at least one more.
pub proof fn lemma_split_absolute(s: Seq<char>)
    requires
        is_absolute(s),
    ensures
        split(s).len() >= 2,
        split(s)[0].len() == 0,
    decreases s.len(),
{
    if s.len() > 1 {
        assert(s.drop_last()[0] == s[0]);
        lemma_split_absolute(s.drop_last());
    } else {
        reveal_with_fuel(split, 2);
        assert(s.drop_last().len() == 0);
    }
}

/// Following a single empty segment leads nowhere.
pub proof fn lemma_walk_empty_segment(rooted: bool)
    ensures
        walk(Seq::empty(), seq![Seq::<char>::empty()], rooted) == Seq::<Seq<char>>::empty(),
{
    reveal_with_fuel(walk, 2);
    assert(seq![Seq::<char>::empty()].drop_last() =~= Seq::<Seq<char>>::empty());
}

/// Text without a `/`, put behind `s`, lengthens the last segment of `s`.
pub proof fn lemma_split_suffix(s: Seq<char>, t: Seq<char>)
    requires
        free_of(t, '/'),
    ensures
        split(s + t) == split(s).drop_last().push(split(s).last() + t),
    decreases t.len(),
{
    lemma_split_segments(s);
    if t.len() == 0 {
        assert(s + t =~= s);
        assert(split(s).last() + t =~= split(s).last());
        assert(split(s).drop_last().push(split(s).last()) =~= split(s));
    } else {
        let t0 = t.drop_last();
        lemma_split_suffix(s, t0);
        assert((s + t).drop_last() =~= s + t0);
        assert((s + t).last() == t.last());
        let before = split(s + t0);
        assert(before.drop_last() =~= split(s).drop_last());
        assert(before.last().push(t.last()) =~= split(s).last() + t);
    }
}

/// Text without a `/` is its own single segment.
pub proof fn lemma_split_single(t: Seq<char>)
    requires
        free_of(t, '/'),
    ensures
        split(t) == seq![t],
{
    lemma_split_suffix(Seq::empty(), t);
    assert(Seq::<char>::empty() + t =~= t);
    assert(split(Seq::<char>::empty()).drop_last().push(Seq::<char>::empty() + t) =~= seq![t]);
}

/// Two texts with a `/` between them have the segments of the first followed
/// by those of the second.
pub proof fn lemma_split_concat(a: Seq<char>, b: Seq<char>)
    ensures
        split(a + seq!['/'] + b) == split(a) + split(b),
    decreases b.len(),
{
    let whole = a + seq!['/'] + b;
    if b.len() == 0 {
        assert(whole.drop_last() =~= a);
        assert(split(a).push(Seq::empty()) =~= split(a) + split(b));
    } else {
        let b0 = b.drop_last();
        lemma_split_concat(a, b0);
        lemma_split_segments(b0);
        assert(whole.drop_last() =~= a + seq!['/'] + b0);
        assert(whole.last() == b.last());
        let before = split(a) + split(b0);
        if b.last() == '/' {
            assert(before.push(Seq::empty()) =~= split(a) + split(b0).push(Seq::empty()));
        } else {
            assert(before.drop_last().push(before.last().push(b.last())) =~= split(a) + split(
                b0,
            ).drop_last().push(split(b0).last().push(b.last())));
        }
    }
}

/// Segments without a `/`, joined and split again, are the same segments.
pub proof fn lemma_split_join(segments: Seq<Seq<char>>)
    requires
        segments.len() > 0,
        forall|i: int| 0 <= i < segments.len() ==> free_of(#[trigger] segments[i], '/'),
    ensures
        split(join(segments)) == segments,
    decreases segments.len(),
{
    lemma_split_single(segments.last());
    if segments.len() == 1 {
        assert(seq![segments[0]] =~= segments);
    } else {
        lemma_split_join(segments.drop_last());
        lemma_split_concat(join(segments.drop_last()), segments.last());
        assert(segments.drop_last() + seq![segments.last()] =~= segments);
    }
}

/// A text is its segments joined again.
pub proof fn lemma_join_split(s: Seq<char>)
    ensures
        join(split(s)) == s,
    decreases s.len(),
{
    if s.len() == 0 {
        assert(join(split(s)) =~= s);
    } else {
        let shorter = s.drop_last();
        let before = split(shorter);
        lemma_join_split(shorter);
        lemma_split_segments(shorter);
        assert(shorter.push(s.last()) =~= s);
        if s.last() == '/' {
            let now = before.push(Seq::empty());
            assert(now.drop_last() =~= before);
            assert(join(now) =~= join(before) + seq!['/']);
            assert(join(before) + seq!['/'] =~= shorter.push('/'));
        } else {
            let now = before.drop_last().push(before.last().push(s.last()));
            if before.len() == 1 {
                assert(join(now) =~= join(before).push(s.last()));
            } else {
                assert(now.drop_last() =~= before.drop_last());
                assert(join(now) =~= (join(before.drop_last()) + seq!['/'] + before.last()).push(
                    s.last(),
                ));
            }
        }
    }
}

/// Two runs of segments, joined as one, are the two joined texts with a `/`
/// between them.
pub proof fn lemma_join_concat(a: Seq<Seq<char>>, b: Seq<Seq<char>>)
    requires
        a.len() > 0,
        b.len() > 0,
    ensures
        join(a + b) == join(a) + seq!['/'] + join(b),
    decreases b.len(),
{
    if b.len() == 1 {
        assert((a + b).drop_last() =~= a);
    } else {
        lemma_join_concat(a, b.drop_last());
        assert((a + b).drop_last() =~= a + b.drop_last());
        assert((a + b).last() == b.last());
        assert(join(a + b) =~= join(a) + seq!['/'] + join(b));
    }
}

/// The joined text begins with the first segment.
pub proof fn lemma_join_starts(segments: Seq<Seq<char>>)
    requires
        segments.len() > 0,
    ensures
        segments[0].is_prefix_of(join(segments)),
    decreases segments.len(),
{
    if segments.len() > 1 {
        lemma_join_starts(segments.drop_last());
    }
}

/// Following two runs of segments is following the first and then the second.
pub proof fn lemma_walk_concat(
    trail: Seq<Seq<char>>,
    a: Seq<Seq<char>>,
    b: Seq<Seq<char>>,
    rooted: bool,
)
    ensures
        walk(trail, a + b, rooted) == walk(walk(trail, a, rooted), b, rooted),
    decreases b.len(),
{
    if b.len() == 0 {
        assert(a + b =~= a);
    } else {
        lemma_walk_concat(trail, a, b.drop_last(), rooted);
        assert((a + b).drop_last() =~= a + b.drop_last());
        assert((a + b).last() == b.last());
    }
}

/// Plain segments are each one step down: none is skipped and none undoes
/// another.
pub proof fn lemma_walk_plain(trail: Seq<Seq<char>>, segments: Seq<Seq<char>>, rooted: bool)
    requires
        forall|i: int| 0 <= i < segments.len() ==> is_plain(#[trigger] segments[i]),
    ensures
        walk(trail, segments, rooted) == trail + segments,
    decreases segments.len(),
{
    if segments.len() == 0 {
        assert(trail + segments =~= trail);
    } else {
        lemma_walk_plain(trail, segments.drop_last(), rooted);
        assert(is_plain(segments[segments.len() - 1]));
        assert(trail + segments =~= (trail + segments.drop_last()).push(segments.last()));
    }
}

/// A walk that starts from a settled trail ends in one.
pub proof fn lemma_walk_settled(trail: Seq<Seq<char>>, segments: Seq<Seq<char>>, rooted: bool)
    requires
        settled(trail, rooted),
        forall|i: int| 0 <= i < segments.len() ==> free_of(#[trigger] segments[i], '/'),
    ensures
        settled(walk(trail, segments, rooted), rooted),
    decreases segments.len(),
{
    if segments.len() > 0 {
        lemma_walk_settled(trail, segments.drop_last(), rooted);
        let before = walk(trail, segments.drop_last(), rooted);
        let segment = segments[segments.len() - 1];
        let after = climb(before, segment, rooted);
        assert(free_of(segment, '/'));
        if segment.len() == 0 || is_dot(segment) {
        } else if is_dotdot(segment) {
            if before.len() > 0 && !is_dotdot(before.last()) {
            } else if !rooted {
                assert forall|i: int, j: int| 0 <= i < j < after.len() && is_dotdot(after[j]) implies is_dotdot(after[i]) by {
                    if j == before.len() {
                        assert(is_dotdot(before[before.len() - 1]));
                        if i < before.len() - 1 {
                            assert(is_dotdot(before[i]));
                        }
                    }
                }
            }
        } else {
        }
    }
}

/// Walking along a settled trail from nowhere retraces it.
pub proof fn lemma_walk_retraces(trail: Seq<Seq<char>>, rooted: bool)
    requires
        settled(trail, rooted),
    ensures
        walk(Seq::empty(), trail, rooted) == trail,
    decreases trail.len(),
{
    if trail.len() > 0 {
        let shorter = trail.drop_last();
        assert(settled(shorter, rooted)) by {
            assert forall|i: int| 0 <= i < shorter.len() implies free_of(#[trigger] shorter[i], '/')
                && (is_plain(shorter[i]) || (!rooted && is_dotdot(shorter[i]))) by {
                assert(shorter[i] == trail[i]);
            }
            assert forall|i: int, j: int| 0 <= i < j < shorter.len() && is_dotdot(shorter[j]) implies is_dotdot(shorter[i]) by {
                assert(shorter[j] == trail[j] && shorter[i] == trail[i]);
            }
        }
        lemma_walk_retraces(shorter, rooted);
        let last = trail[trail.len() - 1];
        if is_dotdot(last) {
            if shorter.len() > 0 {
                assert(is_dotdot(trail[trail.len() - 2]));
                assert(shorter.last() == trail[trail.len() - 2]);
            }
        }
        assert(shorter.push(last) =~= trail);
    }
}

/// The steps of any path are settled.
pub proof fn lemma_steps_settled(path: Seq<char>)
    ensures
        settled(steps(path), is_absolute(path)),
{
    lemma_split_segments(path);
    lemma_walk_settled(Seq::empty(), split(path), is_absolute(path));
}

/// The canonical form takes the same steps from the same place as the path
/// it was made from, and is its own canonical form.
pub proof fn lemma_canonical_idempotent(path: Seq<char>)
    ensures
        is_absolute(canonical(path)) == is_absolute(path),
        steps(canonical(path)) == steps(path),
        canonical(canonical(path)) == canonical(path),
{
    let trail = steps(path);
    let rooted = is_absolute(path);
    lemma_steps_settled(path);
    lemma_walk_retraces(trail, rooted);
    let empty = Seq::<char>::empty();
    if rooted {
        if trail.len() == 0 {
            let slash = seq!['/'];
            assert(canonical(path) =~= slash);
            lemma_split_concat(empty, empty);
            assert(empty + slash + empty =~= slash);
            assert(split(empty) =~= seq![empty]);
            lemma_walk_concat(Seq::empty(), seq![empty], seq![empty], true);
            lemma_walk_empty_segment(true);
        } else {
            lemma_split_join(trail);
            lemma_split_concat(empty, join(trail));
            assert(empty + seq!['/'] + join(trail) =~= canonical(path));
            assert(split(empty) =~= seq![empty]);
            lemma_walk_concat(Seq::empty(), seq![empty], trail, true);
            lemma_walk_empty_segment(true);
        }
    } else {
        if trail.len() == 0 {
            let dot = seq!['.'];
            lemma_split_single(dot);
            reveal_with_fuel(walk, 2);
            assert(seq![dot].drop_last() =~= Seq::<Seq<char>>::empty());
        } else {
            lemma_split_join(trail);
            lemma_join_starts(trail);
            assert(trail[0].len() > 0);
            assert(join(trail)[0] == trail[0][0]);
        }
    }
}

/// A valid name is not empty and does not start at the root.
pub proof fn lemma_valid_name_relative(name: Seq<char>)
    requires
        valid_name(name),
    ensures
        name.len() > 0,
        !is_absolute(name),
{
    lemma_split_segments(name);
    assert(is_plain(split(name)[0]));
    if is_absolute(name) {
        lemma_split_absolute(name);
    }
}

/// A valid name, with a suffix that keeps its last segment plain, put under
/// `root`: the path takes the steps of `root` and then one step for each
/// segment of the name.
pub proof fn lemma_located_steps(root: Seq<char>, name: Seq<char>, suffix: Seq<char>)
    requires
        valid_name(name),
        free_of(suffix, '/'),
        is_plain(split(name).last() + suffix),
    ensures
        is_absolute(attach(root, name + suffix)) == is_absolute(root),
        steps(attach(root, name + suffix)) == steps(root) + relative_steps(name, suffix),
        relative_steps(name, suffix).len() == split(name).len(),
        forall|i: int| 0 <= i < relative_steps(name, suffix).len() ==> is_plain(#[trigger] relative_steps(name, suffix)[i]),
{
    lemma_valid_name_relative(name);
    lemma_split_segments(name);
    lemma_split_suffix(name, suffix);
    let tail = relative_steps(name, suffix);
    assert forall|i: int| 0 <= i < tail.len() implies is_plain(#[trigger] tail[i]) by {
        if i < tail.len() - 1 {
            assert(tail[i] == split(name)[i]);
        }
    }
    let rooted = is_absolute(root);
    if root.len() == 0 {
        let empty = Seq::<char>::empty();
        assert(split(root) =~= seq![empty]);
        lemma_walk_empty_segment(false);
        assert((name + suffix)[0] == name[0]);
        lemma_walk_plain(Seq::empty(), tail, false);
        assert(Seq::<Seq<char>>::empty() + tail =~= tail);
    } else if root.last() == '/' {
        let above = root.drop_last();
        let whole = root + (name + suffix);
        assert(whole[0] == root[0]);
        assert(whole =~= above + seq!['/'] + (name + suffix));
        lemma_split_concat(above, name + suffix);
        assert(split(root).drop_last() =~= split(above));
        assert(steps(root) == walk(Seq::empty(), split(above), rooted));
        lemma_walk_concat(Seq::empty(), split(above), tail, rooted);
        lemma_walk_plain(steps(root), tail, rooted);
    } else {
        let whole = root + seq!['/'] + (name + suffix);
        assert(whole[0] == root[0]);
        lemma_split_concat(root, name + suffix);
        lemma_walk_concat(Seq::empty(), split(root), tail, rooted);
        lemma_walk_plain(steps(root), tail, rooted);
    }
}

/// The text of such a path: the canonical root, a `/` unless the root ends
/// with one or is empty, and the name with its suffix, as they were given.
pub proof fn lemma_located_text(root: Seq<char>, name: Seq<char>, suffix: Seq<char>)
    requires
        valid_name(name),
        free_of(suffix, '/'),
        is_plain(split(name).last() + suffix),
    ensures
        canonical(attach(root, name + suffix)) == attach(base_of(root), name + suffix),
{
    let whole = attach(root, name + suffix);
    let trail = steps(root);
    let tail = relative_steps(name, suffix);
    let relative = name + suffix;
    lemma_located_steps(root, name, suffix);
    lemma_steps_settled(root);
    lemma_valid_name_relative(name);
    assert(join(tail) == relative) by {
        lemma_split_suffix(name, suffix);
        lemma_join_split(relative);
    }
    if trail.len() == 0 {
        assert(trail + tail =~= tail);
        if is_absolute(root) {
            assert(canonical(root) =~= seq!['/']);
            assert(canonical(whole) =~= seq!['/'] + relative);
        }
    } else {
        lemma_join_concat(trail, tail);
        let last = trail[trail.len() - 1];
        assert(last.len() > 0 && free_of(last, '/'));
        assert(join(trail).len() > 0 && join(trail).last() == last.last()) by {
            if trail.len() > 1 {
                assert(join(trail) == join(trail.drop_last()) + seq!['/'] + last);
            }
        }
        let base = canonical(root);
        assert(base.len() > 0 && base.last() == last.last());
        assert(canonical(whole) =~= base + seq!['/'] + relative);
    }
}

/// The file of an entry with a valid name is the canonical root, the name
/// and the suffix `.gpg`.
pub proof fn lemma_entry_path_text(root: Seq<char>, name: Seq<char>)
    requires
        valid_name(name),
    ensures
        entry_path(root, name) == attach(base_of(root), name + extension()),
{
    lemma_split_segments(name);
    assert(is_plain(split(name).last() + extension())) by {
        assert((split(name).last() + extension()).len() >= 4);
    }
    lemma_located_text(root, name, extension());
}

/// The scratch file of a valid name is the canonical scratch root and the
/// name.
pub proof fn lemma_scratch_path_text(root: Seq<char>, name: Seq<char>)
    requires
        valid_name(name),
    ensures
        scratch_path_of(root, name) == attach(base_of(root), name),
{
    lemma_split_segments(name);
    let none = Seq::<char>::empty();
    assert(split(name).last() + none =~= split(name).last());
    assert(is_plain(split(name)[split(name).len() - 1]));
    assert(name + none =~= name);
    lemma_located_text(root, name, none);
}

/// The path of an entry with a valid name lies strictly inside the vault
/// root, whatever the root is.
pub proof fn lemma_entry_inside_root(root: Seq<char>, name: Seq<char>)
    requires
        valid_name(name),
    ensures
        is_strictly_inside(entry_path(root, name), root),
{
    lemma_split_segments(name);
    assert(is_plain(split(name).last() + extension())) by {
        assert((split(name).last() + extension()).len() >= 4);
    }
    lemma_located_steps(root, name, extension());
    lemma_canonical_idempotent(attach(root, name + extension()));
    let inner = steps(root) + relative_steps(name, extension());
    assert(inner.take(steps(root).len() as int) =~= steps(root));
}

/// The scratch path of a valid name lies strictly inside the scratch root.
pub proof fn lemma_scratch_inside_root(root: Seq<char>, name: Seq<char>)
    requires
        valid_name(name),
    ensures
        is_strictly_inside(scratch_path_of(root, name), root),
{
    lemma_split_segments(name);
    let none = Seq::<char>::empty();
    assert(split(name).last() + none =~= split(name).last());
    assert(is_plain(split(name)[split(name).len() - 1]));
    assert(name + none =~= name);
    lemma_located_steps(root, name, none);
    lemma_canonical_idempotent(attach(root, name));
    let inner = steps(root) + relative_steps(name, none);
    assert(inner.take(steps(root).len() as int) =~= steps(root));
}

/// Two valid names that stand for the same file of a vault are the same
/// name: each entry has one name, and each name one file.
pub proof fn lemma_entry_path_injective(root: Seq<char>, a: Seq<char>, b: Seq<char>)
    requires
        valid_name(a),
        valid_name(b),
        entry_path(root, a) == entry_path(root, b),
    ensures
        a == b,
{
    let ext = extension();
    lemma_split_segments(a);
    lemma_split_segments(b);
    assert(is_plain(split(a).last() + ext)) by {
        assert((split(a).last() + ext).len() >= 4);
    }
    assert(is_plain(split(b).last() + ext)) by {
        assert((split(b).last() + ext).len() >= 4);
    }
    lemma_located_steps(root, a, ext);
    lemma_located_steps(root, b, ext);
    lemma_canonical_idempotent(attach(root, a + ext));
    lemma_canonical_idempotent(attach(root, b + ext));
    let base = steps(root);
    let ra = relative_steps(a, ext);
    let rb = relative_steps(b, ext);
    assert(base + ra == base + rb);
    assert(ra.len() == rb.len()) by {
        assert((base + ra).len() == base.len() + ra.len());
        assert((base + rb).len() == base.len() + rb.len());
    }
    assert forall|i: int| 0 <= i < ra.len() implies ra[i] == rb[i] by {
        assert((base + ra)[base.len() + i] == ra[i]);
        assert((base + rb)[base.len() + i] == rb[i]);
    }
    let sa = split(a);
    let sb = split(b);
    assert(sa =~= sb) by {
        assert forall|i: int| 0 <= i < sa.len() implies sa[i] == sb[i] by {
            if i < sa.len() - 1 {
                assert(ra[i] == sa[i]);
                assert(rb[i] == sb[i]);
            } else {
                let la = sa.last();
                let lb = sb.last();
                assert(ra[i] == la + ext);
                assert(rb[i] == lb + ext);
                assert((la + ext).len() == la.len() + 4);
                assert((lb + ext).len() == lb.len() + 4);
                assert forall|k: int| 0 <= k < la.len() implies la[k] == lb[k] by {
                    assert((la + ext)[k] == la[k]);
                    assert((lb + ext)[k] == lb[k]);
                }
                assert(la =~= lb);
            }
        }
    }
    lemma_join_split(a);
    lemma_join_split(b);
}

/// Where the scratch root and the vault root lie apart, no scratch file
/// lies inside the vault and no entry inside the scratch directory.
pub proof fn lemma_scratch_apart_from_vault(
    scratch_root: Seq<char>,
    vault_root: Seq<char>,
    edited: Seq<char>,
    stored: Seq<char>,
)
    requires
        apart(scratch_root, vault_root),
        valid_name(edited),
        valid_name(stored),
    ensures
        !is_strictly_inside(scratch_path_of(scratch_root, edited), vault_root),
        !is_strictly_inside(entry_path(vault_root, stored), scratch_root),
{
    let i = choose|i: int|
        0 <= i < steps(scratch_root).len() && i < steps(vault_root).len() && #[trigger] steps(
            scratch_root,
        )[i] != steps(vault_root)[i];
    let none = Seq::<char>::empty();
    lemma_split_segments(edited);
    lemma_split_segments(stored);
    assert(split(edited).last() + none =~= split(edited).last());
    assert(is_plain(split(edited)[split(edited).len() - 1]));
    assert(edited + none =~= edited);
    lemma_located_steps(scratch_root, edited, none);
    lemma_canonical_idempotent(attach(scratch_root, edited));
    let scratch = steps(scratch_path_of(scratch_root, edited));
    assert(scratch[i] == steps(scratch_root)[i]);
    if is_strictly_inside(scratch_path_of(scratch_root, edited), vault_root) {
        assert(scratch.take(steps(vault_root).len() as int)[i] == scratch[i]);
    }
    assert(is_plain(split(stored).last() + extension())) by {
        assert((split(stored).last() + extension()).len() >= 4);
    }
    lemma_located_steps(vault_root, stored, extension());
    lemma_canonical_idempotent(attach(vault_root, stored + extension()));
    let entry = steps(entry_path(vault_root, stored));
    assert(entry[i] == steps(vault_root)[i]);
    if is_strictly_inside(entry_path(vault_root, stored), scratch_root) {
        assert(entry.take(steps(scratch_root).len() as int)[i] == entry[i]);
    }
}

/// No path escapes: a name whose path would not lie strictly inside the
/// vault root is not a valid name. This covers every name with a `..`
/// segment and every absolute name.
pub proof fn lemma_escape_is_invalid(root: Seq<char>, name: Seq<char>)
    requires
        !is_strictly_inside(entry_path(root, name), root),
    ensures
        !valid_name(name),
{
    if valid_name(name) {
        lemma_entry_inside_root(root, name);
    }
}

/// A name with a `..` segment, an empty name and an absolute name are all
/// invalid.
pub proof fn lemma_invalid_names(name: Seq<char>)
    ensures
        name.len() == 0 ==> !valid_name(name),
        is_absolute(name) ==> !valid_name(name),
        (exists|i: int| 0 <= i < split(name).len() && is_dotdot(#[trigger] split(name)[i]))
            ==> !valid_name(name),
{
    if valid_name(name) {
        lemma_valid_name_relative(name);
    }
}

} // verus!
