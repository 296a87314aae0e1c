//! Entry names and the paths they stand for.
//!
//! A path is read as a sequence of segments separated by `/`. Everything in
//! this module works on the text of a path alone: nothing is looked up on
//! disk, so a path that does not exist yet is handled like any other.

use vstd::prelude::*;
use crate::error::VaultError;
use crate::path::laws::{
    lemma_entry_inside_root, lemma_entry_path_text, lemma_scratch_inside_root,
    lemma_scratch_path_text,
};
use crate::text::{chars_of, text_of};

pub mod laws;

verus! {

/// The segments of `s`: the pieces between its `/` characters. There is
/// always at least one, and none of them holds a `/`.
pub open spec fn split(s: Seq<char>) -> Seq<Seq<char>>
    decreases s.len(),
{
    if s.len() == 0 {
        seq![Seq::empty()]
    } else if s.last() == '/' {
        split(s.drop_last()).push(Seq::empty())
    } else {
        let before = split(s.drop_last());
        before.drop_last().push(before.last().push(s.last()))
    }
}

/// The segments joined by single `/` characters.
pub open spec fn join(segments: Seq<Seq<char>>) -> Seq<char>
    decreases segments.len(),
{
    if segments.len() == 0 {
        Seq::empty()
    } else if segments.len() == 1 {
        segments[0]
    } else {
        join(segments.drop_last()) + seq!['/'] + segments.last()
    }
}

/// The segment `.`, which stands for the directory it is in.
pub open spec fn is_dot(segment: Seq<char>) -> bool {
    segment.len() == 1 && segment[0] == '.'
}

/// The segment `..`, which stands for the parent directory.
pub open spec fn is_dotdot(segment: Seq<char>) -> bool {
    segment.len() == 2 && segment[0] == '.' && segment[1] == '.'
}

/// A segment that names something: not empty, not `.`, not `..`.
pub open spec fn is_plain(segment: Seq<char>) -> bool {
    segment.len() > 0 && !is_dot(segment) && !is_dotdot(segment)
}

/// A path that starts at the file system's root.
pub open spec fn is_absolute(path: Seq<char>) -> bool {
    path.len() > 0 && path[0] == '/'
}

/// Where one is after following `segment` from the directory reached by
/// `trail`. An empty segment or `.` stays; `..` undoes the last step, stays at
/// the root of a rooted path, and is kept where a relative path has nothing
/// left to undo; any other segment is one step down.
pub open spec fn climb(trail: Seq<Seq<char>>, segment: Seq<char>, rooted: bool) -> Seq<Seq<char>> {
    if segment.len() == 0 || is_dot(segment) {
        trail
    } else if is_dotdot(segment) {
        if trail.len() > 0 && !is_dotdot(trail.last()) {
            trail.drop_last()
        } else if rooted {
            trail
        } else {
            trail.push(segment)
        }
    } else {
        trail.push(segment)
    }
}

/// Where one is after following all of `segments`, in order, from `trail`.
pub open spec fn walk(trail: Seq<Seq<char>>, segments: Seq<Seq<char>>, rooted: bool) -> Seq<
    Seq<char>,
>
    decreases segments.len(),
{
    if segments.len() == 0 {
        trail
    } else {
        climb(walk(trail, segments.drop_last(), rooted), segments.last(), rooted)
    }
}

/// The steps that `path` takes, from the root if it is absolute and from the
/// current directory if it is not.
pub open spec fn steps(path: Seq<char>) -> Seq<Seq<char>> {
    walk(Seq::empty(), split(path), is_absolute(path))
}

/// The canonical form of `path`: the same steps written without empty
/// segments, without `.`, and with every `..` that can be resolved against
/// the text resolved. A relative path that goes nowhere is `.`.
pub open spec fn canonical(path: Seq<char>) -> Seq<char> {
    if is_absolute(path) {
        seq!['/'] + join(steps(path))
    } else if steps(path).len() == 0 {
        seq!['.']
    } else {
        join(steps(path))
    }
}

/// `s` does not hold the character `c`.
pub open spec fn free_of(s: Seq<char>, c: char) -> bool {
    forall|k: int| 0 <= k < s.len() ==> s[k] != c
}

/// A trail as a walk leaves it: every step is a plain segment, but for `..`
/// steps at the start of a trail that is not rooted.
pub open spec fn settled(trail: Seq<Seq<char>>, rooted: bool) -> bool {
    &&& forall|i: int|
        0 <= i < trail.len() ==> free_of(#[trigger] trail[i], '/') && (is_plain(trail[i]) || (
        !rooted && is_dotdot(trail[i])))
    &&& forall|i: int, j: int|
        0 <= i < j < trail.len() && is_dotdot(#[trigger] trail[j]) ==> is_dotdot(
            #[trigger] trail[i],
        )
}

/// A name that stands for an entry: it holds no NUL, and each of its
/// segments is plain. So it is not empty, does not start or end with `/`,
/// and has no `.` or `..` segment.
pub open spec fn valid_name(name: Seq<char>) -> bool {
    &&& free_of(name, '\0')
    &&& forall|i: int| 0 <= i < split(name).len() ==> is_plain(#[trigger] split(name)[i])
}

/// The suffix of every entry's file name.
pub open spec fn extension() -> Seq<char> {
    seq!['.', 'g', 'p', 'g']
}

/// `relative` put under `root`, with a `/` between the two unless `root`
/// ends with one. Under an empty root it is `relative` itself.
pub open spec fn attach(root: Seq<char>, relative: Seq<char>) -> Seq<char> {
    if root.len() == 0 {
        relative
    } else if root.last() == '/' {
        root + relative
    } else {
        root + seq!['/'] + relative
    }
}

/// The segments of `name`, the last one lengthened by `suffix`.
pub open spec fn relative_steps(name: Seq<char>, suffix: Seq<char>) -> Seq<Seq<char>> {
    split(name).drop_last().push(split(name).last() + suffix)
}

/// The file that holds the entry `name` of the vault at `root`.
pub open spec fn entry_path(root: Seq<char>, name: Seq<char>) -> Seq<char> {
    canonical(attach(root, name + extension()))
}

/// The scratch file for the entry `name`, under the scratch directory `root`.
pub open spec fn scratch_path_of(root: Seq<char>, name: Seq<char>) -> Seq<char> {
    canonical(attach(root, name))
}

/// The text that every path under `root` begins with: the canonical form of
/// `root`, or nothing where `root` stands for the current directory.
pub open spec fn base_of(root: Seq<char>) -> Seq<char> {
    if !is_absolute(root) && steps(root).len() == 0 {
        Seq::empty()
    } else {
        canonical(root)
    }
}

/// `path` lies below `root` and is not `root` itself: both start from the
/// same place, and `path` takes the steps of `root` and then at least one
/// more.
pub open spec fn is_strictly_inside(path: Seq<char>, root: Seq<char>) -> bool {
    &&& is_absolute(path) == is_absolute(root)
    &&& steps(root).len() < steps(path).len()
    &&& steps(path).take(steps(root).len() as int) == steps(root)
}

/// Two directories that lie apart: they start from the same place, and
/// somewhere along the way they take different steps. Neither lies in the
/// other.
pub open spec fn apart(a: Seq<char>, b: Seq<char>) -> bool {
    &&& is_absolute(a) == is_absolute(b)
    &&& exists|i: int|
        0 <= i < steps(a).len() && i < steps(b).len() && #[trigger] steps(a)[i] != steps(b)[i]
}

/// The segments held by a vector of character vectors.
pub open spec fn parts(segments: Seq<Vec<char>>) -> Seq<Seq<char>> {
    Seq::new(segments.len(), |i: int| segments[i]@)
}

fn copy_of(chars: &Vec<char>) -> (out: Vec<char>)
    ensures
        out@ == chars@,
{
    let mut out: Vec<char> = Vec::new();
    let mut i: usize = 0;
    while i < chars.len()
        invariant
            i <= chars.len(),
            out@ == chars@.take(i as int),
        decreases chars.len() - i,
    {
        out.push(chars[i]);
        i += 1;
    }
    out
}

fn append_chars(out: &mut Vec<char>, more: &Vec<char>)
    ensures
        final(out)@ == old(out)@ + more@,
{
    let mut i: usize = 0;
    while i < more.len()
        invariant
            i <= more.len(),
            out@ == old(out)@ + more@.take(i as int),
        decreases more.len() - i,
    {
        out.push(more[i]);
        i += 1;
    }
}

/// Splits `chars` at every `/`.
pub fn split_segments(chars: &Vec<char>) -> (out: Vec<Vec<char>>)
    ensures
        parts(out@) == split(chars@),
{
    let mut done: Vec<Vec<char>> = Vec::new();
    let mut current: Vec<char> = Vec::new();
    let mut i: usize = 0;
    while i < chars.len()
        invariant
            i <= chars.len(),
            parts(done@).push(current@) == split(chars@.take(i as int)),
        decreases chars.len() - i,
    {
        let c = chars[i];
        proof {
            assert(chars@.take(i + 1).drop_last() =~= chars@.take(i as int));
            assert(chars@.take(i + 1).last() == c);
        }
        if c == '/' {
            let ghost before = parts(done@).push(current@);
            done.push(current);
            current = Vec::new();
            assert(parts(done@) =~= before);
        } else {
            let ghost before = parts(done@).push(current@);
            current.push(c);
            assert(parts(done@).push(current@) =~= before.drop_last().push(before.last().push(c)));
        }
        i += 1;
    }
    proof {
        assert(chars@.take(chars@.len() as int) =~= chars@);
    }
    let ghost before = parts(done@).push(current@);
    done.push(current);
    assert(parts(done@) =~= before);
    done
}

fn segment_is_dot(segment: &Vec<char>) -> (b: bool)
    ensures
        b == is_dot(segment@),
{
    segment.len() == 1 && segment[0] == '.'
}

fn segment_is_dotdot(segment: &Vec<char>) -> (b: bool)
    ensures
        b == is_dotdot(segment@),
{
    segment.len() == 2 && segment[0] == '.' && segment[1] == '.'
}

/// Follows `segments` from an empty trail.
fn walk_segments(segments: &Vec<Vec<char>>, rooted: bool) -> (out: Vec<Vec<char>>)
    ensures
        parts(out@) == walk(Seq::empty(), parts(segments@), rooted),
{
    let mut trail: Vec<Vec<char>> = Vec::new();
    let mut i: usize = 0;
    assert(parts(trail@) =~= Seq::<Seq<char>>::empty());
    while i < segments.len()
        invariant
            i <= segments.len(),
            parts(trail@) == walk(Seq::empty(), parts(segments@).take(i as int), rooted),
        decreases segments.len() - i,
    {
        let segment = &segments[i];
        let ghost before = parts(trail@);
        proof {
            assert(parts(segments@).take(i + 1).drop_last() =~= parts(segments@).take(i as int));
            assert(parts(segments@).take(i + 1).last() == segment@);
        }
        if segment.len() == 0 || segment_is_dot(segment) {
        } else if segment_is_dotdot(segment) {
            let n = trail.len();
            if n > 0 && !segment_is_dotdot(&trail[n - 1]) {
                trail.pop();
                assert(parts(trail@) =~= before.drop_last());
            } else if !rooted {
                trail.push(copy_of(segment));
                assert(parts(trail@) =~= before.push(segment@));
            }
        } else {
            trail.push(copy_of(segment));
            assert(parts(trail@) =~= before.push(segment@));
        }
        i += 1;
    }
    proof {
        assert(parts(segments@).take(segments@.len() as int) =~= parts(segments@));
    }
    trail
}

/// Writes `segments` with a `/` between each two.
fn join_segments(segments: &Vec<Vec<char>>) -> (out: Vec<char>)
    ensures
        out@ == join(parts(segments@)),
{
    let mut out: Vec<char> = Vec::new();
    let mut i: usize = 0;
    while i < segments.len()
        invariant
            i <= segments.len(),
            out@ == join(parts(segments@).take(i as int)),
        decreases segments.len() - i,
    {
        proof {
            assert(parts(segments@).take(i + 1).drop_last() =~= parts(segments@).take(i as int));
            assert(parts(segments@).take(i + 1).last() == segments@[i as int]@);
        }
        if i > 0 {
            out.push('/');
        }
        append_chars(&mut out, &segments[i]);
        proof {
            let now = parts(segments@).take(i + 1);
            if i == 0 {
                assert(now.len() == 1);
                assert(out@ =~= now[0]);
            } else {
                assert(out@ =~= join(now.drop_last()) + seq!['/'] + now.last());
            }
        }
        i += 1;
    }
    proof {
        assert(parts(segments@).take(segments@.len() as int) =~= parts(segments@));
    }
    out
}

/// The canonical form of a path given as characters.
pub fn canonical_chars(path: &Vec<char>) -> (out: Vec<char>)
    ensures
        out@ == canonical(path@),
{
    let rooted = path.len() > 0 && path[0] == '/';
    let segments = split_segments(path);
    let trail = walk_segments(&segments, rooted);
    let mut out: Vec<char> = Vec::new();
    if rooted {
        out.push('/');
        let joined = join_segments(&trail);
        append_chars(&mut out, &joined);
    } else if trail.len() == 0 {
        out.push('.');
    } else {
        out = join_segments(&trail);
    }
    assert(out@ =~= canonical(path@));
    out
}

/// Whether `name` is a valid entry name.
pub fn is_valid_name(name: &str) -> (b: bool)
    ensures
        b == valid_name(name@),
{
    let chars = chars_of(name);
    chars_are_valid_name(&chars)
}

fn chars_are_valid_name(chars: &Vec<char>) -> (b: bool)
    ensures
        b == valid_name(chars@),
{
    let mut k: usize = 0;
    while k < chars.len()
        invariant
            k <= chars.len(),
            forall|m: int| 0 <= m < k ==> chars@[m] != '\0',
        decreases chars.len() - k,
    {
        if chars[k] == '\0' {
            return false;
        }
        k += 1;
    }
    let segments = split_segments(chars);
    let mut i: usize = 0;
    while i < segments.len()
        invariant
            i <= segments.len(),
            parts(segments@) == split(chars@),
            forall|m: int| 0 <= m < i ==> is_plain(#[trigger] split(chars@)[m]),
        decreases segments.len() - i,
    {
        let segment = &segments[i];
        assert(parts(segments@)[i as int] == segment@);
        if segment.len() == 0 || segment_is_dot(segment) || segment_is_dotdot(segment) {
            return false;
        }
        i += 1;
    }
    true
}

/// `relative` put under `root`, as characters.
fn attach_chars(root: &Vec<char>, relative: &Vec<char>) -> (out: Vec<char>)
    ensures
        out@ == attach(root@, relative@),
{
    let mut out = copy_of(root);
    let n = out.len();
    if n > 0 && out[n - 1] != '/' {
        out.push('/');
    }
    append_chars(&mut out, relative);
    assert(out@ =~= attach(root@, relative@));
    out
}

/// `relative` put under `root`: the two with a `/` between them, unless
/// `root` is empty or ends with a `/` of its own.
pub fn attach_path(root: &str, relative: &str) -> (out: String)
    ensures
        out@ == attach(root@, relative@),
{
    let out = attach_chars(&chars_of(root), &chars_of(relative));
    text_of(&out)
}

/// The canonical form of `name`, lengthened by `suffix`, under `root`.
fn locate(root: &str, name: &Vec<char>, suffix: &Vec<char>) -> (out: String)
    ensures
        out@ == canonical(attach(root@, name@ + suffix@)),
{
    let mut relative = copy_of(name);
    append_chars(&mut relative, suffix);
    let whole = attach_chars(&chars_of(root), &relative);
    let out = canonical_chars(&whole);
    text_of(&out)
}

/// The path of the file that holds the entry `name` in the vault at
/// `vault_root`: the root, the name and the suffix `.gpg`, in canonical form.
/// A name that is not valid is refused with `InvalidName`. For a valid one
/// the path lies strictly inside the root, and its text is the canonical
/// root followed by the name as it was given and the suffix.
pub fn resolve(vault_root: &str, name: &str) -> (out: Result<String, VaultError>)
    ensures
        out is Ok <==> valid_name(name@),
        out matches Ok(path) ==> {
            &&& path@ == entry_path(vault_root@, name@)
            &&& path@ == attach(base_of(vault_root@), name@ + extension())
            &&& is_strictly_inside(path@, vault_root@)
        },
        out matches Err(e) ==> e == VaultError::InvalidName,
{
    let chars = chars_of(name);
    if !chars_are_valid_name(&chars) {
        return Err(VaultError::InvalidName);
    }
    let mut suffix: Vec<char> = Vec::new();
    suffix.push('.');
    suffix.push('g');
    suffix.push('p');
    suffix.push('g');
    assert(suffix@ =~= extension());
    proof {
        lemma_entry_inside_root(vault_root@, name@);
        lemma_entry_path_text(vault_root@, name@);
    }
    Ok(locate(vault_root, &chars, &suffix))
}

/// The path of the scratch file for the entry `name` under `scratch_root`:
/// the root and the name, in canonical form, so that the directories of the
/// name are kept. A name that is not valid is refused with `InvalidName`.
/// For a valid one the path lies strictly inside the scratch root, and its
/// text is the canonical root followed by the name as it was given.
pub fn scratch_path(scratch_root: &str, name: &str) -> (out: Result<String, VaultError>)
    ensures
        out is Ok <==> valid_name(name@),
        out matches Ok(path) ==> {
            &&& path@ == scratch_path_of(scratch_root@, name@)
            &&& path@ == attach(base_of(scratch_root@), name@)
            &&& is_strictly_inside(path@, scratch_root@)
        },
        out matches Err(e) ==> e == VaultError::InvalidName,
{
    let chars = chars_of(name);
    if !chars_are_valid_name(&chars) {
        return Err(VaultError::InvalidName);
    }
    let suffix: Vec<char> = Vec::new();
    assert(name@ + suffix@ =~= name@);
    proof {
        lemma_scratch_inside_root(scratch_root@, name@);
        lemma_scratch_path_text(scratch_root@, name@);
    }
    Ok(locate(scratch_root, &chars, &suffix))
}

/// Brings `path` into canonical form by its text alone: empty segments and
/// `.` are dropped, and each `..` undoes the step before it, where it stands.
pub fn canonicalize_path(path: &str) -> (out: String)
    ensures
        out@ == canonical(path@),
{
    let chars = chars_of(path);
    let out = canonical_chars(&chars);
    text_of(&out)
}

} // verus!
