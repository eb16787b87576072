//! The normal form of a path.
//!
//! A path is a byte string whose pieces are separated by `/`. Two paths that
//! name the same place by the same pieces have one normal form: repeated
//! separators, a trailing separator and pieces that are a single `.` make
//! no difference, except for a `.` that leads the path. Nothing else is
//! resolved: `..` stays, and no file system is consulted.

use std::path::PathBuf;
use vstd::prelude::*;

verus! {

/// A path as the file system takes it. Nothing here looks inside one but
/// through [`bytes_of`].
#[verifier::external_type_specification]
#[verifier::external_body]
pub struct ExPathBuf(PathBuf);

/// The bytes of which `path` consists.
pub uninterp spec fn path_bytes(path: PathBuf) -> Seq<u8>;

/// `OsStr::as_encoded_bytes` of the path: the bytes that the path consists
/// of, which depend on the path alone.
#[verifier::external_body]
pub(crate) fn bytes_of(path: &PathBuf) -> (bytes: &[u8])
    ensures
        bytes@ == path_bytes(*path),
{
    path.as_os_str().as_encoded_bytes()
}

/// The byte that separates the pieces of a path: `/`.
pub const SEPARATOR: u8 = 0x2f;

/// The byte `.`; a piece made of it alone names the current directory.
pub const DOT: u8 = 0x2e;

/// The pieces of `path` between its separators, in order. There is always
/// at least one, and a piece is empty where two separators meet or where the
/// path begins or ends with one.
pub open spec fn pieces(path: Seq<u8>) -> Seq<Seq<u8>>
    decreases path.len(),
{
    if path.len() == 0 {
        seq![Seq::empty()]
    } else {
        let before = pieces(path.drop_last());
        if path.last() == SEPARATOR {
            before.push(Seq::empty())
        } else {
            before.drop_last().push(before.last().push(path.last()))
        }
    }
}

/// Whether `piece` is the single byte `.`.
pub open spec fn is_dot(piece: Seq<u8>) -> bool {
    piece.len() == 1 && piece[0] == DOT
}

/// Whether the piece at place `index` of a path is one of its components:
/// an empty piece never is, and a `.` only where it leads the path.
pub open spec fn counts(piece: Seq<u8>, index: int) -> bool {
    piece.len() > 0 && (index == 0 || !is_dot(piece))
}

/// Those of `pieces` that count, in order.
pub open spec fn components_of(pieces: Seq<Seq<u8>>) -> Seq<Seq<u8>>
    decreases pieces.len(),
{
    if pieces.len() == 0 {
        Seq::empty()
    } else {
        let before = components_of(pieces.drop_last());
        if counts(pieces.last(), pieces.len() - 1) {
            before.push(pieces.last())
        } else {
            before
        }
    }
}

/// The components of `path`.
pub open spec fn components(path: Seq<u8>) -> Seq<Seq<u8>> {
    components_of(pieces(path))
}

/// `components` written one after the other with a separator between each
/// two.
pub open spec fn joined(components: Seq<Seq<u8>>) -> Seq<u8>
    decreases components.len(),
{
    if components.len() == 0 {
        Seq::empty()
    } else if components.len() == 1 {
        components[0]
    } else {
        joined(components.drop_last()).push(SEPARATOR) + components.last()
    }
}

/// Whether `path` starts at the root, that is with a separator.
pub open spec fn is_rooted(path: Seq<u8>) -> bool {
    path.len() > 0 && path[0] == SEPARATOR
}

/// What a normal form begins with: a separator for a rooted path, nothing
/// otherwise.
pub open spec fn root_of(path: Seq<u8>) -> Seq<u8> {
    if is_rooted(path) {
        seq![SEPARATOR]
    } else {
        Seq::empty()
    }
}

/// The normal form of `path`: its root, then its components joined by single
/// separators.
pub open spec fn normal_form(path: Seq<u8>) -> Seq<u8> {
    root_of(path) + joined(components(path))
}

/// Appends the piece `path[start..end]` to `out` if it counts, after a
/// separator where `out` already holds a component. `leading` says whether
/// the piece is the first of its path, `any` whether a component was written
/// before. Returns whether one has been written by now.
fn write_piece(out: &mut Vec<u8>, path: &[u8], start: usize, end: usize, leading: bool, any: bool) -> (now: bool)
    requires
        start <= end <= path.len(),
    ensures
        ({
            let piece = path@.subrange(start as int, end as int);
            let index = if leading { 0int } else { 1int };
            &&& now == (any || counts(piece, index))
            &&& final(out)@ == if !counts(piece, index) {
                old(out)@
            } else if any {
                old(out)@.push(SEPARATOR) + piece
            } else {
                old(out)@ + piece
            }
        }),
{
    let dot = end - start == 1 && path[start] == DOT;
    if end == start || (dot && !leading) {
        return any;
    }
    if any {
        out.push(SEPARATOR);
    }
    let ghost base = out@;
    let mut k: usize = start;
    while k < end
        invariant
            start <= k <= end <= path.len(),
            out@ == base + path@.subrange(start as int, k as int),
        decreases end - k,
    {
        out.push(path[k]);
        proof {
            assert(path@.subrange(start as int, k + 1) =~= path@.subrange(
                start as int,
                k as int,
            ).push(path@[k as int]));
        }
        k += 1;
    }
    true
}

/// Computes the normal form of `path`.
pub fn normalize(path: &[u8]) -> (out: Vec<u8>)
    ensures
        out@ == normal_form(path@),
{
    let n: usize = path.len();
    let mut out: Vec<u8> = Vec::new();
    if n > 0 && path[0] == SEPARATOR {
        out.push(SEPARATOR);
    }
    let ghost mut done: Seq<Seq<u8>> = Seq::empty();
    let mut any = false;
    let mut start: usize = 0;
    let mut i: usize = 0;
    proof {
        assert(path@.take(0) =~= Seq::<u8>::empty());
        assert(done.push(path@.subrange(0, 0)) =~= seq![Seq::<u8>::empty()]);
        assert(out@ =~= root_of(path@) + joined(components_of(done)));
    }
    while i < n
        invariant
            n == path.len(),
            start <= i <= n,
            (start == 0) == (done.len() == 0),
            pieces(path@.take(i as int)) == done.push(path@.subrange(start as int, i as int)),
            out@ == root_of(path@) + joined(components_of(done)),
            any == (components_of(done).len() > 0),
        decreases n - i,
    {
        let ghost piece = path@.subrange(start as int, i as int);
        proof {
            assert(path@.take(i + 1).drop_last() =~= path@.take(i as int));
            assert(done.push(piece).drop_last() =~= done);
        }
        if path[i] == SEPARATOR {
            any = write_piece(&mut out, path, start, i, start == 0, any);
            proof {
                lemma_joined_push(components_of(done), piece);
                assert(out@ =~= root_of(path@) + joined(components_of(done.push(piece))));
                done = done.push(piece);
                assert(path@.subrange(i + 1, i + 1) =~= Seq::<u8>::empty());
            }
            start = i + 1;
        } else {
            proof {
                assert(piece.push(path@[i as int]) =~= path@.subrange(start as int, i + 1));
            }
        }
        i += 1;
    }
    let ghost piece = path@.subrange(start as int, n as int);
    write_piece(&mut out, path, start, n, start == 0, any);
    proof {
        assert(path@.take(n as int) =~= path@);
        assert(done.push(piece).drop_last() =~= done);
        lemma_joined_push(components_of(done), piece);
        assert(out@ =~= root_of(path@) + joined(components_of(done.push(piece))));
    }
    out
}

/// Whether `piece` holds no separator.
pub open spec fn is_plain(piece: Seq<u8>) -> bool {
    forall|i: int| 0 <= i < piece.len() ==> piece[i] != SEPARATOR
}

/// A path has at least one piece, and no piece holds a separator.
pub proof fn lemma_pieces_are_plain(path: Seq<u8>)
    ensures
        pieces(path).len() >= 1,
        forall|k: int| 0 <= k < pieces(path).len() ==> is_plain(#[trigger] pieces(path)[k]),
    decreases path.len(),
{
    if path.len() > 0 {
        lemma_pieces_are_plain(path.drop_last());
        let before = pieces(path.drop_last());
        if path.last() != SEPARATOR {
            assert(is_plain(before.last()));
            assert(is_plain(before.last().push(path.last())));
        }
    }
}

/// The components of a path are not empty and hold no separator, and none
/// but the first can be a `.`, which it is only where the path begins with
/// that piece.
pub proof fn lemma_components_are_names(path: Seq<u8>)
    ensures
        forall|k: int|
            0 <= k < components(path).len() ==> {
                let name = #[trigger] components(path)[k];
                &&& name.len() > 0
                &&& is_plain(name)
                &&& is_dot(name) ==> k == 0 && !is_rooted(path) && is_dot(pieces(path)[0])
            },
{
    lemma_pieces_are_plain(path);
    lemma_components_of(pieces(path));
    if is_rooted(path) {
        lemma_rooted_begins_empty(path);
    }
}

/// The normal form of a path has the root and the components of the path.
pub proof fn lemma_normal_form_keeps(path: Seq<u8>)
    ensures
        is_rooted(normal_form(path)) == is_rooted(path),
        components(normal_form(path)) == components(path),
{
    let empty = Seq::<u8>::empty();
    let names = components(path);
    let normal = normal_form(path);
    lemma_components_are_names(path);
    if names.len() > 0 {
        lemma_pieces_of_joined(names);
        lemma_joined_begins(names);
    } else {
        assert(seq![empty].drop_last() =~= Seq::<Seq<u8>>::empty());
        assert(components_of(Seq::<Seq<u8>>::empty()) =~= names);
        assert(components_of(seq![empty]) =~= names);
        assert(pieces(empty) =~= seq![empty]);
    }
    if is_rooted(path) {
        assert(normal =~= seq![SEPARATOR] + joined(names));
        lemma_pieces_after_separator(joined(names));
        if names.len() > 0 {
            lemma_components_after_empty(names);
        } else {
            assert((seq![empty] + seq![empty]).drop_last() =~= seq![empty]);
        }
    } else {
        assert(normal =~= joined(names));
        if names.len() > 0 {
            lemma_components_of_counted(names);
        }
    }
}

/// The normal form of a normal form is that normal form.
pub proof fn lemma_normal_form_is_normal(path: Seq<u8>)
    ensures
        normal_form(normal_form(path)) == normal_form(path),
{
    lemma_normal_form_keeps(path);
}

/// Two paths have one normal form exactly when both or neither start at the
/// root and their components are the same.
pub proof fn lemma_same_normal_form(first: Seq<u8>, second: Seq<u8>)
    ensures
        normal_form(first) == normal_form(second) <==> is_rooted(first) == is_rooted(second)
            && components(first) == components(second),
{
    lemma_normal_form_keeps(first);
    lemma_normal_form_keeps(second);
}

/// What counts among pieces without a separator: nothing empty, nothing with
/// a separator, and a `.` only in the first place, from the first piece.
proof fn lemma_components_of(pieces: Seq<Seq<u8>>)
    requires
        forall|k: int| 0 <= k < pieces.len() ==> is_plain(#[trigger] pieces[k]),
    ensures
        components_of(pieces).len() <= pieces.len(),
        forall|k: int|
            0 <= k < components_of(pieces).len() ==> {
                let name = #[trigger] components_of(pieces)[k];
                &&& name.len() > 0
                &&& is_plain(name)
                &&& is_dot(name) ==> k == 0 && is_dot(pieces[0])
            },
    decreases pieces.len(),
{
    if pieces.len() > 0 {
        lemma_components_of(pieces.drop_last());
    }
}

/// Pieces that all count where they stand are their own components.
proof fn lemma_components_of_counted(names: Seq<Seq<u8>>)
    requires
        forall|k: int| 0 <= k < names.len() ==> counts(#[trigger] names[k], k),
    ensures
        components_of(names) == names,
    decreases names.len(),
{
    if names.len() > 0 {
        lemma_components_of_counted(names.drop_last());
        assert(names.drop_last().push(names.last()) =~= names);
    }
}

/// After an empty first piece, pieces that are neither empty nor a `.` are
/// the components.
proof fn lemma_components_after_empty(names: Seq<Seq<u8>>)
    requires
        forall|k: int| 0 <= k < names.len() ==> (#[trigger] names[k]).len() > 0 && !is_dot(names[k]),
    ensures
        components_of(seq![Seq::<u8>::empty()] + names) == names,
    decreases names.len(),
{
    let whole = seq![Seq::<u8>::empty()] + names;
    if names.len() == 0 {
        assert(whole.drop_last() =~= Seq::<Seq<u8>>::empty());
        assert(components_of(Seq::<Seq<u8>>::empty()) =~= names);
        assert(components_of(whole) =~= names);
    } else {
        lemma_components_after_empty(names.drop_last());
        assert(whole.drop_last() =~= seq![Seq::<u8>::empty()] + names.drop_last());
        assert(names.drop_last().push(names.last()) =~= names);
    }
}

/// Bytes without a separator, written after a path, lengthen its last piece.
proof fn lemma_pieces_append(path: Seq<u8>, tail: Seq<u8>)
    requires
        is_plain(tail),
    ensures
        pieces(path + tail) == pieces(path).drop_last().push(pieces(path).last() + tail),
    decreases tail.len(),
{
    lemma_pieces_are_plain(path);
    let known = pieces(path);
    if tail.len() == 0 {
        assert(path + tail =~= path);
        assert(known.drop_last().push(known.last() + tail) =~= known);
    } else {
        let shorter = tail.drop_last();
        lemma_pieces_append(path, shorter);
        assert((path + tail).drop_last() =~= path + shorter);
        let before = pieces(path + shorter);
        assert(before.drop_last() =~= known.drop_last());
        assert(before.last().push(tail.last()) =~= known.last() + tail);
    }
}

/// A separator before a path puts an empty piece before its pieces.
proof fn lemma_pieces_after_separator(path: Seq<u8>)
    ensures
        pieces(seq![SEPARATOR] + path) == seq![Seq::<u8>::empty()] + pieces(path),
    decreases path.len(),
{
    let empty = Seq::<u8>::empty();
    let whole = seq![SEPARATOR] + path;
    if path.len() == 0 {
        assert(whole.drop_last() =~= empty);
        assert(pieces(empty) =~= seq![empty]);
        assert(pieces(whole) =~= seq![empty] + pieces(path));
    } else {
        lemma_pieces_after_separator(path.drop_last());
        lemma_pieces_are_plain(path.drop_last());
        assert(whole.drop_last() =~= seq![SEPARATOR] + path.drop_last());
        let before = pieces(path.drop_last());
        let shifted = seq![empty] + before;
        if path.last() == SEPARATOR {
            assert(shifted.push(empty) =~= seq![empty] + before.push(empty));
        } else {
            assert(shifted.drop_last() =~= seq![empty] + before.drop_last());
            assert(shifted.drop_last().push(shifted.last().push(path.last())) =~= seq![empty]
                + before.drop_last().push(before.last().push(path.last())));
        }
    }
}

/// The first piece of a rooted path is empty.
proof fn lemma_rooted_begins_empty(path: Seq<u8>)
    requires
        is_rooted(path),
    ensures
        pieces(path)[0].len() == 0,
{
    assert(path =~= seq![SEPARATOR] + path.skip(1));
    lemma_pieces_after_separator(path.skip(1));
}

/// The pieces of joined names are those names.
proof fn lemma_pieces_of_joined(names: Seq<Seq<u8>>)
    requires
        names.len() >= 1,
        forall|k: int| 0 <= k < names.len() ==> is_plain(#[trigger] names[k]),
    ensures
        pieces(joined(names)) == names,
    decreases names.len(),
{
    let empty = Seq::<u8>::empty();
    if names.len() == 1 {
        lemma_pieces_append(empty, names[0]);
        assert(empty + names[0] =~= names[0]);
        assert(seq![empty].drop_last().push(names[0]) =~= names);
    } else {
        let before = names.drop_last();
        lemma_pieces_of_joined(before);
        let head = joined(before).push(SEPARATOR);
        assert(head.drop_last() =~= joined(before));
        lemma_pieces_append(head, names.last());
        assert(before.push(empty).drop_last() =~= before);
        assert(empty + names.last() =~= names.last());
        assert(before.push(names.last()) =~= names);
    }
}

/// Joined names begin as the first name does.
proof fn lemma_joined_begins(names: Seq<Seq<u8>>)
    requires
        names.len() >= 1,
        names[0].len() > 0,
    ensures
        joined(names).len() > 0,
        joined(names)[0] == names[0][0],
    decreases names.len(),
{
    if names.len() > 1 {
        lemma_joined_begins(names.drop_last());
    }
}

/// Joining one more component appends it, after a separator unless it is the
/// first.
proof fn lemma_joined_push(components: Seq<Seq<u8>>, piece: Seq<u8>)
    ensures
        joined(components.push(piece)) == if components.len() == 0 {
            piece
        } else {
            joined(components).push(SEPARATOR) + piece
        },
{
    assert(components.push(piece).drop_last() =~= components);
}

} // verus!
