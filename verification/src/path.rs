//! Slash-separated paths and the two ways in which one path is held against
//! another: by its leading components and by its trailing components.
//!
//! A path is read as a sequence of components. A leading `/` is the root
//! component; a leading `.` is kept as a component; every other piece between
//! separators is a component unless it is empty or a lone `.`.

use crate::bytes::{bytes_equal, copy_bytes};
use vstd::prelude::*;
use vstd::utf8::encode_utf8;

verus! {

/// The byte that separates components.
pub const SEPARATOR: u8 = 47;

/// The byte of which a current-directory piece consists.
pub const DOT: u8 = 46;

/// The pieces of `path` between separators, in order. There is always at least
/// one piece; a piece is empty where two separators meet or the path begins or
/// ends with one.
pub open spec fn segments(path: Seq<u8>) -> Seq<Seq<u8>>
    decreases path.len(),
{
    if path.len() == 0 {
        seq![Seq::<u8>::empty()]
    } else {
        let before = segments(path.drop_last());
        if path.last() == SEPARATOR {
            before.push(Seq::<u8>::empty())
        } else {
            before.drop_last().push(before.last().push(path.last()))
        }
    }
}

/// Whether a piece after the first one counts as a component: it is neither
/// empty nor a lone `.`.
pub open spec fn kept(piece: Seq<u8>) -> bool {
    piece.len() > 0 && !(piece.len() == 1 && piece[0] == DOT)
}

/// [`kept`] as a predicate value.
pub open spec fn kept_pred() -> spec_fn(Seq<u8>) -> bool {
    |piece: Seq<u8>| kept(piece)
}

/// The component that stands for the root of an absolute path.
pub open spec fn root_component() -> Seq<u8> {
    seq![SEPARATOR]
}

/// What the first piece of a path contributes: itself when it is not empty,
/// the root component when the path begins with a separator, nothing for the
/// empty path.
pub open spec fn leading_components(path: Seq<u8>) -> Seq<Seq<u8>> {
    let first = segments(path)[0];
    if first.len() > 0 {
        seq![first]
    } else if path.len() > 0 {
        seq![root_component()]
    } else {
        Seq::<Seq<u8>>::empty()
    }
}

/// The components of `path`.
pub open spec fn path_components(path: Seq<u8>) -> Seq<Seq<u8>> {
    leading_components(path) + segments(path).drop_first().filter(kept_pred())
}

/// The components of a path given as text.
pub open spec fn components_of(path: Seq<char>) -> Seq<Seq<u8>> {
    path_components(encode_utf8(path))
}

/// The suffix rule: the components of `tail` are the last components of
/// `whole`.
pub open spec fn ends_with(whole: Seq<char>, tail: Seq<char>) -> bool {
    components_of(tail).is_suffix_of(components_of(whole))
}

/// The prefix rule: the components of `head` are the first components of
/// `whole`.
pub open spec fn starts_with(whole: Seq<char>, head: Seq<char>) -> bool {
    components_of(head).is_prefix_of(components_of(whole))
}

/// What a vector of byte vectors holds.
pub open spec fn parts_view(parts: Seq<Vec<u8>>) -> Seq<Seq<u8>> {
    parts.map_values(|part: Vec<u8>| part@)
}

/// There is always a first piece.
pub proof fn lemma_segments_nonempty(path: Seq<u8>)
    ensures
        segments(path).len() >= 1,
    decreases path.len(),
{
    if path.len() > 0 {
        lemma_segments_nonempty(path.drop_last());
    }
}

/// Splits `path` at its separators.
fn split_segments(path: &[u8]) -> (pieces: Vec<Vec<u8>>)
    ensures
        parts_view(pieces@) == segments(path@),
{
    let mut done: Vec<Vec<u8>> = Vec::new();
    let mut current: Vec<u8> = Vec::new();
    let mut i: usize = 0;
    while i < path.len()
        invariant
            i <= path.len(),
            parts_view(done@).push(current@) == segments(path@.subrange(0, i as int)),
        decreases path.len() - i,
    {
        let byte = path[i];
        proof {
            let next = path@.subrange(0, i as int + 1);
            assert(next.drop_last() == path@.subrange(0, i as int));
            assert(next.last() == byte);
            let before = parts_view(done@).push(current@);
            assert(before.drop_last() == parts_view(done@));
            assert(before.last() == current@);
        }
        if byte == SEPARATOR {
            let ghost earlier = parts_view(done@);
            done.push(current);
            current = Vec::new();
            assert(parts_view(done@) == earlier.push(done@.last()@));
        } else {
            current.push(byte);
        }
        i = i + 1;
    }
    let ghost earlier = parts_view(done@);
    done.push(current);
    assert(parts_view(done@) == earlier.push(done@.last()@));
    assert(path@.subrange(0, i as int) == path@);
    done
}

/// The components of `path`, each as a vector of its bytes.
pub fn split_path(path: &[u8]) -> (parts: Vec<Vec<u8>>)
    ensures
        parts_view(parts@) == path_components(path@),
{
    let pieces = split_segments(path);
    proof {
        lemma_segments_nonempty(path@);
    }
    let mut parts: Vec<Vec<u8>> = Vec::new();
    if pieces[0].len() > 0 {
        parts.push(copy_bytes(pieces[0].as_slice()));
    } else if path.len() > 0 {
        let mut root: Vec<u8> = Vec::new();
        root.push(SEPARATOR);
        assert(root@ == root_component());
        parts.push(root);
    }
    assert(parts_view(parts@) == leading_components(path@));
    let ghost rest = segments(path@).drop_first();
    let mut i: usize = 1;
    proof {
        reveal(Seq::filter);
        assert(rest.subrange(0, 0).filter(kept_pred()) == Seq::<Seq<u8>>::empty());
    }
    while i < pieces.len()
        invariant
            1 <= i <= pieces.len(),
            parts_view(pieces@) == segments(path@),
            rest == segments(path@).drop_first(),
            parts_view(parts@) == leading_components(path@) + rest.subrange(0, i as int - 1).filter(
                kept_pred(),
            ),
        decreases pieces.len() - i,
    {
        let piece = &pieces[i];
        proof {
            let upto = rest.subrange(0, i as int);
            assert(upto.drop_last() == rest.subrange(0, i as int - 1));
            assert(upto.last() == piece@);
            reveal(Seq::filter);
        }
        let keep = piece.len() > 0 && !(piece.len() == 1 && piece[0] == DOT);
        if keep {
            let ghost earlier = parts_view(parts@);
            parts.push(copy_bytes(piece.as_slice()));
            assert(parts_view(parts@) == earlier.push(piece@));
        }
        i = i + 1;
    }
    assert(rest.subrange(0, i as int - 1) == rest);
    parts
}

/// Whether `count` components of `whole`, from position `from` on, equal the
/// first `count` components of `other`.
fn parts_agree(whole: &Vec<Vec<u8>>, from: usize, other: &Vec<Vec<u8>>) -> (same: bool)
    requires
        from + other.len() <= whole.len(),
    ensures
        same == (parts_view(whole@).subrange(from as int, from + other.len()) == parts_view(
            other@,
        )),
{
    let ghost window = parts_view(whole@).subrange(from as int, from + other.len());
    let mut i: usize = 0;
    while i < other.len()
        invariant
            i <= other.len(),
            from + other.len() <= whole.len(),
            window == parts_view(whole@).subrange(from as int, from + other.len()),
            forall|j: int| 0 <= j < i ==> window[j] == parts_view(other@)[j],
        decreases other.len() - i,
    {
        if !bytes_equal(whole[from + i].as_slice(), other[i].as_slice()) {
            assert(window[i as int] != parts_view(other@)[i as int]);
            return false;
        }
        i = i + 1;
    }
    assert(window =~= parts_view(other@));
    true
}

/// Whether the components of `whole` end with those of `tail`.
pub fn path_ends_with(whole: &str, tail: &str) -> (matched: bool)
    ensures
        matched == ends_with(whole@, tail@),
{
    let whole_parts = split_path(whole.as_bytes());
    let tail_parts = split_path(tail.as_bytes());
    if tail_parts.len() > whole_parts.len() {
        return false;
    }
    parts_agree(&whole_parts, whole_parts.len() - tail_parts.len(), &tail_parts)
}

/// Whether the components of `whole` begin with those of `head`.
pub fn path_starts_with(whole: &str, head: &str) -> (matched: bool)
    ensures
        matched == starts_with(whole@, head@),
{
    let whole_parts = split_path(whole.as_bytes());
    let head_parts = split_path(head.as_bytes());
    if head_parts.len() > whole_parts.len() {
        return false;
    }
    parts_agree(&whole_parts, 0, &head_parts)
}

} // verus!
