//! Paths as sequences of components.

use crate::text::{chars_of, equals, split, spells};
#[allow(unused_imports)]
use crate::text::{split_on, views};
use vstd::prelude::*;

verus! {

/// The pieces of a path that name something: empty pieces do not, nor does a dot behind the
/// first piece.
pub open spec fn kept_pieces(pieces: Seq<Seq<char>>) -> Seq<Seq<char>>
    decreases pieces.len(),
{
    if pieces.len() == 0 {
        Seq::empty()
    } else {
        let before = kept_pieces(pieces.drop_last());
        let piece = pieces.last();
        if piece.len() == 0 || (piece == "."@ && pieces.len() > 1) {
            before
        } else {
            before.push(piece)
        }
    }
}

/// The components of a path, the root among them.
pub open spec fn components(path: Seq<char>) -> Seq<Seq<char>> {
    (if path.len() > 0 && path[0] == '/' {
        seq!["/"@]
    } else {
        Seq::empty()
    }) + kept_pieces(split_on(path, '/'))
}

/// Whether `path` is `base` or lies below it.
pub open spec fn lies_under(path: Seq<char>, base: Seq<char>) -> bool {
    components(base).len() <= components(path).len() && components(path).take(
        components(base).len() as int,
    ) == components(base)
}

/// Whether two paths have the same components.
pub open spec fn same_path(left: Seq<char>, right: Seq<char>) -> bool {
    components(left) == components(right)
}

/// The last component of a path, or nothing.
pub open spec fn file_name(path: Seq<char>) -> Seq<char> {
    if components(path).len() == 0 {
        Seq::empty()
    } else {
        components(path).last()
    }
}

/// Splits a path into its components.
pub fn components_of(path: &str) -> (found: Vec<Vec<char>>)
    ensures
        views(found@) == components(path@),
{
    let chars = chars_of(path);
    let pieces = split(chars.as_slice(), '/');
    let mut found: Vec<Vec<char>> = Vec::new();
    if chars.len() > 0 && chars[0] == '/' {
        found.push(chars_of("/"));
    }
    let ghost root = views(found@);
    let ghost all = views(pieces@);
    assert(root =~= (if path@.len() > 0 && path@[0] == '/' {
        seq!["/"@]
    } else {
        Seq::empty()
    }));
    let mut i: usize = 0;
    assert(all.take(0) =~= Seq::<Seq<char>>::empty());
    assert(views(found@) =~= root + kept_pieces(all.take(0)));
    while i < pieces.len()
        invariant
            i <= pieces@.len(),
            all == views(pieces@),
            views(found@) == root + kept_pieces(all.take(i as int)),
        decreases pieces@.len() - i,
    {
        let ghost before = found@;
        proof {
            assert(all.take(i + 1).drop_last() =~= all.take(i as int));
            assert(all.take(i + 1).last() == pieces@[i as int]@);
        }
        let piece = &pieces[i];
        if !(piece.len() == 0 || (spells(piece.as_slice(), ".") && i > 0)) {
            found.push(crate::text::copy_chars(piece.as_slice()));
            assert(views(found@) =~= views(before).push(piece@));
        }
        assert(views(found@) =~= root + kept_pieces(all.take(i + 1)));
        i = i + 1;
    }
    assert(all.take(pieces@.len() as int) =~= all);
    found
}

/// Whether `path` is `base` or lies below it.
pub fn starts_with(path: &str, base: &str) -> (under: bool)
    ensures
        under == lies_under(path@, base@),
{
    let path_parts = components_of(path);
    let base_parts = components_of(base);
    let ghost whole = views(path_parts@);
    let ghost head = views(base_parts@);
    if base_parts.len() > path_parts.len() {
        return false;
    }
    let mut i: usize = 0;
    while i < base_parts.len()
        invariant
            i <= base_parts@.len() <= path_parts@.len(),
            whole == views(path_parts@),
            head == views(base_parts@),
            whole == components(path@),
            head == components(base@),
            forall|j: int| 0 <= j < i ==> whole[j] == head[j],
        decreases base_parts@.len() - i,
    {
        if !equals(path_parts[i].as_slice(), base_parts[i].as_slice()) {
            assert(whole[i as int] != head[i as int]);
            assert(whole.take(head.len() as int)[i as int] == whole[i as int]);
            return false;
        }
        i = i + 1;
    }
    assert(whole.take(head.len() as int) =~= head);
    true
}

/// Whether two paths have the same components.
pub fn same(left: &str, right: &str) -> (same: bool)
    ensures
        same == same_path(left@, right@),
{
    let count: usize = components_of(left).len();
    let other: usize = components_of(right).len();
    let under = starts_with(left, right);
    proof {
        if count == other && under {
            let whole = components(left@);
            assert(whole.take(whole.len() as int) =~= whole);
        }
        if same_path(left@, right@) {
            let whole = components(left@);
            assert(whole.take(whole.len() as int) =~= whole);
        }
    }
    count == other && under
}

/// The last component of a path, or nothing.
pub fn name_of(path: &str) -> (name: Vec<char>)
    ensures
        name@ == file_name(path@),
{
    let mut parts = components_of(path);
    let ghost all = views(parts@);
    match parts.pop() {
        Some(name) => {
            assert(all.last() == name@);
            name
        },
        None => Vec::new(),
    }
}

/// Law: a path is taken piece by piece: empty pieces and dots name nothing, and any other piece
/// names itself, in order.
pub proof fn law_pieces_one_by_one(pieces: Seq<Seq<char>>, piece: Seq<char>)
    ensures
        kept_pieces(Seq::empty()) == Seq::<Seq<char>>::empty(),
        kept_pieces(pieces.push(piece)) == (if piece.len() == 0 || (piece == "."@ && pieces.len()
            > 0) {
            kept_pieces(pieces)
        } else {
            kept_pieces(pieces).push(piece)
        }),
{
    assert(pieces.push(piece).drop_last() =~= pieces);
}

/// Law: a path lies under itself, under every path that its components begin with, and under no
/// other; and the relation goes by whole components.
pub proof fn law_paths_lie_under_their_beginnings(path: Seq<char>, base: Seq<char>, index: int)
    ensures
        lies_under(path, path),
        lies_under(path, base) ==> components(base).len() <= components(path).len(),
        lies_under(path, base) && 0 <= index < components(base).len() ==> components(path)[index]
            == components(base)[index],
        components(base).len() <= components(path).len() && (forall|i: int|
            0 <= i < components(base).len() ==> components(path)[i] == #[trigger] components(
                base,
            )[i]) ==> lies_under(path, base),
        lies_under(path, base) && lies_under(base, path) ==> same_path(path, base),
        same_path(path, base) ==> lies_under(path, base),
{
    let (long, short) = (components(path), components(base));
    assert(long.take(long.len() as int) =~= long);
    if short.len() <= long.len() && (forall|i: int|
        0 <= i < short.len() ==> long[i] == #[trigger] short[i]) {
        assert(long.take(short.len() as int) =~= short);
    }
    if lies_under(path, base) {
        if 0 <= index < short.len() {
            assert(long.take(short.len() as int)[index] == short[index]);
        }
        if lies_under(base, path) {
            assert(long.take(short.len() as int) =~= long);
        }
    }
}

} // verus!
