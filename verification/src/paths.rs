//! When two file paths, as text, name the same place without asking the file system:
//! component by component, as the platform reads them.

use vstd::prelude::*;

verus! {

/// The text between the separators, the separators taken out.
pub open spec fn pieces(path: Seq<char>) -> Seq<Seq<char>>
    decreases path.len(),
{
    if path.len() == 0 {
        seq![Seq::empty()]
    } else {
        let before = pieces(path.drop_last());
        if path.last() == '/' {
            before.push(Seq::empty())
        } else {
            before.drop_last().push(before.last().push(path.last()))
        }
    }
}

/// Whether a piece names a component: it is not empty, and it is no `.` but for
/// one that the path begins with.
pub open spec fn is_component(piece: Seq<char>, first: bool) -> bool {
    piece.len() > 0 && (first || !(piece.len() == 1 && piece[0] == '.'))
}

/// The components among the first pieces of a path.
pub open spec fn components_of(pieces: Seq<Seq<char>>) -> Seq<Seq<char>>
    decreases pieces.len(),
{
    if pieces.len() == 0 {
        Seq::empty()
    } else {
        let before = components_of(pieces.drop_last());
        if is_component(pieces.last(), pieces.len() == 1) {
            before.push(pieces.last())
        } else {
            before
        }
    }
}

/// Whether a path starts at the root.
pub open spec fn is_rooted(path: Seq<char>) -> bool {
    path.len() > 0 && path[0] == '/'
}

/// Whether two paths have the same components, from the same starting point.
pub open spec fn same_path(a: Seq<char>, b: Seq<char>) -> bool {
    is_rooted(a) == is_rooted(b) && components_of(pieces(a)) == components_of(pieces(b))
}

/// A separator more at its end changes nothing about where a path leads.
pub proof fn a_trailing_separator_changes_nothing(path: Seq<char>)
    requires
        path.len() > 0,
    ensures
        same_path(path, path.push('/')),
{
    let longer = path.push('/');
    assert(longer.drop_last() =~= path);
    let more = pieces(longer);
    assert(more == pieces(path).push(Seq::empty()));
    assert(more.drop_last() =~= pieces(path));
}

/// Whether a path reads the same on Unix and on Windows: it has no `\` and no `:`, and
/// does not begin with two separators, by which drives and shares are told.
pub open spec fn is_portable(path: Seq<char>) -> bool {
    &&& !path.contains('\\')
    &&& !path.contains(':')
    &&& !(path.len() > 1 && path[0] == '/' && path[1] == '/')
}

/// Whether the platform may answer `same` where it is asked if two paths agree: a path
/// agrees with itself, and portable paths agree exactly where their components do.
pub open spec fn may_agree(a: Seq<char>, b: Seq<char>, same: bool) -> bool {
    &&& a == b ==> same
    &&& is_portable(a) && is_portable(b) ==> same == same_path(a, b)
}

/// Whether `a` and `b` are the same path on this platform.
///
/// Makes the comparison of `std::path::Path` by `==`. On Unix and on Windows alike `/`
/// separates, and repeated separators, a separator at the end, and every `.` but for one
/// at the beginning are disregarded; nothing else is. What the comparison answers for
/// paths that are not portable is a matter of the platform, which decides what else
/// separates and which prefixes there are. That is left open, but for a path beside
/// itself.
#[verifier::external_body]
pub(crate) fn paths_agree(a: &str, b: &str) -> (same: bool)
    ensures
        may_agree(a@, b@, same),
{
    std::path::Path::new(a) == std::path::Path::new(b)
}

} // verus!
