//! Path operations of `camino`, named over the character sequences of paths.

use vstd::prelude::*;
use crate::text::opt_view;

verus! {

/// What `Utf8Path::parent` gives for a path.
pub uninterp spec fn parent_of(p: Seq<char>) -> Option<Seq<char>>;

/// What `Utf8Path::join` gives for a base and an adjoined path.
pub uninterp spec fn joined(base: Seq<char>, rel: Seq<char>) -> Seq<char>;

/// What `Utf8Path::extension` gives for a path.
pub uninterp spec fn extension_of(p: Seq<char>) -> Option<Seq<char>>;

/// What `Utf8Path::file_name` gives for a path.
pub uninterp spec fn file_name_of(p: Seq<char>) -> Option<Seq<char>>;

/// Whether `Utf8Path`'s `==` holds of two paths (it compares components).
pub uninterp spec fn same_path(a: Seq<char>, b: Seq<char>) -> bool;

/// Relies on `camino::Utf8Path::parent`: the path without its final
/// component, a part of the path and so shorter than it, or `None` when
/// nothing is left to remove.
#[verifier::external_body]
pub fn path_parent(p: &str) -> (r: Option<String>)
    ensures
        opt_view(r) == parent_of(p@),
        r matches Some(q) ==> q@.len() < p@.len(),
{
    camino::Utf8Path::new(p).parent().map(|q| q.to_string())
}

/// Relies on `camino::Utf8Path::join`: `rel` adjoined to `base`.
#[verifier::external_body]
pub fn path_join(base: &str, rel: &str) -> (r: String)
    ensures
        r@ == joined(base@, rel@),
{
    camino::Utf8Path::new(base).join(rel).into_string()
}

/// Relies on `camino::Utf8Path::extension`: the extension of the final component.
#[verifier::external_body]
pub fn path_extension(p: &str) -> (r: Option<String>)
    ensures
        opt_view(r) == extension_of(p@),
{
    camino::Utf8Path::new(p).extension().map(|e| e.to_string())
}

/// Relies on `camino::Utf8Path::file_name`: the final component.
#[verifier::external_body]
pub fn path_file_name(p: &str) -> (r: Option<String>)
    ensures
        opt_view(r) == file_name_of(p@),
{
    camino::Utf8Path::new(p).file_name().map(|n| n.to_string())
}

/// Relies on `==` of `camino::Utf8Path`.
#[verifier::external_body]
pub fn path_eq(a: &str, b: &str) -> (r: bool)
    ensures
        r == same_path(a@, b@),
{
    camino::Utf8Path::new(a) == camino::Utf8Path::new(b)
}

} // verus!
