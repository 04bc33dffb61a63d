//! File paths as text, taken apart and put together by `std::path`.
//!
//! Both operations are lexical: they look at the texts they are given and
//! never at the file system.

use vstd::prelude::*;

verus! {

/// What `Path::parent` makes of a path: the path without its last component,
/// or `None` where the path ends in a root or is empty.
pub uninterp spec fn parent_path(path: Seq<char>) -> Option<Seq<char>>;

/// What `Path::join` makes of a base and a path: the path itself where it is
/// absolute, else the base extended by it.
pub uninterp spec fn joined_path(base: Seq<char>, path: Seq<char>) -> Seq<char>;

/// `Path::parent` on a path given as text; the contract gives the outcome
/// the name [`parent_path`].
#[verifier::external_body]
pub(crate) fn parent_of(path: &str) -> (r: Option<String>)
    ensures
        match r {
            Some(parent) => parent_path(path@) == Some(parent@),
            None => parent_path(path@).is_none(),
        },
{
    std::path::Path::new(path).parent().map(|parent| parent.to_string_lossy().into_owned())
}

/// `Path::join` on a base and a path given as text; the contract gives the
/// outcome the name [`joined_path`].
#[verifier::external_body]
pub(crate) fn join_paths(base: &str, path: &str) -> (r: String)
    ensures
        r@ == joined_path(base@, path@),
{
    std::path::Path::new(base).join(path).to_string_lossy().into_owned()
}

} // verus!
