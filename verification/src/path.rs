//! File paths, kept as strings. What the platform's path rules decide is
//! asked of `std::path`; the results carry names, and the engine's rules
//! are stated over those names.

use vstd::prelude::*;

verus! {

/// Whether `std::path::Path::is_absolute` holds of the path.
pub uninterp spec fn path_is_absolute(path: Seq<char>) -> bool;

/// What `std::path::Path::parent` gives for the path.
pub uninterp spec fn path_parent(path: Seq<char>) -> Option<Seq<char>>;

/// What `std::path::Path::join` gives for a base and a path.
pub uninterp spec fn path_join(base: Seq<char>, path: Seq<char>) -> Seq<char>;

/// What `std::path::Path::file_name` gives for the path.
pub uninterp spec fn path_file_name(path: Seq<char>) -> Option<Seq<char>>;

/// Calls `std::path::Path::is_absolute`. The contract only names the answer.
#[verifier::external_body]
pub(crate) fn is_absolute(path: &str) -> (r: bool)
    ensures
        r == path_is_absolute(path@),
{
    std::path::Path::new(path).is_absolute()
}

/// Calls `std::path::Path::parent`: the path without its last component, or
/// nothing where it ends in a root or is empty. The contract only names the
/// answer.
#[verifier::external_body]
pub(crate) fn parent(path: &str) -> (r: Option<String>)
    ensures
        match r {
            Some(p) => path_parent(path@) == Some(p@),
            None => path_parent(path@) is None,
        },
{
    match std::path::Path::new(path).parent() {
        Some(p) => Some(p.to_string_lossy().into_owned()),
        None => None,
    }
}

/// Calls `std::path::Path::join`: `path` itself where it is absolute, else
/// `base` extended by it. The contract only names the answer.
#[verifier::external_body]
pub(crate) fn join(base: &str, path: &str) -> (r: String)
    ensures
        r@ == path_join(base@, path@),
{
    std::path::Path::new(base).join(path).to_string_lossy().into_owned()
}

/// Calls `std::path::Path::file_name`: the last component of the path, if it
/// is a normal one. The contract only names the answer.
#[verifier::external_body]
pub(crate) fn file_name(path: &str) -> (r: Option<String>)
    ensures
        match r {
            Some(p) => path_file_name(path@) == Some(p@),
            None => path_file_name(path@) is None,
        },
{
    match std::path::Path::new(path).file_name() {
        Some(p) => Some(p.to_string_lossy().into_owned()),
        None => None,
    }
}

/// The directory part of a path: its parent, or the path itself where it has
/// none.
pub open spec fn path_directory(path: Seq<char>) -> Seq<char> {
    match path_parent(path) {
        Some(p) => p,
        None => path,
    }
}

/// The directory part of a path.
pub fn directory(path: &str) -> (r: String)
    ensures
        r@ == path_directory(path@),
{
    match parent(path) {
        Some(p) => p,
        None => path.to_owned(),
    }
}

/// A path as a value of a template resolves against the file that owns it:
/// an absolute one stands for itself, a relative one is joined to the
/// owner's directory.
pub open spec fn path_resolve(owner: Seq<char>, value: Seq<char>) -> Seq<char> {
    if path_is_absolute(value) {
        value
    } else {
        path_join(path_directory(owner), value)
    }
}

pub fn resolve(owner: &str, value: &str) -> (r: String)
    ensures
        r@ == path_resolve(owner@, value@),
{
    if is_absolute(value) {
        value.to_owned()
    } else {
        let base = directory(owner);
        join(base.as_str(), value)
    }
}

} // verus!
