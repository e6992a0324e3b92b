//! Paths as `camino` reads them: the final file name, its extension, the
//! components and the parent.
//!
//! Splitting a path into components (repeated separators, `.` components, a root)
//! is `camino`'s work, and what it yields is named here rather than restated; the
//! extension is stated from the file name the way the documentation gives it.
use vstd::prelude::*;

use camino::Utf8Path;

verus! {

/// The final component of a path, when it is a file or directory name
/// (`Utf8Path::file_name`).
pub uninterp spec fn path_file_name(path: Seq<char>) -> Option<Seq<char>>;

/// The components of a path, each as text (`Utf8Path::components`).
pub uninterp spec fn path_components(path: Seq<char>) -> Seq<Seq<char>>;

/// The path without its final component (`Utf8Path::parent`).
pub uninterp spec fn path_parent(path: Seq<char>) -> Option<Seq<char>>;

/// A path with another appended (`Utf8Path::join`).
pub uninterp spec fn path_join(base: Seq<char>, rel: Seq<char>) -> Seq<char>;

/// An optional string as plain values.
pub open spec fn opt_view(o: Option<String>) -> Option<Seq<char>> {
    match o {
        Some(s) => Some(s@),
        None => None,
    }
}

/// Index of the last `.` in `name[..end]`, or -1.
pub open spec fn last_dot(name: Seq<char>, end: int) -> int
    decreases end,
{
    if end <= 0 {
        -1
    } else if name[end - 1] == '.' {
        end - 1
    } else {
        last_dot(name, end - 1)
    }
}

/// The extension of a file name: what follows its last `.`, unless there is no
/// `.` or the only one starts the name.
pub open spec fn name_extension(name: Seq<char>) -> Option<Seq<char>> {
    let p = last_dot(name, name.len() as int);
    if p <= 0 {
        None
    } else {
        Some(name.subrange(p + 1, name.len() as int))
    }
}

/// The extension of a path, from its file name.
pub open spec fn path_extension(path: Seq<char>) -> Option<Seq<char>> {
    match path_file_name(path) {
        Some(n) => name_extension(n),
        None => None,
    }
}

/// `Utf8Path::file_name`.
#[verifier::external_body]
pub(crate) fn file_name(path: &str) -> (r: Option<String>)
    ensures
        opt_view(r) == path_file_name(path@),
{
    Utf8Path::new(path).file_name().map(|name| name.to_owned())
}

/// `Utf8Path::extension`: per its documentation, `None` without a file name, or
/// when the file name has no `.` or only a leading one, and otherwise the text
/// after the last `.`.
#[verifier::external_body]
pub(crate) fn extension(path: &str) -> (r: Option<String>)
    ensures
        opt_view(r) == path_extension(path@),
{
    Utf8Path::new(path).extension().map(|extension| extension.to_owned())
}

/// `Utf8Path::components`, each component's text.
#[verifier::external_body]
pub(crate) fn components(path: &str) -> (r: Vec<String>)
    ensures
        r@.map_values(|c: String| c@) == path_components(path@),
{
    Utf8Path::new(path).components().map(|component| component.as_str().to_owned()).collect()
}

/// `Utf8Path::parent`.
#[verifier::external_body]
pub(crate) fn parent(path: &str) -> (r: Option<String>)
    ensures
        opt_view(r) == path_parent(path@),
{
    Utf8Path::new(path).parent().map(|parent| parent.as_str().to_owned())
}

/// `Utf8Path::join`: `rel` appended to `base`.
#[verifier::external_body]
pub(crate) fn join(base: &str, rel: &str) -> (r: String)
    ensures
        r@ == path_join(base@, rel@),
{
    Utf8Path::new(base).join(rel).into_string()
}

} // verus!
