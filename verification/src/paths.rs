//! The few path operations the library needs, taken from `std::path` and
//! `path_clean` on paths written as strings.
//!
//! Each result is a function of the path strings alone; the library names it
//! and states only what the documentation of the operation plainly says.

use vstd::prelude::*;
use std::path::Path;

verus! {

/// What `Path::file_name` returns for this path.
pub uninterp spec fn file_name_of(p: Seq<char>) -> Option<Seq<char>>;

/// What `Path::extension` returns for this path.
pub uninterp spec fn extension_of(p: Seq<char>) -> Option<Seq<char>>;

/// What `Path::file_stem` returns for this path.
pub uninterp spec fn file_stem_of(p: Seq<char>) -> Option<Seq<char>>;

/// What `Path::parent` returns for this path.
pub uninterp spec fn parent_of(p: Seq<char>) -> Option<Seq<char>>;

/// What `Path::join` returns for these paths.
pub uninterp spec fn joined(base: Seq<char>, p: Seq<char>) -> Seq<char>;

/// What `Path::with_extension` returns for this path and extension.
pub uninterp spec fn with_extension_of(p: Seq<char>, ext: Seq<char>) -> Seq<char>;

/// Whether `Path`'s `==` holds for these paths (it compares components).
pub uninterp spec fn same_path(a: Seq<char>, b: Seq<char>) -> bool;

/// What `path_clean::clean` returns for this path.
pub uninterp spec fn cleaned(p: Seq<char>) -> Seq<char>;

/// Calls `Path::file_name`: the final component of the path, unless it ends
/// in `..`. The name of a component of a `&str` path is itself valid UTF-8,
/// so the conversion back to a string keeps every character.
#[verifier::external_body]
pub(crate) fn file_name(p: &str) -> (r: Option<String>)
    ensures
        r matches Some(n) ==> file_name_of(p@) == Some(n@),
        r is None ==> file_name_of(p@) is None,
{
    Path::new(p).file_name().map(|n| n.to_string_lossy().into_owned())
}

/// Calls `Path::extension`: the part of the file name after its last `.`,
/// when there is one.
#[verifier::external_body]
pub(crate) fn extension(p: &str) -> (r: Option<String>)
    ensures
        r matches Some(n) ==> extension_of(p@) == Some(n@),
        r is None ==> extension_of(p@) is None,
{
    Path::new(p).extension().map(|n| n.to_string_lossy().into_owned())
}

/// Calls `Path::file_stem`: the file name without its extension.
#[verifier::external_body]
pub(crate) fn file_stem(p: &str) -> (r: Option<String>)
    ensures
        r matches Some(n) ==> file_stem_of(p@) == Some(n@),
        r is None ==> file_stem_of(p@) is None,
{
    Path::new(p).file_stem().map(|n| n.to_string_lossy().into_owned())
}

/// Calls `Path::parent`: the path without its final component, if it has one.
#[verifier::external_body]
pub(crate) fn parent(p: &str) -> (r: Option<String>)
    ensures
        r matches Some(n) ==> parent_of(p@) == Some(n@),
        r is None ==> parent_of(p@) is None,
{
    Path::new(p).parent().map(|n| n.to_string_lossy().into_owned())
}

/// Calls `Path::join`.
#[verifier::external_body]
pub(crate) fn join(base: &str, p: &str) -> (r: String)
    ensures
        r@ == joined(base@, p@),
{
    Path::new(base).join(p).to_string_lossy().into_owned()
}

/// Calls `Path::with_extension`: the path with its extension replaced (or
/// added). It panics on an extension holding a path separator, which is
/// therefore ruled out.
#[verifier::external_body]
pub(crate) fn with_extension(p: &str, ext: &str) -> (r: String)
    requires
        !ext@.contains('/'),
        !ext@.contains('\\'),
    ensures
        r@ == with_extension_of(p@, ext@),
{
    Path::new(p).with_extension(ext).to_string_lossy().into_owned()
}

/// Calls `==` on two `Path`s, which compares them component by component;
/// a path equals itself.
#[verifier::external_body]
pub(crate) fn paths_equal(a: &str, b: &str) -> (r: bool)
    ensures
        r == same_path(a@, b@),
        a@ == b@ ==> r,
{
    Path::new(a) == Path::new(b)
}

/// Calls `path_clean::clean`, which resolves `.` and `..` components and
/// repeated separators lexically.
#[verifier::external_body]
pub(crate) fn clean(p: &str) -> (r: String)
    ensures
        r@ == cleaned(p@),
{
    path_clean::clean(p).to_string_lossy().into_owned()
}

} // verus!
