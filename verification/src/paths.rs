//! File-path operations, delegated to `std::path`.
//!
//! Paths are handled as text (`String`); each operation below is one call of
//! `std::path::Path` and its result is named, not restated. The names stand
//! for the path rules of the platform the library is built for (Unix and
//! Windows split and join paths differently).

use vstd::prelude::*;

verus! {

/// What `Path::new(base).join(rel)` gives, as text.
pub uninterp spec fn joined_path(base: Seq<char>, rel: Seq<char>) -> Seq<char>;

/// What `Path::new(p).parent()` gives, as text.
pub uninterp spec fn parent_path(p: Seq<char>) -> Option<Seq<char>>;

/// What `Path::new(p).file_name()` gives, as text (`None` also when it is not
/// valid Unicode).
pub uninterp spec fn file_name_of(p: Seq<char>) -> Option<Seq<char>>;

/// What `Path::new(p).extension()` gives, as text (lossily converted).
pub uninterp spec fn extension_of(p: Seq<char>) -> Option<Seq<char>>;

/// Trusted: `std::path::Path::join`, converted back to text with
/// `to_string_lossy` (lossless here: both parts are Unicode). Its result is
/// named `joined_path`.
#[verifier::external_body]
pub(crate) fn path_join(base: &str, rel: &str) -> (r: String)
    ensures
        r@ == joined_path(base@, rel@),
{
    std::path::Path::new(base).join(rel).to_string_lossy().into_owned()
}

/// Trusted: `std::path::Path::parent`. Its result is named `parent_path`.
#[verifier::external_body]
pub(crate) fn path_parent(p: &str) -> (r: Option<String>)
    ensures
        r matches Some(s) ==> parent_path(p@) == Some(s@),
        r is None ==> parent_path(p@) is None,
{
    match std::path::Path::new(p).parent() {
        Some(q) => Some(q.to_string_lossy().into_owned()),
        None => None,
    }
}

/// Trusted: `std::path::Path::file_name` followed by `OsStr::to_str`. Its
/// result is named `file_name_of`.
#[verifier::external_body]
pub(crate) fn path_file_name(p: &str) -> (r: Option<String>)
    ensures
        r matches Some(s) ==> file_name_of(p@) == Some(s@),
        r is None ==> file_name_of(p@) is None,
{
    match std::path::Path::new(p).file_name() {
        Some(n) => match n.to_str() {
            Some(s) => Some(s.to_owned()),
            None => None,
        },
        None => None,
    }
}

/// Trusted: `std::path::Path::extension`, converted with `to_string_lossy`.
/// Its result is named `extension_of`.
#[verifier::external_body]
pub(crate) fn path_extension(p: &str) -> (r: Option<String>)
    ensures
        r matches Some(s) ==> extension_of(p@) == Some(s@),
        r is None ==> extension_of(p@) is None,
{
    match std::path::Path::new(p).extension() {
        Some(e) => Some(e.to_string_lossy().into_owned()),
        None => None,
    }
}

/// What `Path::new(p).strip_prefix(base)` gives, as text (`None` when `base`
/// is not a prefix of `p`).
pub uninterp spec fn relative_path(p: Seq<char>, base: Seq<char>) -> Option<Seq<char>>;

/// Trusted: `std::path::Path::strip_prefix`, converted with
/// `to_string_lossy`. Its result is named `relative_path`.
#[verifier::external_body]
pub(crate) fn path_strip_prefix(p: &str, base: &str) -> (r: Option<String>)
    ensures
        r matches Some(s) ==> relative_path(p@, base@) == Some(s@),
        r is None ==> relative_path(p@, base@) is None,
{
    match std::path::Path::new(p).strip_prefix(base) {
        Ok(q) => Some(q.to_string_lossy().into_owned()),
        Err(_) => None,
    }
}

} // verus!
