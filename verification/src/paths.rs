//! File-system paths as the daemon handles them: Unicode text, joined, split and
//! classified by the standard library's `Path`.

use vstd::prelude::*;
use crate::error::{WebError, ErrorKind, ErrorView};

verus! {

/// The parent that `std::path::Path::parent` gives for the path `p`.
pub uninterp spec fn path_parent(p: Seq<char>) -> Option<Seq<char>>;

/// The path that `std::path::Path::join` gives for `base` joined with `tail`.
pub uninterp spec fn path_join(base: Seq<char>, tail: Seq<char>) -> Seq<char>;

/// The final component that `std::path::Path::file_name` gives for `p`.
pub uninterp spec fn path_file_name(p: Seq<char>) -> Option<Seq<char>>;

/// Whether `std::path::Path::is_absolute` holds of `p` on this platform.
pub uninterp spec fn path_is_absolute(p: Seq<char>) -> bool;

/// Calls `Path::parent` on `p`.
///
/// Trusted: the result is what `std::path::Path::parent` returns, converted back to
/// text; a parent of a Unicode path is Unicode, so the conversion loses nothing.
#[verifier::external_body]
pub(crate) fn parent_of(p: &str) -> (r: Option<String>)
    ensures
        match r {
            Some(q) => path_parent(p@) == Some(q@),
            None => path_parent(p@) is None,
        },
{
    std::path::Path::new(p).parent().map(|q| q.to_string_lossy().into_owned())
}

/// Calls `Path::join` on `base` and `tail`.
///
/// Trusted: the result is what `std::path::Path::join` returns, as text; joining two
/// Unicode paths gives a Unicode path.
#[verifier::external_body]
pub(crate) fn join_path(base: &str, tail: &str) -> (r: String)
    ensures
        r@ == path_join(base@, tail@),
{
    std::path::Path::new(base).join(tail).to_string_lossy().into_owned()
}

/// Calls `Path::file_name` on `p`.
///
/// Trusted: the result is what `std::path::Path::file_name` returns, as text; a
/// component of a Unicode path is Unicode, so the conversion loses nothing.
#[verifier::external_body]
pub(crate) fn file_name_of(p: &str) -> (r: Option<String>)
    ensures
        match r {
            Some(n) => path_file_name(p@) == Some(n@),
            None => path_file_name(p@) is None,
        },
{
    std::path::Path::new(p).file_name().map(|n| n.to_string_lossy().into_owned())
}

/// Calls `Path::is_absolute` on `p`.
///
/// Trusted: the result is what `std::path::Path::is_absolute` returns.
#[verifier::external_body]
pub(crate) fn is_absolute(p: &str) -> (r: bool)
    ensures
        r == path_is_absolute(p@),
{
    std::path::Path::new(p).is_absolute()
}

/// The directory next to which `source_path` keeps its companions: its parent,
/// or `.` when it has none.
pub open spec fn parent_or_dot(source_path: Seq<char>) -> Seq<char> {
    match path_parent(source_path) {
        Some(parent) => parent,
        None => "."@,
    }
}

/// The directory holding `source_path`, where an empty parent counts as none.
pub open spec fn nonempty_parent_or_dot(source_path: Seq<char>) -> Seq<char> {
    match path_parent(source_path) {
        Some(parent) => if parent.len() > 0 {
            parent
        } else {
            "."@
        },
        None => "."@,
    }
}

/// A path of the platform, which need not be Unicode.
#[verifier::external_type_specification]
#[verifier::external_body]
pub struct ExPathBuf(std::path::PathBuf);

/// The text of `path` that `Path::to_str` gives, when it is Unicode.
pub uninterp spec fn path_text(path: std::path::PathBuf) -> Option<Seq<char>>;

/// The text that `Path::display` shows for `path`.
pub uninterp spec fn path_display(path: std::path::PathBuf) -> Seq<char>;

/// Calls `Path::to_str` on `path`.
///
/// Trusted: the result is the path's text when it is valid Unicode, else absent.
#[verifier::external_body]
fn unicode_text(path: &std::path::PathBuf) -> (r: Option<String>)
    ensures
        match r {
            Some(t) => path_text(*path) == Some(t@),
            None => path_text(*path) is None,
        },
{
    path.to_str().map(|text| text.to_owned())
}

/// Calls `Path::display` on `path` and formats it.
///
/// Trusted: the result is the text `Path::display` shows.
#[verifier::external_body]
fn displayed(path: &std::path::PathBuf) -> (r: String)
    ensures
        r@ == path_display(*path),
{
    format!("{}", path.display())
}

/// The text of a path, which must be Unicode.
pub fn path_string(path: &std::path::PathBuf) -> (r: Result<String, WebError>)
    ensures
        match path_text(*path) {
            Some(t) => r is Ok && r->Ok_0@ == t,
            None => r is Err && r->Err_0@ == (ErrorView {
                kind: ErrorKind::InvalidData,
                message: "path is not valid Unicode: "@ + path_display(*path),
            }),
        },
{
    match unicode_text(path) {
        Some(t) => Ok(t),
        None => {
            let mut message = String::from_str("path is not valid Unicode: ");
            let shown = displayed(path);
            message.append(shown.as_str());
            Err(WebError { kind: ErrorKind::InvalidData, message })
        },
    }
}

} // verus!
