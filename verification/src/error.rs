//! Errors reported by the library, mirroring the kinds of `std::io::Error` that the
//! daemon surfaces to its callers.

use vstd::prelude::*;

verus! {

/// The category of a failure.
#[derive(Debug, Clone, Copy, PartialEq, Eq, Structural)]
pub enum ErrorKind {
    InvalidData,
    InvalidInput,
    NotFound,
    PermissionDenied,
    Unsupported,
    WouldBlock,
    Other,
}

/// A failure with its category and the human-readable message shown to the user.
#[derive(Debug, Clone, PartialEq, Eq)]
pub struct WebError {
    pub kind: ErrorKind,
    pub message: String,
}

/// The mathematical content of a [`WebError`].
pub struct ErrorView {
    pub kind: ErrorKind,
    pub message: Seq<char>,
}

impl View for WebError {
    type V = ErrorView;

    open spec fn view(&self) -> ErrorView {
        ErrorView { kind: self.kind, message: self.message@ }
    }
}

impl WebError {
    /// A copy of the error.
    pub fn duplicate(&self) -> (copy: WebError)
        ensures
            copy@ == self@,
    {
        WebError { kind: self.kind, message: self.message.clone() }
    }
}

/// An `InvalidData` error with the given message.
pub open spec fn invalid_view(message: Seq<char>) -> ErrorView {
    ErrorView { kind: ErrorKind::InvalidData, message }
}

/// An `InvalidData` error carrying `message`.
pub fn invalid(message: String) -> (error: WebError)
    ensures
        error@ == invalid_view(message@),
{
    WebError { kind: ErrorKind::InvalidData, message }
}

/// An error of the given kind whose message is the text `message`.
pub fn error_with(kind: ErrorKind, message: &str) -> (error: WebError)
    ensures
        error@ == (ErrorView { kind, message: message@ }),
{
    WebError { kind, message: String::from_str(message) }
}

/// The concatenation of three pieces of text.
pub fn concat3(a: &str, b: &str, c: &str) -> (s: String)
    ensures
        s@ == a@ + b@ + c@,
{
    let mut s = String::from_str(a);
    s.append(b);
    s.append(c);
    s
}

} // verus!
