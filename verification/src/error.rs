//! The errors that building a public API can end in.

use std::io::Error as IoFailure;

use serde_json::Error as JsonError;

use vstd::prelude::*;

verus! {

#[verifier::external_type_specification]
#[verifier::external_body]
pub struct ExJsonError(JsonError);

#[verifier::external_type_specification]
#[verifier::external_body]
pub struct ExIoError(IoFailure);

/// Enumerates all errors that can currently occur within this crate.
#[derive(Debug)]
#[non_exhaustive]
pub enum Error {
    /// Occurs if the rustdoc JSON you provide can't be parsed. Typically
    /// because the rustdoc JSON format that your version of nightly outputs is
    /// too old.
    SerdeJsonError(JsonError),
    /// Some kind of IO error occurred. For example, we might not have read
    /// permissions on the rustdoc JSON input file.
    IoError(IoFailure),
    /// `cargo rustdoc` (or `cargo metadata`) failed while building rustdoc
    /// JSON.
    Cargo(String),
    /// A crate referenced by `external_crates` could not be matched to a
    /// compiled dependency artifact, or an artifact could not be matched to a
    /// manifest.
    Resolve(String),
    /// The expected rustdoc JSON output file was not produced; it holds the
    /// path where the file was expected.
    MissingJson(String),
}

/// Shorthand for `std::result::Result<T, Error>`.
pub type Result<T> = std::result::Result<T, Error>;

/// The text that `serde_json` displays an error as, for an error that is not
/// of its I/O kind.
pub uninterp spec fn json_error_text(e: JsonError) -> Seq<char>;

/// Whether a JSON error is of `serde_json`'s I/O kind (`Error::classify`
/// gives `Category::Io`): one that wraps an I/O error.
pub uninterp spec fn is_io_json_error(e: JsonError) -> bool;

/// The text of a JSON error.
///
/// Trusted: formats `e` with its `Display` impl from `serde_json`. For an
/// error that is not of the I/O kind, that text is the error's message with
/// the line and column where it was found, fixed by the error alone; the
/// contract claims it is the one that [`json_error_text`] names. For an error
/// of the I/O kind, `serde_json` displays the wrapped `std::io::Error`, whose
/// text may follow the locale or a custom `Display` impl, so nothing is
/// claimed of it.
#[verifier::external_body]
fn describe_json_error(e: &JsonError) -> (r: String)
    ensures
        !is_io_json_error(*e) ==> r@ == json_error_text(*e),
{
    format!("{e}")
}

/// The text of an I/O error.
///
/// Trusted: formats `e` with its `Display` impl from `std`. That text may
/// depend on the locale (for an error of the operating system) or on a custom
/// `Display` impl, so nothing is claimed of it.
#[verifier::external_body]
fn describe_io_error(e: &IoFailure) -> (r: String) {
    format!("{e}")
}

/// The underlying error that caused an [`Error`].
pub enum ErrorSource<'a> {
    /// A JSON error.
    Json(&'a JsonError),
    /// An I/O error.
    Io(&'a IoFailure),
}

impl Error {
    /// The text an error is displayed as, where the error alone fixes it:
    /// none for an I/O error, or a JSON error of the I/O kind, whose text
    /// comes from the operating system or a custom `Display` impl.
    pub open spec fn message_spec(&self) -> Option<Seq<char>> {
        match self {
            Error::SerdeJsonError(e) => if is_io_json_error(*e) {
                None
            } else {
                Some(json_error_text(*e))
            },
            Error::IoError(_) => None,
            Error::Cargo(msg) => Some("cargo command failed: "@ + msg@),
            Error::Resolve(msg) => Some("could not resolve external crate: "@ + msg@),
            Error::MissingJson(path) => Some("rustdoc JSON not found at "@ + path@),
        }
    }

    /// The error as text: the text of the underlying error for JSON and I/O
    /// errors, and a sentence that names what failed otherwise.
    pub fn message(&self) -> (r: String)
        ensures
            self.message_spec() matches Some(text) ==> r@ == text,
    {
        match self {
            Error::SerdeJsonError(e) => describe_json_error(e),
            Error::IoError(e) => describe_io_error(e),
            Error::Cargo(msg) => {
                let mut r = String::from_str("cargo command failed: ");
                r.append(msg.as_str());
                r
            },
            Error::Resolve(msg) => {
                let mut r = String::from_str("could not resolve external crate: ");
                r.append(msg.as_str());
                r
            },
            Error::MissingJson(path) => {
                let mut r = String::from_str("rustdoc JSON not found at ");
                r.append(path.as_str());
                r
            },
        }
    }

    /// The underlying error that caused this one: the wrapped JSON or I/O
    /// error, and none for the other errors.
    pub fn source(&self) -> (r: Option<ErrorSource<'_>>)
        ensures
            match self {
                Error::SerdeJsonError(e) => r == Some(ErrorSource::Json(e)),
                Error::IoError(e) => r == Some(ErrorSource::Io(e)),
                _ => r is None,
            },
    {
        match self {
            Error::SerdeJsonError(e) => Some(ErrorSource::Json(e)),
            Error::IoError(e) => Some(ErrorSource::Io(e)),
            _ => None,
        }
    }
}

impl From<JsonError> for Error {
    fn from(e: JsonError) -> (r: Self) {
        Error::SerdeJsonError(e)
    }
}

impl vstd::std_specs::convert::FromSpecImpl<JsonError> for Error {
    open spec fn obeys_from_spec() -> bool {
        true
    }

    open spec fn from_spec(e: JsonError) -> Error {
        Error::SerdeJsonError(e)
    }
}

impl From<IoFailure> for Error {
    fn from(e: IoFailure) -> (r: Self) {
        Error::IoError(e)
    }
}

impl vstd::std_specs::convert::FromSpecImpl<IoFailure> for Error {
    open spec fn obeys_from_spec() -> bool {
        true
    }

    open spec fn from_spec(e: IoFailure) -> Error {
        Error::IoError(e)
    }
}

} // verus!
