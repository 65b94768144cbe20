//! Unified error taxonomy.
//!
//! Every fallible operation of this crate reports its failure through
//! [`Error`]: a tagged kind plus the underlying cause's message, kept
//! verbatim for display. Errors are created at the point of failure and
//! propagated unchanged; nothing in this crate retries or recovers.

use vstd::prelude::*;

verus! {

/// The kind of an [`Error`]: exactly one variant is active per error.
#[derive(Clone, Copy, Debug, PartialEq, Eq, Structural)]
pub enum ErrorKind {
    /// A C string could not be built (interior NUL byte).
    FromNul,
    /// A foreign string could not be converted back to a native one.
    FromFfiString,
    /// An OS call or I/O operation failed.
    Io,
    /// Generic parse failure with no structured cause, for instance a
    /// line with too few columns.
    Parse,
    /// A field could not be parsed as an integer.
    ParseInt,
    /// A field could not be parsed as a floating-point number.
    ParseFloat,
    /// A field could not be parsed as a string.
    ParseString,
    /// Bytes were not valid UTF-8.
    FromUtf8,
    /// Any other wrapped cause.
    Other,
}

/// A failure of any operation in this crate, carrying its kind and the
/// message of the underlying cause.
#[derive(Debug)]
pub struct Error {
    kind: ErrorKind,
    detail: String,
}

impl Error {
    /// The active kind of this error.
    pub closed spec fn spec_kind(&self) -> ErrorKind {
        self.kind
    }

    /// The message of the underlying cause; empty where the error was
    /// built without one.
    pub closed spec fn spec_detail(&self) -> Seq<char> {
        self.detail@
    }

    /// What [`Error::message`] renders: the fixed text for the generic
    /// parse kind, and the cause's own message verbatim otherwise.
    pub open spec fn spec_message(&self) -> Seq<char> {
        if self.spec_kind() == ErrorKind::Parse {
            "Unable to parse"@
        } else {
            self.spec_detail()
        }
    }

    /// Constructs an error of the given kind with no cause message.
    pub fn new(kind: ErrorKind) -> (e: Error)
        ensures
            e.spec_kind() == kind,
            e.spec_detail() == Seq::<char>::empty(),
    {
        Error { kind, detail: String::new() }
    }

    /// Constructs an error of the given kind, keeping the underlying
    /// cause's message for display.
    pub fn with_detail(kind: ErrorKind, detail: String) -> (e: Error)
        ensures
            e.spec_kind() == kind,
            e.spec_detail() == detail@,
    {
        Error { kind, detail }
    }

    /// Captures the calling thread's most recent OS-reported failure
    /// and wraps it as an I/O error.
    pub fn last_os_error() -> (e: Error)
        ensures
            e.spec_kind() == ErrorKind::Io,
    {
        Error { kind: ErrorKind::Io, detail: os_error_message() }
    }

    /// The active kind of this error.
    pub fn kind(&self) -> (k: ErrorKind)
        ensures
            k == self.spec_kind(),
    {
        self.kind
    }

    /// Renders the error for a human reader: the wrapped cause's
    /// message verbatim, except for the generic parse kind, which has
    /// no structured cause and renders a fixed text.
    pub fn message(&self) -> (m: String)
        ensures
            m@ == self.spec_message(),
    {
        if matches!(self.kind, ErrorKind::Parse) {
            String::from_str("Unable to parse")
        } else {
            self.detail.clone()
        }
    }
}

/// Relies on `std::io::Error::last_os_error` to read the calling
/// thread's most recent OS error code; the code's standard rendering is
/// returned as a plain string.
#[verifier::external_body]
fn os_error_message() -> String {
    std::io::Error::last_os_error().to_string()
}

} // verus!
