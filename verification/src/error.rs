use crate::text::{append_chars, append_str, chars_of, decimal, decimal_chars, string_of};
use vstd::prelude::*;

verus! {

/// An error with operation and path context where relevant.
///
/// Paths are the library's text form of a path; a filesystem or database
/// failure carries the diagnostic text that the failing call reported.
#[derive(Clone, Debug)]
pub enum Error {
    /// A filesystem operation failed.
    Io {
        /// The operation being attempted.
        operation: &'static str,
        /// The path involved in the operation.
        path: String,
        /// The operating-system diagnostic.
        message: String,
    },
    /// `SQLite` rejected an operation.
    Database {
        /// The operation being attempted.
        operation: &'static str,
        /// The database path.
        path: String,
        /// A stable, displayable diagnostic that does not expose `SQLite` types.
        message: String,
    },
    /// The directory is not a recognizable supported Calibre library.
    InvalidLibrary {
        /// The library path.
        path: String,
        /// Why validation failed.
        reason: String,
    },
    /// The schema cannot safely perform the requested operation.
    UnsupportedSchema {
        /// The operation being attempted.
        operation: &'static str,
        /// The detected schema version.
        detected: u32,
        /// The versions supported for this operation.
        supported: &'static str,
    },
    /// A feature is intentionally unavailable until compatibility is proven.
    UnsupportedOperation {
        /// The operation that was refused.
        operation: &'static str,
        /// The compatibility constraint.
        reason: String,
    },
    /// An ID does not identify an existing row.
    NotFound {
        /// Entity kind.
        entity: &'static str,
        /// Numeric ID.
        id: i64,
    },
    /// Caller input is invalid.
    InvalidInput {
        /// Input field.
        field: &'static str,
        /// Validation detail.
        reason: String,
    },
    /// A database path would escape the library root.
    PathEscape {
        /// The untrusted path.
        path: String,
        /// Why it was rejected.
        reason: String,
    },
}

/// A result returned by this crate.
pub type Result<T> = core::result::Result<T, Error>;

/// An invalid-input error for `field`.
pub fn invalid_input(field: &'static str, reason: &str) -> (e: Error)
    ensures
        e matches Error::InvalidInput { field: f, reason: q } && f == field && q@ == reason@,
{
    Error::InvalidInput { field, reason: reason.to_owned() }
}

/// A path-escape error for `path`.
pub fn path_escape(path: &str, reason: &str) -> (e: Error)
    ensures
        e matches Error::PathEscape { path: p, reason: q } && p@ == path@ && q@ == reason@,
{
    Error::PathEscape { path: path.to_owned(), reason: reason.to_owned() }
}

/// An invalid-library error for `path`, saying why in `reason`.
pub fn invalid_library(path: &str, reason: &str) -> (e: Error)
    ensures
        e matches Error::InvalidLibrary { path: p, reason: q } && p@ == path@ && q@ == reason@,
{
    Error::InvalidLibrary { path: path.to_owned(), reason: reason.to_owned() }
}

/// An unsupported-operation error.
pub fn unsupported(operation: &'static str, reason: &str) -> (e: Error)
    ensures
        e matches Error::UnsupportedOperation { operation: o, reason: q } && o == operation && q@
            == reason@,
{
    Error::UnsupportedOperation { operation, reason: reason.to_owned() }
}

/// The text an error displays.
pub open spec fn error_text(e: Error) -> Seq<char> {
    match e {
        Error::Io { operation, path, message } => operation@ + " failed for "@ + path@ + ": "@
            + message@,
        Error::Database { operation, path, message } => operation@ + " failed for "@ + path@
            + ": "@ + message@,
        Error::InvalidLibrary { path, reason } => path@ + " is not a valid Calibre library: "@
            + reason@,
        Error::UnsupportedSchema { operation, detected, supported } => operation@
            + " is unsupported for schema "@ + decimal(detected as int) + "; supported: "@
            + supported@,
        Error::UnsupportedOperation { operation, reason } => operation@ + " is unsupported: "@
            + reason@,
        Error::NotFound { entity, id } => entity@ + seq![' '] + decimal(id as int)
            + " was not found"@,
        Error::InvalidInput { field, reason } => "invalid "@ + field@ + ": "@ + reason@,
        Error::PathEscape { path, reason } => "unsafe library path "@ + path@ + ": "@ + reason@,
    }
}

impl Error {
    /// The text of the error, as it displays.
    pub fn message(&self) -> (r: String)
        ensures
            r@ == error_text(*self),
    {
        proof {
            reveal_strlit(" failed for ");
            reveal_strlit(": ");
            reveal_strlit(" is not a valid Calibre library: ");
            reveal_strlit(" is unsupported for schema ");
            reveal_strlit("; supported: ");
            reveal_strlit(" is unsupported: ");
            reveal_strlit(" was not found");
            reveal_strlit("invalid ");
            reveal_strlit("unsafe library path ");
        }
        let mut out: Vec<char> = Vec::new();
        match self {
            Error::Io { operation, path, message } | Error::Database {
                operation,
                path,
                message,
            } => {
                append_str(&mut out, operation);
                append_str(&mut out, " failed for ");
                append_str(&mut out, path.as_str());
                append_str(&mut out, ": ");
                append_str(&mut out, message.as_str());
            },
            Error::InvalidLibrary { path, reason } => {
                append_str(&mut out, path.as_str());
                append_str(&mut out, " is not a valid Calibre library: ");
                append_str(&mut out, reason.as_str());
            },
            Error::UnsupportedSchema { operation, detected, supported } => {
                append_str(&mut out, operation);
                append_str(&mut out, " is unsupported for schema ");
                append_chars(&mut out, &decimal_chars(*detected as i64));
                append_str(&mut out, "; supported: ");
                append_str(&mut out, supported);
            },
            Error::UnsupportedOperation { operation, reason } => {
                append_str(&mut out, operation);
                append_str(&mut out, " is unsupported: ");
                append_str(&mut out, reason.as_str());
            },
            Error::NotFound { entity, id } => {
                append_str(&mut out, entity);
                out.push(' ');
                append_chars(&mut out, &decimal_chars(*id));
                append_str(&mut out, " was not found");
            },
            Error::InvalidInput { field, reason } => {
                append_str(&mut out, "invalid ");
                append_str(&mut out, field);
                append_str(&mut out, ": ");
                append_str(&mut out, reason.as_str());
            },
            Error::PathEscape { path, reason } => {
                append_str(&mut out, "unsafe library path ");
                append_str(&mut out, path.as_str());
                append_str(&mut out, ": ");
                append_str(&mut out, reason.as_str());
            },
        }
        assert(out@ =~= error_text(*self));
        string_of(&out)
    }
}

} // verus!
