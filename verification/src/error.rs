//! The error type of the library.
use vstd::prelude::*;
use vstd::string::*;

use crate::fspath::FsPath;
use crate::text::push_str;

verus! {

/// `std::io::Error`, carried opaquely as the source of an I/O failure.
#[verifier::external_type_specification]
#[verifier::external_body]
pub struct ExIoError(std::io::Error);

/// Everything that can go wrong while scanning, configuring or deleting.
#[derive(Debug)]
pub enum RepoSweepError {
    /// An I/O operation on `path` failed.
    Io { operation: &'static str, path: FsPath, source: std::io::Error },
    /// The request cannot be carried out as given.
    InvalidRequest(String),
    /// The configuration could not be read, written or resolved.
    Config(String),
    /// Removing `path` failed.
    Delete { path: FsPath, message: String },
    /// A background worker failed.
    Worker(String),
}

/// Calls `<std::io::Error as Display>::to_string`. The text comes from the
/// operating system and its locale, so nothing is stated of it.
#[verifier::external_body]
fn io_error_text(error: &std::io::Error) -> String {
    error.to_string()
}

/// The message of an error, apart from the operating system's own text for
/// an I/O failure (which stands at the end of an `Io` message).
pub open spec fn message_spec(e: RepoSweepError) -> Seq<char> {
    match e {
        RepoSweepError::Io { operation, path, .. } => operation@ + " failed for "@ + path.shown()
            + ": "@,
        RepoSweepError::InvalidRequest(m) => "invalid request: "@ + m@,
        RepoSweepError::Config(m) => "config error: "@ + m@,
        RepoSweepError::Delete { path, message } => "delete failed for "@ + path.shown()
            + ": "@ + message@,
        RepoSweepError::Worker(m) => "background worker error: "@ + m@,
    }
}

impl RepoSweepError {
    /// An I/O failure of `operation` on `path`.
    pub fn io(operation: &'static str, path: FsPath, source: std::io::Error) -> (r: Self)
        ensures
            r matches RepoSweepError::Io { operation: o, path: p, .. } && o == operation && p@
                == path@,
    {
        RepoSweepError::Io { operation, path, source }
    }

    /// The text of the error, as it is shown to the user. For an `Io` error
    /// the text starts with `message_spec` and goes on with the operating
    /// system's description of the failure; for the others it is exactly
    /// `message_spec`.
    pub fn message(&self) -> (r: String)
        ensures
            !(self is Io) ==> r@ == message_spec(*self),
            self is Io ==> message_spec(*self).is_prefix_of(r@),
    {
        let mut out = String::new();
        match self {
            RepoSweepError::Io { operation, path, source } => {
                push_str(&mut out, operation);
                push_str(&mut out, " failed for ");
                let shown = path.display();
                push_str(&mut out, shown.as_str());
                push_str(&mut out, ": ");
                let ghost head = out@;
                let detail = io_error_text(source);
                push_str(&mut out, detail.as_str());
                assert(head.is_prefix_of(out@));
            },
            RepoSweepError::InvalidRequest(m) => {
                push_str(&mut out, "invalid request: ");
                push_str(&mut out, m.as_str());
            },
            RepoSweepError::Config(m) => {
                push_str(&mut out, "config error: ");
                push_str(&mut out, m.as_str());
            },
            RepoSweepError::Delete { path, message } => {
                push_str(&mut out, "delete failed for ");
                let shown = path.display();
                push_str(&mut out, shown.as_str());
                push_str(&mut out, ": ");
                push_str(&mut out, message.as_str());
            },
            RepoSweepError::Worker(m) => {
                push_str(&mut out, "background worker error: ");
                push_str(&mut out, m.as_str());
            },
        }
        assert(out@ =~= message_spec(*self) || self is Io);
        out
    }
}

/// The error of a failed outcome.
pub open spec fn failure_of(outcome: Result<(), RepoSweepError>) -> Option<RepoSweepError> {
    match outcome {
        Ok(_) => None,
        Err(e) => Some(e),
    }
}

} // verus!
