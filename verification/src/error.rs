//! The service's error type.
//!
//! Every failure that leaves the pipeline is one of a small set of kinds:
//! client mistakes that map to a bad-request response, and I/O failures
//! that map to an internal-error response. The kind decides the status
//! code; the message carries the human-readable detail.

use vstd::prelude::*;

verus! {

/// What went wrong. Every kind but `Io` is a client request error.
#[derive(Clone, Copy, Debug, PartialEq, Eq, Structural)]
pub enum ErrorKind {
    /// A required header is absent.
    MissingHeader,
    /// A required header is present but empty.
    EmptyHeader,
    /// The supplied signature matches no nonce in the acceptance window.
    InvalidSignature,
    /// The requested destination index has no configured directory.
    UnknownDirIndex,
    /// The request body carries no file field.
    NoFile,
    /// The file field carries no filename.
    NoFilename,
    /// The filename contains a path separator.
    InvalidFilename,
    /// The leading bytes match no accepted image format.
    UnsupportedFormat,
    /// The cumulative body size exceeds the configured cap.
    SizeLimit,
    /// A filesystem operation failed.
    Io,
}

/// The HTTP status code that a kind surfaces as: client request errors are
/// bad requests, I/O failures are internal errors.
pub open spec fn status_of(kind: ErrorKind) -> u16 {
    match kind {
        ErrorKind::Io => 500,
        _ => 400,
    }
}

/// An error leaving the pipeline: a kind plus a short message.
#[derive(Debug)]
pub struct MyError {
    /// The failure class, which decides the response status.
    pub kind: ErrorKind,
    /// Human-readable detail for the response body.
    pub message: String,
}

impl MyError {
    /// Builds an error of the given kind and message.
    pub fn new(kind: ErrorKind, message: String) -> (r: MyError)
        ensures
            r.kind == kind,
            r.message@ == message@,
    {
        MyError { kind, message }
    }

    /// Builds an I/O failure carrying the given detail; the application
    /// layer reports filesystem faults through this.
    pub fn io(message: String) -> (r: MyError)
        ensures
            r.kind == ErrorKind::Io,
            r.message@ == message@,
    {
        MyError { kind: ErrorKind::Io, message }
    }

    /// The HTTP status code this error surfaces as.
    pub fn status_code(&self) -> (r: u16)
        ensures
            r == status_of(self.kind),
    {
        match self.kind {
            ErrorKind::Io => 500,
            _ => 400,
        }
    }

    /// The error's message, for the response body.
    pub fn message(&self) -> (r: String)
        ensures
            r@ == self.message@,
    {
        self.message.clone()
    }

    /// The error's kind.
    pub fn kind(&self) -> (r: ErrorKind)
        ensures
            r == self.kind,
    {
        self.kind
    }
}

} // verus!
