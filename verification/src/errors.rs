//! The kinds of failure, each with a message for the operator.

use vstd::prelude::*;
use vstd::string::StringExecFns;

verus! {

/// A failure of a run, by kind.
#[derive(Debug)]
pub enum AppError {
    /// An invalid configuration or combination of flags.
    Usage(String),
    /// A transport failure, or a response whose status is not a success.
    Network(String),
    /// A response body that is not JSON.
    Json(String),
    /// A requested top-level key is missing, or the reduce list is malformed.
    Reduce(String),
    /// The document is not shaped as the outline needs it.
    Outline(String),
    /// The file system refused a write.
    Io(String),
}

/// The kinds of failure.
pub enum ErrorKind {
    Usage,
    Network,
    Json,
    Reduce,
    Outline,
    Io,
}

/// The mathematical model of an [`AppError`]: its kind and its message.
pub struct Fault {
    pub kind: ErrorKind,
    pub text: Seq<char>,
}

impl View for AppError {
    type V = Fault;

    open spec fn view(&self) -> Fault {
        Fault { kind: self.kind(), text: self.text() }
    }
}

impl AppError {
    /// The kind of the failure.
    pub open spec fn kind(self) -> ErrorKind {
        match self {
            AppError::Usage(_) => ErrorKind::Usage,
            AppError::Network(_) => ErrorKind::Network,
            AppError::Json(_) => ErrorKind::Json,
            AppError::Reduce(_) => ErrorKind::Reduce,
            AppError::Outline(_) => ErrorKind::Outline,
            AppError::Io(_) => ErrorKind::Io,
        }
    }

    /// The message, whatever the kind.
    pub open spec fn text(self) -> Seq<char> {
        match self {
            AppError::Usage(msg) => msg@,
            AppError::Network(msg) => msg@,
            AppError::Json(msg) => msg@,
            AppError::Reduce(msg) => msg@,
            AppError::Outline(msg) => msg@,
            AppError::Io(msg) => msg@,
        }
    }

    /// The exit code of the kind.
    pub open spec fn code(self) -> int {
        match self {
            AppError::Usage(_) => 1,
            AppError::Network(_) => 1,
            AppError::Json(_) => 2,
            AppError::Reduce(_) => 3,
            AppError::Outline(_) => 3,
            AppError::Io(_) => 4,
        }
    }

    /// The process exit code for this error: 1 for usage and network failures,
    /// 2 for a body that is not JSON, 3 for a failed reduce or outline, 4 for I/O.
    pub fn exit_code(&self) -> (r: i32)
        ensures
            r == self.code(),
    {
        match self {
            AppError::Usage(_) => 1,
            AppError::Network(_) => 1,
            AppError::Json(_) => 2,
            AppError::Reduce(_) => 3,
            AppError::Outline(_) => 3,
            AppError::Io(_) => 4,
        }
    }

    /// Whether another endpoint could mend this failure: true of network and JSON failures.
    pub fn is_url_related(&self) -> (r: bool)
        ensures
            r == (self is Network || self is Json),
    {
        match self {
            AppError::Network(_) => true,
            AppError::Json(_) => true,
            _ => false,
        }
    }

    /// The message, as the operator reads it.
    pub fn message(&self) -> (r: String)
        ensures
            r@ == self.text(),
    {
        match self {
            AppError::Usage(msg) => msg.clone(),
            AppError::Network(msg) => msg.clone(),
            AppError::Json(msg) => msg.clone(),
            AppError::Reduce(msg) => msg.clone(),
            AppError::Outline(msg) => msg.clone(),
            AppError::Io(msg) => msg.clone(),
        }
    }
}

/// The text of `a` followed by the text of `b`.
pub fn join(a: &str, b: &str) -> (r: String)
    ensures
        r@ == a@ + b@,
{
    a.to_owned().concat(b)
}

} // verus!
