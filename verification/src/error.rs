//! The failures that a conversion task can end in.

use vstd::prelude::*;

verus! {

/// Why a task failed.
#[derive(Debug, Clone)]
pub enum ConversionError {
    /// The request itself is malformed; nothing was started.
    InvalidInput(String),
    /// The workspace could not be prepared.
    Io(String),
    /// An external tool could not be launched.
    Shell(String),
    /// A stage of the work ended badly.
    Worker(String),
}

/// The variant of an error, without its message.
#[derive(Debug, Clone, Copy, PartialEq, Eq, Structural)]
pub enum ErrorKind {
    InvalidInput,
    Io,
    Shell,
    Worker,
}

impl ConversionError {
    /// The variant of the error.
    pub open spec fn kind_of(self) -> ErrorKind {
        match self {
            ConversionError::InvalidInput(_) => ErrorKind::InvalidInput,
            ConversionError::Io(_) => ErrorKind::Io,
            ConversionError::Shell(_) => ErrorKind::Shell,
            ConversionError::Worker(_) => ErrorKind::Worker,
        }
    }

    /// The message of the error.
    pub open spec fn text(self) -> Seq<char> {
        match self {
            ConversionError::InvalidInput(m) => m@,
            ConversionError::Io(m) => m@,
            ConversionError::Shell(m) => m@,
            ConversionError::Worker(m) => m@,
        }
    }

    /// The variant of this error.
    pub fn kind(&self) -> (kind: ErrorKind)
        ensures
            kind == self.kind_of(),
    {
        match self {
            ConversionError::InvalidInput(_) => ErrorKind::InvalidInput,
            ConversionError::Io(_) => ErrorKind::Io,
            ConversionError::Shell(_) => ErrorKind::Shell,
            ConversionError::Worker(_) => ErrorKind::Worker,
        }
    }

    /// The message that this error carries.
    pub fn message(&self) -> (message: &String)
        ensures
            message@ == self.text(),
    {
        match self {
            ConversionError::InvalidInput(m) => m,
            ConversionError::Io(m) => m,
            ConversionError::Shell(m) => m,
            ConversionError::Worker(m) => m,
        }
    }
}

} // verus!
