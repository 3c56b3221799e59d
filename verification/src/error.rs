use vstd::prelude::*;

verus! {

/// The kind of a codec error.
#[derive(Debug, Clone, Copy, PartialEq, Eq, Structural)]
pub enum ErrorKind {
    /// A protocol or schema violation in manifest data.
    DataInvalid,
}

/// An error raised by the manifest codec.
#[derive(Debug, Clone, PartialEq, Eq)]
pub struct Error {
    /// The kind of failure.
    pub kind: ErrorKind,
    /// A human-readable description.
    pub message: String,
}

impl Error {
    /// Build an error that marks invalid manifest data.
    pub fn data_invalid(message: String) -> (r: Error)
        ensures
            r.kind == ErrorKind::DataInvalid,
            r.message@ == message@,
    {
        Error { kind: ErrorKind::DataInvalid, message }
    }

    /// The kind of this error.
    pub fn kind(&self) -> (r: ErrorKind)
        ensures
            r == self.kind,
    {
        self.kind
    }

    /// The human-readable message of this error.
    pub fn message(&self) -> (r: &String)
        ensures
            r@ == self.message@,
    {
        &self.message
    }
}

} // verus!
