use vstd::prelude::*;

verus! {

/// The closed set of failure kinds shared by every entity of the model:
/// an I/O failure, a wire-format (de)serialization failure, or a semantic
/// validation failure. Each carries a human-readable description.
#[derive(Debug, Clone, PartialEq, Eq)]
pub enum OciSpecError {
    /// A file could not be opened, created, read or written.
    Io(String),
    /// Input bytes were malformed for the wire format, or a value could not
    /// be encoded.
    SerDe(String),
    /// A semantically invalid combination of fields.
    Other(String),
}

impl OciSpecError {
    /// The human-readable description carried by this error.
    pub fn message(&self) -> (r: &String)
        ensures
            r@ == self.message_view(),
    {
        match self {
            OciSpecError::Io(m) => m,
            OciSpecError::SerDe(m) => m,
            OciSpecError::Other(m) => m,
        }
    }

    /// The description of this error, as a sequence of characters.
    pub open spec fn message_view(&self) -> Seq<char> {
        match self {
            OciSpecError::Io(m) => m@,
            OciSpecError::SerDe(m) => m@,
            OciSpecError::Other(m) => m@,
        }
    }
}

} // verus!
