use vstd::prelude::*;
use crate::xml::Element;

verus! {

/// The failures of the library, from transport faults to protocol violations.
#[derive(Debug)]
pub enum SCError {
    /// The byte stream failed.
    Io(String),
    /// The token stream was not well-formed XML or not valid UTF-8.
    Xml(String),
    /// The stream ended before a complete document or before the handshake.
    Eof,
    /// A required attribute was absent; the key is carried.
    MissingAttribute(String),
    /// A required child element was absent; its tag name is carried.
    MissingChild(String),
    /// A field held text that does not denote a value of its type.
    InvalidValue(String),
    /// An element whose tag or discriminator is not recognized.
    UnknownElement(Element),
    /// The server reported an error with the given message.
    ServerError(String),
    /// The conversation broke an invariant of the protocol.
    InvalidState(String),
}

/// The result type of the library.
pub type SCResult<T> = Result<T, SCError>;

impl SCError {
    /// Whether the session drops the offending message and goes on.
    pub open spec fn spec_is_recoverable(&self) -> bool {
        self is MissingAttribute || self is MissingChild || self is InvalidValue
            || self is UnknownElement || self is ServerError
    }
}

} // verus!
