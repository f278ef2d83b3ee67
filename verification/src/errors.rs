//! Error taxonomy of the mapping layer.
//!
//! Every failure is classified by a structured kind and carries a message.
//! Rendering is exact: the character sequence of each rendered error is
//! pinned by [`OximodError::rendered`], so contracts elsewhere can state
//! precisely which error a failing operation returns.

use vstd::prelude::*;

verus! {

/// All failures surfaced by the persistence layer.
#[derive(Clone, Debug)]
pub enum OximodError {
    /// The store could not be reached or refused an operation.
    ConnectionError(String),
    /// The process-wide client was initialized a second time.
    GlobalClientInitError(String),
    /// An operation ran before the process-wide client was initialized.
    GlobalClientMissing(String),
    /// A record could not be converted to or from a stored document.
    SerializationError(String),
    /// An aggregation pipeline failed.
    AggregationError(String),
    /// A secondary index could not be provisioned.
    IndexError(String),
    /// A declared rule was violated; the message names the field and reason.
    ValidationError(String),
}

impl OximodError {
    /// The message payload carried by the error, as a character sequence.
    pub open spec fn payload(self) -> Seq<char> {
        match self {
            OximodError::ConnectionError(m) => m@,
            OximodError::GlobalClientInitError(m) => m@,
            OximodError::GlobalClientMissing(m) => m@,
            OximodError::SerializationError(m) => m@,
            OximodError::AggregationError(m) => m@,
            OximodError::IndexError(m) => m@,
            OximodError::ValidationError(m) => m@,
        }
    }

    /// The full rendered form of the error: a kind prefix plus the payload.
    pub open spec fn rendered(self) -> Seq<char> {
        match self {
            OximodError::ConnectionError(m) => "Failed to connect to db: "@ + m@,
            OximodError::GlobalClientInitError(m) => "Failed to set CLIENT"@,
            OximodError::GlobalClientMissing(m) => "CLIENT not found: "@ + m@,
            OximodError::SerializationError(m) => "Serialization error: "@ + m@,
            OximodError::AggregationError(m) => "Aggregation error: "@ + m@,
            OximodError::IndexError(m) => "Index error: "@ + m@,
            OximodError::ValidationError(m) => "Validation error: "@ + m@,
        }
    }
}

/// Renders an error, and optionally decorates it with a remediation hint.
///
/// The hint is a secondary diagnostic channel: it never changes the error
/// value itself, only the rendered text handed to an interactive caller.
pub trait Printable {
    /// The rendered form this value promises to produce.
    spec fn rendered_model(&self) -> Seq<char>;

    /// The rendered error text.
    fn message(&self) -> (r: String)
        ensures
            r@ == self.rendered_model(),
    ;

    /// The rendered error text followed by a remediation suggestion.
    fn attach_printables(&self, suggestion: &str) -> (r: String)
        ensures
            r@ == self.rendered_model() + "\nSuggestion: "@ + suggestion@,
    ;
}

impl Printable for OximodError {
    open spec fn rendered_model(&self) -> Seq<char> {
        self.rendered()
    }

    fn message(&self) -> (r: String) {
        let (prefix, payload): (&str, &String) = match self {
            OximodError::ConnectionError(m) => ("Failed to connect to db: ", m),
            OximodError::GlobalClientInitError(m) => ("Failed to set CLIENT", m),
            OximodError::GlobalClientMissing(m) => ("CLIENT not found: ", m),
            OximodError::SerializationError(m) => ("Serialization error: ", m),
            OximodError::AggregationError(m) => ("Aggregation error: ", m),
            OximodError::IndexError(m) => ("Index error: ", m),
            OximodError::ValidationError(m) => ("Validation error: ", m),
        };
        let mut s = String::from_str(prefix);
        match self {
            OximodError::GlobalClientInitError(_) => {},
            _ => {
                s.append(payload.as_str());
            },
        }
        s
    }

    fn attach_printables(&self, suggestion: &str) -> (r: String) {
        let mut s = self.message();
        s.append("\nSuggestion: ");
        s.append(suggestion);
        s
    }
}

} // verus!
