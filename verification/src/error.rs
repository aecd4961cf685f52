//! The error translator: the single error type that crosses the boundary,
//! and the two messages it can carry.

use vstd::prelude::*;
use vstd::string::StringExecFns;

verus! {

/// The one value the host ever sees on failure: a display message and
/// nothing else. No native error type crosses the boundary unconverted.
#[derive(Debug)]
pub struct BoundaryError {
    message: String,
}

/// What a failed call of the lexer's native side reports before
/// translation: either the lexer rejected the input, or its result could
/// not be encoded for the host, with the encoder's own description.
pub enum MarshalFailure {
    Rejected,
    Encoding(String),
}

/// The fixed message for input the lexer rejects; the lexer's internal
/// detail is deliberately dropped.
pub open spec fn lexer_rejection_message() -> Seq<char> {
    "Unable to parse input string"@
}

/// The message for a native result the host encoding cannot carry; the
/// encoder's own description is kept in full.
pub open spec fn encoding_failure_message(detail: Seq<char>) -> Seq<char> {
    "Serialization error ("@ + detail + ")"@
}

impl View for BoundaryError {
    type V = Seq<char>;

    closed spec fn view(&self) -> Seq<char> {
        self.message@
    }
}

impl BoundaryError {
    /// The display message, the whole content of the error.
    pub fn message(&self) -> (r: &str)
        ensures
            r@ == self@,
    {
        self.message.as_str()
    }

    /// The translation of a lexer rejection.
    pub fn lexer_rejection() -> (r: BoundaryError)
        ensures
            r@ == lexer_rejection_message(),
    {
        BoundaryError { message: String::from_str("Unable to parse input string") }
    }

    /// The translation of an encoding failure, keeping `detail`.
    pub fn encoding_failure(detail: &str) -> (r: BoundaryError)
        ensures
            r@ == encoding_failure_message(detail@),
    {
        let mut message = String::from_str("Serialization error (");
        message.append(detail);
        message.append(")");
        BoundaryError { message }
    }

    /// The translation of either failure kind into the one boundary error.
    pub fn translate(failure: MarshalFailure) -> (r: BoundaryError)
        ensures
            failure is Rejected ==> r@ == lexer_rejection_message(),
            failure matches MarshalFailure::Encoding(detail) ==> r@ == encoding_failure_message(
                detail@,
            ),
    {
        match failure {
            MarshalFailure::Rejected => Self::lexer_rejection(),
            MarshalFailure::Encoding(detail) => Self::encoding_failure(detail.as_str()),
        }
    }
}

} // verus!
