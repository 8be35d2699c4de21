//! What can go wrong, as the host is told.

use vstd::prelude::*;

verus! {

/// A host value that the engine's value model cannot hold.
#[derive(Debug, Clone, PartialEq)]
pub enum CelError {
    /// The conversion failed; the text says on what.
    ConversionError(String),
}

impl CelError {
    /// The text that the error carries.
    pub open spec fn detail(self) -> Seq<char> {
        match self {
            CelError::ConversionError(text) => text@,
        }
    }

    /// The error as one line of text.
    pub fn message(&self) -> (text: String)
        ensures
            text@ == "Conversion Error: "@ + self.detail(),
    {
        let mut text = String::from_str("Conversion Error: ");
        match self {
            CelError::ConversionError(detail) => text.append(detail.as_str()),
        }
        text
    }
}

/// The kinds of failure that a host can tell apart.
#[derive(Clone, Copy, Debug, PartialEq, Eq, Structural)]
pub enum ErrorKind {
    /// The source is malformed or cannot be parsed.
    Parse,
    /// A value has no counterpart on the other side.
    Conversion,
    /// A context was given a name that is no name.
    Context,
    /// The expression names a variable or function that is not defined.
    UndefinedReference,
    /// An operator was applied to operands that it does not take.
    TypeMismatch,
    /// A host function failed, or its arguments or result could not be
    /// converted.
    FunctionCall,
    /// Any other failure of the evaluation.
    Evaluation,
    /// The engine broke down while it executed the expression.
    EngineFault,
    /// An operation was applied to a value that does not allow it.
    InvalidOperation,
}

/// A failure, by kind and with a message for the host.
#[derive(Debug, Clone, PartialEq)]
pub struct Failure {
    pub kind: ErrorKind,
    pub message: String,
}

/// The mathematical content of a [`Failure`].
pub ghost struct FailureModel {
    pub kind: ErrorKind,
    pub message: Seq<char>,
}

impl View for Failure {
    type V = FailureModel;

    open spec fn view(&self) -> FailureModel {
        FailureModel { kind: self.kind, message: self.message@ }
    }
}

} // verus!
