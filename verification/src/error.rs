//! Why a render did not produce a document.

use vstd::prelude::*;

verus! {

/// Why a render did not produce a document.
#[derive(Debug)]
pub enum Error {
    /// The tree lacks a child that the grammar guarantees.
    GrammarViolation,
    /// The converter did not convert a content field. `input` is the escaped
    /// text that was handed to it, `reason` is what it reported.
    ConversionFailure { input: String, reason: String },
}

/// What an error holds, as mathematics.
pub enum Failure {
    GrammarViolation,
    ConversionFailure { input: Seq<char>, reason: Seq<char> },
}

impl View for Error {
    type V = Failure;

    open spec fn view(&self) -> Failure {
        match *self {
            Error::GrammarViolation => Failure::GrammarViolation,
            Error::ConversionFailure { input, reason } => Failure::ConversionFailure {
                input: input@,
                reason: reason@,
            },
        }
    }
}

} // verus!
