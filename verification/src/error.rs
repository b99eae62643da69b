//! Errors that the HM7044 logic reports, each with the text that caused it.

use vstd::prelude::*;

verus! {

/// An answer from the instrument that the driver does not accept.
pub enum Hm7044Error {
    /// The answer to `READ` does not have the expected shape; holds the whole answer.
    UnexpectedReadAnswer(String),
    /// A voltage field is not a decimal number; holds the field as received.
    InvalidVoltage(String),
    /// An output state is not exactly `CV`, `CC` or `OFF`; holds the state text.
    InvalidOutputState(String),
    /// The instrument did not confirm a channel selection; holds its answer.
    BadSelectAnswer(String),
}

/// The mathematical view of an [`Hm7044Error`]: the same variant, with the
/// character view of the text it holds.
pub enum ErrorView {
    UnexpectedReadAnswer(Seq<char>),
    InvalidVoltage(Seq<char>),
    InvalidOutputState(Seq<char>),
    BadSelectAnswer(Seq<char>),
}

impl View for Hm7044Error {
    type V = ErrorView;

    open spec fn view(&self) -> ErrorView {
        match self {
            Hm7044Error::UnexpectedReadAnswer(s) => ErrorView::UnexpectedReadAnswer(s@),
            Hm7044Error::InvalidVoltage(s) => ErrorView::InvalidVoltage(s@),
            Hm7044Error::InvalidOutputState(s) => ErrorView::InvalidOutputState(s@),
            Hm7044Error::BadSelectAnswer(s) => ErrorView::BadSelectAnswer(s@),
        }
    }
}

/// The view of a result that carries no value on success.
pub open spec fn outcome_view(r: Result<(), Hm7044Error>) -> Result<(), ErrorView> {
    match r {
        Ok(()) => Ok(()),
        Err(e) => Err(e@),
    }
}

} // verus!
