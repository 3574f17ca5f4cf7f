//! The errors that evaluation reports.
use vstd::prelude::*;

verus! {

/// An error of the virtual machine or of one of its procedures.
#[derive(Clone, Debug, PartialEq, Eq)]
pub enum Error {
    /// A pair was required; the payload is the value found, as text.
    ExpectedPairButFound(String),
    /// A cell that had to be there was not.
    HeapCorruption,
    /// A procedure (first) wanted a kind of value (second) and got the
    /// value that the third part shows.
    InvalidArgs(String, String, String),
    /// The procedure of this name was called with a wrong number of arguments.
    InvalidNumArgs(String),
    /// An index (first) into a string of the given length (second).
    InvalidStringIndex(usize, usize),
    /// A malformed program or an operand that the operation cannot take.
    InvalidSyntax(String),
    /// An index (first) into a vector of the given length (second).
    InvalidVectorIndex(usize, usize),
    /// The stack did not hold what the call convention puts there.
    StackUnderflow,
    /// The instruction budget of a run was used up.
    StepLimit,
    /// The symbol of this name has no binding.
    Unbound(String),
}

/// An error with its texts as character sequences.
pub enum ErrorView {
    ExpectedPairButFound(Seq<char>),
    HeapCorruption,
    InvalidArgs(Seq<char>, Seq<char>, Seq<char>),
    InvalidNumArgs(Seq<char>),
    InvalidStringIndex(usize, usize),
    InvalidSyntax(Seq<char>),
    InvalidVectorIndex(usize, usize),
    StackUnderflow,
    StepLimit,
    Unbound(Seq<char>),
}

impl View for Error {
    type V = ErrorView;

    open spec fn view(&self) -> ErrorView {
        match *self {
            Error::ExpectedPairButFound(s) => ErrorView::ExpectedPairButFound(s@),
            Error::HeapCorruption => ErrorView::HeapCorruption,
            Error::InvalidArgs(a, b, c) => ErrorView::InvalidArgs(a@, b@, c@),
            Error::InvalidNumArgs(s) => ErrorView::InvalidNumArgs(s@),
            Error::InvalidStringIndex(i, n) => ErrorView::InvalidStringIndex(i, n),
            Error::InvalidSyntax(s) => ErrorView::InvalidSyntax(s@),
            Error::InvalidVectorIndex(i, n) => ErrorView::InvalidVectorIndex(i, n),
            Error::StackUnderflow => ErrorView::StackUnderflow,
            Error::StepLimit => ErrorView::StepLimit,
            Error::Unbound(s) => ErrorView::Unbound(s@),
        }
    }
}

/// A result with the error, if it is one, taken by its view.
pub open spec fn outcome<T>(r: Result<T, Error>) -> Result<T, ErrorView> {
    match r {
        Ok(v) => Ok(v),
        Err(e) => Err(e@),
    }
}

} // verus!
