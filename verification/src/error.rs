//! The failures of the library.

use vstd::prelude::*;

verus! {

/// Why a numeral could not be turned into a number.
#[derive(Debug, Clone, Copy, PartialEq, Eq, Structural)]
pub enum NumeralFault {
    /// The text is not a numeral of the expected shape.
    Malformed,
    /// The numeral is well formed but its value does not fit the number type.
    OutOfRange,
}

/// Everything that can go wrong while a line is applied to the position.
#[derive(Debug, PartialEq, Eq)]
pub enum Error {
    /// An accumulated coordinate would leave the range a `Decimal` can hold.
    InvalidStateSetting,
    /// A coordinate token carries the code of another axis.
    InvalidCode(char),
    /// A marker is not followed by a numeral. Holds the text that stands
    /// where the first digit was expected, up to the end of the line.
    InvalidParser(String),
    /// The numeral of a mode token is not an integer that fits `i32`.
    ParseIntError(NumeralFault),
    /// The numeral of a coordinate token does not denote a `Decimal`.
    ParseDecimalError(NumeralFault),
}

/// The mathematical content of an [`Error`].
pub enum ErrorView {
    InvalidStateSetting,
    InvalidCode(char),
    InvalidParser(Seq<char>),
    ParseIntError(NumeralFault),
    ParseDecimalError(NumeralFault),
}

impl View for Error {
    type V = ErrorView;

    open spec fn view(&self) -> ErrorView {
        match *self {
            Error::InvalidStateSetting => ErrorView::InvalidStateSetting,
            Error::InvalidCode(code) => ErrorView::InvalidCode(code),
            Error::InvalidParser(text) => ErrorView::InvalidParser(text@),
            Error::ParseIntError(fault) => ErrorView::ParseIntError(fault),
            Error::ParseDecimalError(fault) => ErrorView::ParseDecimalError(fault),
        }
    }
}

} // verus!
