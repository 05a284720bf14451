//! Coordinates that know their axis.

use vstd::prelude::*;
use crate::decimal::Decimal;
use crate::error::Error;

verus! {

/// A coordinate on the X axis.
#[derive(Debug, PartialEq, Eq)]
pub struct XCoordinate {
    code: char,
    value: Decimal,
}

impl View for XCoordinate {
    type V = int;

    /// The coordinate, in millionths.
    closed spec fn view(&self) -> int {
        self.value@
    }
}

impl XCoordinate {
    #[verifier::type_invariant]
    spec fn on_axis(self) -> bool {
        self.code == 'X'
    }

    /// Makes an X coordinate of a token's code and value; the code has to
    /// be `X`.
    pub fn new(code: char, value: Decimal) -> (r: Result<Self, Error>)
        ensures
            match r {
                Ok(coordinate) => code == 'X' && coordinate@ == value@,
                Err(e) => code != 'X' && e == Error::InvalidCode(code),
            },
    {
        if code == 'X' {
            Ok(Self { code, value })
        } else {
            Err(Error::InvalidCode(code))
        }
    }

    /// The coordinate as a number.
    pub fn get_value(&self) -> (value: Decimal)
        ensures
            value@ == self@,
    {
        self.value
    }
}

/// A coordinate on the Y axis.
#[derive(Debug, PartialEq, Eq)]
pub struct YCoordinate {
    code: char,
    value: Decimal,
}

impl View for YCoordinate {
    type V = int;

    /// The coordinate, in millionths.
    closed spec fn view(&self) -> int {
        self.value@
    }
}

impl YCoordinate {
    #[verifier::type_invariant]
    spec fn on_axis(self) -> bool {
        self.code == 'Y'
    }

    /// Makes a Y coordinate of a token's code and value; the code has to
    /// be `Y`.
    pub fn new(code: char, value: Decimal) -> (r: Result<Self, Error>)
        ensures
            match r {
                Ok(coordinate) => code == 'Y' && coordinate@ == value@,
                Err(e) => code != 'Y' && e == Error::InvalidCode(code),
            },
    {
        if code == 'Y' {
            Ok(Self { code, value })
        } else {
            Err(Error::InvalidCode(code))
        }
    }

    /// The coordinate as a number.
    pub fn get_value(&self) -> (value: Decimal)
        ensures
            value@ == self@,
    {
        self.value
    }
}

} // verus!
