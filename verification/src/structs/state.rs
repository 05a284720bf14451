//! The position state machine.
//!
//! A line either fails, and then leaves the state as it was, or is applied
//! whole: first its mode token, then its X and its Y coordinate under the
//! mode that the line itself may just have set.

use vstd::prelude::*;
use crate::decimal::{decimal_value, fits_decimal, Decimal};
use crate::error::{Error, ErrorView};
use crate::numeral::{integer_value, parse_integer};
use crate::structs::coordinate::{XCoordinate, YCoordinate};
use crate::structs::line_parser::{first_malformed, token, token_view, Line};
use crate::structs::positioning_mode::{selected_mode, PositioningMode};
use crate::text::lacks;

verus! {

/// The state as mathematics: the mode, and the position in millionths.
pub struct Position {
    pub incremental: bool,
    pub x: int,
    pub y: int,
}

impl Position {
    /// The same position under the given mode.
    pub open spec fn with_mode(self, incremental: bool) -> Position {
        Position { incremental, x: self.x, y: self.y }
    }
}

/// The mode after a line with the mode token `g`. A token whose number
/// selects no mode leaves the mode as it is.
pub open spec fn mode_after(incremental: bool, g: Option<(char, Seq<char>)>) -> Result<
    bool,
    ErrorView,
> {
    match g {
        None => Ok(incremental),
        Some((code, numeral)) => match integer_value(numeral) {
            Err(fault) => Err(ErrorView::ParseIntError(fault)),
            Ok(value) => match selected_mode(code, value) {
                Some(selected) => Ok(selected),
                None => Ok(incremental),
            },
        },
    }
}

/// Where an axis stands after a coordinate: at the coordinate in absolute
/// mode, further by the coordinate in incremental mode.
pub open spec fn axis_after(incremental: bool, current: int, value: int) -> int {
    if incremental {
        current + value
    } else {
        value
    }
}

/// Where the axis named `axis` stands after a line with the coordinate token
/// `found` for it.
pub open spec fn coordinate_after(
    incremental: bool,
    axis: char,
    current: int,
    found: Option<(char, Seq<char>)>,
) -> Result<int, ErrorView> {
    match found {
        None => Ok(current),
        Some((code, numeral)) => match decimal_value(numeral) {
            Err(fault) => Err(ErrorView::ParseDecimalError(fault)),
            Ok(value) => if code != axis {
                Err(ErrorView::InvalidCode(code))
            } else if !fits_decimal(axis_after(incremental, current, value)) {
                Err(ErrorView::InvalidStateSetting)
            } else {
                Ok(axis_after(incremental, current, value))
            },
        },
    }
}

/// What the tokens of one line make of the state `from`: the new state and
/// whether the position is reported, or the first failure. The position is
/// reported when the line has a coordinate; a line with a mode alone changes
/// the mode in silence.
pub open spec fn tokens_outcome(
    from: Position,
    g: Option<(char, Seq<char>)>,
    x: Option<(char, Seq<char>)>,
    y: Option<(char, Seq<char>)>,
) -> Result<(Position, bool), ErrorView> {
    match mode_after(from.incremental, g) {
        Err(e) => Err(e),
        Ok(incremental) => match coordinate_after(incremental, 'X', from.x, x) {
            Err(e) => Err(e),
            Ok(new_x) => match coordinate_after(incremental, 'Y', from.y, y) {
                Err(e) => Err(e),
                Ok(new_y) => Ok(
                    (Position { incremental, x: new_x, y: new_y }, x is Some || y is Some),
                ),
            },
        },
    }
}

/// What a line makes of the state `from`.
pub open spec fn line_outcome(from: Position, line: Seq<char>) -> Result<
    (Position, bool),
    ErrorView,
> {
    match first_malformed(line) {
        Some(at) => Err(ErrorView::InvalidParser(line.subrange(at, line.len() as int))),
        None => tokens_outcome(
            from,
            token(line, 'G', false),
            token(line, 'X', true),
            token(line, 'Y', true),
        ),
    }
}

/// The positioning mode and the position that the lines read so far have
/// led to.
#[derive(Debug, Clone, Copy, PartialEq, Eq, Structural)]
pub struct State {
    incremental: bool,
    x: Decimal,
    y: Decimal,
}

impl View for State {
    type V = Position;

    /// The mode, and the position in millionths.
    closed spec fn view(&self) -> Position {
        Position { incremental: self.incremental, x: self.x@, y: self.y@ }
    }
}

impl Default for State {
    /// Absolute mode, at the origin.
    fn default() -> (state: Self)
        ensures
            state@ == (Position { incremental: false, x: 0, y: 0 }),
    {
        State { incremental: false, x: Decimal { micros: 0 }, y: Decimal { micros: 0 } }
    }
}

impl State {
    /// The state with the given mode and position.
    pub fn new(
        positioning_mode: PositioningMode,
        x_coordinate: XCoordinate,
        y_coordinate: YCoordinate,
    ) -> (state: Self)
        ensures
            state@ == (Position {
                incremental: positioning_mode.is_incremental(),
                x: x_coordinate@,
                y: y_coordinate@,
            }),
    {
        let incremental = positioning_mode.get_incremental();
        let x = x_coordinate.get_value();
        let y = y_coordinate.get_value();
        Self { incremental, x, y }
    }

    /// Switches to the given mode.
    pub fn incremental_set(&mut self, incremental: PositioningMode)
        ensures
            final(self)@ == (Position {
                incremental: incremental.is_incremental(),
                x: old(self)@.x,
                y: old(self)@.y,
            }),
    {
        self.incremental = incremental.get_incremental();
    }

    /// Moves the X axis: to `value` in absolute mode, by `value` in
    /// incremental mode. Fails, and changes nothing, where the sum is out of
    /// range.
    pub fn x_set(&mut self, value: XCoordinate) -> (r: Result<(), Error>)
        ensures
            match r {
                Ok(_) => final(self)@ == (Position {
                    incremental: old(self)@.incremental,
                    x: axis_after(old(self)@.incremental, old(self)@.x, value@),
                    y: old(self)@.y,
                }),
                Err(e) => e == Error::InvalidStateSetting && *final(self) == *old(self),
            },
            r is Ok <==> fits_decimal(axis_after(old(self)@.incremental, old(self)@.x, value@)),
    {
        if !self.incremental {
            self.x = value.get_value();
            Ok(())
        } else {
            match self.x.checked_add(value.get_value()) {
                Some(sum) => {
                    self.x = sum;
                    Ok(())
                },
                None => Err(Error::InvalidStateSetting),
            }
        }
    }

    /// Moves the Y axis: to `value` in absolute mode, by `value` in
    /// incremental mode. Fails, and changes nothing, where the sum is out of
    /// range.
    pub fn y_set(&mut self, value: YCoordinate) -> (r: Result<(), Error>)
        ensures
            match r {
                Ok(_) => final(self)@ == (Position {
                    incremental: old(self)@.incremental,
                    x: old(self)@.x,
                    y: axis_after(old(self)@.incremental, old(self)@.y, value@),
                }),
                Err(e) => e == Error::InvalidStateSetting && *final(self) == *old(self),
            },
            r is Ok <==> fits_decimal(axis_after(old(self)@.incremental, old(self)@.y, value@)),
    {
        if !self.incremental {
            self.y = value.get_value();
            Ok(())
        } else {
            match self.y.checked_add(value.get_value()) {
                Some(sum) => {
                    self.y = sum;
                    Ok(())
                },
                None => Err(Error::InvalidStateSetting),
            }
        }
    }

    /// Whether the mode is incremental.
    pub fn get_incremental(self) -> (incremental: bool)
        ensures
            incremental == self@.incremental,
    {
        self.incremental
    }

    /// Where the X axis stands.
    pub fn get_x(self) -> (x: Decimal)
        ensures
            x@ == self@.x,
    {
        self.x
    }

    /// Where the Y axis stands.
    pub fn get_y(self) -> (y: Decimal)
        ensures
            y@ == self@.y,
    {
        self.y
    }

    /// Applies the tokens of one line. All of them are read and checked
    /// before the state changes, so a failure leaves the state as it was.
    /// Gives the new state where the line has a coordinate, and `None` where
    /// it has none.
    pub fn apply_tokens(
        &mut self,
        g: Option<(char, &str)>,
        x: Option<(char, &str)>,
        y: Option<(char, &str)>,
    ) -> (r: Result<Option<State>, Error>)
        ensures
            match tokens_outcome(old(self)@, token_view(g), token_view(x), token_view(y)) {
                Ok((to, reported)) => {
                    &&& final(self)@ == to
                    &&& r == Ok::<Option<State>, Error>(
                        if reported {
                            Some(*final(self))
                        } else {
                            None
                        },
                    )
                },
                Err(e) => {
                    &&& r matches Err(error)
                    &&& error@ == e
                    &&& *final(self) == *old(self)
                },
            },
            final(self)@ == old(self)@ ==> *final(self) == *old(self),
    {
        let mut next = *self;
        if let Some((code, numeral)) = g {
            let value = match parse_integer(numeral) {
                Ok(value) => value,
                Err(fault) => {
                    return Err(Error::ParseIntError(fault));
                },
            };
            if let Some(mode) = PositioningMode::new(code, value) {
                next.incremental_set(mode);
            }
        }
        if let Some((code, numeral)) = x {
            let value = match Decimal::parse(numeral) {
                Ok(value) => value,
                Err(fault) => {
                    return Err(Error::ParseDecimalError(fault));
                },
            };
            let coordinate = match XCoordinate::new(code, value) {
                Ok(coordinate) => coordinate,
                Err(e) => {
                    return Err(e);
                },
            };
            match next.x_set(coordinate) {
                Ok(_) => {},
                Err(e) => {
                    return Err(e);
                },
            }
        }
        if let Some((code, numeral)) = y {
            let value = match Decimal::parse(numeral) {
                Ok(value) => value,
                Err(fault) => {
                    return Err(Error::ParseDecimalError(fault));
                },
            };
            let coordinate = match YCoordinate::new(code, value) {
                Ok(coordinate) => coordinate,
                Err(e) => {
                    return Err(e);
                },
            };
            match next.y_set(coordinate) {
                Ok(_) => {},
                Err(e) => {
                    return Err(e);
                },
            }
        }
        *self = next;
        if x.is_some() || y.is_some() {
            Ok(Some(next))
        } else {
            Ok(None)
        }
    }

    /// Reads one line and applies it. A line whose marker lacks its numeral,
    /// or whose numeral is not a number in range, fails and leaves the state
    /// as it was. Gives the new state where the line has a coordinate, and
    /// `None` where it has none, also where it changed the mode.
    pub fn state_update(&mut self, line: Line) -> (r: Result<Option<State>, Error>)
        ensures
            match line_outcome(old(self)@, line@) {
                Ok((to, reported)) => {
                    &&& final(self)@ == to
                    &&& r == Ok::<Option<State>, Error>(
                        if reported {
                            Some(*final(self))
                        } else {
                            None
                        },
                    )
                },
                Err(e) => {
                    &&& r matches Err(error)
                    &&& error@ == e
                    &&& *final(self) == *old(self)
                },
            },
            lacks(line@, 'G') && lacks(line@, 'X') && lacks(line@, 'Y') ==> r == Ok::<
                Option<State>,
                Error,
            >(None) && *final(self) == *old(self),
    {
        match line.parsed_for_state() {
            Ok((_, (g, x, y))) => self.apply_tokens(g, x, y),
            Err(failure) => Err(Error::InvalidParser(failure.input.to_owned())),
        }
    }
}

} // verus!
