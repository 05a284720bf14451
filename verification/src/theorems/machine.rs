//! What holds of the state machine, line after line.

use vstd::prelude::*;
use crate::decimal::decimal_value;
use crate::error::{ErrorView, NumeralFault};
use crate::numeral::integer_value;
use crate::structs::line_parser::{lemma_absent_iff_no_marker, token};
use crate::structs::state::{axis_after, line_outcome, Position};
use crate::text::lacks;
use crate::theorems::grammar::{
    is_noise_at, lemma_coordinate_token_is_numeral, lemma_noise_changes_no_scan,
};

verus! {

/// The number of the coordinate token of `line` for the axis `axis`, if the
/// line has such a token and its numeral denotes a number in range.
pub open spec fn coordinate_value(line: Seq<char>, axis: char) -> Option<int> {
    match token(line, axis, true) {
        Some((_, numeral)) => match decimal_value(numeral) {
            Ok(value) => Some(value),
            Err(_) => None,
        },
        None => None,
    }
}

/// Whether the only token of `line` is a mode token, for absolute mode
/// where `incremental` is `false` and for incremental mode where it is
/// `true`.
pub open spec fn is_mode_line(line: Seq<char>, incremental: bool) -> bool {
    &&& lacks(line, 'X')
    &&& lacks(line, 'Y')
    &&& token(line, 'G', false) matches Some((_, numeral))
    &&& integer_value(numeral) == Ok::<int, NumeralFault>(
        if incremental {
            91int
        } else {
            90int
        },
    )
}

/// A line that holds none of the markers `G`, `X` and `Y` changes nothing
/// and reports nothing.
pub proof fn lemma_line_without_markers(from: Position, line: Seq<char>)
    requires
        lacks(line, 'G'),
        lacks(line, 'X'),
        lacks(line, 'Y'),
    ensures
        line_outcome(from, line) == Ok::<(Position, bool), ErrorView>((from, false)),
{
    lemma_absent_iff_no_marker(line, 'G', false);
    lemma_absent_iff_no_marker(line, 'X', true);
    lemma_absent_iff_no_marker(line, 'Y', true);
}

/// A line whose only token is a valid mode token reports nothing and moves
/// nothing, but the next line obeys it: where that line sets no mode itself
/// and succeeds, each of its coordinates replaces the axis after `G90` and
/// is added to the axis after `G91`.
pub proof fn lemma_mode_line_governs_next_line(
    from: Position,
    mode_line: Seq<char>,
    incremental: bool,
    next_line: Seq<char>,
)
    requires
        is_mode_line(mode_line, incremental),
        lacks(next_line, 'G'),
    ensures
        line_outcome(from, mode_line) == Ok::<(Position, bool), ErrorView>(
            (from.with_mode(incremental), false),
        ),
        line_outcome(from.with_mode(incremental), next_line) matches Ok((to, reported)) ==> ({
            &&& to.incremental == incremental
            &&& reported == (token(next_line, 'X', true) is Some || token(next_line, 'Y', true)
                is Some)
            &&& to.x == match token(next_line, 'X', true) {
                Some(_) => axis_after(incremental, from.x, coordinate_value(next_line, 'X')->0),
                None => from.x,
            }
            &&& to.y == match token(next_line, 'Y', true) {
                Some(_) => axis_after(incremental, from.y, coordinate_value(next_line, 'Y')->0),
                None => from.y,
            }
        }),
{
    lemma_absent_iff_no_marker(mode_line, 'X', true);
    lemma_absent_iff_no_marker(mode_line, 'Y', true);
    lemma_absent_iff_no_marker(next_line, 'G', false);
}

/// In absolute mode a coordinate applied twice leaves the axis where one
/// application leaves it.
pub proof fn lemma_absolute_coordinate_is_idempotent(current: int, value: int)
    ensures
        axis_after(false, axis_after(false, current, value), value) == axis_after(
            false,
            current,
            value,
        ),
{
}

/// A line that leaves the state in absolute mode, applied once more, leaves
/// the state as it is and reports what it reported.
pub proof fn lemma_absolute_line_is_idempotent(from: Position, line: Seq<char>)
    requires
        line_outcome(from, line) matches Ok((to, _)) && !to.incremental,
    ensures
        ({
            &&& line_outcome(from, line) matches Ok((to, _))
            &&& line_outcome(to, line) == line_outcome(from, line)
        }),
{
}

/// In incremental mode two coordinates applied in turn move the axis by
/// their sum.
pub proof fn lemma_incremental_coordinates_add(current: int, first: int, second: int)
    ensures
        axis_after(true, axis_after(true, current, first), second) == current + first + second,
{
}

/// Two lines with the X coordinates `a` and `b`, applied in turn while the
/// mode is and stays incremental, move the X axis by `a + b`. The lines have
/// to succeed: none of the sums may leave the range of a `Decimal`.
pub proof fn lemma_incremental_lines_add(
    from: Position,
    first_line: Seq<char>,
    a: int,
    second_line: Seq<char>,
    b: int,
)
    requires
        from.incremental,
        coordinate_value(first_line, 'X') == Some(a),
        coordinate_value(second_line, 'X') == Some(b),
        ({
            &&& line_outcome(from, first_line) matches Ok((between, _))
            &&& between.incremental
            &&& line_outcome(between, second_line) matches Ok((to, _))
            &&& to.incremental
        }),
    ensures
        ({
            &&& line_outcome(from, first_line) matches Ok((between, _))
            &&& line_outcome(between, second_line) matches Ok((to, _))
            &&& to.x == from.x + a + b
        }),
{
}

/// A line fails for a marker without numeral, for a mode numeral that is no
/// integer in range, for a coordinate out of range or for a sum out of
/// range, and for nothing else: the grammar hands on no coordinate numeral
/// of another shape, and no token under another code.
pub proof fn lemma_line_failures(from: Position, line: Seq<char>)
    ensures
        line_outcome(from, line) matches Err(e) ==> ({
            ||| e is InvalidParser
            ||| e is ParseIntError
            ||| e == ErrorView::ParseDecimalError(NumeralFault::OutOfRange)
            ||| e == ErrorView::InvalidStateSetting
        }),
{
    lemma_coordinate_token_is_numeral(line, 'X');
    lemma_coordinate_token_is_numeral(line, 'Y');
}

/// Noise changes what no line does. Characters that are noise to each of
/// the three scans of a line, put into the line, make a line that takes
/// every state where the line without them takes it, and reports and fails
/// as it does.
pub proof fn lemma_noise_keeps_outcome(
    from: Position,
    before: Seq<char>,
    noise: Seq<char>,
    after: Seq<char>,
)
    requires
        is_noise_at(before + after, 'G', false, before.len() as int, noise),
        is_noise_at(before + after, 'X', true, before.len() as int, noise),
        is_noise_at(before + after, 'Y', true, before.len() as int, noise),
    ensures
        line_outcome(from, before + noise + after) == line_outcome(from, before + after),
{
    lemma_noise_changes_no_scan(before, noise, after, 'G', false);
    lemma_noise_changes_no_scan(before, noise, after, 'X', true);
    lemma_noise_changes_no_scan(before, noise, after, 'Y', true);
}

} // verus!
