//! What holds of the line grammar: lower case is noise, noise changes no
//! token, and what the grammar takes for a numeral can be read as one.

use vstd::prelude::*;
use crate::decimal::{fraction_part, is_decimal_numeral, unsigned_part, whole_part};
use crate::error::NumeralFault;
use crate::numeral::{
    digits_end, integer_value, is_digit, lemma_digits_end, lemma_digits_end_is,
};
use crate::structs::line_parser::{
    first_malformed, lemma_absent_iff_no_marker, lemma_scan_bounds, scan, token, Scan,
};
use crate::text::{first_index, lacks, lemma_first_index, lemma_first_index_is};

verus! {

/// Whether `c` is a lower-case letter, a digit, `.` or `-`.
pub open spec fn is_lower_case_text(c: char) -> bool {
    ('a' <= c && c <= 'z') || is_digit(c) || c == '.' || c == '-'
}

/// A line of lower-case letters and numerals has no token: `x100.0y-100.0`
/// sets nothing.
pub proof fn lemma_lower_case_line_has_no_token(line: Seq<char>)
    requires
        forall|i: int| 0 <= i < line.len() ==> is_lower_case_text(#[trigger] line[i]),
    ensures
        first_malformed(line) is None,
        token(line, 'G', false) is None,
        token(line, 'X', true) is None,
        token(line, 'Y', true) is None,
{
    lemma_absent_iff_no_marker(line, 'G', false);
    lemma_absent_iff_no_marker(line, 'X', true);
    lemma_absent_iff_no_marker(line, 'Y', true);
}

/// What the grammar takes for a coordinate is a coordinate numeral: the
/// numeral of an X or Y token never fails to be read for its shape, only
/// for its size.
pub proof fn lemma_coordinate_token_is_numeral(line: Seq<char>, marker: char)
    ensures
        token(line, marker, true) matches Some((_, numeral)) ==> is_decimal_numeral(numeral),
{
    if let Scan::Token { start, end } = scan(line, marker, true) {
        lemma_scan_bounds(line, marker, true);
        let numeral = line.subrange(start, end);
        let digits = if line[start] == '-' {
            start + 1
        } else {
            start
        };
        let whole_end = digits_end(line, digits);
        lemma_digits_end(line, digits);
        if whole_end < line.len() {
            lemma_digits_end(line, whole_end + 1);
        }
        let body = unsigned_part(numeral);
        assert forall|j: int| 0 <= j < whole_end - digits implies #[trigger] body[j] != '.' by {}
        if whole_end < line.len() && line[whole_end] == '.' {
            lemma_first_index_is(body, '.', 0, whole_end - digits);
            assert forall|j: int| 0 <= j < fraction_part(body).len() implies is_digit(
                #[trigger] fraction_part(body)[j],
            ) by {}
        } else {
            lemma_first_index_is(body, '.', 0, body.len() as int);
        }
        assert forall|j: int| 0 <= j < whole_part(body).len() implies is_digit(
            #[trigger] whole_part(body)[j],
        ) by {}
    }
}

/// What the grammar takes for a mode is an integer unless it has a decimal
/// point: the numeral of a mode token fails to be read for its shape exactly
/// where it holds a `.`.
pub proof fn lemma_mode_token_is_integer_or_dotted(line: Seq<char>)
    ensures
        token(line, 'G', false) matches Some((_, numeral)) ==> (integer_value(numeral) == Err::<
            int,
            NumeralFault,
        >(NumeralFault::Malformed) <==> !lacks(numeral, '.')),
{
    if let Scan::Token { start, end } = scan(line, 'G', false) {
        lemma_scan_bounds(line, 'G', false);
        let numeral = line.subrange(start, end);
        let whole_end = digits_end(line, start);
        lemma_digits_end(line, start);
        if whole_end < line.len() && line[whole_end] == '.' {
            lemma_digits_end(line, whole_end + 1);
        } else {
            assert forall|j: int| 0 <= j < numeral.len() implies is_digit(
                #[trigger] numeral[j],
            ) by {}
        }
    }
}

/// Whether a numeral would go on with `c`, were `c` to stand behind it: with
/// a digit always, with a `.` where the numeral has none yet.
pub open spec fn extends(numeral: Seq<char>, c: char) -> bool {
    is_digit(c) || (c == '.' && lacks(numeral, '.'))
}

/// Whether characters put into a line at `at` leave alone the token whose
/// numeral, `numeral`, runs from `start` up to `end`: they stand before its
/// marker, or behind the numeral without going on with it.
pub open spec fn beside_token(
    at: int,
    noise: Seq<char>,
    start: int,
    end: int,
    numeral: Seq<char>,
) -> bool {
    ||| at < start
    ||| at > end
    ||| at == end && (noise.len() > 0 ==> !extends(numeral, noise[0]))
}

/// Where `b` holds from `from + shift` on what `a` holds from `from` on, the
/// digits of `b` from `from + shift` end where those of `a` from `from` do,
/// `shift` further on.
proof fn lemma_digits_end_shifted(a: Seq<char>, b: Seq<char>, from: int, shift: int)
    requires
        0 <= from <= a.len(),
        0 <= shift,
        b.len() == a.len() + shift,
        forall|j: int| from <= j < a.len() ==> #[trigger] b[j + shift] == a[j],
    ensures
        digits_end(b, from + shift) == digits_end(a, from) + shift,
{
    let end = digits_end(a, from);
    lemma_digits_end(a, from);
    assert forall|j: int| from + shift <= j < end + shift implies is_digit(#[trigger] b[j]) by {
        assert(b[(j - shift) + shift] == a[j - shift]);
    }
    lemma_digits_end_is(b, from + shift, end + shift);
}

/// Where `b` holds up to `same` what `a` holds, and the digits of `a` from
/// `from` end before `same`, or at `same` where `b` has no digit, the digits
/// of `b` from `from` end at the same place.
proof fn lemma_digits_end_kept(a: Seq<char>, b: Seq<char>, from: int, same: int)
    requires
        0 <= from <= digits_end(a, from) <= same <= a.len(),
        same <= b.len(),
        forall|j: int| 0 <= j < same ==> #[trigger] b[j] == a[j],
        digits_end(a, from) == same && same < b.len() ==> !is_digit(b[same]),
    ensures
        digits_end(b, from) == digits_end(a, from),
{
    let end = digits_end(a, from);
    lemma_digits_end(a, from);
    assert forall|j: int| from <= j < end implies is_digit(#[trigger] b[j]) by {}
    lemma_digits_end_is(b, from, end);
}

/// Noise leaves a token as it is. Characters that hold no `marker`, put
/// into a line before the marker of its token or behind the token's numeral,
/// change neither the marker nor the numeral that the scan finds, as long
/// as the numeral would not go on with them: `V500.0` may stand before
/// `X100.0`, and `Z200.0` behind it, but `X100` directly followed by `5` is
/// another token.
pub proof fn lemma_noise_keeps_token(
    before: Seq<char>,
    noise: Seq<char>,
    after: Seq<char>,
    marker: char,
    signed: bool,
)
    requires
        lacks(noise, marker),
        scan(before + after, marker, signed) matches Scan::Token { start, end } && beside_token(
            before.len() as int,
            noise,
            start,
            end,
            (before + after).subrange(start, end),
        ),
    ensures
        token(before + noise + after, marker, signed) == token(before + after, marker, signed),
{
    let line = before + after;
    let noisy = before + noise + after;
    let at = before.len() as int;
    let shift = noise.len() as int;
    // The scan of the line without the noise, step by step.
    lemma_first_index(line, marker, 0);
    let found = first_index(line, marker, 0);
    let digits = if signed && found + 1 < line.len() && line[found + 1] == '-' {
        found + 2
    } else {
        found + 1
    };
    lemma_digits_end(line, digits);
    let whole_end = digits_end(line, digits);
    let dotted = whole_end < line.len() && line[whole_end] == '.';
    if dotted {
        lemma_digits_end(line, whole_end + 1);
    }
    let start = found + 1;
    let end = if dotted {
        digits_end(line, whole_end + 1)
    } else {
        whole_end
    };
    // The line with the noise holds what the line holds: up to `at` in
    // place, from `at` on `shift` further on.
    assert forall|j: int| 0 <= j < at implies #[trigger] noisy[j] == line[j] by {}
    assert forall|j: int| at <= j < line.len() implies #[trigger] noisy[j + shift] == line[j] by {}
    if at < start {
        // The noise stands before the marker, so the scan finds all that it
        // found `shift` further on.
        assert forall|j: int| 0 <= j < found + shift implies #[trigger] noisy[j] != marker by {
            if j >= at + shift {
                assert(noisy[(j - shift) + shift] == line[j - shift]);
            }
        }
        lemma_first_index_is(noisy, marker, 0, found + shift);
        lemma_digits_end_shifted(line, noisy, digits, shift);
        if whole_end < line.len() {
            lemma_digits_end_shifted(line, noisy, whole_end + 1, shift);
        }
        assert(scan(noisy, marker, signed) == Scan::Token {
            start: start + shift,
            end: end + shift,
        });
    } else {
        // The noise stands behind the numeral, so the scan finds all that
        // it found in place, and stops where it stopped: the noise does not
        // go on with the numeral.
        assert forall|j: int| 0 <= j < found implies #[trigger] noisy[j] != marker by {}
        lemma_first_index_is(noisy, marker, 0, found);
        if dotted {
            lemma_digits_end_kept(line, noisy, digits, whole_end);
            lemma_digits_end_kept(line, noisy, whole_end + 1, at);
        } else {
            if whole_end == at && shift > 0 {
                let numeral = line.subrange(start, end);
                assert forall|j: int| 0 <= j < numeral.len() implies #[trigger] numeral[j]
                    != '.' by {}
            }
            lemma_digits_end_kept(line, noisy, digits, at);
        }
    }
}

/// Noise makes no token. Characters that hold no `marker`, put anywhere
/// into a line that does not hold it, make a line that does not hold it.
pub proof fn lemma_noise_keeps_absence(
    before: Seq<char>,
    noise: Seq<char>,
    after: Seq<char>,
    marker: char,
    signed: bool,
)
    requires
        lacks(noise, marker),
        scan(before + after, marker, signed) is Absent,
    ensures
        scan(before + noise + after, marker, signed) is Absent,
{
    let line = before + after;
    let noisy = before + noise + after;
    lemma_absent_iff_no_marker(line, marker, signed);
    lemma_absent_iff_no_marker(noisy, marker, signed);
    assert forall|j: int| 0 <= j < noisy.len() implies #[trigger] noisy[j] != marker by {
        if j < before.len() {
            assert(noisy[j] == line[j]);
        } else if j >= before.len() + noise.len() {
            assert(noisy[j] == line[j - noise.len()]);
        }
    }
}

/// Whether characters put into `line` at `at` are noise to the scan for
/// `marker`: they hold no `marker`, and the scan of `line` finds no marker,
/// or finds a token that they leave alone.
pub open spec fn is_noise_at(
    line: Seq<char>,
    marker: char,
    signed: bool,
    at: int,
    noise: Seq<char>,
) -> bool {
    &&& lacks(noise, marker)
    &&& match scan(line, marker, signed) {
        Scan::Absent => true,
        Scan::Token { start, end } => beside_token(
            at,
            noise,
            start,
            end,
            line.subrange(start, end),
        ),
        Scan::Malformed { .. } => false,
    }
}

/// Noise changes what no scan finds: with it the line has the token that it
/// has without it, or none as without it, and no marker of the line comes to
/// lack its numeral.
pub proof fn lemma_noise_changes_no_scan(
    before: Seq<char>,
    noise: Seq<char>,
    after: Seq<char>,
    marker: char,
    signed: bool,
)
    requires
        is_noise_at(before + after, marker, signed, before.len() as int, noise),
    ensures
        token(before + noise + after, marker, signed) == token(before + after, marker, signed),
        !(scan(before + noise + after, marker, signed) is Malformed),
{
    if scan(before + after, marker, signed) is Absent {
        lemma_noise_keeps_absence(before, noise, after, marker, signed);
    } else {
        lemma_noise_keeps_token(before, noise, after, marker, signed);
    }
}

} // verus!
