//! The line grammar: where in a line the mode and coordinate tokens stand.
//!
//! A token is a marker (`G`, `X` or `Y`) and the numeral that follows it.
//! Each of the three is looked for in the whole line, from its start, so
//! that finding one never hides another. Only the first marker of a kind
//! counts. Markers are upper case; `g`, `x` and `y` are noise like any other
//! character.

use vstd::prelude::*;
use vstd::string::StrSliceExecFns;
use crate::numeral::{digits_end, lemma_digits_end, skip_digits};
use crate::text::{chars_of, find_char, first_index, lacks, lemma_first_index};

verus! {

/// What the scan of a line for one marker finds.
pub enum Scan {
    /// The line does not hold the marker.
    Absent,
    /// A numeral follows the marker. It runs from `start`, the index after
    /// the marker, up to `end`.
    Token { start: int, end: int },
    /// No numeral follows the marker: at `at` a digit should stand and does
    /// not.
    Malformed { at: int },
}

/// Scans `line` for the first `marker` and the numeral behind it: one or
/// more digits, then optionally a `.` and any number of digits. Where
/// `signed` is set, a `-` may stand before the first digit.
pub open spec fn scan(line: Seq<char>, marker: char, signed: bool) -> Scan {
    let found = first_index(line, marker, 0);
    if found >= line.len() {
        Scan::Absent
    } else {
        let digits = if signed && found + 1 < line.len() && line[found + 1] == '-' {
            found + 2
        } else {
            found + 1
        };
        let whole_end = digits_end(line, digits);
        if whole_end == digits {
            Scan::Malformed { at: digits }
        } else if whole_end < line.len() && line[whole_end] == '.' {
            Scan::Token { start: found + 1, end: digits_end(line, whole_end + 1) }
        } else {
            Scan::Token { start: found + 1, end: whole_end }
        }
    }
}

/// The token of `line` for `marker`, as the marker and the text of the
/// numeral, if the scan finds one.
pub open spec fn token(line: Seq<char>, marker: char, signed: bool) -> Option<(char, Seq<char>)> {
    match scan(line, marker, signed) {
        Scan::Token { start, end } => Some((marker, line.subrange(start, end))),
        _ => None,
    }
}

/// Where the first marker without a numeral wants its digit, taking the
/// markers in the order `G`, `X`, `Y`.
pub open spec fn first_malformed(line: Seq<char>) -> Option<int> {
    if let Scan::Malformed { at } = scan(line, 'G', false) {
        Some(at)
    } else if let Scan::Malformed { at } = scan(line, 'X', true) {
        Some(at)
    } else if let Scan::Malformed { at } = scan(line, 'Y', true) {
        Some(at)
    } else {
        None
    }
}

/// Why a scan gave no token.
#[derive(Debug, Clone, Copy, PartialEq, Eq, Structural)]
pub enum ScanFailureKind {
    /// The line does not hold the marker. This is how a line says that it
    /// has no such token, and no fault of the line.
    NoMarker,
    /// The marker is there, but no digit where its numeral should start.
    NoDigit,
}

/// A scan that gave no token.
#[derive(Debug, Clone, Copy, PartialEq, Eq)]
pub struct ScanFailure<'a> {
    /// The part of the line at which the scan gave up: the whole line where
    /// the marker is missing, else what stands where a digit was expected.
    pub input: &'a str,
    pub kind: ScanFailureKind,
}

/// A token as the scanning functions hand it out, with the numeral as a
/// sequence of characters.
pub open spec fn token_view(found: Option<(char, &str)>) -> Option<(char, Seq<char>)> {
    match found {
        Some((code, numeral)) => Some((code, numeral@)),
        None => None,
    }
}

/// Whether `r` reports what the scan of `line` for `marker` finds: the
/// token and the rest of the line behind it, or the place of the failure.
pub open spec fn reports(
    line: Seq<char>,
    marker: char,
    signed: bool,
    r: Result<(&str, (char, &str)), ScanFailure<'_>>,
) -> bool {
    match scan(line, marker, signed) {
        Scan::Token { start, end } => {
            &&& r matches Ok((rest, (code, numeral)))
            &&& code == marker
            &&& numeral@ == line.subrange(start, end)
            &&& rest@ == line.subrange(end, line.len() as int)
        },
        Scan::Absent => {
            &&& r matches Err(failure)
            &&& failure.kind == ScanFailureKind::NoMarker
            &&& failure.input@ == line
        },
        Scan::Malformed { at } => {
            &&& r matches Err(failure)
            &&& failure.kind == ScanFailureKind::NoDigit
            &&& failure.input@ == line.subrange(at, line.len() as int)
        },
    }
}

/// One line of input.
#[derive(Debug, PartialEq, Eq)]
pub struct Line {
    line: String,
}

impl View for Line {
    type V = Seq<char>;

    /// The characters of the line.
    closed spec fn view(&self) -> Seq<char> {
        self.line@
    }
}

impl Line {
    /// Wraps the text of one line.
    pub fn new(line: String) -> (made: Self)
        ensures
            made@ == line@,
    {
        Self { line }
    }

    /// The text of the line.
    pub fn as_str(&self) -> (text: &str)
        ensures
            text@ == self@,
    {
        self.line.as_str()
    }

    /// Scans the line for its mode, X and Y tokens, in this order. A marker
    /// that the line does not hold gives `None`; a marker without a numeral
    /// makes the whole line fail, with the first such marker's failure. The
    /// text beside the tokens is what the scans leave unread, which is
    /// nothing.
    pub fn parsed_for_state(&self) -> (r: Result<
        (&str, (Option<(char, &str)>, Option<(char, &str)>, Option<(char, &str)>)),
        ScanFailure<'_>,
    >)
        ensures
            match first_malformed(self@) {
                Some(at) => {
                    &&& r matches Err(failure)
                    &&& failure.kind == ScanFailureKind::NoDigit
                    &&& failure.input@ == self@.subrange(at, self@.len() as int)
                },
                None => {
                    &&& r matches Ok((rest, (g, x, y)))
                    &&& rest@.len() == 0
                    &&& token_view(g) == token(self@, 'G', false)
                    &&& token_view(x) == token(self@, 'X', true)
                    &&& token_view(y) == token(self@, 'Y', true)
                },
            },
            lacks(self@, 'G') && lacks(self@, 'X') && lacks(self@, 'Y') ==> (r matches Ok(
                (_, (g, x, y)),
            ) && g is None && x is None && y is None),
    {
        proof {
            lemma_absent_iff_no_marker(self@, 'G', false);
            lemma_absent_iff_no_marker(self@, 'X', true);
            lemma_absent_iff_no_marker(self@, 'Y', true);
        }
        let text = self.line.as_str();
        let chars = chars_of(text);
        let g = match found_or_absent(scan_chars(text, &chars, 'G', false)) {
            Ok(found) => found,
            Err(failure) => {
                return Err(failure);
            },
        };
        let x = match found_or_absent(scan_chars(text, &chars, 'X', true)) {
            Ok(found) => found,
            Err(failure) => {
                return Err(failure);
            },
        };
        let y = match found_or_absent(scan_chars(text, &chars, 'Y', true)) {
            Ok(found) => found,
            Err(failure) => {
                return Err(failure);
            },
        };
        let rest = text.substring_char(chars.len(), chars.len());
        Ok((rest, (g, x, y)))
    }
}

/// Tells the token found, or that the marker is absent, from the failure
/// that is one: a marker without a numeral.
fn found_or_absent<'a>(scanned: Result<(&'a str, (char, &'a str)), ScanFailure<'a>>) -> (r: Result<
    Option<(char, &'a str)>,
    ScanFailure<'a>,
>)
    ensures
        match scanned {
            Ok((_, found)) => r == Ok::<Option<(char, &str)>, ScanFailure>(Some(found)),
            Err(failure) => if failure.kind == ScanFailureKind::NoMarker {
                r == Ok::<Option<(char, &str)>, ScanFailure>(None)
            } else {
                r == Err::<Option<(char, &str)>, ScanFailure>(failure)
            },
        },
{
    match scanned {
        Ok((_, found)) => Ok(Some(found)),
        Err(failure) => match failure.kind {
            ScanFailureKind::NoMarker => Ok(None),
            ScanFailureKind::NoDigit => Err(failure),
        },
    }
}

/// Scans `input`, whose characters are `chars`, for one token.
fn scan_chars<'a>(input: &'a str, chars: &Vec<char>, marker: char, signed: bool) -> (r: Result<
    (&'a str, (char, &'a str)),
    ScanFailure<'a>,
>)
    requires
        chars@ == input@,
    ensures
        reports(input@, marker, signed, r),
{
    let n = chars.len();
    let found = find_char(chars, marker);
    if found >= n {
        return Err(ScanFailure { input, kind: ScanFailureKind::NoMarker });
    }
    let digits: usize = if signed && found + 1 < n && chars[found + 1] == '-' {
        found + 2
    } else {
        found + 1
    };
    let whole_end = skip_digits(chars, digits);
    if whole_end == digits {
        return Err(
            ScanFailure { input: input.substring_char(digits, n), kind: ScanFailureKind::NoDigit },
        );
    }
    let end = if whole_end < n && chars[whole_end] == '.' {
        skip_digits(chars, whole_end + 1)
    } else {
        whole_end
    };
    Ok((input.substring_char(end, n), (marker, input.substring_char(found + 1, end))))
}

/// Finds the mode token: the first `G` and the numeral behind it, which has
/// no sign. Gives the rest of the line behind the token, and the token.
/// Fails with `NoMarker` where the line holds no `G`, and with `NoDigit`
/// where no digit follows its first `G`.
pub fn positioning_mode(input: &str) -> (r: Result<(&str, (char, &str)), ScanFailure<'_>>)
    ensures
        reports(input@, 'G', false, r),
        lacks(input@, 'G') <==> (r matches Err(failure) && failure.kind
            == ScanFailureKind::NoMarker),
{
    let chars = chars_of(input);
    proof {
        lemma_absent_iff_no_marker(input@, 'G', false);
    }
    scan_chars(input, &chars, 'G', false)
}

/// Finds the X token: the first `X` and the numeral behind it, which may
/// start with a `-`. Gives the rest of the line behind the token, and the
/// token. Fails with `NoMarker` where the line holds no `X`, and with
/// `NoDigit` where no digit follows its first `X` and the sign.
pub fn x(input: &str) -> (r: Result<(&str, (char, &str)), ScanFailure<'_>>)
    ensures
        reports(input@, 'X', true, r),
        lacks(input@, 'X') <==> (r matches Err(failure) && failure.kind
            == ScanFailureKind::NoMarker),
{
    let chars = chars_of(input);
    proof {
        lemma_absent_iff_no_marker(input@, 'X', true);
    }
    scan_chars(input, &chars, 'X', true)
}

/// Finds the Y token: the first `Y` and the numeral behind it, which may
/// start with a `-`. Gives the rest of the line behind the token, and the
/// token. Fails with `NoMarker` where the line holds no `Y`, and with
/// `NoDigit` where no digit follows its first `Y` and the sign.
pub fn y(input: &str) -> (r: Result<(&str, (char, &str)), ScanFailure<'_>>)
    ensures
        reports(input@, 'Y', true, r),
        lacks(input@, 'Y') <==> (r matches Err(failure) && failure.kind
            == ScanFailureKind::NoMarker),
{
    let chars = chars_of(input);
    proof {
        lemma_absent_iff_no_marker(input@, 'Y', true);
    }
    scan_chars(input, &chars, 'Y', true)
}

/// A scan stays inside the line, and what it takes for the marker is the
/// marker: a token starts right behind it and is not empty.
pub proof fn lemma_scan_bounds(line: Seq<char>, marker: char, signed: bool)
    ensures
        match scan(line, marker, signed) {
            Scan::Absent => true,
            Scan::Token { start, end } => {
                &&& 0 < start < end <= line.len()
                &&& line[start - 1] == marker
            },
            Scan::Malformed { at } => 0 < at <= line.len(),
        },
{
    let found = first_index(line, marker, 0);
    lemma_first_index(line, marker, 0);
    if found < line.len() {
        let digits = if signed && found + 1 < line.len() && line[found + 1] == '-' {
            found + 2
        } else {
            found + 1
        };
        lemma_digits_end(line, digits);
        let whole_end = digits_end(line, digits);
        if whole_end < line.len() {
            lemma_digits_end(line, whole_end + 1);
        }
    }
}

/// A scan finds no marker exactly in the lines that do not hold it, whatever
/// else they hold: the lower-case letter of a marker is no marker.
pub proof fn lemma_absent_iff_no_marker(line: Seq<char>, marker: char, signed: bool)
    ensures
        scan(line, marker, signed) is Absent <==> lacks(line, marker),
{
    lemma_first_index(line, marker, 0);
}

} // verus!
