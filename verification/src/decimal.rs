//! Fixed-point coordinates and the numerals that denote them.

use vstd::prelude::*;
use crate::error::NumeralFault;
use crate::numeral::{
    all_digits, digit_value, digits_to_number, digits_value, is_digit, lemma_digits_end,
    skip_digits,
};
use crate::text::{chars_of, first_index, lemma_first_index, lemma_first_index_is};

verus! {

/// How many millionths make one.
pub const SCALE: i64 = 1_000_000;

/// How many digits after the decimal point a `Decimal` keeps.
pub const FRACTION_DIGITS: usize = 6;

/// The largest whole part that a `Decimal` may have.
const WHOLE_MAX: u64 = 9_223_372_036_854;

/// A signed decimal number with six digits after the decimal point, held as
/// a count of millionths. Sums of such numbers are exact.
#[derive(Debug, Clone, Copy, PartialEq, Eq, Structural)]
pub struct Decimal {
    pub micros: i64,
}

impl View for Decimal {
    type V = int;

    /// The number of millionths.
    open spec fn view(&self) -> int {
        self.micros as int
    }
}

/// Whether a count of millionths fits a `Decimal`.
pub open spec fn fits_decimal(micros: int) -> bool {
    i64::MIN <= micros <= i64::MAX
}

/// The first six digits of a fraction, with `0` where the fraction has
/// fewer.
pub open spec fn kept_digits(fraction: Seq<char>) -> Seq<char> {
    Seq::new(
        FRACTION_DIGITS as nat,
        |i: int|
            if i < fraction.len() {
                fraction[i]
            } else {
                '0'
            },
    )
}

/// Whether the digits of a fraction beyond the sixth amount to half a
/// millionth or more.
pub open spec fn rounds_up(fraction: Seq<char>) -> bool {
    fraction.len() > FRACTION_DIGITS && digit_value(fraction[FRACTION_DIGITS as int]) >= 5
}

/// The millionths nearest to what the digits after a decimal point denote; a
/// half rounds away from zero.
pub open spec fn fraction_micros(fraction: Seq<char>) -> int {
    digits_value(kept_digits(fraction)) + if rounds_up(fraction) {
        1int
    } else {
        0int
    }
}

/// Whether a numeral starts with a minus sign.
pub open spec fn is_negative(s: Seq<char>) -> bool {
    s.len() > 0 && s[0] == '-'
}

/// A numeral without its sign.
pub open spec fn unsigned_part(s: Seq<char>) -> Seq<char> {
    if is_negative(s) {
        s.skip(1)
    } else {
        s
    }
}

/// The digits of an unsigned numeral before its first `.`.
pub open spec fn whole_part(body: Seq<char>) -> Seq<char> {
    body.take(first_index(body, '.', 0))
}

/// The characters of an unsigned numeral after its first `.`.
pub open spec fn fraction_part(body: Seq<char>) -> Seq<char> {
    if first_index(body, '.', 0) < body.len() {
        body.skip(first_index(body, '.', 0) + 1)
    } else {
        Seq::empty()
    }
}

/// Whether `s` is a coordinate numeral: an optional `-`, one or more digits,
/// and then nothing more, or a `.` and any number of digits.
pub open spec fn is_decimal_numeral(s: Seq<char>) -> bool {
    let body = unsigned_part(s);
    &&& whole_part(body).len() > 0
    &&& all_digits(whole_part(body))
    &&& all_digits(fraction_part(body))
}

/// The millionths that a coordinate numeral denotes, rounded to the nearest.
pub open spec fn decimal_micros(s: Seq<char>) -> int {
    let body = unsigned_part(s);
    let magnitude = digits_value(whole_part(body)) * SCALE + fraction_micros(fraction_part(body));
    if is_negative(s) {
        -magnitude
    } else {
        magnitude
    }
}

/// What a coordinate numeral denotes.
pub open spec fn decimal_value(s: Seq<char>) -> Result<int, NumeralFault> {
    if !is_decimal_numeral(s) {
        Err(NumeralFault::Malformed)
    } else if !fits_decimal(decimal_micros(s)) {
        Err(NumeralFault::OutOfRange)
    } else {
        Ok(decimal_micros(s))
    }
}

impl Decimal {
    /// The decimal that equals a whole number.
    pub fn from_integer(units: i32) -> (d: Decimal)
        ensures
            d@ == units * SCALE,
    {
        let wide: i64 = units as i64;
        Decimal { micros: wide * SCALE }
    }

    /// The sum of two decimals, unless it does not fit.
    pub fn checked_add(self, other: Decimal) -> (sum: Option<Decimal>)
        ensures
            match sum {
                Some(d) => d@ == self@ + other@,
                None => !fits_decimal(self@ + other@),
            },
    {
        match self.micros.checked_add(other.micros) {
            Some(micros) => Some(Decimal { micros }),
            None => None,
        }
    }

    /// Reads a coordinate numeral: an optional `-`, one or more digits, and
    /// optionally a `.` and any number of digits. Any other text is
    /// `Malformed`. Digits beyond the sixth after the point are rounded, a
    /// half away from zero; a numeral whose millionths do not fit `i64` is
    /// `OutOfRange`.
    pub fn parse(text: &str) -> (r: Result<Decimal, NumeralFault>)
        ensures
            match decimal_value(text@) {
                Ok(v) => r matches Ok(d) && d@ == v,
                Err(fault) => r == Err::<Decimal, NumeralFault>(fault),
            },
    {
        let chars = chars_of(text);
        let n = chars.len();
        let negative = n > 0 && chars[0] == '-';
        let start: usize = if negative {
            1
        } else {
            0
        };
        let dot = skip_digits(&chars, start);
        let ghost body = unsigned_part(chars@);
        proof {
            lemma_digits_end(chars@, start as int);
        }
        if dot < n && chars[dot] != '.' {
            proof {
                lemma_malformed_whole(body, dot - start);
            }
            return Err(NumeralFault::Malformed);
        }
        proof {
            assert forall|j: int| 0 <= j < dot - start implies #[trigger] body[j] != '.' by {}
            lemma_first_index_is(body, '.', 0, dot - start);
            assert(whole_part(body) =~= chars@.subrange(start as int, dot as int));
        }
        if dot == start {
            return Err(NumeralFault::Malformed);
        }
        let first: usize = if dot < n {
            dot + 1
        } else {
            n
        };
        let ghost fraction = fraction_part(body);
        proof {
            assert(fraction =~= chars@.subrange(first as int, n as int));
        }
        let end = skip_digits(&chars, first);
        proof {
            lemma_digits_end(chars@, first as int);
        }
        if end < n {
            proof {
                assert(fraction[end - first] == chars@[end as int]);
            }
            return Err(NumeralFault::Malformed);
        }
        let whole = match digits_to_number(&chars, start, dot, WHOLE_MAX) {
            Some(whole) => whole,
            None => {
                proof {
                    lemma_fraction_micros_bounds(fraction);
                }
                return Err(NumeralFault::OutOfRange);
            },
        };
        let micros = fraction_to_micros(&chars, first);
        let magnitude: u64 = whole * 1_000_000 + micros;
        if negative {
            if magnitude > 0x8000_0000_0000_0000 {
                Err(NumeralFault::OutOfRange)
            } else if magnitude == 0x8000_0000_0000_0000 {
                Ok(Decimal { micros: i64::MIN })
            } else {
                Ok(Decimal { micros: -(magnitude as i64) })
            }
        } else {
            if magnitude > 0x7fff_ffff_ffff_ffff {
                Err(NumeralFault::OutOfRange)
            } else {
                Ok(Decimal { micros: magnitude as i64 })
            }
        }
    }
}

impl Default for Decimal {
    /// Zero.
    fn default() -> (d: Decimal)
        ensures
            d@ == 0,
    {
        Decimal { micros: 0 }
    }
}

/// Rounds the digits of `chars` from `first` on, read as a fraction, to
/// millionths.
fn fraction_to_micros(chars: &Vec<char>, first: usize) -> (micros: u64)
    requires
        first <= chars@.len(),
        all_digits(chars@.subrange(first as int, chars@.len() as int)),
    ensures
        micros == fraction_micros(chars@.subrange(first as int, chars@.len() as int)),
        micros <= SCALE,
{
    let n = chars.len();
    let ghost fraction = chars@.subrange(first as int, n as int);
    let ghost kept = kept_digits(fraction);
    let mut micros: u64 = 0;
    let mut k: usize = 0;
    while k < FRACTION_DIGITS
        invariant
            n == chars@.len(),
            first <= n,
            fraction == chars@.subrange(first as int, n as int),
            all_digits(fraction),
            kept == kept_digits(fraction),
            0 <= k <= FRACTION_DIGITS,
            micros == digits_value(kept.take(k as int)),
            all_digits(kept.take(k as int)),
        decreases FRACTION_DIGITS - k,
    {
        let ghost before = kept.take(k as int);
        let ghost after = kept.take(k + 1);
        proof {
            assert(after.drop_last() =~= before);
            lemma_digits_below(before);
        }
        let d: u64 = if k < n - first {
            proof {
                assert(is_digit(fraction[k as int]));
            }
            (chars[first + k] as u32 - '0' as u32) as u64
        } else {
            0
        };
        proof {
            assert forall|j: int| 0 <= j < after.len() implies is_digit(#[trigger] after[j]) by {}
            lemma_power_of_ten_bound(k as nat);
        }
        micros = micros * 10 + d;
        k += 1;
    }
    proof {
        assert(kept.take(FRACTION_DIGITS as int) =~= kept);
        lemma_digits_below(kept);
        lemma_power_of_ten_bound(FRACTION_DIGITS as nat);
    }
    if n - first > FRACTION_DIGITS && chars[first + FRACTION_DIGITS] >= '5' {
        micros = micros + 1;
    }
    micros
}

/// Ten to the power `n`.
pub open spec fn power_of_ten(n: nat) -> int
    decreases n,
{
    if n == 0 {
        1
    } else {
        10 * power_of_ten((n - 1) as nat)
    }
}

/// A string of `n` digits denotes less than ten to the power `n`.
pub proof fn lemma_digits_below(s: Seq<char>)
    requires
        all_digits(s),
    ensures
        0 <= digits_value(s) < power_of_ten(s.len()),
    decreases s.len(),
{
    if s.len() > 0 {
        lemma_digits_below(s.drop_last());
    }
}

/// The first seven powers of ten.
proof fn lemma_power_of_ten_bound(n: nat)
    requires
        n <= 6,
    ensures
        power_of_ten(n) <= 1_000_000,
        n == 6 ==> power_of_ten(n) == 1_000_000,
        n < 6 ==> power_of_ten(n) <= 100_000,
{
    reveal_with_fuel(power_of_ten, 7);
}

/// The fraction adds at least nothing and at most one.
pub proof fn lemma_fraction_micros_bounds(fraction: Seq<char>)
    requires
        all_digits(fraction),
    ensures
        0 <= fraction_micros(fraction) <= SCALE,
{
    let kept = kept_digits(fraction);
    lemma_digits_below(kept);
    lemma_power_of_ten_bound(6);
}

/// An unsigned numeral whose first character that is no digit is no `.`
/// either is malformed.
proof fn lemma_malformed_whole(body: Seq<char>, stop: int)
    requires
        0 <= stop < body.len(),
        !is_digit(body[stop]),
        body[stop] != '.',
        forall|j: int| 0 <= j < stop ==> is_digit(#[trigger] body[j]),
    ensures
        !all_digits(whole_part(body)),
{
    lemma_first_index(body, '.', 0);
    assert(whole_part(body)[stop] == body[stop]);
}

} // verus!
