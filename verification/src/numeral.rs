//! Decimal digits and unsigned integer numerals.

use vstd::prelude::*;
use crate::error::NumeralFault;
use crate::text::chars_of;

verus! {

/// Whether `c` is one of the ten ASCII decimal digits.
pub open spec fn is_digit(c: char) -> bool {
    '0' <= c && c <= '9'
}

/// The number a decimal digit stands for.
pub open spec fn digit_value(c: char) -> int {
    c as int - '0' as int
}

/// Whether every character of `s` is a decimal digit.
pub open spec fn all_digits(s: Seq<char>) -> bool {
    forall|i: int| 0 <= i < s.len() ==> is_digit(#[trigger] s[i])
}

/// The number that the digit string `s` denotes in base ten; 0 for the empty
/// string.
pub open spec fn digits_value(s: Seq<char>) -> int
    decreases s.len(),
{
    if s.len() == 0 {
        0
    } else {
        10 * digits_value(s.drop_last()) + digit_value(s.last())
    }
}

/// The least index at or after `from` at which `s` holds no digit, or the
/// length of `s` if digits run to its end.
pub open spec fn digits_end(s: Seq<char>, from: int) -> int
    decreases s.len() - from,
{
    if from < 0 || from >= s.len() {
        s.len() as int
    } else if !is_digit(s[from]) {
        from
    } else {
        digits_end(s, from + 1)
    }
}

/// What an integer numeral denotes: a nonempty string of digits, without a
/// sign, whose value fits `i32`.
pub open spec fn integer_value(s: Seq<char>) -> Result<int, NumeralFault> {
    if s.len() == 0 || !all_digits(s) {
        Err(NumeralFault::Malformed)
    } else if digits_value(s) > i32::MAX {
        Err(NumeralFault::OutOfRange)
    } else {
        Ok(digits_value(s))
    }
}

/// A digit string denotes a number that is not negative.
pub proof fn lemma_digits_value_nonnegative(s: Seq<char>)
    requires
        all_digits(s),
    ensures
        digits_value(s) >= 0,
    decreases s.len(),
{
    if s.len() > 0 {
        lemma_digits_value_nonnegative(s.drop_last());
    }
}

/// A digit string denotes at least what each of its prefixes denotes.
pub proof fn lemma_digits_value_grows(s: Seq<char>, k: int)
    requires
        all_digits(s),
        0 <= k <= s.len(),
    ensures
        digits_value(s.take(k)) <= digits_value(s),
    decreases s.len(),
{
    if k == s.len() {
        assert(s.take(k) =~= s);
    } else {
        let front = s.drop_last();
        assert(front.take(k) =~= s.take(k));
        lemma_digits_value_grows(front, k);
        lemma_digits_value_nonnegative(front);
    }
}

/// `digits_end` stops at the first character that is no digit.
pub proof fn lemma_digits_end(s: Seq<char>, from: int)
    requires
        0 <= from <= s.len(),
    ensures
        from <= digits_end(s, from) <= s.len(),
        digits_end(s, from) < s.len() ==> !is_digit(s[digits_end(s, from)]),
        forall|j: int| from <= j < digits_end(s, from) ==> is_digit(#[trigger] s[j]),
    decreases s.len() - from,
{
    if from < s.len() && is_digit(s[from]) {
        lemma_digits_end(s, from + 1);
    }
}

/// An index that holds no digit, or is the length of `s`, and that only
/// digits separate from `from`, is the one that `digits_end` finds.
pub proof fn lemma_digits_end_is(s: Seq<char>, from: int, end: int)
    requires
        0 <= from <= end <= s.len(),
        end < s.len() ==> !is_digit(s[end]),
        forall|j: int| from <= j < end ==> is_digit(#[trigger] s[j]),
    ensures
        digits_end(s, from) == end,
    decreases end - from,
{
    if from < end {
        lemma_digits_end_is(s, from + 1, end);
    }
}

/// Whether `c` is a decimal digit.
pub(crate) fn is_decimal_digit(c: char) -> (digit: bool)
    ensures
        digit == is_digit(c),
{
    '0' <= c && c <= '9'
}

/// Finds where the run of digits that starts at `from` ends.
pub(crate) fn skip_digits(chars: &Vec<char>, from: usize) -> (end: usize)
    requires
        from <= chars@.len(),
    ensures
        end == digits_end(chars@, from as int),
        from <= end <= chars@.len(),
{
    let n = chars.len();
    let mut i: usize = from;
    while i < n && is_decimal_digit(chars[i])
        invariant
            n == chars@.len(),
            from <= i <= n,
            digits_end(chars@, from as int) == digits_end(chars@, i as int),
        decreases n - i,
    {
        i += 1;
    }
    i
}

/// Computes what the digits of `chars` between `from` and `to` denote, as
/// long as that is at most `limit`.
pub(crate) fn digits_to_number(
    chars: &Vec<char>,
    from: usize,
    to: usize,
    limit: u64,
) -> (r: Option<u64>)
    requires
        from <= to <= chars@.len(),
        all_digits(chars@.subrange(from as int, to as int)),
    ensures
        match r {
            Some(v) => v == digits_value(chars@.subrange(from as int, to as int)) && v <= limit,
            None => digits_value(chars@.subrange(from as int, to as int)) > limit,
        },
{
    let ghost digits = chars@.subrange(from as int, to as int);
    let mut value: u64 = 0;
    let mut i: usize = from;
    while i < to
        invariant
            from <= i <= to <= chars@.len(),
            digits == chars@.subrange(from as int, to as int),
            all_digits(digits),
            value == digits_value(digits.take(i - from)),
            value <= limit,
        decreases to - i,
    {
        let ghost before = digits.take(i - from);
        let ghost after = digits.take(i - from + 1);
        proof {
            assert(after.drop_last() =~= before);
            assert(is_digit(digits[i - from]));
        }
        let d: u64 = (chars[i] as u32 - '0' as u32) as u64;
        if limit < d || value > (limit - d) / 10 {
            proof {
                lemma_digits_value_grows(digits, i - from + 1);
            }
            return None;
        }
        value = value * 10 + d;
        i += 1;
    }
    proof {
        assert(digits.take(to - from) =~= digits);
    }
    Some(value)
}

/// Reads an integer numeral: one or more digits and nothing else, not even
/// a sign. Any other text is `Malformed`; digits that denote more than
/// `i32::MAX` are `OutOfRange`. Zeros in front do not count.
pub fn parse_integer(text: &str) -> (r: Result<i32, NumeralFault>)
    ensures
        match integer_value(text@) {
            Ok(value) => r matches Ok(number) && number == value,
            Err(fault) => r == Err::<i32, NumeralFault>(fault),
        },
{
    let chars = chars_of(text);
    let n = chars.len();
    let end = skip_digits(&chars, 0);
    proof {
        lemma_digits_end(chars@, 0);
        assert(chars@.subrange(0, n as int) =~= chars@);
    }
    if n == 0 || end < n {
        return Err(NumeralFault::Malformed);
    }
    match digits_to_number(&chars, 0, n, 0x7fff_ffff) {
        Some(v) => Ok(v as i32),
        None => Err(NumeralFault::OutOfRange),
    }
}

} // verus!
