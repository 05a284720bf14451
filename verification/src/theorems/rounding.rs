//! How a numeral's fraction becomes millionths: exactly where it can, and
//! else to the nearest.

use vstd::prelude::*;
use crate::decimal::{
    fraction_micros, kept_digits, lemma_digits_below, power_of_ten, FRACTION_DIGITS,
};
use crate::numeral::{all_digits, digit_value, digits_value};

verus! {

/// What a digit string followed by another denotes.
pub proof fn lemma_digits_value_of_concat(front: Seq<char>, back: Seq<char>)
    ensures
        digits_value(front + back) == digits_value(front) * power_of_ten(back.len())
            + digits_value(back),
    decreases back.len(),
{
    if back.len() == 0 {
    } else {
        let shorter = back.drop_last();
        assert((front + back).drop_last() =~= front + shorter);
        lemma_digits_value_of_concat(front, shorter);
        let high = digits_value(front);
        let power = power_of_ten(shorter.len());
        assert(10 * (high * power) == high * (10 * power)) by (nonlinear_arith);
    }
}

/// A fraction of six digits or fewer is kept exactly: its millionths are
/// its digits with zeros behind them to make six.
pub proof fn lemma_short_fraction_is_exact(fraction: Seq<char>)
    requires
        fraction.len() <= FRACTION_DIGITS,
    ensures
        fraction_micros(fraction) == digits_value(fraction) * power_of_ten(
            (FRACTION_DIGITS - fraction.len()) as nat,
        ),
{
    let zeros = Seq::new((FRACTION_DIGITS - fraction.len()) as nat, |i: int| '0');
    assert(kept_digits(fraction) =~= fraction + zeros);
    lemma_digits_value_of_concat(fraction, zeros);
    lemma_zeros_denote_zero(zeros);
}

/// A fraction of more than six digits is rounded to the nearest millionth,
/// and away from zero where it lies halfway between two: in units of its
/// last digit, twice the distance between its millionths and itself is at
/// most one millionth, and is that much only where the millionths are the
/// larger.
pub proof fn lemma_long_fraction_is_rounded(fraction: Seq<char>)
    requires
        all_digits(fraction),
        fraction.len() > FRACTION_DIGITS,
    ensures
        ({
            let millionth = power_of_ten((fraction.len() - FRACTION_DIGITS) as nat);
            let distance = fraction_micros(fraction) * millionth - digits_value(fraction);
            -millionth < 2 * distance <= millionth
        }),
{
    let kept = fraction.take(FRACTION_DIGITS as int);
    let tail = fraction.skip(FRACTION_DIGITS as int);
    let next = seq![tail[0]];
    let rest = tail.skip(1);
    assert(kept_digits(fraction) =~= kept);
    assert(fraction =~= kept + tail);
    assert(tail =~= next + rest);
    lemma_digits_value_of_concat(kept, tail);
    lemma_digits_value_of_concat(next, rest);
    lemma_digits_below(rest);
    assert(next.drop_last() =~= Seq::<char>::empty());
    assert(digits_value(Seq::<char>::empty()) == 0);
    let d = digit_value(tail[0]);
    let q = power_of_ten(rest.len());
    let r = digits_value(rest);
    let high = digits_value(kept);
    let millionth = power_of_ten(tail.len());
    if d >= 5 {
        assert((high + 1) * millionth - (high * millionth + (d * q + r)) == (10 - d) * q - r)
            by (nonlinear_arith)
            requires
                millionth == 10 * q,
        ;
        assert(0 < 2 * ((10 - d) * q - r) <= 10 * q) by (nonlinear_arith)
            requires
                5 <= d <= 9,
                0 <= r < q,
        ;
    } else {
        assert(-(10 * q) < -2 * (d * q + r) <= 0) by (nonlinear_arith)
            requires
                0 <= d <= 4,
                0 <= r < q,
        ;
    }
}

/// A string of zeros denotes zero.
proof fn lemma_zeros_denote_zero(zeros: Seq<char>)
    requires
        forall|i: int| 0 <= i < zeros.len() ==> #[trigger] zeros[i] == '0',
    ensures
        digits_value(zeros) == 0,
    decreases zeros.len(),
{
    if zeros.len() > 0 {
        lemma_zeros_denote_zero(zeros.drop_last());
    }
}

} // verus!
