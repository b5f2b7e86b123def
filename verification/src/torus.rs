//! Wrap-around arithmetic on one axis of the torus.

use vstd::prelude::*;
use vstd::arithmetic::div_mod::{
    lemma_fundamental_div_mod,
    lemma_fundamental_div_mod_converse,
    lemma_mod_equivalence,
    lemma_mod_multiples_vanish,
};

verus! {

/// The representative of `value` modulo `modulus` that lies in `[0, modulus)`:
/// the floored remainder, which is never negative for a positive modulus.
pub open spec fn wrap(value: int, modulus: int) -> int {
    value % modulus
}

/// The floored remainder of a negated value: zero where the value is a
/// multiple of the modulus, and otherwise the modulus less the value's own
/// remainder.
pub proof fn lemma_wrap_negated(back: int, modulus: int)
    requires
        modulus > 0,
    ensures
        wrap(-back, modulus) == if back % modulus == 0 {
            0
        } else {
            modulus - back % modulus
        },
{
    let q = back / modulus;
    let r = back % modulus;
    lemma_fundamental_div_mod(back, modulus);
    if r == 0 {
        assert(-back == (-q) * modulus + 0) by (nonlinear_arith)
            requires
                back == modulus * q + r,
                r == 0,
        ;
        lemma_fundamental_div_mod_converse(-back, modulus, -q, 0);
    } else {
        assert(-back == (-q - 1) * modulus + (modulus - r)) by (nonlinear_arith)
            requires
                back == modulus * q + r,
        ;
        lemma_fundamental_div_mod_converse(-back, modulus, -q - 1, modulus - r);
    }
}

/// Wrapping lands in `[0, modulus)`, on a value congruent to the one wrapped.
pub proof fn lemma_wrap_range(value: int, modulus: int)
    requires
        modulus > 0,
    ensures
        0 <= wrap(value, modulus) < modulus,
        (value - wrap(value, modulus)) % modulus == 0,
        wrap(wrap(value, modulus), modulus) == wrap(value, modulus),
{
    lemma_fundamental_div_mod(value, modulus);
    let q = value / modulus;
    assert(value - value % modulus == q * modulus + 0) by (nonlinear_arith)
        requires
            value == modulus * q + value % modulus,
    ;
    lemma_fundamental_div_mod_converse(value - value % modulus, modulus, q, 0);
    lemma_fundamental_div_mod_converse(value % modulus, modulus, 0, value % modulus);
}

/// Wrapping does not see whole turns round the axis: adding any multiple of
/// the modulus leaves the result unchanged.
pub proof fn lemma_wrap_periodic(value: int, turns: int, modulus: int)
    requires
        modulus > 0,
    ensures
        wrap(value + turns * modulus, modulus) == wrap(value, modulus),
{
    lemma_mod_multiples_vanish(turns, value, modulus);
    assert(modulus * turns + value == value + turns * modulus) by (nonlinear_arith);
}

/// Two offsets from one position that differ by less than the length of the
/// axis wrap to different places.
pub proof fn lemma_wrap_apart(position: int, first: int, second: int, modulus: int)
    requires
        first != second,
        -modulus < first - second < modulus,
    ensures
        wrap(position + first, modulus) != wrap(position + second, modulus),
{
    let gap = first - second;
    lemma_mod_equivalence(position + first, position + second, modulus);
    if gap > 0 {
        lemma_fundamental_div_mod_converse(gap, modulus, 0, gap);
    } else {
        lemma_fundamental_div_mod_converse(gap, modulus, -1, gap + modulus);
    }
}

/// Reduces `input` into `[0, max)` by floored modulo, so that an offset of
/// either sign lands on the axis.
pub fn oflow(input: i32, max: usize) -> (index: usize)
    requires
        max > 0,
    ensures
        index == wrap(input as int, max as int),
        index < max,
{
    if input >= 0 {
        input as usize % max
    } else {
        let back: usize = (-(input as i64)) as usize;
        let rem: usize = back % max;
        proof {
            lemma_wrap_negated(back as int, max as int);
        }
        if rem == 0 {
            0
        } else {
            max - rem
        }
    }
}

} // verus!
