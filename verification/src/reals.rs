//! Whole numbers as real numbers.
use crate::model::Real;
use vstd::arithmetic::power2::{lemma2_to64, lemma_pow2_adds, lemma_pow2_pos, lemma_pow2_strictly_increases, lemma_pow2_unfold, pow2};
use vstd::prelude::*;

verus! {

/// The place of the highest bit of a number.
pub open spec fn exponent(n: nat) -> nat
    decreases n,
{
    if n <= 1 {
        0
    } else {
        1 + exponent(n / 2)
    }
}

/// The bit pattern of the real number that a whole number is. The number is
/// shifted until its highest bit has the place 52, where the bit stands for the
/// exponent and is added to it.
pub open spec fn whole_bits(n: u32) -> int {
    if n == 0 {
        0
    } else {
        (1022 + exponent(n as nat)) * 0x10_0000_0000_0000 + n * pow2(
            (52 - exponent(n as nat)) as nat,
        )
    }
}

/// The real number that a whole number is.
pub open spec fn whole(n: u32) -> Real {
    Real { bits: whole_bits(n) as u64 }
}

proof fn exponent_is_the_highest_bit(n: nat)
    requires
        1 <= n,
    ensures
        pow2(exponent(n)) <= n < pow2(exponent(n) + 1),
    decreases n,
{
    lemma2_to64();
    if n > 1 {
        exponent_is_the_highest_bit(n / 2);
        lemma_pow2_unfold(exponent(n));
        lemma_pow2_unfold(exponent(n) + 1);
    }
}

proof fn exponent_fits(n: u32)
    requires
        1 <= n,
    ensures
        exponent(n as nat) <= 31,
        0x10_0000_0000_0000 <= n * pow2((52 - exponent(n as nat)) as nat) < 0x20_0000_0000_0000,
{
    lemma2_to64();
    let e = exponent(n as nat);
    exponent_is_the_highest_bit(n as nat);
    if e > 31 {
        if e > 32 {
            lemma_pow2_strictly_increases(32, e);
        }
        assert(false);
    }
    let rest = (52 - e) as nat;
    lemma_pow2_adds(e, rest);
    lemma_pow2_adds(e + 1, rest);
    lemma_pow2_pos(rest);
    lemma_pow2_adds(32, 20);
    lemma_pow2_adds(32, 21);
    assert(pow2(52) == 0x10_0000_0000_0000 && pow2(53) == 0x20_0000_0000_0000);
    assert(pow2(e) * pow2(rest) <= n * pow2(rest) < pow2(e + 1) * pow2(rest)) by (nonlinear_arith)
        requires
            pow2(e) <= n < pow2(e + 1),
            pow2(rest) > 0,
    ;
}

/// The real number that a whole number is.
pub fn real_of(n: u32) -> (number: Real)
    ensures
        number == whole(n),
        number.bits == whole_bits(n),
        number.bits < 0x7ff0_0000_0000_0000,
{
    if n == 0 {
        return Real { bits: 0 };
    }
    proof {
        exponent_fits(n);
        lemma2_to64();
    }
    let ghost e = exponent(n as nat);
    let mut shifted: u64 = n as u64;
    let mut place: u64 = 52;
    assert(n * pow2(0) == n) by (nonlinear_arith)
        requires
            pow2(0) == 1,
    ;
    while shifted < 0x10_0000_0000_0000
        invariant
            1 <= n,
            e == exponent(n as nat),
            e <= place <= 52,
            e <= 31,
            shifted == n * pow2((52 - place) as nat),
            0x10_0000_0000_0000 <= n * pow2((52 - e) as nat) < 0x20_0000_0000_0000,
        decreases place,
    {
        proof {
            if place == e {
                assert(false);
            }
            lemma_pow2_unfold((52 - place + 1) as nat);
            let power = pow2((52 - place) as nat);
            assert(n * (2 * power) == 2 * (n * power)) by (nonlinear_arith);
        }
        shifted = 2 * shifted;
        place = place - 1;
    }
    proof {
        if place > e {
            let held = (52 - place) as nat;
            let rest = (place - e) as nat;
            lemma_pow2_adds(held, rest);
            lemma_pow2_unfold(rest);
            lemma_pow2_pos((rest - 1) as nat);
            assert(n * (pow2(held) * pow2(rest)) == shifted * pow2(rest)) by (nonlinear_arith)
                requires
                    shifted == n * pow2(held),
            ;
            assert(shifted * pow2(rest) >= 2 * shifted) by (nonlinear_arith)
                requires
                    pow2(rest) >= 2,
                    shifted >= 0,
            ;
            assert(false);
        }
    }
    Real { bits: (1022 + place) * 0x10_0000_0000_0000 + shifted }
}

/// The real number that a whole number is, where that may be negative: a negative
/// number is its opposite with the sign bit set.
pub open spec fn signed_whole(n: i32) -> Real {
    if n >= 0 {
        whole(n as u32)
    } else {
        Real { bits: (whole_bits((-n) as u32) + 0x8000_0000_0000_0000) as u64 }
    }
}

/// A whole number as a real number, where it may be negative.
pub fn real_of_signed(n: i32) -> (number: Real)
    ensures
        number == signed_whole(n),
{
    if n >= 0 {
        return real_of(n as u32);
    }
    let opposite = real_of((-(n as i64)) as u32);
    Real { bits: opposite.bits + 0x8000_0000_0000_0000 }
}

/// A whole number is a number like any other: it equals itself.
pub proof fn whole_equals_itself(n: i32)
    ensures
        crate::model::real_eq(signed_whole(n), signed_whole(n)),
{
    if n > 0 {
        exponent_fits(n as u32);
    }
    if n < 0 {
        exponent_fits((-n) as u32);
    }
}

/// A whole number is not negative, and is zero only if it is zero.
pub proof fn whole_is_not_negative(n: u32)
    ensures
        crate::model::magnitude_bits(whole(n).bits) == whole(n).bits,
        whole(n).bits == 0 <==> n == 0,
{
    if n > 0 {
        exponent_fits(n);
    }
}

/// A whole number keeps its value: with `f` in the low 52 bits and `e` in the bits
/// above them, the number is 2^52 + f, times 2 to the power of e - 1075; below zero it
/// has the sign bit besides.
pub proof fn whole_numbers_keep_their_value(n: u32, signed: i32)
    ensures
        n > 0 ==> {
            let e = whole(n).bits / 0x10_0000_0000_0000;
            let f = whole(n).bits % 0x10_0000_0000_0000;
            &&& 1023 <= e <= 1054
            &&& n * pow2((1075 - e) as nat) == 0x10_0000_0000_0000 + f
        },
        whole(0).bits == 0,
        signed >= 0 ==> signed_whole(signed) == whole(signed as u32),
        signed < 0 ==> signed_whole(signed).bits == whole((-signed) as u32).bits
            + 0x8000_0000_0000_0000,
{
    if n > 0 {
        exponent_fits(n);
        let e = exponent(n as nat);
        let shifted = n * pow2((52 - e) as nat);
        assert(whole_bits(n) == (1023 + e) * 0x10_0000_0000_0000 + (shifted
            - 0x10_0000_0000_0000));
        assert(whole(n).bits == whole_bits(n));
        assert(whole(n).bits / 0x10_0000_0000_0000 == 1023 + e);
        assert(whole(n).bits % 0x10_0000_0000_0000 == shifted - 0x10_0000_0000_0000);
        assert(1075 - (1023 + e) == 52 - e);
    }
    if signed < 0 {
        exponent_fits((-signed) as u32);
    }
}

} // verus!
