//! What the bit patterns of single-precision numbers stand for, and that they
//! are ordered as the numbers are.
use vstd::arithmetic::power2::{lemma2_to64, lemma_pow2_adds, lemma_pow2_pos, pow2};
use vstd::prelude::*;

use crate::kv::generation::{is_nan, order_key};
use crate::server::lql::shown;

verus! {

/// What the bits of a number without its sign stand for, in units of the
/// smallest positive number.  The numbers below the smallest normal one have
/// no hidden bit.
pub open spec fn magnitude(x: nat) -> nat {
    let exponent = x / 0x80_0000;
    let fraction = x % 0x80_0000;
    if exponent == 0 {
        fraction
    } else {
        (0x80_0000 + fraction) * pow2((exponent - 1) as nat)
    }
}

/// The number that the bits stand for, in units of the smallest positive
/// number; an infinity is greater than all others.
pub open spec fn number_of(bits: u32) -> int {
    if bits < 0x8000_0000 {
        magnitude(bits as nat) as int
    } else {
        -(magnitude((bits - 0x8000_0000) as nat) as int)
    }
}

/// The next bit pattern stands for a greater number.
proof fn magnitude_steps(x: nat)
    ensures
        magnitude(x) < magnitude(x + 1),
{
    let e = x / 0x80_0000;
    let m = x % 0x80_0000;
    if m + 1 < 0x80_0000 {
        assert((x + 1) / 0x80_0000 == e && (x + 1) % 0x80_0000 == m + 1);
        if e > 0 {
            let p = pow2((e - 1) as nat);
            lemma_pow2_pos((e - 1) as nat);
            assert((0x80_0000 + m) * p < (0x80_0000 + (m + 1)) * p) by (nonlinear_arith)
                requires
                    p > 0,
            ;
            assert(magnitude(x) == (0x80_0000 + m) * p);
            assert(magnitude(x + 1) == (0x80_0000 + (m + 1)) * p);
        }
    } else {
        assert((x + 1) / 0x80_0000 == e + 1 && (x + 1) % 0x80_0000 == 0);
        if e > 0 {
            let p = pow2((e - 1) as nat);
            lemma_pow2_pos((e - 1) as nat);
            lemma_pow2_adds(1, (e - 1) as nat);
            lemma2_to64();
            assert((0x80_0000 + m) * p < (0x80_0000 + 0) * (2 * p)) by (nonlinear_arith)
                requires
                    p > 0,
                    m == 0x80_0000 - 1,
            ;
            assert(pow2(e) == 2 * p);
            assert(magnitude(x + 1) == 0x80_0000 * pow2(e));
            assert(magnitude(x) == (0x80_0000 + m) * p);
            assert(magnitude(x) < magnitude(x + 1));
        } else {
            lemma2_to64();
            assert(magnitude(x + 1) == 0x80_0000 * pow2(0));
        }
    }
}

/// Greater bit patterns stand for greater numbers.
proof fn magnitude_grows(a: nat, b: nat)
    requires
        a < b,
    ensures
        magnitude(a) < magnitude(b),
    decreases b - a,
{
    magnitude_steps((b - 1) as nat);
    if a < b - 1 {
        magnitude_grows(a, (b - 1) as nat);
    }
}

/// The integers by which scores are compared order them as the numbers that
/// they stand for; the two zeros are equal.
pub proof fn order_is_numeric(a: u32, b: u32)
    ensures
        order_key(a) < order_key(b) <==> number_of(a) < number_of(b),
        order_key(a) == order_key(b) <==> number_of(a) == number_of(b),
{
    let x = if a < 0x8000_0000 {
        a as nat
    } else {
        (a - 0x8000_0000) as nat
    };
    let y = if b < 0x8000_0000 {
        b as nat
    } else {
        (b - 0x8000_0000) as nat
    };
    assert(magnitude(0) == 0);
    if x < y {
        magnitude_grows(x, y);
    } else if y < x {
        magnitude_grows(y, x);
    }
    if x > 0 {
        magnitude_grows(0, x);
    }
    if y > 0 {
        magnitude_grows(0, y);
    }
}

/// The bits that are not a number have all bits of the exponent set and some
/// bit of the fraction.
pub proof fn nan_bits_are(bits: u32)
    ensures
        is_nan(bits) <==> (bits % 0x8000_0000) / 0x80_0000 == 255 && bits % 0x80_0000 != 0,
{
}

/// A score is shown if it is at least five, or not a number.
pub proof fn scores_from_five_are_shown(score: u32)
    ensures
        shown(score) <==> is_nan(score) || number_of(score) >= 5 * pow2(149),
{
    let five: u32 = 0x40A0_0000;
    lemma2_to64();
    lemma_pow2_adds(21, 128);
    assert(five as nat / 0x80_0000 == 129 && five as nat % 0x80_0000 == 0x20_0000);
    assert(number_of(five) == 0xA0_0000 * pow2(128));
    assert(0xA0_0000 * pow2(128) == 5 * (pow2(21) * pow2(128))) by (nonlinear_arith)
        requires
            pow2(21) == 0x20_0000,
    ;
    order_is_numeric(score, five);
    order_is_numeric(five, score);
}

} // verus!
