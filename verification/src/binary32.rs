//! Numbers of the machine, held by their IEEE 754 single-precision encoding.
//!
//! A number is a `u32`: one sign bit, eight exponent bits, twenty-three
//! fraction bits. Everything the machine decides about a number (order,
//! equality, truth) is computed on the encoding with integer arithmetic and
//! stated against the number's value. Arithmetic on numbers is the host's
//! business and is not found here.

use vstd::prelude::*;
use vstd::arithmetic::div_mod::{lemma_mod_multiples_basic, lemma_small_mod, lemma_truncate_middle};
use vstd::arithmetic::mul::lemma_mul_is_associative;
use vstd::arithmetic::power2::*;
use vstd::bits::{lemma_u32_pow2_no_overflow, lemma_u32_shl_is_mul};

verus! {

/// Encoding of positive zero.
pub const ZERO: u32 = 0;

/// Encoding of one.
pub const ONE: u32 = 0x3F80_0000;

/// Encoding of the single-precision number nearest to one millionth, the
/// least number that counts as true.
pub const EPSILON: u32 = 0x3586_37BD;

/// Encoding of positive infinity.
pub const INFINITY: u32 = 0x7F80_0000;

/// The sign bit.
pub const SIGN: u32 = 0x8000_0000;

/// The hidden leading bit of a normal number's significand.
pub const HIDDEN: u32 = 0x0080_0000;

/// The biased exponent, 0 to 255.
pub open spec fn exponent(bits: u32) -> nat {
    ((bits as nat) / 0x80_0000) % 0x100
}

/// The fraction field, below 2^23.
pub open spec fn fraction(bits: u32) -> nat {
    (bits as nat) % 0x80_0000
}

/// Whether the sign bit is set.
pub open spec fn negative(bits: u32) -> bool {
    bits >= 0x8000_0000
}

/// Whether the encoding is not a number.
pub open spec fn nan(bits: u32) -> bool {
    exponent(bits) == 255 && fraction(bits) != 0
}

/// Whether the encoding is a finite number.
pub open spec fn finite(bits: u32) -> bool {
    exponent(bits) != 255
}

/// The significand as an integer: the fraction, with the hidden bit for a
/// normal number.
pub open spec fn significand(bits: u32) -> nat {
    if exponent(bits) == 0 {
        fraction(bits)
    } else {
        0x80_0000 + fraction(bits)
    }
}

/// The power of two by which the significand is scaled, counted from 2^-149.
pub open spec fn scale(bits: u32) -> nat {
    if exponent(bits) == 0 {
        0
    } else {
        (exponent(bits) - 1) as nat
    }
}

/// The absolute value in units of 2^-149, in which every finite number is
/// an integer. An infinity gets 2^277, which lies beyond every finite
/// number, so that the order below holds for it too.
pub open spec fn magnitude(bits: u32) -> nat {
    significand(bits) * pow2(scale(bits))
}

/// The value in units of 2^-149. Both zeros have the value 0.
pub open spec fn scaled(bits: u32) -> int {
    if negative(bits) {
        -(magnitude(bits) as int)
    } else {
        magnitude(bits) as int
    }
}

/// Numeric equality: neither side is a NaN and the values agree.
pub open spec fn num_eq(a: u32, b: u32) -> bool {
    !nan(a) && !nan(b) && scaled(a) == scaled(b)
}

/// Numeric `a > b`: neither side is a NaN and `a` has the greater value.
pub open spec fn num_gt(a: u32, b: u32) -> bool {
    !nan(a) && !nan(b) && scaled(a) > scaled(b)
}

/// Numeric `a >= b`: neither side is a NaN and `a` has no lesser value.
pub open spec fn num_ge(a: u32, b: u32) -> bool {
    !nan(a) && !nan(b) && scaled(a) >= scaled(b)
}

/// Truth of a number: it is at least `EPSILON`. Zero, every negative number
/// and every NaN are false.
pub open spec fn truthy(bits: u32) -> bool {
    num_ge(bits, EPSILON)
}

/// Whether the number is whole: finite, and a multiple of one, which is
/// 2^149 units.
pub open spec fn integral(bits: u32) -> bool {
    finite(bits) && magnitude(bits) % pow2(149) == 0
}

/// The encoding without its sign bit. On numbers it grows with the
/// magnitude, which is what makes the comparisons below integer work.
pub open spec fn rank(bits: u32) -> nat {
    (bits as nat) % 0x8000_0000
}

/// The signed rank: the order of numbers is the order of their keys.
pub open spec fn key(bits: u32) -> int {
    if negative(bits) {
        -(rank(bits) as int)
    } else {
        rank(bits) as int
    }
}

/// A greater rank means a greater magnitude.
pub proof fn lemma_rank_orders_magnitude(a: u32, b: u32)
    requires
        rank(a) < rank(b),
    ensures
        magnitude(a) < magnitude(b),
{
    let ea = exponent(a);
    let fa = fraction(a);
    let eb = exponent(b);
    let fb = fraction(b);
    assert(rank(a) == ea * 0x80_0000 + fa);
    assert(rank(b) == eb * 0x80_0000 + fb);
    let pa = pow2(scale(a)) as int;
    let pb = pow2(scale(b)) as int;
    lemma_pow2_pos(scale(a));
    lemma_pow2_pos(scale(b));
    if ea == eb {
        assert(fa < fb);
        if ea != 0 {
            assert((0x80_0000 + fa) * pa < (0x80_0000 + fb) * pa) by (nonlinear_arith)
                requires
                    fa < fb,
                    pa > 0,
            ;
        } else {
            assert(pow2(0) == 1) by {
                lemma2_to64();
            }
        }
    } else {
        assert(ea < eb);
        assert(magnitude(b) >= 0x80_0000 * pb) by (nonlinear_arith)
            requires
                magnitude(b) == (0x80_0000 + fb) * pb,
                fb >= 0,
                pb > 0,
        ;
        if ea == 0 {
            assert(pow2(0) == 1) by {
                lemma2_to64();
            }
            assert(0x80_0000 * pb >= 0x80_0000) by (nonlinear_arith)
                requires
                    pb >= 1,
            ;
        } else {
            assert((0x80_0000 + fa) * pa < 0x80_0000 * (2 * pa)) by (nonlinear_arith)
                requires
                    fa < 0x80_0000,
                    pa > 0,
            ;
            lemma_pow2_unfold(ea);
            if ea < eb - 1 {
                lemma_pow2_strictly_increases(ea, (eb - 1) as nat);
            }
            assert(0x80_0000 * (2 * pa) <= 0x80_0000 * pb) by (nonlinear_arith)
                requires
                    2 * pa <= pb,
            ;
        }
    }
}

/// Ranks and magnitudes are ordered alike.
pub proof fn lemma_rank_matches_magnitude(a: u32, b: u32)
    ensures
        rank(a) < rank(b) <==> magnitude(a) < magnitude(b),
        rank(a) == rank(b) <==> magnitude(a) == magnitude(b),
{
    if rank(a) < rank(b) {
        lemma_rank_orders_magnitude(a, b);
    } else if rank(b) < rank(a) {
        lemma_rank_orders_magnitude(b, a);
    } else {
        assert(exponent(a) == exponent(b));
        assert(fraction(a) == fraction(b));
    }
}

/// Keys and values are ordered alike.
pub proof fn lemma_key_orders_value(a: u32, b: u32)
    ensures
        key(a) < key(b) <==> scaled(a) < scaled(b),
        key(a) == key(b) <==> scaled(a) == scaled(b),
{
    lemma_rank_matches_magnitude(a, b);
    lemma_rank_matches_magnitude(a, ZERO);
    lemma_rank_matches_magnitude(b, ZERO);
    assert(magnitude(ZERO) == 0) by (nonlinear_arith)
        requires
            magnitude(ZERO) == 0 * pow2(scale(ZERO)),
    ;
}

/// `ZERO` has the value zero and `ONE` the value one, which is 2^149
/// units; both are whole, and of the two only `ONE` is true.
pub proof fn lemma_zero_and_one()
    ensures
        scaled(ZERO) == 0,
        scaled(ONE) == pow2(149),
        integral(ZERO),
        integral(ONE),
        !truthy(ZERO),
        truthy(ONE),
{
    lemma2_to64();
    lemma_pow2_adds(23, 126);
    assert(exponent(ONE) == 127 && fraction(ONE) == 0);
    assert(magnitude(ZERO) == 0) by (nonlinear_arith)
        requires
            magnitude(ZERO) == 0 * pow2(scale(ZERO)),
    ;
    lemma_integral_encodings(ZERO);
    lemma_integral_encodings(ONE);
    lemma_truthy_encodings(ZERO);
    lemma_truthy_encodings(ONE);
}

/// The true numbers are those encoded from `EPSILON` up to `INFINITY`.
pub proof fn lemma_truthy_encodings(bits: u32)
    ensures
        truthy(bits) <==> EPSILON <= bits <= INFINITY,
{
    lemma_key_orders_value(bits, EPSILON);
}

/// Which encodings are whole numbers, by exponent: zero among the
/// subnormals, nothing below one, everything from 2^23 up, and in between
/// the significands whose bits below the binary point are zero.
pub proof fn lemma_integral_encodings(bits: u32)
    ensures
        integral(bits) <==> {
            let e = exponent(bits);
            if e == 255 {
                false
            } else if e == 0 {
                fraction(bits) == 0
            } else if e >= 150 {
                true
            } else if e < 127 {
                false
            } else {
                significand(bits) % pow2((150 - e) as nat) == 0
            }
        },
{
    let e = exponent(bits);
    let x = significand(bits) as int;
    let p = pow2(scale(bits)) as int;
    let unit = pow2(149) as int;
    lemma2_to64();
    lemma_pow2_pos(scale(bits));
    lemma_pow2_pos(149);
    if e == 255 {
    } else if e == 0 {
        lemma_pow2_strictly_increases(23, 149);
        assert(magnitude(bits) == fraction(bits)) by (nonlinear_arith)
            requires
                magnitude(bits) == fraction(bits) * 1,
        ;
        lemma_small_mod(fraction(bits), pow2(149));
    } else if e >= 150 {
        let q = pow2((e - 150) as nat) as int;
        lemma_pow2_adds((e - 150) as nat, 149);
        assert(p == q * unit);
        lemma_mul_is_associative(x, q, unit);
        lemma_mod_multiples_basic(x * q, unit);
    } else if e < 127 {
        lemma_pow2_adds(24, (e - 1) as nat);
        if e + 23 < 149 {
            lemma_pow2_strictly_increases((e + 23) as nat, 149);
        }
        assert(0 < x * p < 0x100_0000 * p) by (nonlinear_arith)
            requires
                0 < x < 0x100_0000,
                p > 0,
        ;
        lemma_small_mod(magnitude(bits), pow2(149));
    } else {
        let k = (150 - e) as nat;
        let c = pow2(k) as int;
        lemma_pow2_pos(k);
        lemma_pow2_adds((e - 1) as nat, k);
        assert(unit == p * c);
        lemma_truncate_middle(x, p, c);
        assert(x * p == p * x) by (nonlinear_arith);
        assert(magnitude(bits) % pow2(149) == p * (x % c));
        assert(p * (x % c) == 0 <==> x % c == 0) by (nonlinear_arith)
            requires
                p > 0,
        ;
    }
}

/// Whether `bits` encodes a NaN.
pub fn is_nan(bits: u32) -> (r: bool)
    ensures
        r == nan(bits),
{
    bits % SIGN > INFINITY
}

/// The signed rank of an encoding.
fn order_key(bits: u32) -> (k: i64)
    ensures
        k == key(bits),
{
    let r: i64 = (bits % SIGN) as i64;
    if bits >= SIGN {
        -r
    } else {
        r
    }
}

/// Numeric equality of two encodings.
pub fn equals(a: u32, b: u32) -> (r: bool)
    ensures
        r == num_eq(a, b),
{
    proof {
        lemma_key_orders_value(a, b);
    }
    !is_nan(a) && !is_nan(b) && order_key(a) == order_key(b)
}

/// Numeric `a > b` on two encodings.
pub fn greater(a: u32, b: u32) -> (r: bool)
    ensures
        r == num_gt(a, b),
{
    proof {
        lemma_key_orders_value(b, a);
    }
    !is_nan(a) && !is_nan(b) && order_key(a) > order_key(b)
}

/// Numeric `a >= b` on two encodings.
pub fn greater_or_equal(a: u32, b: u32) -> (r: bool)
    ensures
        r == num_ge(a, b),
{
    proof {
        lemma_key_orders_value(a, b);
    }
    !is_nan(a) && !is_nan(b) && order_key(a) >= order_key(b)
}

/// Truth of an encoded number.
pub fn is_truthy(bits: u32) -> (r: bool)
    ensures
        r == truthy(bits),
{
    proof {
        lemma_truthy_encodings(bits);
    }
    EPSILON <= bits && bits <= INFINITY
}

/// Whether `bits` encodes a whole number.
pub fn is_integral(bits: u32) -> (r: bool)
    ensures
        r == integral(bits),
{
    proof {
        lemma_integral_encodings(bits);
    }
    let e: u32 = (bits / HIDDEN) % 256;
    let f: u32 = bits % HIDDEN;
    if e == 255 {
        false
    } else if e == 0 {
        f == 0
    } else if e >= 150 {
        true
    } else if e < 127 {
        false
    } else {
        let k: u32 = 150 - e;
        proof {
            lemma_u32_pow2_no_overflow(k as nat);
            lemma_u32_shl_is_mul(1, k);
        }
        let unit: u32 = 1u32 << k;
        (HIDDEN + f) % unit == 0
    }
}

} // verus!
