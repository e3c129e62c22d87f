//! What holds of the floats: what each conversion is worth, and that no float
//! is nearer to an integer than the one made from it.

use crate::float::bit_length;
use crate::float::is_representable;
use crate::float::lemma_scaled_up_bounds;
use crate::float::lemma_top_bits_bounds;
use crate::float::magnitude;
use crate::float::round_half_even;
use crate::float::rounded_significand;
use crate::float::Float32;
use crate::float::HIDDEN_BIT;
use crate::float::SIGN_BIT;
use vstd::arithmetic::div_mod::lemma_basic_div;
use vstd::arithmetic::div_mod::lemma_fundamental_div_mod;
use vstd::arithmetic::div_mod::lemma_mod_bound;
use vstd::arithmetic::power2::lemma2_to64;
use vstd::arithmetic::power2::lemma2_to64_rest;
use vstd::arithmetic::power2::lemma_pow2_adds;
use vstd::arithmetic::power2::lemma_pow2_pos;
use vstd::arithmetic::power2::lemma_pow2_strictly_increases;
use vstd::arithmetic::power2::lemma_pow2_unfold;
use vstd::arithmetic::power2::pow2;
use vstd::prelude::*;

verus! {

/// The fields of an encoding put together from a sign, an exponent field and
/// a fraction are those three.
proof fn lemma_fields(negative: bool, field: int, fraction: int) -> (f: Float32)
    requires
        0 <= field <= 0xff,
        0 <= fraction < HIDDEN_BIT,
    ensures
        f.bits == (if negative {
            SIGN_BIT as int
        } else {
            0
        }) + field * HIDDEN_BIT + fraction,
        f.is_negative() == negative,
        f.exponent_field() == field,
        f.fraction_field() == fraction,
{
    let bits = (if negative {
        SIGN_BIT as int
    } else {
        0
    }) + field * HIDDEN_BIT + fraction;
    Float32 { bits: bits as u32 }
}

/// A positive integer lies between the power of two at its highest bit and
/// the next one.
pub proof fn lemma_bit_length_bounds(a: nat)
    requires
        a > 0,
    ensures
        bit_length(a) >= 1,
        pow2((bit_length(a) - 1) as nat) <= a < 2 * pow2((bit_length(a) - 1) as nat),
    decreases a,
{
    lemma2_to64();
    if a == 1 {
        assert(bit_length(0) == 0);
        assert(1nat / 2 == 0);
    } else {
        let half = a / 2;
        lemma_bit_length_bounds(half);
        let k = (bit_length(half) - 1) as nat;
        lemma_pow2_unfold(k + 1);
        assert(bit_length(a) == k + 2);
    }
}

/// Rounding a quotient to the nearest integer moves it by half a unit at most.
pub proof fn lemma_round_half_even_is_nearest(a: nat, d: nat)
    requires
        d > 0,
    ensures
        2 * (round_half_even(a, d) * d - a) <= d,
        2 * (a - round_half_even(a, d) * d) <= d,
{
    let q = a / d;
    let r = a % d;
    lemma_fundamental_div_mod(a as int, d as int);
    lemma_mod_bound(a as int, d as int);
    assert((q + 1) * d == d * q + d) by (nonlinear_arith);
    assert(q * d == d * q) by (nonlinear_arith);
}

/// What the float made from a nonzero 64-bit integer is worth: the integer
/// itself where its highest bit is no higher than bit 23, and otherwise the
/// integer divided by `2^(top - 23)`, rounded, and multiplied again, where
/// `top` is the position of its highest bit. Where the integer lies halfway
/// between two such multiples, the float has an even significand.
pub proof fn lemma_from_int_value(n: int)
    requires
        n != 0,
        i64::MIN <= n <= i64::MAX,
    ensures
        ({
            let f = Float32::from_int(n);
            let a = magnitude(n);
            let top = (bit_length(a) - 1) as nat;
            let unit = pow2((top - 23) as nat);
            &&& f.is_finite()
            &&& f.is_negative() == (n < 0)
            &&& top <= 23 ==> f.numerator() == a * f.denominator()
            &&& top > 23 ==> f.denominator() == 1 && f.numerator() == round_half_even(a, unit)
                * unit
            &&& top > 23 && 2 * (a % unit) == unit ==> f.significand() % 2 == 0
        }),
{
    let a = magnitude(n);
    let top = (bit_length(a) - 1) as nat;
    let m = rounded_significand(a);
    lemma_bit_length_bounds(a);
    lemma2_to64();
    lemma2_to64_rest();
    if top > 63 {
        lemma_pow2_strictly_increases(63, top);
    }
    if top <= 23 {
        lemma_scaled_up_bounds(a, top);
        let f = lemma_fields(n < 0, 127 + top as int, m - HIDDEN_BIT);
        assert(f == Float32::from_int(n));
        if top == 23 {
            assert(a * pow2(0) == a) by (nonlinear_arith)
                requires
                    pow2(0) == 1,
            ;
            assert(m * pow2(0) == m) by (nonlinear_arith)
                requires
                    pow2(0) == 1,
            ;
            assert(a * 1 == a) by (nonlinear_arith);
        }
    } else {
        let unit = pow2((top - 23) as nat);
        lemma_top_bits_bounds(a, top);
        if m < 0x100_0000 {
            let f = lemma_fields(n < 0, 127 + top as int, m - HIDDEN_BIT);
            assert(f == Float32::from_int(n));
        } else {
            let f = lemma_fields(n < 0, 128 + top as int, 0);
            assert(f == Float32::from_int(n));
            lemma_pow2_unfold((top - 22) as nat);
            assert(0x80_0000 * pow2((top - 22) as nat) == m * unit) by (nonlinear_arith)
                requires
                    pow2((top - 22) as nat) == 2 * unit,
                    m == 0x100_0000,
            ;
        }
    }
}

/// No float lies strictly between two neighbouring multiples of `unit` from
/// `2^23 * unit` upward, where `unit` is a power of two above one: a float
/// that large is itself a multiple of `unit`.
proof fn lemma_no_float_between(g: Float32, q: nat, s: nat)
    requires
        g.is_finite(),
        s >= 1,
        0x80_0000 <= q,
    ensures
        g.numerator() <= q * pow2(s) * g.denominator() || g.numerator() >= (q + 1) * pow2(s)
            * g.denominator(),
{
    let unit = pow2(s);
    let m = g.significand();
    let num = g.numerator();
    let den = g.denominator();
    lemma2_to64();
    lemma_pow2_unfold(s);
    lemma_pow2_pos((s - 1) as nat);
    lemma_denominator_is_positive(g);
    assert(unit >= 2);
    assert(m < 0x100_0000);
    if g.exponent() < 0 {
        assert(q * unit * den >= m) by (nonlinear_arith)
            requires
                q >= 0x80_0000,
                unit >= 2,
                den >= 1,
                m < 0x100_0000,
        ;
    } else {
        let e = g.exponent() as nat;
        assert(q * unit * 1 == q * unit) by (nonlinear_arith);
        assert((q + 1) * unit * 1 == (q + 1) * unit) by (nonlinear_arith);
        if e >= s {
            lemma_pow2_adds(s, (e - s) as nat);
            let j = m * pow2((e - s) as nat);
            assert(num == j * unit) by (nonlinear_arith)
                requires
                    num == m * pow2(e),
                    pow2(e) == unit * pow2((e - s) as nat),
                    j == m * pow2((e - s) as nat),
            ;
            if j <= q {
                assert(j * unit <= q * unit) by (nonlinear_arith)
                    requires
                        j <= q,
                        unit >= 0,
                ;
            } else {
                assert(j * unit >= (q + 1) * unit) by (nonlinear_arith)
                    requires
                        j >= q + 1,
                        unit >= 0,
                ;
            }
        } else {
            let half = pow2((s - 1) as nat);
            if e < s - 1 {
                lemma_pow2_strictly_increases(e, (s - 1) as nat);
            }
            assert(m * pow2(e) <= q * unit) by (nonlinear_arith)
                requires
                    m < 0x100_0000,
                    pow2(e) <= half,
                    unit == 2 * half,
                    q >= 0x80_0000,
            ;
        }
    }
}

/// No finite float is nearer to a 64-bit integer than the float made from
/// it. The two distances are compared as fractions, each numerator times the
/// other denominator.
pub proof fn lemma_from_int_is_nearest(n: int, g: Float32)
    requires
        i64::MIN <= n <= i64::MAX,
        g.is_finite(),
    ensures
        Float32::from_int(n).gap(n) * g.denominator() <= g.gap(n) * Float32::from_int(
            n,
        ).denominator(),
{
    let f = Float32::from_int(n);
    let a = magnitude(n);
    let den = g.denominator();
    let num = g.numerator();
    lemma_denominator_is_positive(g);
    if n == 0 {
        assert(f.numerator() == 0);
        assert(0 * f.denominator() == 0) by (nonlinear_arith);
        assert(0 * den == 0) by (nonlinear_arith);
        assert(g.gap(n) * f.denominator() >= 0) by (nonlinear_arith)
            requires
                g.gap(n) >= 0,
                f.denominator() >= 0,
        ;
    } else {
        let top = (bit_length(a) - 1) as nat;
        lemma_from_int_value(n);
        lemma_bit_length_bounds(a);
        if top <= 23 {
            assert(f.signed_numerator() == n * f.denominator()) by (nonlinear_arith)
                requires
                    f.numerator() == a * f.denominator(),
                    f.signed_numerator() == (if n < 0 {
                        -(f.numerator() as int)
                    } else {
                        f.numerator() as int
                    }),
                    a == (if n < 0 {
                        -n
                    } else {
                        n
                    }),
            ;
            assert(f.gap(n) == 0);
            assert(0 * den == 0) by (nonlinear_arith);
            assert(g.gap(n) * f.denominator() >= 0) by (nonlinear_arith)
                requires
                    g.gap(n) >= 0,
                    f.denominator() >= 0,
            ;
        } else {
            let s = (top - 23) as nat;
            let unit = pow2(s);
            let q = a / unit;
            let rem = a % unit;
            let r = round_half_even(a, unit);
            lemma_pow2_pos(s);
            lemma_top_bits_bounds(a, top);
            lemma_fundamental_div_mod(a as int, unit as int);
            lemma_mod_bound(a as int, unit as int);
            lemma_round_half_even_is_nearest(a, unit);
            assert(n * 1 == n) by (nonlinear_arith);
            let reach = magnitude(r * unit - a);
            assert(f.gap(n) == reach);
            assert(g.gap(n) * 1 == g.gap(n)) by (nonlinear_arith);
            assert(q * unit == unit * q) by (nonlinear_arith);
            assert((q + 1) * unit == unit * q + unit) by (nonlinear_arith);
            assert(reach <= rem && reach <= unit - rem);
            if g.is_negative() != (n < 0) {
                assert(g.gap(n) == num + a * den) by (nonlinear_arith)
                    requires
                        g.gap(n) == magnitude(g.signed_numerator() - n * den),
                        g.signed_numerator() == (if g.is_negative() {
                            -(num as int)
                        } else {
                            num as int
                        }),
                        g.is_negative() != (n < 0),
                        a == (if n < 0 {
                            -n
                        } else {
                            n
                        }),
                        n != 0,
                        den > 0,
                        num >= 0,
                        a > 0,
                ;
                assert(reach * den <= num + a * den) by (nonlinear_arith)
                    requires
                        reach <= rem,
                        rem <= a,
                        den > 0,
                        num >= 0,
                ;
            } else {
                assert(g.gap(n) == magnitude(num - a * den)) by (nonlinear_arith)
                    requires
                        g.gap(n) == magnitude(g.signed_numerator() - n * den),
                        g.signed_numerator() == (if g.is_negative() {
                            -(num as int)
                        } else {
                            num as int
                        }),
                        g.is_negative() == (n < 0),
                        a == (if n < 0 {
                            -n
                        } else {
                            n
                        }),
                ;
                lemma_no_float_between(g, q, s);
                if num <= q * unit * den {
                    assert(reach * den <= a * den - num) by (nonlinear_arith)
                        requires
                            num <= q * unit * den,
                            a == unit * q + rem,
                            q * unit == unit * q,
                            reach <= rem,
                            den > 0,
                    ;
                } else {
                    assert(reach * den <= num - a * den) by (nonlinear_arith)
                        requires
                            num >= (q + 1) * unit * den,
                            a == unit * q + rem,
                            (q + 1) * unit == unit * q + unit,
                            reach <= unit - rem,
                            den > 0,
                    ;
                }
            }
        }
    }
}

/// The denominator of a float's magnitude is a power of two, so never zero.
pub proof fn lemma_denominator_is_positive(f: Float32)
    ensures
        f.denominator() > 0,
{
    if f.exponent() < 0 {
        lemma_pow2_pos((-f.exponent()) as nat);
    }
}

/// Every integer from `-2^24` to `2^24` is the value of some float.
pub proof fn lemma_small_integers_are_representable(n: int)
    requires
        -0x100_0000 <= n <= 0x100_0000,
    ensures
        is_representable(n),
{
    let a = magnitude(n);
    if a == 0x100_0000 {
        let top = (bit_length(a) - 1) as nat;
        lemma_bit_length_bounds(a);
        lemma2_to64();
        if top < 24 {
            lemma_pow2_strictly_increases(top, 24);
        }
        if top > 24 {
            lemma_pow2_strictly_increases(24, top);
        }
        assert(top == 24);
        assert(pow2((bit_length(a) - 24) as nat) == 2);
        assert(0x100_0000nat % 2 == 0);
    }
}

/// A 64-bit integer that is the value of some float becomes that float, and
/// truncating the float gives the integer back.
pub proof fn lemma_representable_integer_is_kept(n: int)
    requires
        i64::MIN <= n <= i64::MAX,
        is_representable(n),
    ensures
        ({
            let f = Float32::from_int(n);
            &&& f.is_finite()
            &&& n != 0 ==> f.is_negative() == (n < 0)
            &&& f.numerator() == magnitude(n) * f.denominator()
            &&& f.truncated() == n
        }),
{
    let f = Float32::from_int(n);
    let a = magnitude(n);
    if n == 0 {
        lemma_pow2_pos(149);
        assert(0 * f.denominator() == 0) by (nonlinear_arith);
        lemma_basic_div(0, f.denominator() as int);
    } else {
        let top = (bit_length(a) - 1) as nat;
        lemma_from_int_value(n);
        lemma_bit_length_bounds(a);
        lemma2_to64();
        if top > 23 {
            let unit = pow2((top - 23) as nat);
            if top > 24 {
                lemma_pow2_strictly_increases(24, top);
            }
            lemma_pow2_pos((top - 23) as nat);
            lemma_fundamental_div_mod(a as int, unit as int);
            assert((a / unit) * unit == unit * (a / unit)) by (nonlinear_arith);
            assert(a / 1 == a) by (nonlinear_arith);
        } else {
            lemma_denominator_is_positive(f);
            let den = f.denominator();
            assert((a * den) / den == a) by (nonlinear_arith)
                requires
                    den > 0,
            ;
        }
    }
}

/// Truncation rounds toward zero: the result has the sign of the float, or is
/// zero, and between the two bounds of the integer range its magnitude is the
/// largest integer that is not above the magnitude of the float. A float
/// beyond a bound gives that bound.
pub proof fn lemma_truncated_toward_zero(f: Float32)
    requires
        f.is_finite(),
    ensures
        ({
            let t = f.truncated();
            let num = f.numerator();
            let den = f.denominator();
            &&& den > 0
            &&& i64::MIN <= t <= i64::MAX
            &&& f.is_negative() ==> t <= 0
            &&& !f.is_negative() ==> t >= 0
            &&& i64::MIN < t < i64::MAX ==> magnitude(t) * den <= num < (magnitude(t) + 1) * den
            &&& t == i64::MAX ==> num >= i64::MAX * den
            &&& t == i64::MIN ==> num >= 0x8000_0000_0000_0000 * den
        }),
{
    let num = f.numerator();
    let den = f.denominator();
    lemma_denominator_is_positive(f);
    let whole = num / den;
    lemma_fundamental_div_mod(num as int, den as int);
    lemma_mod_bound(num as int, den as int);
    assert(whole * den == den * whole) by (nonlinear_arith);
    assert((whole + 1) * den == den * whole + den) by (nonlinear_arith);
    if whole >= i64::MAX {
        assert(whole * den >= i64::MAX * den) by (nonlinear_arith)
            requires
                whole >= i64::MAX,
                den > 0,
        ;
    }
    if whole >= 0x8000_0000_0000_0000 {
        assert(whole * den >= 0x8000_0000_0000_0000 * den) by (nonlinear_arith)
            requires
                whole >= 0x8000_0000_0000_0000,
                den > 0,
        ;
    }
}

/// Flipping the sign twice gives the float back, and flipping it once changes
/// the sign bit and nothing else.
pub proof fn lemma_negated_twice(f: Float32)
    ensures
        f.negated().negated() == f,
        f.negated().is_negative() != f.is_negative(),
        f.negated().exponent_field() == f.exponent_field(),
        f.negated().fraction_field() == f.fraction_field(),
{
}

} // verus!
