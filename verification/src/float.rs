//! Single-precision floating-point numbers, held by their IEEE-754 encoding.

use vstd::arithmetic::div_mod::lemma_basic_div;
use vstd::arithmetic::div_mod::lemma_fundamental_div_mod;
use vstd::arithmetic::div_mod::lemma_mod_bound;
use vstd::arithmetic::power2::lemma2_to64;
use vstd::arithmetic::power2::lemma2_to64_rest;
use vstd::arithmetic::power2::lemma_pow2_adds;
use vstd::arithmetic::power2::lemma_pow2_pos;
use vstd::arithmetic::power2::lemma_pow2_strictly_increases;
use vstd::arithmetic::power2::lemma_pow2_unfold;
use vstd::arithmetic::power2::pow2;
use vstd::prelude::*;
use vstd::std_specs::cmp::PartialEqSpecImpl;

verus! {

/// Weight of the sign bit in an encoding.
pub const SIGN_BIT: u32 = 0x8000_0000;

/// Weight of the lowest exponent bit; also the hidden bit of a normal significand.
pub const HIDDEN_BIT: u32 = 0x80_0000;

/// An IEEE-754 binary32 number: one sign bit, eight exponent bits and
/// twenty-three fraction bits, from the highest bit of `bits` down.
///
/// Every `u32` encodes a number, an infinity or a NaN, so the type has no
/// invariant.
#[derive(Clone, Copy, Debug)]
pub struct Float32 {
    pub bits: u32,
}

/// `2^k` as a machine integer, for the exponents that fit one.
fn power_of_two(k: u32) -> (r: u64)
    requires
        k < 64,
    ensures
        r == pow2(k as nat),
{
    let mut r: u64 = 1;
    let mut i: u32 = 0;
    proof {
        lemma2_to64();
    }
    while i < k
        invariant
            i <= k < 64,
            r == pow2(i as nat),
        decreases k - i,
    {
        proof {
            lemma_pow2_unfold((i + 1) as nat);
            if i + 1 < 63 {
                lemma_pow2_strictly_increases((i + 1) as nat, 63);
            }
            lemma2_to64_rest();
        }
        r = r * 2;
        i = i + 1;
    }
    r
}

/// The number of binary digits of `a`: zero for zero, and otherwise one more
/// than the position of its highest set bit.
pub open spec fn bit_length(a: nat) -> nat
    decreases a,
{
    if a == 0 {
        0
    } else {
        1 + bit_length(a / 2)
    }
}

/// The quotient `a / d` rounded to the nearest integer, a tie going to the
/// even neighbour.
pub open spec fn round_half_even(a: nat, d: nat) -> nat {
    let q = a / d;
    let r = a % d;
    if 2 * r > d || (2 * r == d && q % 2 == 1) {
        q + 1
    } else {
        q
    }
}

/// The 24-bit significand, hidden bit included, that the float nearest to the
/// positive integer `a` has before a carry out of rounding is settled: `a`
/// itself, shifted up to 24 bits, where it has no more than that; otherwise
/// its top 24 bits, rounded on the bits below. The result lies in
/// `2^23..=2^24`.
pub open spec fn rounded_significand(a: nat) -> nat {
    let top = (bit_length(a) - 1) as nat;
    if top <= 23 {
        a * pow2((23 - top) as nat)
    } else {
        round_half_even(a, pow2((top - 23) as nat))
    }
}

/// Encoding, sign bit clear, of the float nearest to the positive integer
/// `a`. Adding the significand above the hidden bit to the exponent field lets
/// a significand of `2^24` carry into the exponent.
pub open spec fn nearest_encoding(a: nat) -> int {
    (126 + bit_length(a)) * HIDDEN_BIT + (rounded_significand(a) - HIDDEN_BIT)
}

/// The magnitude of an integer.
pub open spec fn magnitude(n: int) -> nat {
    if n < 0 {
        (-n) as nat
    } else {
        n as nat
    }
}

/// The integer is the value of some float: it is under `2^24`, or no bit of
/// it is set more than 23 places below its highest.
pub open spec fn is_representable(n: int) -> bool {
    let a = magnitude(n);
    a < 0x100_0000 || a % pow2((bit_length(a) - 24) as nat) == 0
}

impl Float32 {
    /// The sign bit is set. Holds of `-0.0` and of NaNs with the bit set too.
    pub open spec fn is_negative(self) -> bool {
        self.bits >= SIGN_BIT
    }

    /// The eight exponent bits, as a number in `0..=255`.
    pub open spec fn exponent_field(self) -> int {
        (self.bits as int / HIDDEN_BIT as int) % 0x100
    }

    /// The twenty-three fraction bits.
    pub open spec fn fraction_field(self) -> int {
        self.bits as int % HIDDEN_BIT as int
    }

    /// The encoding is a NaN: all exponent bits set, and some fraction bit.
    pub open spec fn spec_is_nan(self) -> bool {
        self.exponent_field() == 0xff && self.fraction_field() != 0
    }

    /// The encoding is an infinity: all exponent bits set, and no fraction bit.
    pub open spec fn is_infinite(self) -> bool {
        self.exponent_field() == 0xff && self.fraction_field() == 0
    }

    /// The encoding is a number: neither an infinity nor a NaN.
    pub open spec fn is_finite(self) -> bool {
        self.exponent_field() != 0xff
    }

    /// The number is `0.0` or `-0.0`.
    pub open spec fn spec_is_zero(self) -> bool {
        self.exponent_field() == 0 && self.fraction_field() == 0
    }

    /// The integer `m` in `|x| = m * 2^e` for a finite `x`: the fraction bits,
    /// with the hidden bit above them unless the number is subnormal.
    pub open spec fn significand(self) -> nat {
        if self.exponent_field() == 0 {
            self.fraction_field() as nat
        } else {
            (self.fraction_field() + HIDDEN_BIT) as nat
        }
    }

    /// The power `e` in `|x| = m * 2^e` for a finite `x`.
    pub open spec fn exponent(self) -> int {
        if self.exponent_field() == 0 {
            -149
        } else {
            self.exponent_field() - 150
        }
    }

    /// Numerator of the magnitude of a finite `x` as a fraction of naturals:
    /// `|x| = numerator / denominator`.
    pub open spec fn numerator(self) -> nat {
        if self.exponent() >= 0 {
            self.significand() * pow2(self.exponent() as nat)
        } else {
            self.significand()
        }
    }

    /// Denominator of the magnitude of a finite `x`; a power of two, never zero.
    pub open spec fn denominator(self) -> nat {
        if self.exponent() >= 0 {
            1
        } else {
            pow2((-self.exponent()) as nat)
        }
    }

    /// The numerator with the sign of the number.
    pub open spec fn signed_numerator(self) -> int {
        if self.is_negative() {
            -(self.numerator() as int)
        } else {
            self.numerator() as int
        }
    }

    /// How far a finite `x` is from the integer `n`, in units of one over the
    /// denominator of `x`: `|x - n| = gap / denominator`.
    pub open spec fn gap(self, n: int) -> nat {
        magnitude(self.signed_numerator() - n * self.denominator())
    }

    /// The integer part of the number, as a cast to a 64-bit integer gives it:
    /// the magnitude rounded down and the sign put back, which rounds toward
    /// zero; a value beyond the integer range becomes the nearest bound, an
    /// infinity too; a NaN becomes zero.
    pub open spec fn truncated(self) -> int {
        if self.spec_is_nan() {
            0
        } else if self.is_infinite() {
            if self.is_negative() {
                i64::MIN as int
            } else {
                i64::MAX as int
            }
        } else {
            let whole = (self.numerator() / self.denominator()) as int;
            if self.is_negative() {
                if -whole < i64::MIN {
                    i64::MIN as int
                } else {
                    -whole
                }
            } else {
                if whole > i64::MAX {
                    i64::MAX as int
                } else {
                    whole
                }
            }
        }
    }

    /// The float that a cast from a 64-bit integer gives: the integer itself
    /// where it has at most 24 significant bits, and otherwise the nearest
    /// float, a tie going to the one with the even significand.
    pub open spec fn from_int(n: int) -> Float32 {
        if n == 0 {
            Float32 { bits: 0 }
        } else if n > 0 {
            Float32 { bits: nearest_encoding(n as nat) as u32 }
        } else {
            Float32 { bits: (SIGN_BIT + nearest_encoding((-n) as nat)) as u32 }
        }
    }

    /// The number with its sign bit flipped.
    pub open spec fn negated(self) -> Float32 {
        if self.bits >= SIGN_BIT {
            Float32 { bits: (self.bits - SIGN_BIT) as u32 }
        } else {
            Float32 { bits: (self.bits + SIGN_BIT) as u32 }
        }
    }

    /// Equality of the numbers encoded: a NaN equals nothing, itself included,
    /// and the two zeros equal each other.
    pub open spec fn same_number(self, other: Float32) -> bool {
        &&& !self.is_nan()
        &&& !other.is_nan()
        &&& (self.bits == other.bits || (self.is_zero() && other.is_zero()))
    }

    /// The exponent field.
    pub fn exponent_bits(self) -> (e: u32)
        ensures
            e == self.exponent_field(),
    {
        (self.bits / HIDDEN_BIT) % 0x100
    }

    /// The fraction field.
    pub fn fraction_bits(self) -> (f: u32)
        ensures
            f == self.fraction_field(),
    {
        self.bits % HIDDEN_BIT
    }

    /// Whether the sign bit is set.
    pub fn sign_bit(self) -> (s: bool)
        ensures
            s == self.is_negative(),
    {
        self.bits >= SIGN_BIT
    }

    /// Whether the encoding is a NaN.
    #[verifier::when_used_as_spec(spec_is_nan)]
    pub fn is_nan(self) -> (r: bool)
        ensures
            r == self.spec_is_nan(),
    {
        self.exponent_bits() == 0xff && self.fraction_bits() != 0
    }

    /// Whether the number is a zero of either sign.
    #[verifier::when_used_as_spec(spec_is_zero)]
    pub fn is_zero(self) -> (r: bool)
        ensures
            r == self.spec_is_zero(),
    {
        self.exponent_bits() == 0 && self.fraction_bits() == 0
    }

    /// Converts to a 64-bit integer by dropping the fractional part.
    pub fn to_i64(self) -> (r: i64)
        ensures
            r == self.truncated(),
    {
        let field = self.exponent_bits();
        let fraction = self.fraction_bits();
        let negative = self.sign_bit();
        if field == 0xff {
            if fraction != 0 {
                0
            } else if negative {
                i64::MIN
            } else {
                i64::MAX
            }
        } else if field < 127 {
            proof {
                self.lemma_below_one();
            }
            0
        } else if field >= 190 {
            proof {
                self.lemma_beyond_range();
            }
            if negative {
                i64::MIN
            } else {
                i64::MAX
            }
        } else {
            let m: u64 = (fraction + HIDDEN_BIT) as u64;
            assert(m == self.significand());
            let whole: u64 = if field >= 150 {
                let scale = power_of_two(field - 150);
                proof {
                    lemma2_to64_rest();
                    if field - 150 < 39 {
                        lemma_pow2_strictly_increases((field - 150) as nat, 39);
                    }
                    assert(m * scale < 0x8000_0000_0000_0000) by (nonlinear_arith)
                        requires
                            m < 0x100_0000,
                            scale <= 0x80_0000_0000,
                    ;
                    assert(self.numerator() == m * scale);
                    assert(self.denominator() == 1);
                    let product: int = m * scale;
                    assert(product / 1 == product) by (nonlinear_arith);
                }
                m * scale
            } else {
                let scale = power_of_two(150 - field);
                proof {
                    lemma_pow2_pos((150 - field) as nat);
                    assert(m / scale <= m) by (nonlinear_arith)
                        requires
                            scale > 0,
                    ;
                    assert(self.numerator() == m);
                    assert(self.denominator() == scale);
                }
                m / scale
            };
            assert(whole == self.numerator() / self.denominator());
            if negative {
                -(whole as i64)
            } else {
                whole as i64
            }
        }
    }

    /// Converts a 64-bit integer to the nearest float.
    pub fn from_i64(n: i64) -> (r: Float32)
        ensures
            r == Float32::from_int(n as int),
    {
        if n == 0 {
            return Float32 { bits: 0 };
        }
        let a: u64 = if n > 0 {
            n as u64
        } else if n == i64::MIN {
            0x8000_0000_0000_0000
        } else {
            (-n) as u64
        };
        let top = highest_bit(a);
        let m: u64 = if top <= 23 {
            let scale = power_of_two(23 - top);
            proof {
                lemma_scaled_up_bounds(a as nat, top as nat);
            }
            a * scale
        } else {
            let d = power_of_two(top - 23);
            proof {
                lemma_top_bits_bounds(a as nat, top as nat);
                lemma_pow2_strictly_increases((top - 23) as nat, 41);
                lemma2_to64_rest();
            }
            let q = a / d;
            let r = a % d;
            if 2 * r > d || (2 * r == d && q % 2 == 1) {
                q + 1
            } else {
                q
            }
        };
        assert(m == rounded_significand(a as nat));
        let magnitude: u32 = (127 + top) * HIDDEN_BIT + (m as u32 - HIDDEN_BIT);
        assert(magnitude == nearest_encoding(a as nat));
        if n < 0 {
            Float32 { bits: SIGN_BIT + magnitude }
        } else {
            Float32 { bits: magnitude }
        }
    }

    /// A finite number with an exponent field under 127 is smaller than one.
    proof fn lemma_below_one(self)
        requires
            self.exponent_field() < 127,
        ensures
            self.numerator() / self.denominator() == 0,
    {
        let k = (-self.exponent()) as nat;
        lemma2_to64();
        if k > 24 {
            lemma_pow2_strictly_increases(24, k);
        }
        lemma_basic_div(self.significand() as int, pow2(k) as int);
    }

    /// A finite number with an exponent field of 190 or more is at least `2^63`.
    proof fn lemma_beyond_range(self)
        requires
            190 <= self.exponent_field() < 0xff,
        ensures
            self.numerator() / self.denominator() >= 0x8000_0000_0000_0000,
    {
        let k = self.exponent() as nat;
        let m = self.significand();
        lemma2_to64_rest();
        if k > 40 {
            lemma_pow2_strictly_increases(40, k);
        }
        assert(m * pow2(k) >= 0x8000_0000_0000_0000) by (nonlinear_arith)
            requires
                m >= 0x80_0000,
                pow2(k) >= 0x100_0000_0000,
        ;
        assert((m * pow2(k)) / 1 == m * pow2(k));
    }

    /// Flips the sign bit, as unary minus does on a float; total, NaNs included.
    pub fn negate(self) -> (r: Float32)
        ensures
            r == self.negated(),
    {
        if self.bits >= SIGN_BIT {
            Float32 { bits: self.bits - SIGN_BIT }
        } else {
            Float32 { bits: self.bits + SIGN_BIT }
        }
    }
}

/// Position of the highest set bit of a positive integer.
fn highest_bit(a: u64) -> (top: u32)
    requires
        a > 0,
    ensures
        top < 64,
        top + 1 == bit_length(a as nat),
        pow2(top as nat) <= a < 2 * pow2(top as nat),
{
    let mut top: u32 = 0;
    let mut rest: u64 = a;
    proof {
        lemma2_to64();
        assert(pow2(0) * rest == rest) by (nonlinear_arith)
            requires
                pow2(0) == 1,
        ;
    }
    while rest >= 2
        invariant
            rest >= 1,
            top < 64,
            bit_length(a as nat) == top + bit_length(rest as nat),
            pow2(top as nat) * rest <= a < pow2(top as nat) * (rest + 1),
        decreases rest,
    {
        proof {
            let p = pow2(top as nat);
            let half = rest / 2;
            lemma_pow2_unfold((top + 1) as nat);
            assert(pow2((top + 1) as nat) * half <= a < pow2((top + 1) as nat) * (half + 1))
                by (nonlinear_arith)
                requires
                    p * rest <= a < p * (rest + 1),
                    2 * half <= rest <= 2 * half + 1,
                    pow2((top + 1) as nat) == 2 * p,
            ;
            if top + 1 >= 64 {
                lemma2_to64();
                if top + 1 > 64 {
                    lemma_pow2_strictly_increases(64, (top + 1) as nat);
                }
                assert(pow2((top + 1) as nat) * half >= pow2((top + 1) as nat))
                    by (nonlinear_arith)
                    requires
                        half >= 1,
                ;
            }
        }
        rest = rest / 2;
        top = top + 1;
    }
    proof {
        assert(bit_length(1) == 1) by {
            assert(bit_length(0) == 0);
            assert(1nat / 2 == 0);
        }
        assert(pow2(top as nat) * 1 == pow2(top as nat)) by (nonlinear_arith);
        assert(pow2(top as nat) * 2 == 2 * pow2(top as nat)) by (nonlinear_arith);
    }
    top
}

/// A positive integer whose highest bit is at `top <= 23`, shifted up to put
/// that bit at position 23, lies in `2^23..2^24`.
pub(crate) proof fn lemma_scaled_up_bounds(a: nat, top: nat)
    requires
        top <= 23,
        pow2(top) <= a < 2 * pow2(top),
    ensures
        0x80_0000 <= a * pow2((23 - top) as nat) < 0x100_0000,
{
    let s = (23 - top) as nat;
    lemma_pow2_adds(top, s);
    lemma2_to64();
    lemma_pow2_pos(s);
    assert(0x80_0000 <= a * pow2(s) < 0x100_0000) by (nonlinear_arith)
        requires
            pow2(top) * pow2(s) == 0x80_0000,
            pow2(top) <= a < 2 * pow2(top),
            pow2(s) > 0,
    ;
}

/// The bits of a positive integer from 23 below its highest bit upward, as a
/// number, lie in `2^23..2^24`.
pub(crate) proof fn lemma_top_bits_bounds(a: nat, top: nat)
    requires
        top > 23,
        pow2(top) <= a < 2 * pow2(top),
    ensures
        0x80_0000 <= a / pow2((top - 23) as nat) < 0x100_0000,
        pow2((top - 23) as nat) > 0,
{
    let d = pow2((top - 23) as nat);
    lemma_pow2_adds((top - 23) as nat, 23);
    lemma2_to64();
    lemma_pow2_pos((top - 23) as nat);
    lemma_fundamental_div_mod(a as int, d as int);
    lemma_mod_bound(a as int, d as int);
    let q = a / d;
    let r = a % d;
    assert(0x80_0000 <= q < 0x100_0000) by (nonlinear_arith)
        requires
            d * 0x80_0000 <= a < 2 * (d * 0x80_0000),
            a == d * q + r,
            0 <= r < d,
            d > 0,
    ;
}

impl PartialEq for Float32 {
    fn eq(&self, other: &Float32) -> (r: bool)
        ensures
            r == self.same_number(*other),
    {
        !self.is_nan() && !other.is_nan() && (self.bits == other.bits || (self.is_zero()
            && other.is_zero()))
    }
}

impl PartialEqSpecImpl for Float32 {
    open spec fn obeys_eq_spec() -> bool {
        true
    }

    open spec fn eq_spec(&self, other: &Float32) -> bool {
        self.same_number(*other)
    }
}

} // verus!
