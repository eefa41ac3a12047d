//! IEEE-754 single-precision numbers held as bit patterns.
//!
//! Every operation here works on the 32 bits of a number: 1 sign bit, 8 bits of biased
//! exponent and 23 bits of fraction. The number that a pattern stands for is
//! `(-1)^sign * significand * 2^scale`, unless the pattern is an infinity or a NaN.

use vstd::prelude::*;

verus! {

/// The bit that holds the sign.
pub const SIGN_BIT: u32 = 0x8000_0000;

/// The bits that hold the biased exponent.
pub const EXPONENT_BITS: u32 = 0x7F80_0000;

/// The bits that hold the fraction.
pub const FRACTION_BITS: u32 = 0x007F_FFFF;

/// The pattern of the least 32-bit integer, -2^31.
pub const LEAST_I32_BITS: u32 = 0xCF00_0000;

/// An IEEE-754 single-precision number, held as its bit pattern.
///
/// Two values are equal when their bits are equal: the two zeros differ, and a NaN is equal to
/// itself.
#[derive(Copy, Clone, PartialEq, Eq, Structural, Debug)]
pub struct FloatBits(pub u32);

/// How the part of a number below its whole part stands to one half.
#[derive(Copy, Clone, PartialEq, Eq, Structural, Debug)]
pub enum Rest {
    /// There is no such part: the number is whole.
    Zero,
    /// It is less than one half.
    BelowHalf,
    /// It is one half.
    Half,
    /// It is more than one half.
    AboveHalf,
}

/// The 32-bit integer nearest to `x`.
pub open spec fn saturate_i32(x: int) -> i32 {
    if x < i32::MIN {
        i32::MIN
    } else if x > i32::MAX {
        i32::MAX
    } else {
        x as i32
    }
}

impl FloatBits {
    /// Whether the sign bit is set.
    pub open spec fn sign_bit(self) -> bool {
        self.0 >= SIGN_BIT
    }

    /// The biased exponent, from 0 to 255.
    pub open spec fn biased_exponent(self) -> int {
        (self.0 as int / 0x80_0000) % 0x100
    }

    /// The 23 fraction bits as a number.
    pub open spec fn fraction(self) -> int {
        self.0 as int % 0x80_0000
    }

    /// Whether the pattern is a NaN.
    pub open spec fn is_nan(self) -> bool {
        self.biased_exponent() == 0xFF && self.fraction() != 0
    }

    /// Whether the pattern is one of the two infinities.
    pub open spec fn is_infinite(self) -> bool {
        self.biased_exponent() == 0xFF && self.fraction() == 0
    }

    /// Whether the pattern is a number: neither an infinity nor a NaN.
    pub open spec fn is_finite(self) -> bool {
        self.biased_exponent() != 0xFF
    }

    /// Whether the pattern is one of the two zeros.
    pub open spec fn is_zero(self) -> bool {
        self.biased_exponent() == 0 && self.fraction() == 0
    }

    /// Whether the number is zero or more: a NaN is not, and both zeros are.
    pub open spec fn is_at_least_zero(self) -> bool {
        !self.is_nan() && (!self.sign_bit() || self.is_zero())
    }

    /// The significand of a finite number: the fraction, with the implicit bit above it
    /// unless the number is subnormal.
    pub open spec fn significand(self) -> int {
        if self.biased_exponent() == 0 {
            self.fraction()
        } else {
            self.fraction() + 0x80_0000
        }
    }

    /// The power of two that the significand of a finite number is scaled by.
    pub open spec fn scale(self) -> int {
        if self.biased_exponent() == 0 {
            -149
        } else {
            self.biased_exponent() - 150
        }
    }

    /// The whole part of the magnitude of a finite number.
    pub open spec fn magnitude_floor(self) -> int {
        if self.scale() >= 0 {
            self.significand() * vstd::arithmetic::power2::pow2(self.scale() as nat)
        } else {
            self.significand() / (vstd::arithmetic::power2::pow2((-self.scale()) as nat) as int)
        }
    }

    /// How what is left of the magnitude of a finite number below its whole part stands to
    /// one half.
    pub open spec fn rest(self) -> Rest {
        if self.scale() >= 0 {
            Rest::Zero
        } else {
            let unit = vstd::arithmetic::power2::pow2((-self.scale()) as nat) as int;
            let left = self.significand() % unit;
            if left == 0 {
                Rest::Zero
            } else if 2 * left < unit {
                Rest::BelowHalf
            } else if 2 * left == unit {
                Rest::Half
            } else {
                Rest::AboveHalf
            }
        }
    }

    /// A finite number rounded towards zero.
    pub open spec fn truncated(self) -> int {
        if self.sign_bit() {
            -self.magnitude_floor()
        } else {
            self.magnitude_floor()
        }
    }

    /// The greatest integer that is not above a finite number.
    pub open spec fn floor(self) -> int {
        if self.sign_bit() && self.rest() != Rest::Zero {
            -self.magnitude_floor() - 1
        } else {
            self.truncated()
        }
    }

    /// The magnitude of a finite number rounded to the nearest integer, and to the even one
    /// of the two where it lies in the middle between them.
    pub open spec fn magnitude_rounded(self) -> int {
        match self.rest() {
            Rest::Zero | Rest::BelowHalf => self.magnitude_floor(),
            Rest::Half => if self.magnitude_floor() % 2 == 0 {
                self.magnitude_floor()
            } else {
                self.magnitude_floor() + 1
            },
            Rest::AboveHalf => self.magnitude_floor() + 1,
        }
    }

    /// A finite number rounded to the nearest integer, and to the even one of the two where
    /// it lies in the middle between them.
    pub open spec fn rounded(self) -> int {
        if self.sign_bit() {
            -self.magnitude_rounded()
        } else {
            self.magnitude_rounded()
        }
    }

    /// Whether the number is not below the least 32-bit integer. A NaN is not.
    pub open spec fn is_at_least_i32_min(self) -> bool {
        !self.is_nan() && (!self.sign_bit() || (self.is_finite() && self.floor() >= i32::MIN))
    }

    /// What rounding towards zero gives: 0 for a NaN, the least or the greatest 32-bit
    /// integer for an infinity, else the nearest 32-bit integer to the truncated number.
    pub open spec fn spec_round_towards_zero_to_int(self) -> i32 {
        if self.is_nan() {
            0
        } else if self.is_infinite() {
            if self.sign_bit() {
                i32::MIN
            } else {
                i32::MAX
            }
        } else {
            saturate_i32(self.truncated())
        }
    }

    /// What flooring gives: for a NaN -1 if its sign bit is set and else 0, for an infinity
    /// the least or the greatest 32-bit integer, else the nearest 32-bit integer to the floor.
    pub open spec fn spec_floor_to_int(self) -> i32 {
        if self.is_nan() {
            if self.sign_bit() {
                (-1) as i32
            } else {
                0
            }
        } else if self.is_infinite() {
            if self.sign_bit() {
                i32::MIN
            } else {
                i32::MAX
            }
        } else {
            saturate_i32(self.floor())
        }
    }

    /// What rounding gives on a number that is no NaN: for an infinity the least or the
    /// greatest 32-bit integer, else the nearest 32-bit integer to the rounded number.
    pub open spec fn spec_round_ties_even_to_int(self) -> i32 {
        if self.is_infinite() {
            if self.sign_bit() {
                i32::MIN
            } else {
                i32::MAX
            }
        } else {
            saturate_i32(self.rounded())
        }
    }

    /// Tests whether the number is zero or more.
    pub fn at_least_zero(self) -> (r: bool)
        ensures
            r == self.is_at_least_zero(),
    {
        let bits: u32 = self.0;
        proof {
            lemma_fields(bits);
        }
        bits <= EXPONENT_BITS || bits == SIGN_BIT
    }

    /// Return true if the given value is non-NaN and non-infinite.
    pub fn fw_is_finite(self) -> (r: bool)
        ensures
            r == self.is_finite(),
    {
        let bits: u32 = self.0;
        proof {
            lemma_fields(bits);
        }
        bits & EXPONENT_BITS != EXPONENT_BITS
    }

    /// Calculate the absolute value: the same pattern with the sign bit cleared.
    pub fn fw_fabs(self) -> (r: Self)
        ensures
            r.0 == self.0 % 0x8000_0000,
            !r.sign_bit(),
            r.biased_exponent() == self.biased_exponent(),
            r.fraction() == self.fraction(),
    {
        let bits: u32 = self.0;
        proof {
            lemma_fields(bits);
            lemma_fields(bits & 0x7FFF_FFFF);
            assert(bits & 0x7FFF_FFFFu32 == bits % 0x8000_0000u32) by (bit_vector);
            assert((bits & 0x7FFF_FFFFu32) < 0x8000_0000u32 && (bits & 0x7FFF_FFFFu32) & 0x7F_FFFFu32
                == bits & 0x7F_FFFFu32 && ((bits & 0x7FFF_FFFFu32) >> 23u32) & 0xFFu32 == (bits
                >> 23u32) & 0xFFu32) by (bit_vector);
        }
        FloatBits(bits & 0x7FFF_FFFF)
    }

    /// The three roundings of a finite number lie in order: its floor is at most one below
    /// the number rounded towards zero or to the nearest, and a whole number is left as it is
    /// by all three.
    pub proof fn lemma_roundings_in_order(self)
        requires
            self.is_finite(),
        ensures
            self.floor() <= self.truncated() <= self.floor() + 1,
            self.floor() <= self.rounded() <= self.floor() + 1,
            self.rest() == Rest::Zero ==> self.floor() == self.truncated() && self.floor()
                == self.rounded(),
            !self.sign_bit() ==> self.floor() == self.truncated() && 0 <= self.floor(),
            self.sign_bit() ==> self.truncated() <= 0,
    {
        self.lemma_magnitude_bounds();
    }

    /// The significand of a finite number with its sign: the number is this many units of
    /// `2^scale`.
    pub open spec fn signed_significand(self) -> int {
        if self.sign_bit() {
            -self.significand()
        } else {
            self.significand()
        }
    }

    /// What the roundings of a finite number mean, counted in the units of `2^scale` of which
    /// one integer step is `unit`: the floor is the integer with the number in the step above
    /// it, the number rounded towards zero has the magnitude in the step above its own, and
    /// the number rounded to the nearest is no more than half a step away, and even where it
    /// is just half a step away.
    pub proof fn lemma_roundings_bracket(self)
        requires
            self.is_finite(),
            self.scale() < 0,
        ensures
            ({
                let unit = vstd::arithmetic::power2::pow2((-self.scale()) as nat) as int;
                let number = self.signed_significand();
                &&& unit > 0
                &&& self.floor() * unit <= number < (self.floor() + 1) * unit
                &&& self.magnitude_floor() * unit <= self.significand() < (self.magnitude_floor()
                    + 1) * unit
                &&& -unit <= 2 * (self.rounded() * unit - number) <= unit
                &&& (2 * (self.rounded() * unit - number) == unit || 2 * (self.rounded() * unit
                    - number) == -unit) ==> self.rounded() % 2 == 0
            }),
    {
        let unit = vstd::arithmetic::power2::pow2((-self.scale()) as nat) as int;
        let significand = self.significand();
        let whole = self.magnitude_floor();
        let left = significand % unit;
        vstd::arithmetic::power2::lemma_pow2_pos((-self.scale()) as nat);
        vstd::arithmetic::div_mod::lemma_fundamental_div_mod(significand, unit);
        vstd::arithmetic::div_mod::lemma_mod_bound(significand, unit);
        assert(unit * whole == whole * unit) by (nonlinear_arith);
        assert((whole + 1) * unit == whole * unit + unit) by (nonlinear_arith);
        assert((-whole) * unit == -(whole * unit)) by (nonlinear_arith);
        assert((-whole - 1) * unit == -(whole * unit) - unit) by (nonlinear_arith);
        assert((-whole - 1 + 1) * unit == -(whole * unit)) by (nonlinear_arith);
        assert((-whole + 1) * unit == -(whole * unit) + unit) by (nonlinear_arith);
        assert((-(whole + 1)) * unit == -(whole * unit) - unit) by (nonlinear_arith);
        assert(significand == whole * unit + left);
        if self.magnitude_rounded() == whole + 1 {
            assert((-(whole + 1)) % 2 == 0 <==> (whole + 1) % 2 == 0);
        } else {
            assert((-whole) % 2 == 0 <==> whole % 2 == 0);
        }
    }

    /// Tests whether the number is not below the least 32-bit integer.
    pub fn at_least_i32_min(self) -> (r: bool)
        ensures
            r == self.is_at_least_i32_min(),
    {
        let bits: u32 = self.0;
        proof {
            lemma_fields(bits);
            lemma_order(bits);
            if self.is_finite() {
                self.lemma_magnitude_bounds();
            }
        }
        bits <= EXPONENT_BITS || (bits >= SIGN_BIT && bits <= LEAST_I32_BITS)
    }

    /// A finite number has a magnitude below 2^31 exactly if its biased exponent is below
    /// 158; from there on it is whole, and it is 2^31 only with no fraction bit set.
    pub proof fn lemma_magnitude_bounds(self)
        requires
            self.is_finite(),
        ensures
            self.biased_exponent() < 158 <==> self.magnitude_floor() < 0x8000_0000,
            self.biased_exponent() >= 158 ==> self.rest() == Rest::Zero,
            self.magnitude_floor() == 0x8000_0000 <==> self.biased_exponent() == 158
                && self.fraction() == 0,
            0 <= self.magnitude_floor(),
    {
        let bits: u32 = self.0;
        lemma_fields(bits);
        vstd::arithmetic::power2::lemma2_to64();
        let exponent = self.biased_exponent();
        let significand = self.significand();
        if exponent >= 150 {
            let n = (exponent - 150) as nat;
            let unit = vstd::arithmetic::power2::pow2(n) as int;
            if exponent >= 158 {
                if n > 8 {
                    if n > 9 {
                        vstd::arithmetic::power2::lemma_pow2_strictly_increases(9, n);
                    }
                    lemma_product_at_least(significand, unit, 0x80_0000, 0x200);
                } else {
                    assert(significand * unit == significand * 0x100);
                }
            } else {
                if n < 7 {
                    vstd::arithmetic::power2::lemma_pow2_strictly_increases(n, 7);
                }
                vstd::arithmetic::power2::lemma_pow2_pos(n);
                lemma_product_below(significand, unit, 0x100_0000, 0x80);
                lemma_product_at_least(significand, unit, 0, 0);
            }
        } else {
            let n = (-self.scale()) as nat;
            let unit = vstd::arithmetic::power2::pow2(n) as int;
            vstd::arithmetic::power2::lemma_pow2_pos(n);
            vstd::arithmetic::div_mod::lemma_div_pos_is_pos(significand, unit);
            vstd::arithmetic::div_mod::lemma_div_is_ordered_by_denominator(significand, 1, unit);
        }
    }

    /// The whole part of the magnitude of a finite number, or `0x80000000` if it is more than
    /// that, and how the rest stands to one half.
    fn split(self) -> (r: (u32, Rest))
        requires
            self.is_finite(),
        ensures
            r.0 == if self.magnitude_floor() < 0x8000_0000 {
                self.magnitude_floor()
            } else {
                0x8000_0000
            },
            r.1 == self.rest(),
    {
        let bits: u32 = self.0;
        let exponent: u32 = (bits >> 23) & 0xFF;
        let fraction: u32 = bits & FRACTION_BITS;
        proof {
            lemma_fields(bits);
            vstd::arithmetic::power2::lemma2_to64();
        }
        if exponent >= 158 {
            proof {
                let n = (exponent - 150) as nat;
                if n > 8 {
                    vstd::arithmetic::power2::lemma_pow2_strictly_increases(8, n);
                }
                lemma_product_at_least(
                    self.significand(),
                    vstd::arithmetic::power2::pow2(n) as int,
                    0x80_0000,
                    0x100,
                );
            }
            (0x8000_0000, Rest::Zero)
        } else if exponent >= 150 {
            let significand: u32 = fraction | 0x80_0000;
            let shift: u32 = exponent - 150;
            proof {
                if shift < 7 {
                    vstd::arithmetic::power2::lemma_pow2_strictly_increases(shift as nat, 7);
                }
                lemma_product_below(
                    significand as int,
                    vstd::arithmetic::power2::pow2(shift as nat) as int,
                    0x100_0000,
                    0x80,
                );
                vstd::bits::lemma_u32_shl_is_mul(significand, shift);
            }
            (significand << shift, Rest::Zero)
        } else if exponent >= 126 {
            let significand: u32 = fraction | 0x80_0000;
            let shift: u32 = 150 - exponent;
            let whole: u32 = significand >> shift;
            proof {
                let unit = vstd::arithmetic::power2::pow2(shift as nat);
                if shift < 24 {
                    vstd::arithmetic::power2::lemma_pow2_strictly_increases(shift as nat, 24);
                }
                vstd::arithmetic::power2::lemma_pow2_pos(shift as nat);
                vstd::bits::lemma_u32_shr_is_div(significand, shift);
                vstd::arithmetic::div_mod::lemma_fundamental_div_mod(
                    significand as int,
                    unit as int,
                );
                vstd::arithmetic::div_mod::lemma_mod_bound(significand as int, unit as int);
                assert(unit * whole == whole * unit) by (nonlinear_arith);
                vstd::bits::lemma_u32_shl_is_mul(whole, shift);
                assert(1 * unit == unit);
                vstd::bits::lemma_u32_shl_is_mul(1, shift);
            }
            let left: u32 = significand - (whole << shift);
            let unit: u32 = 1 << shift;
            let rest = if left == 0 {
                Rest::Zero
            } else if 2 * left < unit {
                Rest::BelowHalf
            } else if 2 * left == unit {
                Rest::Half
            } else {
                Rest::AboveHalf
            };
            (whole, rest)
        } else {
            let significand: u32 = if exponent == 0 {
                fraction
            } else {
                fraction | 0x80_0000
            };
            proof {
                let n = (-self.scale()) as nat;
                let unit = vstd::arithmetic::power2::pow2(n) as int;
                if n > 25 {
                    vstd::arithmetic::power2::lemma_pow2_strictly_increases(25, n);
                }
                vstd::arithmetic::div_mod::lemma_small_mod(significand as nat, unit as nat);
                vstd::arithmetic::div_mod::lemma_basic_div(significand as int, unit);
            }
            if significand == 0 {
                (0, Rest::Zero)
            } else {
                (0, Rest::BelowHalf)
            }
        }
    }

    /// Round the float towards zero.
    ///
    /// A number beyond the 32-bit integers gives the nearest of them, and a NaN gives 0.
    pub fn fw_round_towards_zero_to_int(self) -> (r: i32)
        ensures
            r == self.spec_round_towards_zero_to_int(),
    {
        let bits: u32 = self.0;
        proof {
            lemma_fields(bits);
        }
        let negative = bits >= SIGN_BIT;
        if bits & EXPONENT_BITS == EXPONENT_BITS {
            if bits & FRACTION_BITS != 0 {
                0
            } else if negative {
                i32::MIN
            } else {
                i32::MAX
            }
        } else {
            let (whole, _) = self.split();
            if negative {
                if whole >= 0x8000_0000 {
                    i32::MIN
                } else {
                    -(whole as i32)
                }
            } else {
                if whole >= 0x8000_0000 {
                    i32::MAX
                } else {
                    whole as i32
                }
            }
        }
    }

    /// Floor the float.
    ///
    /// A number above the 32-bit integers gives the greatest of them. A NaN gives -1 if its
    /// sign bit is set, and else 0.
    pub fn fw_floor_to_int(self) -> (r: i32)
        requires
            self.is_nan() || self.is_at_least_i32_min(),
        ensures
            r == self.spec_floor_to_int(),
    {
        let bits: u32 = self.0;
        proof {
            lemma_fields(bits);
        }
        let negative = bits >= SIGN_BIT;
        if bits & EXPONENT_BITS == EXPONENT_BITS {
            if bits & FRACTION_BITS != 0 {
                if negative {
                    -1
                } else {
                    0
                }
            } else {
                i32::MAX
            }
        } else {
            let (whole, rest) = self.split();
            if negative {
                if whole >= 0x8000_0000 {
                    i32::MIN
                } else {
                    match rest {
                        Rest::Zero => -(whole as i32),
                        _ => -(whole as i32) - 1,
                    }
                }
            } else {
                if whole >= 0x8000_0000 {
                    i32::MAX
                } else {
                    whole as i32
                }
            }
        }
    }

    /// Round the float.
    ///
    /// If the float is evenly between two values (i.e. X.5), then round to the nearest even
    /// number. A number above the 32-bit integers gives the greatest of them.
    pub fn fw_round_ties_even_to_int(self) -> (r: i32)
        requires
            self.is_at_least_i32_min(),
        ensures
            r == self.spec_round_ties_even_to_int(),
    {
        let bits: u32 = self.0;
        proof {
            lemma_fields(bits);
        }
        let negative = bits >= SIGN_BIT;
        if bits & EXPONENT_BITS == EXPONENT_BITS {
            i32::MAX
        } else {
            let (whole, rest) = self.split();
            let up = match rest {
                Rest::Zero => false,
                Rest::BelowHalf => false,
                Rest::Half => whole % 2 != 0,
                Rest::AboveHalf => true,
            };
            let nearest: u32 = if up {
                whole + 1
            } else {
                whole
            };
            if negative {
                if nearest >= 0x8000_0000 {
                    i32::MIN
                } else {
                    -(nearest as i32)
                }
            } else {
                if nearest >= 0x8000_0000 {
                    i32::MAX
                } else {
                    nearest as i32
                }
            }
        }
    }
}

/// Relates the three fields of a bit pattern to comparisons, masks and shifts of the whole
/// pattern.
proof fn lemma_fields(bits: u32)
    ensures
        (bits as int / 0x80_0000) % 0x100 == 0xFF && bits as int % 0x80_0000 != 0 <==> (bits
            > 0x7F80_0000 && bits < 0x8000_0000) || bits > 0xFF80_0000,
        (bits as int / 0x80_0000) % 0x100 == 0 && bits as int % 0x80_0000 == 0 <==> bits == 0
            || bits == 0x8000_0000,
        (bits >> 23) & 0xFF == (bits as int / 0x80_0000) % 0x100,
        bits & 0x7F_FFFF == bits as int % 0x80_0000,
        bits & 0x7F80_0000 == 0x7F80_0000 <==> (bits as int / 0x80_0000) % 0x100 == 0xFF,
        (bits & 0x7F_FFFF) | 0x80_0000 == bits as int % 0x80_0000 + 0x80_0000,
{
    assert(((bits / 0x80_0000u32) % 0x100u32 == 0xFFu32 && bits % 0x80_0000u32 != 0u32) <==> ((bits
        > 0x7F80_0000u32 && bits < 0x8000_0000u32) || bits > 0xFF80_0000u32)) by (bit_vector);
    assert(((bits / 0x80_0000u32) % 0x100u32 == 0u32 && bits % 0x80_0000u32 == 0u32) <==> (bits
        == 0u32 || bits == 0x8000_0000u32)) by (bit_vector);
    assert((bits >> 23u32) & 0xFFu32 == (bits / 0x80_0000u32) % 0x100u32) by (bit_vector);
    assert(bits & 0x7F_FFFFu32 == bits % 0x80_0000u32) by (bit_vector);
    assert((bits & 0x7F80_0000u32 == 0x7F80_0000u32) <==> ((bits / 0x80_0000u32) % 0x100u32
        == 0xFFu32)) by (bit_vector);
    assert((bits & 0x7F_FFFFu32) | 0x80_0000u32 == bits % 0x80_0000u32 + 0x80_0000u32)
        by (bit_vector);
}

/// Relates the order of bit patterns to the order of their exponents and fractions.
proof fn lemma_order(bits: u32)
    ensures
        bits <= 0x7F80_0000 <==> bits < 0x8000_0000 && !((bits as int / 0x80_0000) % 0x100 == 0xFF
            && bits as int % 0x80_0000 != 0),
        bits >= 0x8000_0000 ==> (bits <= 0xCF00_0000 <==> (bits as int / 0x80_0000) % 0x100 < 158
            || ((bits as int / 0x80_0000) % 0x100 == 158 && bits as int % 0x80_0000 == 0)),
{
    assert(bits <= 0x7F80_0000u32 <==> bits < 0x8000_0000u32 && !((bits / 0x80_0000u32) % 0x100u32
        == 0xFFu32 && bits % 0x80_0000u32 != 0u32)) by (bit_vector);
    assert(bits >= 0x8000_0000u32 ==> (bits <= 0xCF00_0000u32 <==> (bits / 0x80_0000u32) % 0x100u32
        < 158u32 || ((bits / 0x80_0000u32) % 0x100u32 == 158u32 && bits % 0x80_0000u32 == 0u32)))
        by (bit_vector);
}

/// A product of two numbers that are at least `a` and `b` is at least `a * b`.
proof fn lemma_product_at_least(x: int, y: int, a: int, b: int)
    requires
        0 <= a <= x,
        0 <= b <= y,
    ensures
        x * y >= a * b,
{
    assert(x * y >= a * b) by (nonlinear_arith)
        requires
            0 <= a <= x,
            0 <= b <= y,
    ;
}

/// A product of two numbers that are below `a` and at most `b` is below `a * b`.
proof fn lemma_product_below(x: int, y: int, a: int, b: int)
    requires
        0 <= x < a,
        0 < y <= b,
    ensures
        x * y < a * b,
{
    assert(x * y < a * b) by (nonlinear_arith)
        requires
            0 <= x < a,
            0 < y <= b,
    ;
}

} // verus!
