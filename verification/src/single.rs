//! Between single-precision floating-point numbers and scalars.
//!
//! A host that keeps its particles as single-precision numbers hands them
//! over, and takes them back, as bit patterns: one sign bit, eight bits of
//! exponent and twenty-three bits of fraction. The scalar of a number is the
//! number rounded to the nearest multiple of `2^-24`, halves away from zero.
//! The number of a scalar is the scalar rounded to twenty-four significant
//! bits, halves to the even neighbour.

use crate::math::Vec2;
use crate::scalar::{saturate, Scalar};
use vstd::arithmetic::power2::{
    lemma2_to64, lemma2_to64_rest, lemma_pow2_adds, lemma_pow2_pos, lemma_pow2_strictly_increases,
    lemma_pow2_unfold, pow2,
};
use vstd::prelude::*;

verus! {

/// The number is negative: its sign bit is set.
pub open spec fn spec_sign(bits: u32) -> bool {
    bits >= 0x8000_0000
}

/// The eight bits of exponent.
pub open spec fn spec_exponent(bits: u32) -> int {
    (bits as int / 0x80_0000) % 256
}

/// The twenty-three bits of fraction.
pub open spec fn spec_fraction(bits: u32) -> int {
    bits as int % 0x80_0000
}

/// The significand of a number that is finite: the fraction, with a leading
/// one unless the exponent is zero.
pub open spec fn spec_significand(bits: u32) -> int {
    if spec_exponent(bits) == 0 {
        spec_fraction(bits)
    } else {
        0x80_0000 + spec_fraction(bits)
    }
}

/// The power of two by which the significand of a finite number is
/// multiplied.
pub open spec fn spec_power(bits: u32) -> int {
    if spec_exponent(bits) == 0 {
        -149
    } else {
        spec_exponent(bits) - 150
    }
}

/// The size of the raw scalar of a finite number: the significand times
/// `2^(power + 24)`, rounded to the nearest integer, halves up.
pub open spec fn spec_magnitude(bits: u32) -> int {
    let shift = spec_power(bits) + 24;
    if shift >= 0 {
        spec_significand(bits) * pow2(shift as nat)
    } else {
        (2 * spec_significand(bits) + pow2((-shift) as nat)) / (2 * pow2((-shift) as nat) as int)
    }
}

/// The raw scalar of the number with the bits `bits`: the number times
/// `2^24`, rounded to the nearest integer, halves away from zero, and
/// limited to the range of scalars. The infinities give the ends of the
/// range, and what is not a number gives zero.
pub open spec fn spec_from_single(bits: u32) -> i64 {
    if spec_exponent(bits) == 255 {
        if spec_fraction(bits) != 0 {
            0
        } else if spec_sign(bits) {
            i64::MIN
        } else {
            i64::MAX
        }
    } else if spec_sign(bits) {
        saturate(-spec_magnitude(bits))
    } else {
        saturate(spec_magnitude(bits))
    }
}

/// Two to the power of `exponent`.
fn power_of_two(exponent: u32) -> (r: u64)
    requires
        exponent <= 62,
    ensures
        r == pow2(exponent as nat),
        1 <= r <= 0x4000_0000_0000_0000,
{
    let mut r: u64 = 1;
    let mut i: u32 = 0;
    proof {
        lemma2_to64();
        lemma2_to64_rest();
    }
    while i < exponent
        invariant
            0 <= i <= exponent <= 62,
            r == pow2(i as nat),
            1 <= r <= pow2(62),
            pow2(62) == 0x4000_0000_0000_0000,
        decreases exponent - i,
    {
        proof {
            lemma_pow2_unfold((i + 1) as nat);
            if i + 1 < 62 {
                lemma_pow2_strictly_increases((i + 1) as nat, 62);
            }
        }
        r = r * 2;
        i += 1;
    }
    r
}

impl Scalar {
    /// The scalar nearest to the single-precision number with the bits
    /// `bits`.
    pub fn from_single_bits(bits: u32) -> (r: Scalar)
        ensures
            r.raw == spec_from_single(bits),
    {
        let negative = bits >= 0x8000_0000;
        let exponent = (bits / 0x80_0000) % 256;
        let fraction = bits % 0x80_0000;
        if exponent == 255 {
            return if fraction != 0 {
                Scalar { raw: 0 }
            } else if negative {
                Scalar { raw: i64::MIN }
            } else {
                Scalar { raw: i64::MAX }
            };
        }
        let significand: u64 = if exponent == 0 {
            fraction as u64
        } else {
            0x80_0000 + fraction as u64
        };
        proof {
            lemma2_to64();
            lemma2_to64_rest();
        }
        if exponent >= 126 {
            let shift = exponent - 126;
            if shift >= 40 {
                proof {
                    if shift > 40 {
                        lemma_pow2_strictly_increases(40, shift as nat);
                    }
                    assert(pow2(40) == 0x100_0000_0000);
                    assert(significand * pow2(shift as nat) >= 0x8000_0000_0000_0000)
                        by (nonlinear_arith)
                        requires
                            significand >= 0x80_0000,
                            pow2(shift as nat) >= 0x100_0000_0000,
                    ;
                }
                return if negative {
                    Scalar { raw: i64::MIN }
                } else {
                    Scalar { raw: i64::MAX }
                };
            }
            let scale = power_of_two(shift);
            proof {
                if shift < 39 {
                    lemma_pow2_strictly_increases(shift as nat, 39);
                }
                assert(pow2(39) == 0x80_0000_0000);
                assert(significand * scale < 0x8000_0000_0000_0000) by (nonlinear_arith)
                    requires
                        significand < 0x100_0000,
                        scale <= 0x80_0000_0000,
                ;
            }
            let magnitude = (significand * scale) as i64;
            if negative {
                Scalar { raw: -magnitude }
            } else {
                Scalar { raw: magnitude }
            }
        } else {
            let down: u32 = if exponent == 0 {
                125
            } else {
                126 - exponent
            };
            if down > 25 {
                proof {
                    let scale = pow2(down as nat) as int;
                    if down > 26 {
                        lemma_pow2_strictly_increases(26, down as nat);
                    }
                    assert(pow2(26) == 0x400_0000);
                    assert((2 * significand + scale) / (2 * scale) == 0) by (nonlinear_arith)
                        requires
                            0 <= 2 * significand < scale,
                            scale > 0,
                    ;
                }
                return Scalar { raw: 0 };
            }
            let scale = power_of_two(down);
            proof {
                if down < 25 {
                    lemma_pow2_strictly_increases(down as nat, 25);
                }
                assert(pow2(25) == 0x200_0000);
                crate::scalar::lemma_floor_div_bounds(2 * significand + scale, 2 * scale);
            }
            let magnitude = ((2 * significand + scale) / (2 * scale)) as i64;
            if negative {
                Scalar { raw: -magnitude }
            } else {
                Scalar { raw: magnitude }
            }
        }
    }
}

impl Vec2 {
    /// The vector nearest to the vector of the single-precision numbers with
    /// the bits `x` and `y`.
    pub fn from_single_bits(x: u32, y: u32) -> (r: Vec2)
        ensures
            r.x.raw == spec_from_single(x),
            r.y.raw == spec_from_single(y),
    {
        Vec2 { x: Scalar::from_single_bits(x), y: Scalar::from_single_bits(y) }
    }

    /// The bits of the single-precision numbers nearest to the components.
    pub fn to_single_bits(self) -> (r: (u32, u32))
        ensures
            r.0 == spec_to_single(self.x.raw),
            r.1 == spec_to_single(self.y.raw),
    {
        (self.x.to_single_bits(), self.y.to_single_bits())
    }
}

/// Position of the highest bit that is set in `size`, counted from zero.
pub open spec fn spec_top_bit(size: int) -> nat
    decreases size,
{
    if size < 2 {
        0
    } else {
        1 + spec_top_bit(size / 2)
    }
}

/// `size`, which is positive, as a significand of twenty-four bits: scaled up
/// where it has fewer bits; where it has more, the bits below are rounded
/// off, halves to the even neighbour. A carry out of the rounding gives
/// `2^24`.
pub open spec fn spec_rounded(size: int) -> int {
    let top = spec_top_bit(size);
    if top <= 23 {
        size * pow2((23 - top) as nat)
    } else {
        let scale = pow2((top - 23) as nat) as int;
        let kept = size / scale;
        let rest = size % scale;
        if 2 * rest > scale || (2 * rest == scale && kept % 2 == 1) {
            kept + 1
        } else {
            kept
        }
    }
}

/// The bits of the single-precision number nearest to the scalar `raw`. A
/// carry out of the rounding runs into the exponent, as it should.
pub open spec fn spec_to_single(raw: i64) -> u32 {
    let size = if raw < 0 {
        -raw
    } else {
        raw as int
    };
    let sign: int = if raw < 0 {
        0x8000_0000
    } else {
        0
    };
    if raw == 0 {
        0
    } else {
        (sign + (spec_top_bit(size) + 103) * 0x80_0000 + (spec_rounded(size) - 0x80_0000)) as u32
    }
}

/// The highest bit of a positive number is the largest power of two not
/// above it.
pub proof fn lemma_top_bit_bounds(size: int)
    requires
        size >= 1,
    ensures
        pow2(spec_top_bit(size)) <= size < 2 * pow2(spec_top_bit(size)),
    decreases size,
{
    lemma2_to64();
    if size >= 2 {
        lemma_top_bit_bounds(size / 2);
        lemma_pow2_unfold(spec_top_bit(size));
    }
}

/// What `spec_rounded` gives has its highest bit at position twenty-three,
/// or is `2^24`.
pub proof fn lemma_rounded_bounds(size: int)
    requires
        size >= 1,
    ensures
        0x80_0000 <= spec_rounded(size) <= 0x100_0000,
        spec_top_bit(size) <= 23 ==> spec_rounded(size) < 0x100_0000,
{
    lemma2_to64();
    lemma_top_bit_bounds(size);
    let top = spec_top_bit(size);
    if top <= 23 {
        let scale = pow2((23 - top) as nat) as int;
        lemma_pow2_adds(top, (23 - top) as nat);
        lemma_pow2_pos((23 - top) as nat);
        let low = pow2(top) as int;
        assert(0x80_0000 <= size * scale < 0x100_0000) by (nonlinear_arith)
            requires
                low <= size < 2 * low,
                low * scale == 0x80_0000,
                scale > 0,
        ;
    } else {
        let scale = pow2((top - 23) as nat) as int;
        lemma_pow2_adds(23, (top - 23) as nat);
        lemma_pow2_pos((top - 23) as nat);
        let kept = size / scale;
        let rest = size % scale;
        vstd::arithmetic::div_mod::lemma_fundamental_div_mod(size, scale);
        vstd::arithmetic::div_mod::lemma_mod_bound(size, scale);
        assert(0x80_0000 <= kept < 0x100_0000) by (nonlinear_arith)
            requires
                size == scale * kept + rest,
                0 <= rest < scale,
                0x80_0000 * scale <= size < 2 * (0x80_0000 * scale),
        ;
    }
}

/// Position of the highest bit that is set in `size`.
fn top_bit(size: u64) -> (r: u32)
    requires
        size >= 1,
    ensures
        r == spec_top_bit(size as int),
        r <= 63,
{
    proof {
        lemma_top_bit_bounds(size as int);
        lemma2_to64();
        if spec_top_bit(size as int) > 64 {
            lemma_pow2_strictly_increases(64, spec_top_bit(size as int));
        }
    }
    let mut rest = size;
    let mut r: u32 = 0;
    while rest >= 2
        invariant
            rest >= 1,
            spec_top_bit(size as int) == r + spec_top_bit(rest as int),
            spec_top_bit(size as int) <= 63,
        decreases rest,
    {
        rest = rest / 2;
        r += 1;
    }
    r
}

impl Scalar {
    /// The bits of the single-precision number nearest to this scalar.
    pub fn to_single_bits(self) -> (bits: u32)
        ensures
            bits == spec_to_single(self.raw),
    {
        if self.raw == 0 {
            return 0;
        }
        let size: u64 = if self.raw == i64::MIN {
            0x8000_0000_0000_0000
        } else if self.raw < 0 {
            (-self.raw) as u64
        } else {
            self.raw as u64
        };
        let sign: u32 = if self.raw < 0 {
            0x8000_0000
        } else {
            0
        };
        let top = top_bit(size);
        proof {
            lemma2_to64();
            lemma2_to64_rest();
            lemma_rounded_bounds(size as int);
        }
        let rounded: u64 = if top <= 23 {
            size * power_of_two(23 - top)
        } else {
            let scale = power_of_two(top - 23);
            proof {
                if top < 63 {
                    lemma_pow2_strictly_increases((top - 23) as nat, 40);
                }
            }
            let kept = size / scale;
            let rest = size % scale;
            if 2 * rest > scale || (2 * rest == scale && kept % 2 == 1) {
                kept + 1
            } else {
                kept
            }
        };
        sign + (top + 103) * 0x80_0000 + (rounded - 0x80_0000) as u32
    }
}

/// A scalar of no more than twenty-four bits is kept by the way to a
/// single-precision number and back.
pub proof fn lemma_short_scalars_come_back(raw: i64)
    requires
        -0x100_0000 < raw < 0x100_0000,
    ensures
        spec_from_single(spec_to_single(raw)) == raw,
{
    if raw != 0 {
        let size = if raw < 0 {
            -raw
        } else {
            raw as int
        };
        let top = spec_top_bit(size);
        lemma2_to64();
        lemma_top_bit_bounds(size);
        lemma_rounded_bounds(size);
        if top > 24 {
            lemma_pow2_strictly_increases(24, top);
        }
        assert(top <= 23);
        let rounded = spec_rounded(size);
        let fraction = rounded - 0x80_0000;
        let bits = spec_to_single(raw);
        let high: int = if raw < 0 {
            256 + top as int + 103
        } else {
            top as int + 103
        };
        assert(bits == high * 0x80_0000 + fraction);
        assert(bits as int / 0x80_0000 == high && bits as int % 0x80_0000 == fraction) by {
            vstd::arithmetic::div_mod::lemma_fundamental_div_mod_converse(
                bits as int,
                0x80_0000,
                high,
                fraction,
            );
        }
        assert(spec_exponent(bits) == top + 103);
        assert(spec_fraction(bits) == fraction);
        assert(spec_significand(bits) == rounded);
        assert(spec_power(bits) + 24 == top - 23);
        if top == 23 {
            assert(pow2((23 - top) as nat) == 1);
            assert(rounded == size * 1);
            assert(spec_magnitude(bits) == size);
        } else {
            lemma_multiples_are_exact(bits, size);
        }
    } else {
        lemma_multiples_are_exact(0, 0);
    }
}

/// A number that is a multiple of `2^-24` and smaller than a half is
/// converted without rounding: where `raw` times the power of two that the
/// conversion divides by is the significand, the scalar is `raw` with the
/// number's sign.
pub proof fn lemma_multiples_are_exact(bits: u32, raw: int)
    requires
        spec_exponent(bits) != 255,
        spec_power(bits) + 24 < 0,
        raw * pow2((-(spec_power(bits) + 24)) as nat) == spec_significand(bits),
    ensures
        spec_magnitude(bits) == raw,
        spec_from_single(bits) == if spec_sign(bits) {
            -raw
        } else {
            raw
        },
{
    let scale = pow2((-(spec_power(bits) + 24)) as nat) as int;
    let significand = spec_significand(bits);
    vstd::arithmetic::power2::lemma_pow2_pos((-(spec_power(bits) + 24)) as nat);
    assert(0 <= raw <= significand) by (nonlinear_arith)
        requires
            raw * scale == significand,
            scale >= 1,
            significand >= 0,
    ;
    assert(2 * significand + scale == (2 * scale) * raw + scale) by (nonlinear_arith)
        requires
            raw * scale == significand,
    ;
    vstd::arithmetic::div_mod::lemma_fundamental_div_mod_converse(
        2 * significand + scale,
        2 * scale,
        raw,
        scale,
    );
}

} // verus!
