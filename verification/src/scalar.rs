//! Fixed-point scalars.
//!
//! Every length, position and velocity of the simulation is a signed
//! fixed-point number with [`FRACTION_BITS`] fractional bits, held in an
//! `i64`. Sums saturate at the ends of the `i64` range instead of wrapping, so
//! no operation of this module can fail.

use vstd::prelude::*;

verus! {

/// Number of fractional bits of a [`Scalar`].
pub const FRACTION_BITS: u32 = 24;

/// Raw representation of the number one.
pub const ONE_RAW: i64 = 16_777_216;

/// The `i64` nearest to the mathematical integer `v`.
pub open spec fn saturate(v: int) -> i64 {
    if v > i64::MAX {
        i64::MAX
    } else if v < i64::MIN {
        i64::MIN
    } else {
        v as i64
    }
}

/// The `i32` nearest to the mathematical integer `v`.
pub open spec fn saturate_i32(v: int) -> i32 {
    if v > i32::MAX {
        i32::MAX
    } else if v < i32::MIN {
        i32::MIN
    } else {
        v as i32
    }
}

/// `v` limited to the closed interval `[lo, hi]`. The upper limit is applied
/// first, so for an empty interval the result is `lo`.
pub open spec fn clamp_int(v: int, lo: int, hi: int) -> int {
    if v < lo {
        lo
    } else if v > hi {
        hi
    } else {
        v
    }
}

/// A quotient by a positive divisor stays within the magnitude of the dividend.
pub proof fn lemma_floor_div_bounds(a: int, d: int)
    requires
        d > 0,
    ensures
        a >= 0 ==> 0 <= a / d <= a,
        a < 0 ==> a <= a / d < 0,
{
    vstd::arithmetic::div_mod::lemma_fundamental_div_mod(a, d);
    vstd::arithmetic::div_mod::lemma_mod_bound(a, d);
    let q = a / d;
    let r = a % d;
    assert(a == d * q + r);
    if a >= 0 {
        assert(0 <= q <= a) by (nonlinear_arith)
            requires
                a == d * q + r,
                0 <= r < d,
                d > 0,
                a >= 0,
        ;
    } else {
        assert(a <= q < 0) by (nonlinear_arith)
            requires
                a == d * q + r,
                0 <= r < d,
                d > 0,
                a < 0,
        ;
    }
}

/// Floor division is monotone in the dividend.
pub proof fn lemma_floor_div_monotone(a: int, b: int, d: int)
    requires
        d > 0,
        a <= b,
    ensures
        a / d <= b / d,
{
    vstd::arithmetic::div_mod::lemma_div_is_ordered(a, b, d);
}

/// Quotient of `a` by the positive `d`, rounded towards negative infinity.
pub fn floor_div_i64(a: i64, d: i64) -> (q: i64)
    requires
        d > 0,
    ensures
        q == a as int / d as int,
{
    proof {
        lemma_floor_div_bounds(a as int, d as int);
    }
    match a.checked_div_euclid(d) {
        Some(q) => q,
        None => 0,
    }
}

/// The `i32` nearest to `v`.
pub fn saturate_to_i32(v: i64) -> (r: i32)
    ensures
        r == saturate_i32(v as int),
{
    if v > 2147483647 {
        2147483647
    } else if v < -2147483648 {
        -2147483648
    } else {
        v as i32
    }
}

/// Integer square root: the largest `r` with `r * r <= n`.
pub fn isqrt(n: u64) -> (r: u64)
    ensures
        r * r <= n,
        n < (r + 1) * (r + 1),
        r < 0x1_0000_0000,
{
    let mut lo: u64 = 0;
    let mut hi: u64 = 0x1_0000_0000;
    assert(n < hi * hi) by (nonlinear_arith)
        requires
            hi == 0x1_0000_0000,
            n <= 0xffff_ffff_ffff_ffff,
    ;
    while hi - lo > 1
        invariant
            lo < hi <= 0x1_0000_0000,
            lo * lo <= n,
            n < hi * hi,
        decreases hi - lo,
    {
        let mid: u64 = lo + (hi - lo) / 2;
        assert(mid * mid <= 0xffff_ffff * 0xffff_ffff) by (nonlinear_arith)
            requires
                mid <= 0xffff_ffff,
        ;
        if mid * mid <= n {
            lo = mid;
        } else {
            hi = mid;
        }
    }
    lo
}

/// A signed fixed-point number: `raw / 2^24`.
#[derive(Clone, Copy, Debug, PartialEq, Eq, Structural, Hash)]
pub struct Scalar {
    /// The number multiplied by `2^24`.
    pub raw: i64,
}

impl Default for Scalar {
    fn default() -> (r: Self)
        ensures
            r.raw == 0,
    {
        Scalar { raw: 0 }
    }
}

impl Scalar {
    /// The scalar with the given raw representation.
    pub fn from_raw(raw: i64) -> (r: Self)
        ensures
            r.raw == raw,
    {
        Scalar { raw }
    }

    /// The scalar that equals the integer `v`.
    pub fn from_int(v: i32) -> (r: Self)
        ensures
            r.raw == v * ONE_RAW,
    {
        Scalar { raw: (v as i64) * ONE_RAW }
    }

    /// Zero.
    pub fn zero() -> (r: Self)
        ensures
            r.raw == 0,
    {
        Scalar { raw: 0 }
    }

    /// One.
    pub fn one() -> (r: Self)
        ensures
            r.raw == ONE_RAW,
    {
        Scalar { raw: ONE_RAW }
    }

    /// The largest integer not above this scalar.
    pub fn floor(self) -> (r: i64)
        ensures
            r == self.raw as int / ONE_RAW as int,
    {
        floor_div_i64(self.raw, ONE_RAW)
    }

    /// Sum, saturating at the ends of the range.
    pub fn saturating_add(self, rhs: Scalar) -> (r: Scalar)
        ensures
            r.raw == saturate(self.raw + rhs.raw),
    {
        match self.raw.checked_add(rhs.raw) {
            Some(v) => Scalar { raw: v },
            None => if rhs.raw > 0 {
                Scalar { raw: i64::MAX }
            } else {
                Scalar { raw: i64::MIN }
            },
        }
    }

    /// Difference, saturating at the ends of the range.
    pub fn saturating_sub(self, rhs: Scalar) -> (r: Scalar)
        ensures
            r.raw == saturate(self.raw - rhs.raw),
    {
        match self.raw.checked_sub(rhs.raw) {
            Some(v) => Scalar { raw: v },
            None => if rhs.raw < 0 {
                Scalar { raw: i64::MAX }
            } else {
                Scalar { raw: i64::MIN }
            },
        }
    }

    /// The scalar with the opposite sign, saturating at the top of the range.
    pub fn saturating_neg(self) -> (r: Scalar)
        ensures
            r.raw == saturate(-self.raw),
    {
        if self.raw == i64::MIN {
            Scalar { raw: i64::MAX }
        } else {
            Scalar { raw: -self.raw }
        }
    }

    /// This scalar limited to `[lo, hi]`.
    pub fn clamp(self, lo: Scalar, hi: Scalar) -> (r: Scalar)
        ensures
            r.raw == clamp_int(self.raw as int, lo.raw as int, hi.raw as int),
    {
        if self.raw < lo.raw {
            lo
        } else if self.raw > hi.raw {
            hi
        } else {
            self
        }
    }

    /// Index of the grid cell of side `cell_size` that holds this coordinate:
    /// the floored quotient, limited to the `i32` range.
    pub fn cell_index(self, cell_size: u32) -> (r: i32)
        requires
            cell_size > 0,
        ensures
            r == spec_cell_index(self.raw as int, cell_size as int),
    {
        let side: i64 = (cell_size as i64) * ONE_RAW;
        saturate_to_i32(floor_div_i64(self.raw, side))
    }
}

/// Index of the cell of side `cell_size` that holds the raw coordinate `raw`.
pub open spec fn spec_cell_index(raw: int, cell_size: int) -> i32 {
    saturate_i32(raw / (cell_size * ONE_RAW))
}

} // verus!
