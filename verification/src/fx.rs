//! Fixed-point scalar: the numeric base of the whole library.
//!
//! A `Fx` stores a real number `bits / 2^16` in a signed 64-bit word.
//! Every operation is total: results outside the representable range
//! saturate to the nearest bound, and division by zero yields zero.
//! Each operation's contract pins the result bits exactly, so lemmas
//! about composed formulas (matrix products, barycentric sums) can be
//! proved with no tolerance at all.
use vstd::prelude::*;

verus! {

/// Number of fractional steps per unit: `Fx { bits: FX_ONE }` is 1.
pub const FX_ONE: i64 = 65536;

/// Saturation to the `i64` range.
pub open spec fn sat64(v: int) -> int {
    if v > i64::MAX {
        i64::MAX as int
    } else if v < i64::MIN {
        i64::MIN as int
    } else {
        v
    }
}

/// Division truncating toward zero, the semantics of `/` on machine
/// integers: for a nonnegative dividend Euclidean and truncating
/// division agree, and a negative dividend is handled by sign.
pub open spec fn tdiv(a: int, b: int) -> int {
    if a >= 0 {
        a / b
    } else {
        -((-a) / b)
    }
}

/// Division truncating toward zero for any nonzero divisor: a
/// negative divisor is handled by sign so that `tdiv` only ever sees
/// a positive one.
pub open spec fn tdiv_any(a: int, b: int) -> int {
    if b > 0 {
        tdiv(a, b)
    } else {
        -tdiv(a, -b)
    }
}

/// Exact value of fixed-point addition.
pub open spec fn fx_add_val(a: int, b: int) -> int {
    sat64(a + b)
}

/// Exact value of fixed-point subtraction.
pub open spec fn fx_sub_val(a: int, b: int) -> int {
    sat64(a - b)
}

/// Exact value of fixed-point multiplication: the bit product scaled
/// back down, truncated toward zero, then saturated.
pub open spec fn fx_mul_val(a: int, b: int) -> int {
    sat64(tdiv(a * b, FX_ONE as int))
}

/// Exact value of fixed-point division; a zero divisor yields zero,
/// and a negative one is handled by sign so that `tdiv` only ever
/// sees a positive divisor.
pub open spec fn fx_div_val(a: int, b: int) -> int {
    if b == 0 {
        0
    } else if b > 0 {
        sat64(tdiv(a * (FX_ONE as int), b))
    } else {
        sat64(-tdiv(a * (FX_ONE as int), -b))
    }
}

/// Clamping an integer to `[lo, hi]`.
pub open spec fn clamp_val(v: int, lo: int, hi: int) -> int {
    if v < lo {
        lo
    } else if v > hi {
        hi
    } else {
        v
    }
}

/// A fixed-point number; `bits` counts steps of `1 / 2^16`.
#[derive(Clone, Copy, Debug, PartialEq, Eq, Structural)]
pub struct Fx {
    pub bits: i64,
}

impl Fx {
    /// Zero.
    pub fn zero() -> (r: Fx)
        ensures
            r.bits == 0,
    {
        Fx { bits: 0 }
    }

    /// One.
    pub fn one() -> (r: Fx)
        ensures
            r.bits == FX_ONE,
    {
        Fx { bits: FX_ONE }
    }

    /// The fixed-point number with the given whole value.
    pub fn from_int(v: i32) -> (r: Fx)
        ensures
            r.bits == v * FX_ONE,
    {
        Fx { bits: (v as i64) * FX_ONE }
    }

    /// Saturating addition.
    pub fn add(self, o: Fx) -> (r: Fx)
        ensures
            r.bits == fx_add_val(self.bits as int, o.bits as int),
    {
        let s: i128 = self.bits as i128 + o.bits as i128;
        Fx { bits: clamp_i128_to_i64(s) }
    }

    /// Saturating subtraction.
    pub fn sub(self, o: Fx) -> (r: Fx)
        ensures
            r.bits == fx_sub_val(self.bits as int, o.bits as int),
    {
        let s: i128 = self.bits as i128 - o.bits as i128;
        Fx { bits: clamp_i128_to_i64(s) }
    }

    /// Saturating negation.
    pub fn neg(self) -> (r: Fx)
        ensures
            r.bits == sat64(-(self.bits as int)),
    {
        let s: i128 = -(self.bits as i128);
        Fx { bits: clamp_i128_to_i64(s) }
    }

    /// Saturating multiplication, truncated toward zero.
    pub fn mul(self, o: Fx) -> (r: Fx)
        ensures
            r.bits == fx_mul_val(self.bits as int, o.bits as int),
    {
        proof {
            lemma_i64_product_fits(self.bits as int, o.bits as int);
        }
        let p: i128 = self.bits as i128 * o.bits as i128;
        let q: i128 = p / (FX_ONE as i128);
        Fx { bits: clamp_i128_to_i64(q) }
    }

    /// Saturating division, truncated toward zero; zero divisor gives zero.
    pub fn div(self, o: Fx) -> (r: Fx)
        ensures
            r.bits == fx_div_val(self.bits as int, o.bits as int),
    {
        if o.bits == 0 {
            Fx { bits: 0 }
        } else {
            proof {
                lemma_i64_product_fits(self.bits as int, FX_ONE as int);
            }
            let p: i128 = self.bits as i128 * (FX_ONE as i128);
            let bm: i128 = if o.bits < 0 {
                -(o.bits as i128)
            } else {
                o.bits as i128
            };
            let q: i128 = p / bm;
            let signed_q: i128 = if o.bits < 0 {
                -q
            } else {
                q
            };
            Fx { bits: clamp_i128_to_i64(signed_q) }
        }
    }

    /// Division by a positive whole number, truncated toward zero.
    pub fn div_int(self, n: i64) -> (r: Fx)
        requires
            n > 0,
        ensures
            r.bits == tdiv(self.bits as int, n as int),
    {
        proof {
            lemma_tdiv_bounds(self.bits as int, n as int);
        }
        Fx { bits: self.bits / n }
    }

    /// Magnitude, saturating (the magnitude of the least value is capped).
    pub fn abs(self) -> (r: Fx)
        ensures
            r.bits == if self.bits < 0 {
                sat64(-(self.bits as int))
            } else {
                self.bits as int
            },
    {
        if self.bits < 0 {
            self.neg()
        } else {
            self
        }
    }

    /// Greatest whole number at or below the value.
    pub fn floor_int(self) -> (r: i64)
        ensures
            r == (self.bits as int) / (FX_ONE as int),
    {
        let b: i128 = self.bits as i128;
        if b >= 0 {
            (b / (FX_ONE as i128)) as i64
        } else {
            let q: i128 = (-b + FX_ONE as i128 - 1) / (FX_ONE as i128);
            proof {
                lemma_floor_of_negative(b as int, FX_ONE as int);
            }
            (-q) as i64
        }
    }

    /// Least whole number at or above the value.
    pub fn ceil_int(self) -> (r: i64)
        ensures
            r == -((-(self.bits as int)) / (FX_ONE as int)),
    {
        let b: i128 = self.bits as i128;
        if b <= 0 {
            -((-b) / (FX_ONE as i128)) as i64
        } else {
            let q: i128 = (b + FX_ONE as i128 - 1) / (FX_ONE as i128);
            proof {
                lemma_floor_of_negative(-(b as int), FX_ONE as int);
            }
            q as i64
        }
    }

    /// Clamp into `[lo, hi]`.
    pub fn clamp(self, lo: Fx, hi: Fx) -> (r: Fx)
        requires
            lo.bits <= hi.bits,
        ensures
            r.bits == clamp_val(self.bits as int, lo.bits as int, hi.bits as int),
    {
        if self.bits < lo.bits {
            lo
        } else if self.bits > hi.bits {
            hi
        } else {
            self
        }
    }
}

/// The square root of a nonnegative integer: the unique nonnegative
/// root whose square is at most `n` while the next square is beyond.
pub open spec fn sqrt_val(n: int) -> int {
    choose|r: int| r >= 0 && #[trigger] (r * r) <= n && n < (r + 1) * (r + 1)
}

/// The defining property pins `sqrt_val` down.
pub proof fn lemma_sqrt_val_unique(n: int, r: int)
    requires
        r >= 0,
        r * r <= n,
        n < (r + 1) * (r + 1),
    ensures
        sqrt_val(n) == r,
{
    assert(exists|q: int| q >= 0 && #[trigger] (q * q) <= n && n < (q + 1) * (q + 1)) by {
        assert(r >= 0 && r * r <= n && n < (r + 1) * (r + 1));
    }
    let s = sqrt_val(n);
    assert(s >= 0 && s * s <= n && n < (s + 1) * (s + 1));
    assert(s == r) by (nonlinear_arith)
        requires
            r >= 0,
            s >= 0,
            r * r <= n,
            n < (r + 1) * (r + 1),
            s * s <= n,
            n < (s + 1) * (s + 1),
    ;
}

impl Fx {
    /// Fixed-point square root of a nonnegative value.
    pub fn sqrt(self) -> (r: Fx)
        requires
            self.bits >= 0,
        ensures
            r.bits == sqrt_val(self.bits * (FX_ONE as int)),
            r.bits >= 0,
            r.bits * r.bits <= self.bits * (FX_ONE as int),
            self.bits * (FX_ONE as int) < (r.bits + 1) * (r.bits + 1),
    {
        proof {
            lemma_i64_product_fits(self.bits as int, FX_ONE as int);
        }
        let n: u128 = (self.bits as u128) * (FX_ONE as u128);
        let mut lo: u128 = 0;
        let mut hi: u128 = 0x100_0000_0000;
        proof {
            assert(n < 0x100_0000_0000 * 0x100_0000_0000) by (nonlinear_arith)
                requires
                    n <= 0x7fff_ffff_ffff_ffff * 0x1_0000,
            ;
            assert((hi + 1) * (hi + 1) > n) by (nonlinear_arith)
                requires
                    n < 0x100_0000_0000 * 0x100_0000_0000,
                    hi == 0x100_0000_0000,
            ;
        }
        while lo < hi
            invariant
                lo <= hi <= 0x100_0000_0000,
                lo * lo <= n,
                n < (hi + 1) * (hi + 1),
                n == self.bits * (FX_ONE as int),
            decreases hi - lo,
        {
            let mid: u128 = lo + (hi - lo + 1) / 2;
            proof {
                assert(lo < mid <= hi);
                assert(mid * mid <= 0x100_0000_0000 * 0x100_0000_0000) by (nonlinear_arith)
                    requires
                        0 < mid <= 0x100_0000_0000,
                ;
            }
            let sq: u128 = mid * mid;
            if sq <= n {
                lo = mid;
            } else {
                hi = mid - 1;
            }
        }
        proof {
            lemma_sqrt_val_unique(self.bits * (FX_ONE as int), lo as int);
        }
        Fx { bits: lo as i64 }
    }
}

/// Clamp a wide intermediate into the `i64` range.
pub(crate) fn clamp_i128_to_i64(v: i128) -> (r: i64)
    ensures
        r == sat64(v as int),
{
    if v > i64::MAX as i128 {
        i64::MAX
    } else if v < i64::MIN as i128 {
        i64::MIN
    } else {
        v as i64
    }
}

/// The product of two 64-bit values fits in a 128-bit word.
proof fn lemma_i64_product_fits(a: int, b: int)
    requires
        i64::MIN <= a <= i64::MAX,
        i64::MIN <= b <= i64::MAX,
    ensures
        i128::MIN <= a * b <= i128::MAX,
{
    assert(i128::MIN <= a * b <= i128::MAX) by (nonlinear_arith)
        requires
            -0x8000_0000_0000_0000 <= a <= 0x7fff_ffff_ffff_ffff,
            -0x8000_0000_0000_0000 <= b <= 0x7fff_ffff_ffff_ffff,
    ;
}

pub(crate) proof fn lemma_tdiv_bounds(a: int, b: int)
    requires
        b > 0,
    ensures
        a >= 0 ==> 0 <= tdiv(a, b) <= a,
        a < 0 ==> a <= tdiv(a, b) <= 0,
{
    if a >= 0 {
        vstd::arithmetic::div_mod::lemma_div_nonincreasing(a, b);
        vstd::arithmetic::div_mod::lemma_div_pos_is_pos(a, b);
    } else {
        vstd::arithmetic::div_mod::lemma_div_nonincreasing(-a, b);
        vstd::arithmetic::div_mod::lemma_div_pos_is_pos(-a, b);
    }
}

/// Euclidean (floor) division of a negative number by a positive one,
/// written with nonnegative operands only.
proof fn lemma_floor_of_negative(a: int, b: int)
    requires
        a < 0,
        b > 0,
    ensures
        a / b == -((-a + b - 1) / b),
{
    let n = -a;
    let q = (n + b - 1) / b;
    vstd::arithmetic::div_mod::lemma_fundamental_div_mod(n + b - 1, b);
    vstd::arithmetic::div_mod::lemma_mod_bound(n + b - 1, b);
    vstd::arithmetic::div_mod::lemma_fundamental_div_mod(a, b);
    vstd::arithmetic::div_mod::lemma_mod_bound(a, b);
    let r = a - b * (a / b);
    assert(a == b * (a / b) + r);
    assert(n + b - 1 == b * q + ((n + b - 1) % b));
    assert(b * (a / b) == a - r);
    assert(b * q == n + b - 1 - ((n + b - 1) % b));
    assert(b * (a / b) + b * q == b - 1 - r - ((n + b - 1) % b)) by {
        assert(a + n == 0);
    }
    assert(b * ((a / b) + q) == b * (a / b) + b * q) by (nonlinear_arith);
    let s = (a / b) + q;
    assert(b * s == b - 1 - r - ((n + b - 1) % b));
    assert(-b < b - 1 - r - ((n + b - 1) % b) < b);
    assert(s == 0) by (nonlinear_arith)
        requires
            b > 0,
            -b < b * s < b,
    ;
}

} // verus!
