//! Sine and cosine over the fixed-point scalar.
//!
//! The angle is wrapped into `[-pi, pi]`, folded into `[-pi/2, pi/2]`
//! by the symmetry of the sine, and then approximated by a short odd
//! polynomial. Each step is mirrored by a spec function, so the result
//! bits are pinned exactly and algebraic lemmas about rotation
//! matrices can treat `sin_val` and `cos_val` as opaque values.
use crate::fx::{fx_add_val, fx_mul_val, fx_sub_val, tdiv, Fx};
use vstd::prelude::*;

verus! {

/// Half a turn, in fixed-point bits.
pub const PI_BITS: i64 = 205887;

/// A full turn: twice `PI_BITS`.
pub const TWO_PI_BITS: i64 = 411774;

/// A quarter turn, rounded up so the folded range covers `[-pi, pi]`.
pub const HALF_PI_BITS: i64 = 102944;

/// Remainder truncated toward zero, for a positive modulus.
pub open spec fn tmod(a: int, m: int) -> int {
    if a >= 0 {
        a % m
    } else {
        -((-a) % m)
    }
}

/// The angle brought into `[-PI_BITS, PI_BITS]`.
pub open spec fn wrap_angle_val(b: int) -> int {
    let m = tmod(b, TWO_PI_BITS as int);
    if m > PI_BITS {
        m - TWO_PI_BITS
    } else if m < -PI_BITS {
        m + TWO_PI_BITS
    } else {
        m
    }
}

/// The wrapped angle folded into `[-HALF_PI_BITS, HALF_PI_BITS]`
/// using `sin(pi - x) == sin(x)`.
pub open spec fn fold_angle_val(r: int) -> int {
    if r > HALF_PI_BITS {
        PI_BITS - r
    } else if r < -HALF_PI_BITS {
        -PI_BITS - r
    } else {
        r
    }
}

/// The odd polynomial `x - x^3/6 + x^5/120 - x^7/5040` in fixed point.
pub open spec fn taylor_sin_val(x: int) -> int {
    let x2 = fx_mul_val(x, x);
    let x3 = fx_mul_val(x2, x);
    let x5 = fx_mul_val(x3, x2);
    let x7 = fx_mul_val(x5, x2);
    fx_sub_val(fx_add_val(fx_sub_val(x, tdiv(x3, 6)), tdiv(x5, 120)), tdiv(x7, 5040))
}

/// The library's sine of an angle in fixed-point radians.
pub open spec fn sin_val(b: int) -> int {
    taylor_sin_val(fold_angle_val(wrap_angle_val(b)))
}

/// The library's cosine: the sine shifted by a quarter turn.
pub open spec fn cos_val(b: int) -> int {
    sin_val(fx_add_val(b, HALF_PI_BITS as int))
}

/// Sine of an angle given in fixed-point radians.
pub fn sin_fx(x: Fx) -> (r: Fx)
    ensures
        r.bits == sin_val(x.bits as int),
{
    let b: i128 = x.bits as i128;
    let mag: i128 = if b < 0 {
        -b
    } else {
        b
    };
    let mm: i128 = mag % (TWO_PI_BITS as i128);
    let m: i64 = if b < 0 {
        (-mm) as i64
    } else {
        mm as i64
    };
    proof {
        assert(m as int == tmod(x.bits as int, TWO_PI_BITS as int));
    }
    let w: i64 = if m > PI_BITS {
        m - TWO_PI_BITS
    } else if m < -PI_BITS {
        m + TWO_PI_BITS
    } else {
        m
    };
    let f: i64 = if w > HALF_PI_BITS {
        PI_BITS - w
    } else if w < -HALF_PI_BITS {
        -PI_BITS - w
    } else {
        w
    };
    let xf = Fx { bits: f };
    let x2 = xf.mul(xf);
    let x3 = x2.mul(xf);
    let x5 = x3.mul(x2);
    let x7 = x5.mul(x2);
    xf.sub(x3.div_int(6)).add(x5.div_int(120)).sub(x7.div_int(5040))
}

/// Cosine of an angle given in fixed-point radians.
pub fn cos_fx(x: Fx) -> (r: Fx)
    ensures
        r.bits == cos_val(x.bits as int),
{
    sin_fx(x.add(Fx { bits: HALF_PI_BITS }))
}

} // verus!
