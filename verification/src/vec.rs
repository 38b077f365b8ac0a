//! Plain value vectors of two, three and four fixed-point lanes.
//!
//! Every operation states its result exactly, component by component,
//! over the fixed-point value functions of `fx`.
use crate::fx::{fx_add_val, fx_div_val, fx_mul_val, fx_sub_val, sqrt_val, Fx, FX_ONE};
use vstd::prelude::*;

verus! {

/// A two-lane vector.
#[derive(Clone, Copy, Debug, PartialEq, Eq, Structural)]
pub struct Vec2 {
    pub x: Fx,
    pub y: Fx,
}

/// A three-lane vector.
#[derive(Clone, Copy, Debug, PartialEq, Eq, Structural)]
pub struct Vec3 {
    pub x: Fx,
    pub y: Fx,
    pub z: Fx,
}

/// A four-lane vector.
#[derive(Clone, Copy, Debug, PartialEq, Eq, Structural)]
pub struct Vec4 {
    pub x: Fx,
    pub y: Fx,
    pub z: Fx,
    pub w: Fx,
}

/// The dot product of two-lane vectors, summed left to right.
pub open spec fn dot2_val(a: Vec2, b: Vec2) -> int {
    fx_add_val(
        fx_mul_val(a.x.bits as int, b.x.bits as int),
        fx_mul_val(a.y.bits as int, b.y.bits as int),
    )
}

/// The dot product of four-lane vectors, summed left to right.
pub open spec fn dot4_val(a: Vec4, b: Vec4) -> int {
    fx_add_val(
        fx_add_val(
            fx_add_val(
                fx_mul_val(a.x.bits as int, b.x.bits as int),
                fx_mul_val(a.y.bits as int, b.y.bits as int),
            ),
            fx_mul_val(a.z.bits as int, b.z.bits as int),
        ),
        fx_mul_val(a.w.bits as int, b.w.bits as int),
    )
}

/// The dot product of three-lane vectors, summed left to right.
pub open spec fn dot3_val(a: Vec3, b: Vec3) -> int {
    fx_add_val(
        fx_add_val(
            fx_mul_val(a.x.bits as int, b.x.bits as int),
            fx_mul_val(a.y.bits as int, b.y.bits as int),
        ),
        fx_mul_val(a.z.bits as int, b.z.bits as int),
    )
}

impl Vec2 {
    pub fn new(x: Fx, y: Fx) -> (r: Vec2)
        ensures
            r == (Vec2 { x, y }),
    {
        Vec2 { x, y }
    }

    pub fn zero() -> (r: Vec2)
        ensures
            r.x.bits == 0 && r.y.bits == 0,
    {
        Vec2 { x: Fx { bits: 0 }, y: Fx { bits: 0 } }
    }

    pub fn add(self, o: Vec2) -> (r: Vec2)
        ensures
            r.x.bits == fx_add_val(self.x.bits as int, o.x.bits as int),
            r.y.bits == fx_add_val(self.y.bits as int, o.y.bits as int),
    {
        Vec2 { x: self.x.add(o.x), y: self.y.add(o.y) }
    }

    pub fn sub(self, o: Vec2) -> (r: Vec2)
        ensures
            r.x.bits == fx_sub_val(self.x.bits as int, o.x.bits as int),
            r.y.bits == fx_sub_val(self.y.bits as int, o.y.bits as int),
    {
        Vec2 { x: self.x.sub(o.x), y: self.y.sub(o.y) }
    }

    pub fn mul(self, s: Fx) -> (r: Vec2)
        ensures
            r.x.bits == fx_mul_val(self.x.bits as int, s.bits as int),
            r.y.bits == fx_mul_val(self.y.bits as int, s.bits as int),
    {
        Vec2 { x: self.x.mul(s), y: self.y.mul(s) }
    }

    pub fn div_fx(self, s: Fx) -> (r: Vec2)
        ensures
            r.x.bits == fx_div_val(self.x.bits as int, s.bits as int),
            r.y.bits == fx_div_val(self.y.bits as int, s.bits as int),
    {
        Vec2 { x: self.x.div(s), y: self.y.div(s) }
    }

    /// Dot product, summed left to right.
    pub fn dot(self, o: &Vec2) -> (r: Fx)
        ensures
            r.bits == dot2_val(self, *o),
    {
        self.x.mul(o.x).add(self.y.mul(o.y))
    }

    /// Euclidean length: the fixed-point square root of the self dot.
    pub fn length(self) -> (r: Fx)
        ensures
            r.bits == sqrt_val(dot2_val(self, self) * (FX_ONE as int)),
            r.bits >= 0,
    {
        let d = self.dot(&self);
        proof {
            lemma_self_dot2_nonneg(self);
        }
        d.sqrt()
    }

    /// The vector scaled to unit length; each lane is the exact
    /// fixed-point quotient by the length.
    pub fn normalize(self) -> (r: Vec2)
        ensures
            r.x.bits == fx_div_val(
                self.x.bits as int,
                sqrt_val(dot2_val(self, self) * (FX_ONE as int)),
            ),
            r.y.bits == fx_div_val(
                self.y.bits as int,
                sqrt_val(dot2_val(self, self) * (FX_ONE as int)),
            ),
    {
        let l = self.length();
        Vec2 { x: self.x.div(l), y: self.y.div(l) }
    }
}

/// The componentwise difference of three-lane vectors, as a value.
#[verifier::opaque]
pub open spec fn v3_sub_val(a: Vec3, b: Vec3) -> Vec3 {
    Vec3 {
        x: Fx { bits: fx_sub_val(a.x.bits as int, b.x.bits as int) as i64 },
        y: Fx { bits: fx_sub_val(a.y.bits as int, b.y.bits as int) as i64 },
        z: Fx { bits: fx_sub_val(a.z.bits as int, b.z.bits as int) as i64 },
    }
}

/// The cross product of three-lane vectors, as a value.
#[verifier::opaque]
pub open spec fn v3_cross_val(a: Vec3, b: Vec3) -> Vec3 {
    Vec3 {
        x: Fx {
            bits: fx_sub_val(
                fx_mul_val(a.y.bits as int, b.z.bits as int),
                fx_mul_val(a.z.bits as int, b.y.bits as int),
            ) as i64,
        },
        y: Fx {
            bits: fx_sub_val(
                fx_mul_val(a.z.bits as int, b.x.bits as int),
                fx_mul_val(a.x.bits as int, b.z.bits as int),
            ) as i64,
        },
        z: Fx {
            bits: fx_sub_val(
                fx_mul_val(a.x.bits as int, b.y.bits as int),
                fx_mul_val(a.y.bits as int, b.x.bits as int),
            ) as i64,
        },
    }
}

/// The vector scaled to unit length, as a value.
#[verifier::opaque]
pub open spec fn v3_norm_val(v: Vec3) -> Vec3 {
    let l = sqrt_val(dot3_val(v, v) * (FX_ONE as int));
    Vec3 {
        x: Fx { bits: fx_div_val(v.x.bits as int, l) as i64 },
        y: Fx { bits: fx_div_val(v.y.bits as int, l) as i64 },
        z: Fx { bits: fx_div_val(v.z.bits as int, l) as i64 },
    }
}

/// The dot product of a two-lane vector with itself is never
/// negative.
proof fn lemma_self_dot2_nonneg(v: Vec2)
    ensures
        dot2_val(v, v) >= 0,
{
    lemma_square_nonneg(v.x.bits as int);
    lemma_square_nonneg(v.y.bits as int);
}

/// The dot product of a four-lane vector with itself is never
/// negative.
proof fn lemma_self_dot4_nonneg(v: Vec4)
    ensures
        dot4_val(v, v) >= 0,
{
    lemma_square_nonneg(v.x.bits as int);
    lemma_square_nonneg(v.y.bits as int);
    lemma_square_nonneg(v.z.bits as int);
    lemma_square_nonneg(v.w.bits as int);
}

impl Vec3 {
    pub fn new(x: Fx, y: Fx, z: Fx) -> (r: Vec3)
        ensures
            r == (Vec3 { x, y, z }),
    {
        Vec3 { x, y, z }
    }

    pub fn zero() -> (r: Vec3)
        ensures
            r.x.bits == 0 && r.y.bits == 0 && r.z.bits == 0,
    {
        Vec3 { x: Fx { bits: 0 }, y: Fx { bits: 0 }, z: Fx { bits: 0 } }
    }

    pub fn add(self, o: Vec3) -> (r: Vec3)
        ensures
            r.x.bits == fx_add_val(self.x.bits as int, o.x.bits as int),
            r.y.bits == fx_add_val(self.y.bits as int, o.y.bits as int),
            r.z.bits == fx_add_val(self.z.bits as int, o.z.bits as int),
    {
        Vec3 { x: self.x.add(o.x), y: self.y.add(o.y), z: self.z.add(o.z) }
    }

    pub fn sub(self, o: Vec3) -> (r: Vec3)
        ensures
            r.x.bits == fx_sub_val(self.x.bits as int, o.x.bits as int),
            r.y.bits == fx_sub_val(self.y.bits as int, o.y.bits as int),
            r.z.bits == fx_sub_val(self.z.bits as int, o.z.bits as int),
    {
        Vec3 { x: self.x.sub(o.x), y: self.y.sub(o.y), z: self.z.sub(o.z) }
    }

    pub fn mul(self, s: Fx) -> (r: Vec3)
        ensures
            r.x.bits == fx_mul_val(self.x.bits as int, s.bits as int),
            r.y.bits == fx_mul_val(self.y.bits as int, s.bits as int),
            r.z.bits == fx_mul_val(self.z.bits as int, s.bits as int),
    {
        Vec3 { x: self.x.mul(s), y: self.y.mul(s), z: self.z.mul(s) }
    }

    pub fn div_fx(self, s: Fx) -> (r: Vec3)
        ensures
            r.x.bits == fx_div_val(self.x.bits as int, s.bits as int),
            r.y.bits == fx_div_val(self.y.bits as int, s.bits as int),
            r.z.bits == fx_div_val(self.z.bits as int, s.bits as int),
    {
        Vec3 { x: self.x.div(s), y: self.y.div(s), z: self.z.div(s) }
    }

    /// Dot product, summed left to right.
    pub fn dot(self, o: &Vec3) -> (r: Fx)
        ensures
            r.bits == dot3_val(self, *o),
    {
        self.x.mul(o.x).add(self.y.mul(o.y)).add(self.z.mul(o.z))
    }

    /// Cross product.
    pub fn cross(self, o: &Vec3) -> (r: Vec3)
        ensures
            r.x.bits == fx_sub_val(
                fx_mul_val(self.y.bits as int, o.z.bits as int),
                fx_mul_val(self.z.bits as int, o.y.bits as int),
            ),
            r.y.bits == fx_sub_val(
                fx_mul_val(self.z.bits as int, o.x.bits as int),
                fx_mul_val(self.x.bits as int, o.z.bits as int),
            ),
            r.z.bits == fx_sub_val(
                fx_mul_val(self.x.bits as int, o.y.bits as int),
                fx_mul_val(self.y.bits as int, o.x.bits as int),
            ),
    {
        Vec3 {
            x: self.y.mul(o.z).sub(self.z.mul(o.y)),
            y: self.z.mul(o.x).sub(self.x.mul(o.z)),
            z: self.x.mul(o.y).sub(self.y.mul(o.x)),
        }
    }

    /// Euclidean length: the fixed-point square root of the self dot.
    pub fn length(self) -> (r: Fx)
        ensures
            r.bits == sqrt_val(dot3_val(self, self) * (FX_ONE as int)),
            r.bits >= 0,
    {
        let d = self.dot(&self);
        proof {
            lemma_self_dot_nonneg(self);
        }
        d.sqrt()
    }

    /// The vector scaled to unit length; each lane is the exact
    /// fixed-point quotient by the length.
    pub fn normalize(self) -> (r: Vec3)
        ensures
            r.x.bits == fx_div_val(
                self.x.bits as int,
                sqrt_val(dot3_val(self, self) * (FX_ONE as int)),
            ),
            r.y.bits == fx_div_val(
                self.y.bits as int,
                sqrt_val(dot3_val(self, self) * (FX_ONE as int)),
            ),
            r.z.bits == fx_div_val(
                self.z.bits as int,
                sqrt_val(dot3_val(self, self) * (FX_ONE as int)),
            ),
    {
        let l = self.length();
        Vec3 { x: self.x.div(l), y: self.y.div(l), z: self.z.div(l) }
    }
}

/// A value times itself, scaled down, is never negative.
proof fn lemma_square_nonneg(a: int)
    ensures
        fx_mul_val(a, a) >= 0,
{
    assert(a * a >= 0) by (nonlinear_arith);
    vstd::arithmetic::div_mod::lemma_div_pos_is_pos(a * a, FX_ONE as int);
}

/// The dot product of a vector with itself is never negative.
proof fn lemma_self_dot_nonneg(v: Vec3)
    ensures
        dot3_val(v, v) >= 0,
{
    lemma_square_nonneg(v.x.bits as int);
    lemma_square_nonneg(v.y.bits as int);
    lemma_square_nonneg(v.z.bits as int);
}

impl Vec4 {
    pub fn new(x: Fx, y: Fx, z: Fx, w: Fx) -> (r: Vec4)
        ensures
            r == (Vec4 { x, y, z, w }),
    {
        Vec4 { x, y, z, w }
    }

    pub fn zero() -> (r: Vec4)
        ensures
            r.x.bits == 0 && r.y.bits == 0 && r.z.bits == 0 && r.w.bits == 0,
    {
        Vec4 { x: Fx { bits: 0 }, y: Fx { bits: 0 }, z: Fx { bits: 0 }, w: Fx { bits: 0 } }
    }

    pub fn add(self, o: Vec4) -> (r: Vec4)
        ensures
            r.x.bits == fx_add_val(self.x.bits as int, o.x.bits as int),
            r.y.bits == fx_add_val(self.y.bits as int, o.y.bits as int),
            r.z.bits == fx_add_val(self.z.bits as int, o.z.bits as int),
            r.w.bits == fx_add_val(self.w.bits as int, o.w.bits as int),
    {
        Vec4 { x: self.x.add(o.x), y: self.y.add(o.y), z: self.z.add(o.z), w: self.w.add(o.w) }
    }

    pub fn sub(self, o: Vec4) -> (r: Vec4)
        ensures
            r.x.bits == fx_sub_val(self.x.bits as int, o.x.bits as int),
            r.y.bits == fx_sub_val(self.y.bits as int, o.y.bits as int),
            r.z.bits == fx_sub_val(self.z.bits as int, o.z.bits as int),
            r.w.bits == fx_sub_val(self.w.bits as int, o.w.bits as int),
    {
        Vec4 { x: self.x.sub(o.x), y: self.y.sub(o.y), z: self.z.sub(o.z), w: self.w.sub(o.w) }
    }

    pub fn mul(self, s: Fx) -> (r: Vec4)
        ensures
            r.x.bits == fx_mul_val(self.x.bits as int, s.bits as int),
            r.y.bits == fx_mul_val(self.y.bits as int, s.bits as int),
            r.z.bits == fx_mul_val(self.z.bits as int, s.bits as int),
            r.w.bits == fx_mul_val(self.w.bits as int, s.bits as int),
    {
        Vec4 { x: self.x.mul(s), y: self.y.mul(s), z: self.z.mul(s), w: self.w.mul(s) }
    }

    pub fn div_fx(self, s: Fx) -> (r: Vec4)
        ensures
            r.x.bits == fx_div_val(self.x.bits as int, s.bits as int),
            r.y.bits == fx_div_val(self.y.bits as int, s.bits as int),
            r.z.bits == fx_div_val(self.z.bits as int, s.bits as int),
            r.w.bits == fx_div_val(self.w.bits as int, s.bits as int),
    {
        Vec4 { x: self.x.div(s), y: self.y.div(s), z: self.z.div(s), w: self.w.div(s) }
    }

    /// The first three lanes.
    pub fn truncated_to_vec3(self) -> (r: Vec3)
        ensures
            r.x == self.x && r.y == self.y && r.z == self.z,
    {
        Vec3 { x: self.x, y: self.y, z: self.z }
    }

    /// The first two lanes.
    pub fn truncate_to_vec2(self) -> (r: Vec2)
        ensures
            r.x == self.x && r.y == self.y,
    {
        Vec2 { x: self.x, y: self.y }
    }

    /// Dot product, summed left to right.
    pub fn dot(self, o: &Vec4) -> (r: Fx)
        ensures
            r.bits == dot4_val(self, *o),
    {
        self.x.mul(o.x).add(self.y.mul(o.y)).add(self.z.mul(o.z)).add(self.w.mul(o.w))
    }

    /// Euclidean length: the fixed-point square root of the self dot.
    pub fn length(self) -> (r: Fx)
        ensures
            r.bits == sqrt_val(dot4_val(self, self) * (FX_ONE as int)),
            r.bits >= 0,
    {
        let d = self.dot(&self);
        proof {
            lemma_self_dot4_nonneg(self);
        }
        d.sqrt()
    }

    /// The vector scaled to unit length; each lane is the exact
    /// fixed-point quotient by the length.
    pub fn normalize(self) -> (r: Vec4)
        ensures
            r.x.bits == fx_div_val(
                self.x.bits as int,
                sqrt_val(dot4_val(self, self) * (FX_ONE as int)),
            ),
            r.y.bits == fx_div_val(
                self.y.bits as int,
                sqrt_val(dot4_val(self, self) * (FX_ONE as int)),
            ),
            r.z.bits == fx_div_val(
                self.z.bits as int,
                sqrt_val(dot4_val(self, self) * (FX_ONE as int)),
            ),
            r.w.bits == fx_div_val(
                self.w.bits as int,
                sqrt_val(dot4_val(self, self) * (FX_ONE as int)),
            ),
    {
        let l = self.length();
        Vec4 { x: self.x.div(l), y: self.y.div(l), z: self.z.div(l), w: self.w.div(l) }
    }
}

} // verus!
