//! Barycentric coordinates of a sample point against a screen-space
//! triangle, by the standard edge-function formulation.
//!
//! `gamma` is computed as `1 - alpha - beta`, so for any sample the
//! three coordinates of a valid triangle sum to exactly one — the
//! library proves this with no tolerance.
use crate::fx::{fx_add_val, fx_div_val, fx_mul_val, fx_sub_val, Fx, FX_ONE};
use crate::vec::Vec2;
use vstd::prelude::*;

verus! {

/// The denominator of the edge-function formulation.
pub open spec fn bary_denom_val(a: Vec2, b: Vec2, cc: Vec2) -> int {
    fx_add_val(
        fx_mul_val(
            fx_sub_val(b.y.bits as int, cc.y.bits as int),
            fx_sub_val(a.x.bits as int, cc.x.bits as int),
        ),
        fx_mul_val(
            fx_sub_val(cc.x.bits as int, b.x.bits as int),
            fx_sub_val(a.y.bits as int, cc.y.bits as int),
        ),
    )
}

/// The numerator of `alpha` for sample `p`.
pub open spec fn bary_alpha_num_val(p: Vec2, b: Vec2, cc: Vec2) -> int {
    fx_add_val(
        fx_mul_val(
            fx_sub_val(b.y.bits as int, cc.y.bits as int),
            fx_sub_val(p.x.bits as int, cc.x.bits as int),
        ),
        fx_mul_val(
            fx_sub_val(cc.x.bits as int, b.x.bits as int),
            fx_sub_val(p.y.bits as int, cc.y.bits as int),
        ),
    )
}

/// The numerator of `beta` for sample `p`.
pub open spec fn bary_beta_num_val(p: Vec2, a: Vec2, cc: Vec2) -> int {
    fx_add_val(
        fx_mul_val(
            fx_sub_val(cc.y.bits as int, a.y.bits as int),
            fx_sub_val(p.x.bits as int, cc.x.bits as int),
        ),
        fx_mul_val(
            fx_sub_val(a.x.bits as int, cc.x.bits as int),
            fx_sub_val(p.y.bits as int, cc.y.bits as int),
        ),
    )
}

/// Barycentric coordinates of one sample point. A zero denominator
/// marks the triangle degenerate: the sample counts as outside.
#[derive(Clone, Copy, Debug)]
pub struct Barycentric {
    pub alpha: Fx,
    pub beta: Fx,
    pub gamma: Fx,
    pub degenerate: bool,
}

impl Barycentric {
    /// Coordinates of `p` against the triangle `pts[0..3]`.
    pub fn new(p: &Vec2, pts: &[Vec2; 3]) -> (r: Barycentric)
        ensures
            r.degenerate == (bary_denom_val(pts@[0], pts@[1], pts@[2]) == 0),
            !r.degenerate ==> r.alpha.bits == fx_div_val(
                bary_alpha_num_val(*p, pts@[1], pts@[2]),
                bary_denom_val(pts@[0], pts@[1], pts@[2]),
            ),
            !r.degenerate ==> r.beta.bits == fx_div_val(
                bary_beta_num_val(*p, pts@[0], pts@[2]),
                bary_denom_val(pts@[0], pts@[1], pts@[2]),
            ),
            !r.degenerate ==> r.gamma.bits == fx_sub_val(
                fx_sub_val(FX_ONE as int, r.alpha.bits as int),
                r.beta.bits as int,
            ),
    {
        let v0 = pts[0];
        let v1 = pts[1];
        let v2 = pts[2];
        let denom = v1.y.sub(v2.y).mul(v0.x.sub(v2.x)).add(v2.x.sub(v1.x).mul(v0.y.sub(v2.y)));
        if denom.bits == 0 {
            Barycentric {
                alpha: Fx { bits: 0 },
                beta: Fx { bits: 0 },
                gamma: Fx { bits: 0 },
                degenerate: true,
            }
        } else {
            let alpha = v1.y.sub(v2.y).mul(p.x.sub(v2.x)).add(v2.x.sub(v1.x).mul(p.y.sub(v2.y)))
                .div(denom);
            let beta = v2.y.sub(v0.y).mul(p.x.sub(v2.x)).add(v0.x.sub(v2.x).mul(p.y.sub(v2.y)))
                .div(denom);
            let gamma = Fx { bits: FX_ONE }.sub(alpha).sub(beta);
            Barycentric { alpha, beta, gamma, degenerate: false }
        }
    }

    pub fn alpha(&self) -> (r: Fx)
        ensures
            r == self.alpha,
    {
        self.alpha
    }

    pub fn beta(&self) -> (r: Fx)
        ensures
            r == self.beta,
    {
        self.beta
    }

    pub fn gamma(&self) -> (r: Fx)
        ensures
            r == self.gamma,
    {
        self.gamma
    }

    /// The sample lies inside the triangle: not degenerate and no
    /// coordinate negative.
    pub fn is_inside(&self) -> (r: bool)
        ensures
            r == (!self.degenerate && self.alpha.bits >= 0 && self.beta.bits >= 0
                && self.gamma.bits >= 0),
    {
        !self.degenerate && self.alpha.bits >= 0 && self.beta.bits >= 0 && self.gamma.bits >= 0
    }

    /// The same test under the name the rasterizer uses.
    pub fn is_valid(&self) -> (r: bool)
        ensures
            r == (!self.degenerate && self.alpha.bits >= 0 && self.beta.bits >= 0
                && self.gamma.bits >= 0),
    {
        self.is_inside()
    }

    /// Weight three values by the three coordinates, summed left to
    /// right.
    pub fn apply_weight(&self, vals: &[Fx; 3]) -> (r: Fx)
        ensures
            r.bits == fx_add_val(
                fx_add_val(
                    fx_mul_val(vals@[0].bits as int, self.alpha.bits as int),
                    fx_mul_val(vals@[1].bits as int, self.beta.bits as int),
                ),
                fx_mul_val(vals@[2].bits as int, self.gamma.bits as int),
            ),
    {
        vals[0].mul(self.alpha).add(vals[1].mul(self.beta)).add(vals[2].mul(self.gamma))
    }
}

/// Inside a valid triangle the three coordinates sum to exactly one,
/// and each lies in `[0, 1]`.
pub proof fn lemma_barycentric_partition(b: Barycentric)
    requires
        !b.degenerate,
        b.gamma.bits == fx_sub_val(
            fx_sub_val(FX_ONE as int, b.alpha.bits as int),
            b.beta.bits as int,
        ),
        b.alpha.bits >= 0,
        b.beta.bits >= 0,
        b.gamma.bits >= 0,
    ensures
        b.alpha.bits + b.beta.bits + b.gamma.bits == FX_ONE,
        0 <= b.alpha.bits <= FX_ONE,
        0 <= b.beta.bits <= FX_ONE,
        0 <= b.gamma.bits <= FX_ONE,
{
}

} // verus!
