//! A wireframe edge: two vertices and the per-unit interpolation
//! step between them.
use crate::fx::{fx_div_val, fx_mul_val, fx_sub_val, sat64, Fx, FX_ONE};
use crate::shader::{interp_attributes, Vertex};
use vstd::prelude::*;

verus! {

/// Magnitude of a difference of bit values, saturating.
pub open spec fn abs_sat(v: int) -> int {
    if v < 0 {
        sat64(-v)
    } else {
        v
    }
}

/// The per-unit parameter of an edge: the reciprocal of the larger
/// of the two coordinate spans.
pub open spec fn line_t_val(start: Vertex, end: Vertex) -> int {
    let dx = abs_sat(fx_sub_val(end.position.x.bits as int, start.position.x.bits as int));
    let dy = abs_sat(fx_sub_val(end.position.y.bits as int, start.position.y.bits as int));
    if dx > dy {
        fx_div_val(FX_ONE as int, dx)
    } else {
        fx_div_val(FX_ONE as int, dy)
    }
}

/// An edge between two pipeline vertices, with its interpolation
/// step.
pub struct Line {
    pub start: Vertex,
    pub end: Vertex,
    pub step: Vertex,
}

impl Line {
    /// Build the edge: the step holds `(end - start) * t` in both the
    /// position and every attribute slot, with `t` the reciprocal of
    /// the major span.
    pub fn new(start: Vertex, end: Vertex) -> (r: Line)
        ensures
            r.start == start,
            r.end == end,
            r.step.position.x.bits == fx_mul_val(
                fx_sub_val(end.position.x.bits as int, start.position.x.bits as int),
                line_t_val(start, end),
            ),
            r.step.position.y.bits == fx_mul_val(
                fx_sub_val(end.position.y.bits as int, start.position.y.bits as int),
                line_t_val(start, end),
            ),
            r.step.position.z.bits == fx_mul_val(
                fx_sub_val(end.position.z.bits as int, start.position.z.bits as int),
                line_t_val(start, end),
            ),
            r.step.position.w.bits == fx_mul_val(
                fx_sub_val(end.position.w.bits as int, start.position.w.bits as int),
                line_t_val(start, end),
            ),
            forall|i: int|
                0 <= i < 4 ==> (#[trigger] r.step.attributes.float@[i]).bits == fx_mul_val(
                    fx_sub_val(
                        end.attributes.float@[i].bits as int,
                        start.attributes.float@[i].bits as int,
                    ),
                    line_t_val(start, end),
                ),
            forall|i: int|
                0 <= i < 4 ==> (#[trigger] r.step.attributes.vec2@[i]).x.bits == fx_mul_val(
                    fx_sub_val(
                        end.attributes.vec2@[i].x.bits as int,
                        start.attributes.vec2@[i].x.bits as int,
                    ),
                    line_t_val(start, end),
                ) && r.step.attributes.vec2@[i].y.bits == fx_mul_val(
                    fx_sub_val(
                        end.attributes.vec2@[i].y.bits as int,
                        start.attributes.vec2@[i].y.bits as int,
                    ),
                    line_t_val(start, end),
                ),
            forall|i: int|
                0 <= i < 4 ==> (#[trigger] r.step.attributes.vec3@[i]).x.bits == fx_mul_val(
                    fx_sub_val(
                        end.attributes.vec3@[i].x.bits as int,
                        start.attributes.vec3@[i].x.bits as int,
                    ),
                    line_t_val(start, end),
                ) && r.step.attributes.vec3@[i].y.bits == fx_mul_val(
                    fx_sub_val(
                        end.attributes.vec3@[i].y.bits as int,
                        start.attributes.vec3@[i].y.bits as int,
                    ),
                    line_t_val(start, end),
                ) && r.step.attributes.vec3@[i].z.bits == fx_mul_val(
                    fx_sub_val(
                        end.attributes.vec3@[i].z.bits as int,
                        start.attributes.vec3@[i].z.bits as int,
                    ),
                    line_t_val(start, end),
                ),
            forall|i: int|
                0 <= i < 4 ==> (#[trigger] r.step.attributes.vec4@[i]).x.bits == fx_mul_val(
                    fx_sub_val(
                        end.attributes.vec4@[i].x.bits as int,
                        start.attributes.vec4@[i].x.bits as int,
                    ),
                    line_t_val(start, end),
                ) && r.step.attributes.vec4@[i].y.bits == fx_mul_val(
                    fx_sub_val(
                        end.attributes.vec4@[i].y.bits as int,
                        start.attributes.vec4@[i].y.bits as int,
                    ),
                    line_t_val(start, end),
                ) && r.step.attributes.vec4@[i].z.bits == fx_mul_val(
                    fx_sub_val(
                        end.attributes.vec4@[i].z.bits as int,
                        start.attributes.vec4@[i].z.bits as int,
                    ),
                    line_t_val(start, end),
                ) && r.step.attributes.vec4@[i].w.bits == fx_mul_val(
                    fx_sub_val(
                        end.attributes.vec4@[i].w.bits as int,
                        start.attributes.vec4@[i].w.bits as int,
                    ),
                    line_t_val(start, end),
                ),
    {
        let dx = end.position.x.sub(start.position.x).abs();
        let dy = end.position.y.sub(start.position.y).abs();
        let one = Fx { bits: FX_ONE };
        let t = if dx.bits > dy.bits {
            one.div(dx)
        } else {
            one.div(dy)
        };
        Line {
            start,
            end,
            step: Vertex {
                attributes: interp_attributes(&start.attributes, &end.attributes, t),
                position: end.position.sub(start.position).mul(t),
            },
        }
    }
}

} // verus!
