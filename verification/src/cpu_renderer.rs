//! The CPU rasterizer: the single renderer type of the library.
//!
//! `draw_triangle` walks the vertex slice three vertices at a time:
//! vertex shading, the model, view and projection transforms,
//! backface culling, perspective divide and viewport mapping, then a
//! scan of the clamped screen bounding box with barycentric coverage,
//! perspective-correct attribute interpolation, depth test, fragment
//! shading and the framebuffer write.
//!
//! Its contract states the frame discipline of the pipeline: the
//! buffers keep their shape, a pixel outside a triangle's clamped
//! bounding box is never touched, the depth of a pixel never grows,
//! and — with wireframe off — a pixel whose color changed had its
//! depth strictly lowered.
use crate::barycentric::Barycentric;
use crate::bresenham_line::{draw_line, same_pixel};
use crate::camera::Camera;
use crate::fx::{fx_add_val, fx_div_val, fx_mul_val, Fx, FX_ONE};
use crate::image::{ColorAttachment, DepthAttachment};
use crate::mat::{cells, Mat4};
use crate::renderer::{
    should_cull, FaceCull, FrontFace, RendererDerive, RendererDraw, RendererInterface, Viewport,
};
use crate::shader::{Attributes, FragmentShading, Shader, UniformValue, Uniforms, Vertex};
use crate::texture::TextureStore;
use crate::vec::{Vec2, Vec4};
use vstd::prelude::*;

verus! {

/// The smallest whole coordinate of the clamped screen bounding box
/// along one axis: the ceiling of the least lane, floored at zero.
pub open spec fn aabb_min_val(a: int, b: int, c: int) -> int {
    let m = if a <= b && a <= c {
        a
    } else if b <= c {
        b
    } else {
        c
    };
    let up = -((-m) / (FX_ONE as int));
    if up < 0 {
        0
    } else {
        up
    }
}

/// The largest whole coordinate of the clamped screen bounding box
/// along one axis: the floor of the greatest lane, capped at the last
/// pixel.
pub open spec fn aabb_max_val(a: int, b: int, c: int, extent: int) -> int {
    let m = if a >= b && a >= c {
        a
    } else if b >= c {
        b
    } else {
        c
    };
    let dn = m / (FX_ONE as int);
    if dn > extent - 1 {
        extent - 1
    } else {
        dn
    }
}

/// Whether pixel `(x, y)` lies in the scanned region of a projected
/// triangle: the clamped bounding box, both bounds inclusive.
pub open spec fn in_scan_region(tri: [Vertex; 3], w: int, h: int, x: int, y: int) -> bool {
    let xmin = aabb_min_val(
        tri[0].position.x.bits as int,
        tri[1].position.x.bits as int,
        tri[2].position.x.bits as int,
    );
    let xmax = aabb_max_val(
        tri[0].position.x.bits as int,
        tri[1].position.x.bits as int,
        tri[2].position.x.bits as int,
        w,
    );
    let ymin = aabb_min_val(
        tri[0].position.y.bits as int,
        tri[1].position.y.bits as int,
        tri[2].position.y.bits as int,
    );
    let ymax = aabb_max_val(
        tri[0].position.y.bits as int,
        tri[1].position.y.bits as int,
        tri[2].position.y.bits as int,
        h,
    );
    xmin <= x <= xmax && ymin <= y <= ymax
}

/// One perspective-correct slot: the three vertex values are
/// weighted by the barycentric coordinates over the vertex depths,
/// summed left to right, and scaled back by the interpolated depth.
pub open spec fn persp_slot_val(
    a0: int,
    a1: int,
    a2: int,
    alpha: int,
    beta: int,
    gamma: int,
    z0: int,
    z1: int,
    z2: int,
    z: int,
) -> int {
    fx_mul_val(
        fx_add_val(
            fx_add_val(
                fx_div_val(fx_mul_val(a0, alpha), z0),
                fx_div_val(fx_mul_val(a1, beta), z1),
            ),
            fx_div_val(fx_mul_val(a2, gamma), z2),
        ),
        z,
    )
}

/// Perspective-correct interpolation of the attribute record: each
/// slot is the barycentric sum of the slot over the inverse depths,
/// scaled back by the interpolated depth.
pub fn perspective_correct_and_barycentric_interpolate(
    z: Fx,
    vertices: &[Vertex; 3],
    barycentric: &Barycentric,
) -> (r: Attributes)
    ensures
        forall|i: int|
            0 <= i < 4 ==> (#[trigger] r.float@[i]).bits == persp_slot_val(
                vertices@[0].attributes.float@[i].bits as int,
                vertices@[1].attributes.float@[i].bits as int,
                vertices@[2].attributes.float@[i].bits as int,
                barycentric.alpha.bits as int,
                barycentric.beta.bits as int,
                barycentric.gamma.bits as int,
                vertices@[0].position.z.bits as int,
                vertices@[1].position.z.bits as int,
                vertices@[2].position.z.bits as int,
                z.bits as int,
            ),
        forall|i: int|
            0 <= i < 4 ==> (#[trigger] r.vec2@[i]).x.bits == persp_slot_val(
                vertices@[0].attributes.vec2@[i].x.bits as int,
                vertices@[1].attributes.vec2@[i].x.bits as int,
                vertices@[2].attributes.vec2@[i].x.bits as int,
                barycentric.alpha.bits as int,
                barycentric.beta.bits as int,
                barycentric.gamma.bits as int,
                vertices@[0].position.z.bits as int,
                vertices@[1].position.z.bits as int,
                vertices@[2].position.z.bits as int,
                z.bits as int,
            ) && r.vec2@[i].y.bits == persp_slot_val(
                vertices@[0].attributes.vec2@[i].y.bits as int,
                vertices@[1].attributes.vec2@[i].y.bits as int,
                vertices@[2].attributes.vec2@[i].y.bits as int,
                barycentric.alpha.bits as int,
                barycentric.beta.bits as int,
                barycentric.gamma.bits as int,
                vertices@[0].position.z.bits as int,
                vertices@[1].position.z.bits as int,
                vertices@[2].position.z.bits as int,
                z.bits as int,
            ),
        forall|i: int|
            0 <= i < 4 ==> (#[trigger] r.vec3@[i]).x.bits == persp_slot_val(
            vertices@[0].attributes.vec3@[i].x.bits as int,
            vertices@[1].attributes.vec3@[i].x.bits as int,
            vertices@[2].attributes.vec3@[i].x.bits as int,
            barycentric.alpha.bits as int,
            barycentric.beta.bits as int,
            barycentric.gamma.bits as int,
            vertices@[0].position.z.bits as int,
            vertices@[1].position.z.bits as int,
            vertices@[2].position.z.bits as int,
            z.bits as int,
        ) && r.vec3@[i].y.bits == persp_slot_val(
            vertices@[0].attributes.vec3@[i].y.bits as int,
            vertices@[1].attributes.vec3@[i].y.bits as int,
            vertices@[2].attributes.vec3@[i].y.bits as int,
            barycentric.alpha.bits as int,
            barycentric.beta.bits as int,
            barycentric.gamma.bits as int,
            vertices@[0].position.z.bits as int,
            vertices@[1].position.z.bits as int,
            vertices@[2].position.z.bits as int,
            z.bits as int,
        ) && r.vec3@[i].z.bits == persp_slot_val(
            vertices@[0].attributes.vec3@[i].z.bits as int,
            vertices@[1].attributes.vec3@[i].z.bits as int,
            vertices@[2].attributes.vec3@[i].z.bits as int,
            barycentric.alpha.bits as int,
            barycentric.beta.bits as int,
            barycentric.gamma.bits as int,
            vertices@[0].position.z.bits as int,
            vertices@[1].position.z.bits as int,
            vertices@[2].position.z.bits as int,
            z.bits as int,
        ),
        forall|i: int|
            0 <= i < 4 ==> (#[trigger] r.vec4@[i]).x.bits == persp_slot_val(
            vertices@[0].attributes.vec4@[i].x.bits as int,
            vertices@[1].attributes.vec4@[i].x.bits as int,
            vertices@[2].attributes.vec4@[i].x.bits as int,
            barycentric.alpha.bits as int,
            barycentric.beta.bits as int,
            barycentric.gamma.bits as int,
            vertices@[0].position.z.bits as int,
            vertices@[1].position.z.bits as int,
            vertices@[2].position.z.bits as int,
            z.bits as int,
        ) && r.vec4@[i].y.bits == persp_slot_val(
            vertices@[0].attributes.vec4@[i].y.bits as int,
            vertices@[1].attributes.vec4@[i].y.bits as int,
            vertices@[2].attributes.vec4@[i].y.bits as int,
            barycentric.alpha.bits as int,
            barycentric.beta.bits as int,
            barycentric.gamma.bits as int,
            vertices@[0].position.z.bits as int,
            vertices@[1].position.z.bits as int,
            vertices@[2].position.z.bits as int,
            z.bits as int,
        ) && r.vec4@[i].z.bits == persp_slot_val(
            vertices@[0].attributes.vec4@[i].z.bits as int,
            vertices@[1].attributes.vec4@[i].z.bits as int,
            vertices@[2].attributes.vec4@[i].z.bits as int,
            barycentric.alpha.bits as int,
            barycentric.beta.bits as int,
            barycentric.gamma.bits as int,
            vertices@[0].position.z.bits as int,
            vertices@[1].position.z.bits as int,
            vertices@[2].position.z.bits as int,
            z.bits as int,
        ) && r.vec4@[i].w.bits == persp_slot_val(
            vertices@[0].attributes.vec4@[i].w.bits as int,
            vertices@[1].attributes.vec4@[i].w.bits as int,
            vertices@[2].attributes.vec4@[i].w.bits as int,
            barycentric.alpha.bits as int,
            barycentric.beta.bits as int,
            barycentric.gamma.bits as int,
            vertices@[0].position.z.bits as int,
            vertices@[1].position.z.bits as int,
            vertices@[2].position.z.bits as int,
            z.bits as int,
        ),
{
    let mut attrs = Attributes::zeroed();
    let z0 = vertices[0].position.z;
    let z1 = vertices[1].position.z;
    let z2 = vertices[2].position.z;
    let a = barycentric.alpha();
    let b = barycentric.beta();
    let g = barycentric.gamma();
    let mut index: usize = 0;
    while index < 4
        invariant
            index <= 4,
            z0 == vertices@[0].position.z,
            z1 == vertices@[1].position.z,
            z2 == vertices@[2].position.z,
            a == barycentric.alpha,
            b == barycentric.beta,
            g == barycentric.gamma,
            forall|i: int|
                0 <= i < index ==> (#[trigger] attrs.float@[i]).bits == persp_slot_val(
                    vertices@[0].attributes.float@[i].bits as int,
                    vertices@[1].attributes.float@[i].bits as int,
                    vertices@[2].attributes.float@[i].bits as int,
                    barycentric.alpha.bits as int,
                    barycentric.beta.bits as int,
                    barycentric.gamma.bits as int,
                    vertices@[0].position.z.bits as int,
                    vertices@[1].position.z.bits as int,
                    vertices@[2].position.z.bits as int,
                    z.bits as int,
                ),
            forall|i: int|
                0 <= i < index ==> (#[trigger] attrs.vec2@[i]).x.bits == persp_slot_val(
                    vertices@[0].attributes.vec2@[i].x.bits as int,
                    vertices@[1].attributes.vec2@[i].x.bits as int,
                    vertices@[2].attributes.vec2@[i].x.bits as int,
                    barycentric.alpha.bits as int,
                    barycentric.beta.bits as int,
                    barycentric.gamma.bits as int,
                    vertices@[0].position.z.bits as int,
                    vertices@[1].position.z.bits as int,
                    vertices@[2].position.z.bits as int,
                    z.bits as int,
                ) && attrs.vec2@[i].y.bits == persp_slot_val(
                    vertices@[0].attributes.vec2@[i].y.bits as int,
                    vertices@[1].attributes.vec2@[i].y.bits as int,
                    vertices@[2].attributes.vec2@[i].y.bits as int,
                    barycentric.alpha.bits as int,
                    barycentric.beta.bits as int,
                    barycentric.gamma.bits as int,
                    vertices@[0].position.z.bits as int,
                    vertices@[1].position.z.bits as int,
                    vertices@[2].position.z.bits as int,
                    z.bits as int,
                ),
            forall|i: int|
                0 <= i < index ==> (#[trigger] attrs.vec3@[i]).x.bits == persp_slot_val(
                vertices@[0].attributes.vec3@[i].x.bits as int,
                vertices@[1].attributes.vec3@[i].x.bits as int,
                vertices@[2].attributes.vec3@[i].x.bits as int,
                barycentric.alpha.bits as int,
                barycentric.beta.bits as int,
                barycentric.gamma.bits as int,
                vertices@[0].position.z.bits as int,
                vertices@[1].position.z.bits as int,
                vertices@[2].position.z.bits as int,
                z.bits as int,
            ) && attrs.vec3@[i].y.bits == persp_slot_val(
                vertices@[0].attributes.vec3@[i].y.bits as int,
                vertices@[1].attributes.vec3@[i].y.bits as int,
                vertices@[2].attributes.vec3@[i].y.bits as int,
                barycentric.alpha.bits as int,
                barycentric.beta.bits as int,
                barycentric.gamma.bits as int,
                vertices@[0].position.z.bits as int,
                vertices@[1].position.z.bits as int,
                vertices@[2].position.z.bits as int,
                z.bits as int,
            ) && attrs.vec3@[i].z.bits == persp_slot_val(
                vertices@[0].attributes.vec3@[i].z.bits as int,
                vertices@[1].attributes.vec3@[i].z.bits as int,
                vertices@[2].attributes.vec3@[i].z.bits as int,
                barycentric.alpha.bits as int,
                barycentric.beta.bits as int,
                barycentric.gamma.bits as int,
                vertices@[0].position.z.bits as int,
                vertices@[1].position.z.bits as int,
                vertices@[2].position.z.bits as int,
                z.bits as int,
            ),
            forall|i: int|
                0 <= i < index ==> (#[trigger] attrs.vec4@[i]).x.bits == persp_slot_val(
                vertices@[0].attributes.vec4@[i].x.bits as int,
                vertices@[1].attributes.vec4@[i].x.bits as int,
                vertices@[2].attributes.vec4@[i].x.bits as int,
                barycentric.alpha.bits as int,
                barycentric.beta.bits as int,
                barycentric.gamma.bits as int,
                vertices@[0].position.z.bits as int,
                vertices@[1].position.z.bits as int,
                vertices@[2].position.z.bits as int,
                z.bits as int,
            ) && attrs.vec4@[i].y.bits == persp_slot_val(
                vertices@[0].attributes.vec4@[i].y.bits as int,
                vertices@[1].attributes.vec4@[i].y.bits as int,
                vertices@[2].attributes.vec4@[i].y.bits as int,
                barycentric.alpha.bits as int,
                barycentric.beta.bits as int,
                barycentric.gamma.bits as int,
                vertices@[0].position.z.bits as int,
                vertices@[1].position.z.bits as int,
                vertices@[2].position.z.bits as int,
                z.bits as int,
            ) && attrs.vec4@[i].z.bits == persp_slot_val(
                vertices@[0].attributes.vec4@[i].z.bits as int,
                vertices@[1].attributes.vec4@[i].z.bits as int,
                vertices@[2].attributes.vec4@[i].z.bits as int,
                barycentric.alpha.bits as int,
                barycentric.beta.bits as int,
                barycentric.gamma.bits as int,
                vertices@[0].position.z.bits as int,
                vertices@[1].position.z.bits as int,
                vertices@[2].position.z.bits as int,
                z.bits as int,
            ) && attrs.vec4@[i].w.bits == persp_slot_val(
                vertices@[0].attributes.vec4@[i].w.bits as int,
                vertices@[1].attributes.vec4@[i].w.bits as int,
                vertices@[2].attributes.vec4@[i].w.bits as int,
                barycentric.alpha.bits as int,
                barycentric.beta.bits as int,
                barycentric.gamma.bits as int,
                vertices@[0].position.z.bits as int,
                vertices@[1].position.z.bits as int,
                vertices@[2].position.z.bits as int,
                z.bits as int,
            ),
        decreases 4 - index,
    {
        let f = vertices[0].attributes.float[index].mul(a).div(z0).add(
            vertices[1].attributes.float[index].mul(b).div(z1),
        ).add(vertices[2].attributes.float[index].mul(g).div(z2)).mul(z);
        attrs.float[index] = f;
        let v2 = vertices[0].attributes.vec2[index].mul(a).div_fx(z0).add(
            vertices[1].attributes.vec2[index].mul(b).div_fx(z1),
        ).add(vertices[2].attributes.vec2[index].mul(g).div_fx(z2)).mul(z);
        attrs.vec2[index] = v2;
        let v3 = vertices[0].attributes.vec3[index].mul(a).div_fx(z0).add(
            vertices[1].attributes.vec3[index].mul(b).div_fx(z1),
        ).add(vertices[2].attributes.vec3[index].mul(g).div_fx(z2)).mul(z);
        attrs.vec3[index] = v3;
        let v4 = vertices[0].attributes.vec4[index].mul(a).div_fx(z0).add(
            vertices[1].attributes.vec4[index].mul(b).div_fx(z1),
        ).add(vertices[2].attributes.vec4[index].mul(g).div_fx(z2)).mul(z);
        attrs.vec4[index] = v4;
        index = index + 1;
    }
    attrs
}

/// Write one fragment: the color bytes and the depth of `(x, y)`;
/// every other pixel of both attachments is untouched.
fn write_fragment(
    color: &mut ColorAttachment,
    depth: &mut DepthAttachment,
    x: i64,
    y: i64,
    c: &Vec4,
    z: Fx,
)
    requires
        old(color).wf(),
        old(depth).wf(),
        old(depth).width == old(color).width,
        old(depth).height == old(color).height,
        0 <= x < old(color).width,
        0 <= y < old(color).height,
    ensures
        final(color).wf(),
        final(depth).wf(),
        final(color).width == old(color).width,
        final(color).height == old(color).height,
        final(depth).width == old(depth).width,
        final(depth).height == old(depth).height,
        final(depth).at(x as int, y as int) == z.bits,
        crate::bresenham_line::painted(*final(color), x as int, y as int, *c),
        forall|xx: int, yy: int|
            0 <= xx < old(color).width && 0 <= yy < old(color).height && (xx, yy) != (
            x as int,
            y as int,
            ) ==> same_pixel(*final(color), *old(color), xx, yy),
        forall|xx: int, yy: int|
            0 <= xx < old(color).width && 0 <= yy < old(color).height && (xx, yy) != (
            x as int,
            y as int,
            ) ==> final(depth).at(xx, yy) == old(depth).at(xx, yy),
    {
        color.set(x as u32, y as u32, c);
        depth.set(x as u32, y as u32, z);
        proof {
            crate::image::lemma_pixel_index_bound(
                color.width as int,
                color.height as int,
                x as int,
                y as int,
            );
            crate::image::lemma_depth_index_bound(
                depth.width as int,
                depth.height as int,
                x as int,
                y as int,
            );
            assert forall|xx: int, yy: int|
                0 <= xx < old(color).width && 0 <= yy < old(color).height && (xx, yy) != (
                x as int,
                y as int,
            ) implies same_pixel(*color, *old(color), xx, yy) by {
                crate::image::lemma_pixel_index_distinct(
                    color.width as int,
                    color.height as int,
                    x as int,
                    y as int,
                    xx,
                    yy,
                );
                crate::image::lemma_pixel_index_bound(color.width as int, color.height as int, xx, yy);
            }
            assert forall|xx: int, yy: int|
                0 <= xx < old(color).width && 0 <= yy < old(color).height && (xx, yy) != (
                x as int,
                y as int,
            ) implies depth.at(xx, yy) == old(depth).at(xx, yy) by {
                crate::image::lemma_pixel_index_distinct(
                    color.width as int,
                    color.height as int,
                    x as int,
                    y as int,
                    xx,
                    yy,
                );
                crate::image::lemma_pixel_index_bound(color.width as int, color.height as int, xx, yy);
                crate::image::lemma_depth_index_distinct(
                    depth.width as int,
                    depth.height as int,
                    x as int,
                    y as int,
                    xx,
                    yy,
                );
                crate::image::lemma_depth_index_bound(depth.width as int, depth.height as int, xx, yy);
            }
        }
    }

/// The screen-space point of vertex `i` of a projected triangle.
pub open spec fn tri_pt(tri: [Vertex; 3], i: int) -> Vec2 {
    Vec2 { x: tri[i].position.x, y: tri[i].position.y }
}

/// The sample point of pixel `(x, y)`: its integer coordinates in
/// fixed point.
pub open spec fn sample_pt(x: int, y: int) -> Vec2 {
    Vec2 {
        x: Fx { bits: (x * (FX_ONE as int)) as i64 },
        y: Fx { bits: (y * (FX_ONE as int)) as i64 },
    }
}

/// The edge-function denominator of the projected triangle.
pub open spec fn tri_denom_val(tri: [Vertex; 3]) -> int {
    crate::barycentric::bary_denom_val(tri_pt(tri, 0), tri_pt(tri, 1), tri_pt(tri, 2))
}

/// The first barycentric coordinate of pixel `(x, y)`.
pub open spec fn sample_alpha_val(tri: [Vertex; 3], x: int, y: int) -> int {
    crate::fx::fx_div_val(
        crate::barycentric::bary_alpha_num_val(sample_pt(x, y), tri_pt(tri, 1), tri_pt(tri, 2)),
        tri_denom_val(tri),
    )
}

/// The second barycentric coordinate of pixel `(x, y)`.
pub open spec fn sample_beta_val(tri: [Vertex; 3], x: int, y: int) -> int {
    crate::fx::fx_div_val(
        crate::barycentric::bary_beta_num_val(sample_pt(x, y), tri_pt(tri, 0), tri_pt(tri, 2)),
        tri_denom_val(tri),
    )
}

/// The third barycentric coordinate: one minus the other two.
pub open spec fn sample_gamma_val(tri: [Vertex; 3], x: int, y: int) -> int {
    crate::fx::fx_sub_val(
        crate::fx::fx_sub_val(FX_ONE as int, sample_alpha_val(tri, x, y)),
        sample_beta_val(tri, x, y),
    )
}

/// Whether pixel `(x, y)` is covered: the triangle is not degenerate
/// and no barycentric coordinate is negative.
pub open spec fn sample_covered(tri: [Vertex; 3], x: int, y: int) -> bool {
    &&& tri_denom_val(tri) != 0
    &&& sample_alpha_val(tri, x, y) >= 0
    &&& sample_beta_val(tri, x, y) >= 0
    &&& sample_gamma_val(tri, x, y) >= 0
}

/// The interpolated depth of pixel `(x, y)`: the reciprocal of the
/// barycentric sum of the inverse vertex depths.
pub open spec fn sample_z_val(tri: [Vertex; 3], x: int, y: int) -> int {
    crate::fx::fx_div_val(
        FX_ONE as int,
        fx_add_val(
            fx_add_val(
                fx_div_val(sample_alpha_val(tri, x, y), tri[0].position.z.bits as int),
                fx_div_val(sample_beta_val(tri, x, y), tri[1].position.z.bits as int),
            ),
            fx_div_val(sample_gamma_val(tri, x, y), tri[2].position.z.bits as int),
        ),
    )
}

/// Every slot of `a` holds the perspective-correct interpolation of
/// the triangle's attributes at pixel `(x, y)`.
pub open spec fn sample_attrs_ok(tri: [Vertex; 3], x: int, y: int, a: Attributes) -> bool {
    let al = sample_alpha_val(tri, x, y);
    let be = sample_beta_val(tri, x, y);
    let ga = sample_gamma_val(tri, x, y);
    let z0 = tri[0].position.z.bits as int;
    let z1 = tri[1].position.z.bits as int;
    let z2 = tri[2].position.z.bits as int;
    let z = sample_z_val(tri, x, y);
    &&& forall|i: int|
        0 <= i < 4 ==> (#[trigger] a.float@[i]).bits == persp_slot_val(
            tri[0].attributes.float@[i].bits as int,
            tri[1].attributes.float@[i].bits as int,
            tri[2].attributes.float@[i].bits as int,
            al,
            be,
            ga,
            z0,
            z1,
            z2,
            z,
        )
    &&& forall|i: int|
        0 <= i < 4 ==> (#[trigger] a.vec2@[i]).x.bits == persp_slot_val(
            tri[0].attributes.vec2@[i].x.bits as int,
            tri[1].attributes.vec2@[i].x.bits as int,
            tri[2].attributes.vec2@[i].x.bits as int,
            al,
            be,
            ga,
            z0,
            z1,
            z2,
            z,
        ) && a.vec2@[i].y.bits == persp_slot_val(
            tri[0].attributes.vec2@[i].y.bits as int,
            tri[1].attributes.vec2@[i].y.bits as int,
            tri[2].attributes.vec2@[i].y.bits as int,
            al,
            be,
            ga,
            z0,
            z1,
            z2,
            z,
        )
    &&& forall|i: int|
        0 <= i < 4 ==> (#[trigger] a.vec3@[i]).x.bits == persp_slot_val(
            tri[0].attributes.vec3@[i].x.bits as int,
            tri[1].attributes.vec3@[i].x.bits as int,
            tri[2].attributes.vec3@[i].x.bits as int,
            al,
            be,
            ga,
            z0,
            z1,
            z2,
            z,
        ) && a.vec3@[i].y.bits == persp_slot_val(
            tri[0].attributes.vec3@[i].y.bits as int,
            tri[1].attributes.vec3@[i].y.bits as int,
            tri[2].attributes.vec3@[i].y.bits as int,
            al,
            be,
            ga,
            z0,
            z1,
            z2,
            z,
        ) && a.vec3@[i].z.bits == persp_slot_val(
            tri[0].attributes.vec3@[i].z.bits as int,
            tri[1].attributes.vec3@[i].z.bits as int,
            tri[2].attributes.vec3@[i].z.bits as int,
            al,
            be,
            ga,
            z0,
            z1,
            z2,
            z,
        )
    &&& forall|i: int|
        0 <= i < 4 ==> (#[trigger] a.vec4@[i]).x.bits == persp_slot_val(
            tri[0].attributes.vec4@[i].x.bits as int,
            tri[1].attributes.vec4@[i].x.bits as int,
            tri[2].attributes.vec4@[i].x.bits as int,
            al,
            be,
            ga,
            z0,
            z1,
            z2,
            z,
        ) && a.vec4@[i].y.bits == persp_slot_val(
            tri[0].attributes.vec4@[i].y.bits as int,
            tri[1].attributes.vec4@[i].y.bits as int,
            tri[2].attributes.vec4@[i].y.bits as int,
            al,
            be,
            ga,
            z0,
            z1,
            z2,
            z,
        ) && a.vec4@[i].z.bits == persp_slot_val(
            tri[0].attributes.vec4@[i].z.bits as int,
            tri[1].attributes.vec4@[i].z.bits as int,
            tri[2].attributes.vec4@[i].z.bits as int,
            al,
            be,
            ga,
            z0,
            z1,
            z2,
            z,
        ) && a.vec4@[i].w.bits == persp_slot_val(
            tri[0].attributes.vec4@[i].w.bits as int,
            tri[1].attributes.vec4@[i].w.bits as int,
            tri[2].attributes.vec4@[i].w.bits as int,
            al,
            be,
            ga,
            z0,
            z1,
            z2,
            z,
        )
}

/// Whether the scan writes pixel `(x, y)`: it lies in the scanned
/// region, the sample is covered, and the interpolated depth beats
/// the depth stored before the scan.
#[verifier::opaque]
pub open spec fn fragment_written(
    tri: [Vertex; 3],
    d0: DepthAttachment,
    w: int,
    h: int,
    x: int,
    y: int,
) -> bool {
    &&& in_scan_region(tri, w, h, x, y)
    &&& sample_covered(tri, x, y)
    &&& sample_z_val(tri, x, y) < d0.at(x, y)
}

/// Pixel `(x, y)` holds the shaded fragment of the triangle: the
/// interpolated depth, and the quantized channels of the fragment
/// program's output on the perspective-correct attribute record.
#[verifier::opaque]
pub open spec fn holds_fragment(
    tri: [Vertex; 3],
    c: ColorAttachment,
    d: DepthAttachment,
    fs: FragmentShading,
    ts: TextureStore,
    x: int,
    y: int,
) -> bool {
    &&& d.at(x, y) == sample_z_val(tri, x, y)
    &&& exists|a: Attributes|
        sample_attrs_ok(tri, x, y, a) && crate::bresenham_line::painted(
            c,
            x,
            y,
            crate::shader::fragment_output_val(fs, a, ts),
        )
}

/// The scan's invariant over the pixels already visited (those in
/// the region strictly before the cursor `(cx, cy)` in row-major
/// order): a visited pixel that met the write condition holds its
/// fragment; every other pixel holds its entry bytes and depth.
pub open spec fn scan_state_ok(
    tri: [Vertex; 3],
    c0: ColorAttachment,
    d0: DepthAttachment,
    c: ColorAttachment,
    d: DepthAttachment,
    fs: FragmentShading,
    ts: TextureStore,
    w: int,
    h: int,
    cx: int,
    cy: int,
) -> bool {
    &&& forall|xx: int, yy: int|
        0 <= xx < w && 0 <= yy < h && in_scan_region(tri, w, h, xx, yy) && (yy < cy || (yy == cy
            && xx < cx)) && sample_covered(tri, xx, yy) && sample_z_val(tri, xx, yy) < d0.at(
            xx,
            yy,
        ) ==> #[trigger] holds_fragment(tri, c, d, fs, ts, xx, yy)
    &&& forall|xx: int, yy: int|
        0 <= xx < w && 0 <= yy < h && !(in_scan_region(tri, w, h, xx, yy) && (yy < cy || (yy == cy
            && xx < cx)) && sample_covered(tri, xx, yy) && sample_z_val(tri, xx, yy) < d0.at(
            xx,
            yy,
        )) ==> #[trigger] same_pixel(c, c0, xx, yy)
    &&& forall|xx: int, yy: int|
        0 <= xx < w && 0 <= yy < h && !(in_scan_region(tri, w, h, xx, yy) && (yy < cy || (yy == cy
            && xx < cx)) && sample_covered(tri, xx, yy) && sample_z_val(tri, xx, yy) < d0.at(
            xx,
            yy,
        )) ==> #[trigger] d.at(xx, yy) == d0.at(xx, yy)
}

/// Scan the clamped bounding box of one projected triangle and shade
/// the covered, depth-passing pixels. Every pixel that meets the
/// write condition afterwards holds its interpolated depth and the
/// quantized fragment color; every other pixel of both attachments
/// is untouched. In consequence depth never grows, and a pixel whose
/// color changed had its depth strictly lowered.
#[verifier::rlimit(100)]
pub fn fill_triangle(
    color: &mut ColorAttachment,
    depth: &mut DepthAttachment,
    tri: &[Vertex; 3],
    shader: &Shader,
    uniforms: &Uniforms,
    texture_store: &TextureStore,
)
    requires
        old(color).wf(),
        old(depth).wf(),
        old(depth).width == old(color).width,
        old(depth).height == old(color).height,
        texture_store.wf(),
    ensures
        final(color).wf(),
        final(depth).wf(),
        final(color).width == old(color).width,
        final(color).height == old(color).height,
        final(depth).width == old(depth).width,
        final(depth).height == old(depth).height,
        forall|xx: int, yy: int|
            0 <= xx < old(color).width && 0 <= yy < old(color).height && fragment_written(
                *tri,
                *old(depth),
                old(color).width as int,
                old(color).height as int,
                xx,
                yy,
            ) ==> #[trigger] holds_fragment(
                *tri,
                *final(color),
                *final(depth),
                shader.fragment_shading,
                *texture_store,
                xx,
                yy,
            ),
        forall|xx: int, yy: int|
            0 <= xx < old(color).width && 0 <= yy < old(color).height && !fragment_written(
                *tri,
                *old(depth),
                old(color).width as int,
                old(color).height as int,
                xx,
                yy,
            ) ==> #[trigger] same_pixel(*final(color), *old(color), xx, yy),
        forall|xx: int, yy: int|
            0 <= xx < old(color).width && 0 <= yy < old(color).height && !fragment_written(
                *tri,
                *old(depth),
                old(color).width as int,
                old(color).height as int,
                xx,
                yy,
            ) ==> #[trigger] final(depth).at(xx, yy) == old(depth).at(xx, yy),
        forall|xx: int, yy: int|
            0 <= xx < old(color).width && 0 <= yy < old(color).height && !in_scan_region(
                *tri,
                old(color).width as int,
                old(color).height as int,
                xx,
                yy,
            ) ==> same_pixel(*final(color), *old(color), xx, yy),
        forall|xx: int, yy: int|
            0 <= xx < old(color).width && 0 <= yy < old(color).height && !in_scan_region(
                *tri,
                old(color).width as int,
                old(color).height as int,
                xx,
                yy,
            ) ==> final(depth).at(xx, yy) == old(depth).at(xx, yy),
        forall|xx: int, yy: int|
            0 <= xx < old(color).width && 0 <= yy < old(color).height ==> final(depth).at(xx, yy)
                <= old(depth).at(xx, yy),
        forall|xx: int, yy: int|
            0 <= xx < old(color).width && 0 <= yy < old(color).height && !same_pixel(
                *final(color),
                *old(color),
                xx,
                yy,
            ) ==> final(depth).at(xx, yy) < old(depth).at(xx, yy),
{
    let px0 = tri[0].position;
    let px1 = tri[1].position;
    let px2 = tri[2].position;
    let xmin: i64 = {
        let m = min3(px0.x.bits, px1.x.bits, px2.x.bits);
        let up = Fx { bits: m }.ceil_int();
        if up < 0 {
            0
        } else {
            up
        }
    };
    let w: u32 = color.width();
    let h: u32 = color.height();
    let xmax: i64 = {
        let m = max3(px0.x.bits, px1.x.bits, px2.x.bits);
        let dn = Fx { bits: m }.floor_int();
        if dn > (w as i64) - 1 {
            (w as i64) - 1
        } else {
            dn
        }
    };
    let ymin: i64 = {
        let m = min3(px0.y.bits, px1.y.bits, px2.y.bits);
        let up = Fx { bits: m }.ceil_int();
        if up < 0 {
            0
        } else {
            up
        }
    };
    let ymax: i64 = {
        let m = max3(px0.y.bits, px1.y.bits, px2.y.bits);
        let dn = Fx { bits: m }.floor_int();
        if dn > (h as i64) - 1 {
            (h as i64) - 1
        } else {
            dn
        }
    };
    proof {
        assert(xmin == aabb_min_val(
            tri@[0].position.x.bits as int,
            tri@[1].position.x.bits as int,
            tri@[2].position.x.bits as int,
        ));
        assert(xmax == aabb_max_val(
            tri@[0].position.x.bits as int,
            tri@[1].position.x.bits as int,
            tri@[2].position.x.bits as int,
            w as int,
        ));
    }
    let pts = [
        Vec2 { x: px0.x, y: px0.y },
        Vec2 { x: px1.x, y: px1.y },
        Vec2 { x: px2.x, y: px2.y },
    ];
    proof {
        assert(pts@[0] == tri_pt(*tri, 0));
        assert(pts@[1] == tri_pt(*tri, 1));
        assert(pts@[2] == tri_pt(*tri, 2));
    }
    let ghost wi = old(color).width as int;
    let ghost hi = old(color).height as int;
    let mut y: i64 = ymin;
    while y <= ymax
        invariant
            color.wf(),
            depth.wf(),
            color.width == old(color).width,
            color.height == old(color).height,
            depth.width == old(depth).width,
            depth.height == old(depth).height,
            old(depth).width == old(color).width,
            old(depth).height == old(color).height,
            texture_store.wf(),
            wi == old(color).width as int,
            hi == old(color).height as int,
            ymin <= y,
            ymin <= ymax ==> y <= ymax + 1,
            ymin > ymax ==> y == ymin,
            0 <= ymin,
            ymax <= hi - 1,
            0 <= xmin,
            xmax <= wi - 1,
            w == old(color).width,
            h == old(color).height,
            pts@[0] == tri_pt(*tri, 0),
            pts@[1] == tri_pt(*tri, 1),
            pts@[2] == tri_pt(*tri, 2),
            xmin == aabb_min_val(
                tri@[0].position.x.bits as int,
                tri@[1].position.x.bits as int,
                tri@[2].position.x.bits as int,
            ),
            xmax == aabb_max_val(
                tri@[0].position.x.bits as int,
                tri@[1].position.x.bits as int,
                tri@[2].position.x.bits as int,
                wi,
            ),
            ymin == aabb_min_val(
                tri@[0].position.y.bits as int,
                tri@[1].position.y.bits as int,
                tri@[2].position.y.bits as int,
            ),
            ymax == aabb_max_val(
                tri@[0].position.y.bits as int,
                tri@[1].position.y.bits as int,
                tri@[2].position.y.bits as int,
                hi,
            ),
            scan_state_ok(
                *tri,
                *old(color),
                *old(depth),
                *color,
                *depth,
                shader.fragment_shading,
                *texture_store,
                wi,
                hi,
                xmin as int,
                y as int,
            ),
        decreases ymax + 1 - y,
    {
        let mut x: i64 = xmin;
        while x <= xmax
            invariant
                color.wf(),
                depth.wf(),
                color.width == old(color).width,
                color.height == old(color).height,
                depth.width == old(depth).width,
                depth.height == old(depth).height,
                old(depth).width == old(color).width,
                old(depth).height == old(color).height,
                texture_store.wf(),
                wi == old(color).width as int,
                hi == old(color).height as int,
                xmin <= x,
                xmin <= xmax ==> x <= xmax + 1,
                xmin > xmax ==> x == xmin,
                0 <= xmin,
                xmax <= wi - 1,
                0 <= ymin <= y <= ymax <= hi - 1,
                w == old(color).width,
                h == old(color).height,
                pts@[0] == tri_pt(*tri, 0),
                pts@[1] == tri_pt(*tri, 1),
                pts@[2] == tri_pt(*tri, 2),
                xmin == aabb_min_val(
                    tri@[0].position.x.bits as int,
                    tri@[1].position.x.bits as int,
                    tri@[2].position.x.bits as int,
                ),
                xmax == aabb_max_val(
                    tri@[0].position.x.bits as int,
                    tri@[1].position.x.bits as int,
                    tri@[2].position.x.bits as int,
                    wi,
                ),
                ymin == aabb_min_val(
                    tri@[0].position.y.bits as int,
                    tri@[1].position.y.bits as int,
                    tri@[2].position.y.bits as int,
                ),
                ymax == aabb_max_val(
                    tri@[0].position.y.bits as int,
                    tri@[1].position.y.bits as int,
                    tri@[2].position.y.bits as int,
                    hi,
                ),
                scan_state_ok(
                    *tri,
                    *old(color),
                    *old(depth),
                    *color,
                    *depth,
                    shader.fragment_shading,
                    *texture_store,
                    wi,
                    hi,
                    x as int,
                    y as int,
                ),
            decreases xmax + 1 - x,
        {
            let sample = Vec2 { x: Fx { bits: x * FX_ONE }, y: Fx { bits: y * FX_ONE } };
            proof {
                assert(sample == sample_pt(x as int, y as int));
            }
            let barycentric = Barycentric::new(&sample, &pts);
            proof {
                assert(barycentric.degenerate == (tri_denom_val(*tri) == 0));
                if !barycentric.degenerate {
                    assert(barycentric.alpha.bits == sample_alpha_val(*tri, x as int, y as int));
                    assert(barycentric.beta.bits == sample_beta_val(*tri, x as int, y as int));
                    assert(barycentric.gamma.bits == sample_gamma_val(*tri, x as int, y as int));
                }
            }
            let mut wrote: bool = false;
            let ghost c_pre = *color;
            let ghost d_pre = *depth;
            if barycentric.is_valid() {
                let one = Fx { bits: FX_ONE };
                let inv_z = barycentric.alpha().div(tri[0].position.z).add(
                    barycentric.beta().div(tri[1].position.z),
                ).add(barycentric.gamma().div(tri[2].position.z));
                let z = one.div(inv_z);
                proof {
                    assert(z.bits == sample_z_val(*tri, x as int, y as int));
                }
                let stored = depth.get(x as u32, y as u32);
                proof {
                    assert(stored.bits == old(depth).at(x as int, y as int));
                }
                if z.bits < stored.bits {
                    let attr = perspective_correct_and_barycentric_interpolate(
                        z,
                        tri,
                        &barycentric,
                    );
                    let out = shader.call_fragment_shading(&attr, uniforms, texture_store);
                    write_fragment(color, depth, x, y, &out, z);
                    wrote = true;
                    proof {
                        reveal(holds_fragment);
                        assert(sample_attrs_ok(*tri, x as int, y as int, attr));
                        assert(holds_fragment(
                            *tri,
                            *color,
                            *depth,
                            shader.fragment_shading,
                            *texture_store,
                            x as int,
                            y as int,
                        ));
                    }
                }
            }
            proof {
                if !wrote {
                    assert(!(sample_covered(*tri, x as int, y as int) && sample_z_val(
                        *tri,
                        x as int,
                        y as int,
                    ) < old(depth).at(x as int, y as int)));
                }
                lemma_scan_advance(
                    *tri,
                    *old(color),
                    *old(depth),
                    c_pre,
                    d_pre,
                    *color,
                    *depth,
                    shader.fragment_shading,
                    *texture_store,
                    wi,
                    hi,
                    x as int,
                    y as int,
                    wrote,
                );
            }
            x = x + 1;
        }
        proof {
            assert(scan_state_ok(
                *tri,
                *old(color),
                *old(depth),
                *color,
                *depth,
                shader.fragment_shading,
                *texture_store,
                wi,
                hi,
                xmin as int,
                y + 1,
            )) by {
                lemma_scan_row_done(
                    *tri,
                    *old(color),
                    *old(depth),
                    *color,
                    *depth,
                    shader.fragment_shading,
                    *texture_store,
                    wi,
                    hi,
                    xmin as int,
                    xmax as int,
                    x as int,
                    y as int,
                );
            }
        }
        y = y + 1;
    }
    proof {
        lemma_scan_complete(
            *tri,
            *old(color),
            *old(depth),
            *color,
            *depth,
            shader.fragment_shading,
            *texture_store,
            wi,
            hi,
            xmin as int,
            ymin as int,
            ymax as int,
            y as int,
        );
    }
}

/// The least of three bit values.
fn min3(a: i64, b: i64, c: i64) -> (r: i64)
    ensures
        r == (if a <= b && a <= c {
            a
        } else if b <= c {
            b
        } else {
            c
        }),
{
    if a <= b && a <= c {
        a
    } else if b <= c {
        b
    } else {
        c
    }
}

/// The greatest of three bit values.
fn max3(a: i64, b: i64, c: i64) -> (r: i64)
    ensures
        r == (if a >= b && a >= c {
            a
        } else if b >= c {
            b
        } else {
            c
        }),
{
    if a >= b && a >= c {
        a
    } else if b >= c {
        b
    } else {
        c
    }
}

/// Advancing the cursor past pixel `(x, y)` keeps the scan state: if
/// the pixel was written it now holds its fragment, otherwise both
/// attachments are as they were, and no other pixel moved.
proof fn lemma_scan_advance(
    tri: [Vertex; 3],
    c0: ColorAttachment,
    d0: DepthAttachment,
    c1: ColorAttachment,
    d1: DepthAttachment,
    c2: ColorAttachment,
    d2: DepthAttachment,
    fs: FragmentShading,
    ts: TextureStore,
    w: int,
    h: int,
    x: int,
    y: int,
    wrote: bool,
)
    requires
        c0.width == c1.width == c2.width,
        c0.height == c1.height == c2.height,
        d0.width == d1.width == d2.width,
        d0.height == d1.height == d2.height,
        d0.width == c0.width,
        d0.height == c0.height,
        w == c0.width as int,
        h == c0.height as int,
        0 <= x < w,
        0 <= y < h,
        in_scan_region(tri, w, h, x, y),
        scan_state_ok(tri, c0, d0, c1, d1, fs, ts, w, h, x, y),
        wrote ==> sample_covered(tri, x, y) && sample_z_val(tri, x, y) < d0.at(x, y),
        !wrote ==> !(sample_covered(tri, x, y) && sample_z_val(tri, x, y) < d0.at(x, y)),
        wrote ==> holds_fragment(tri, c2, d2, fs, ts, x, y),
        wrote ==> (forall|xx: int, yy: int|
            0 <= xx < c0.width && 0 <= yy < c0.height && (xx, yy) != (x, y) ==> same_pixel(
                c2,
                c1,
                xx,
                yy,
            )),
        wrote ==> (forall|xx: int, yy: int|
            0 <= xx < c0.width && 0 <= yy < c0.height && (xx, yy) != (x, y) ==> d2.at(xx, yy)
                == d1.at(xx, yy)),
        !wrote ==> c2 == c1 && d2 == d1,
    ensures
        scan_state_ok(tri, c0, d0, c2, d2, fs, ts, w, h, x + 1, y),
{
    reveal(holds_fragment);
    assert forall|xx: int, yy: int|
        0 <= xx < w && 0 <= yy < h && in_scan_region(tri, w, h, xx, yy) && (yy < y || (yy == y
            && xx < x + 1)) && sample_covered(tri, xx, yy) && sample_z_val(tri, xx, yy) < d0.at(
            xx,
            yy,
        ) implies #[trigger] holds_fragment(tri, c2, d2, fs, ts, xx, yy) by {
        if (xx, yy) == (x, y) {
            assert(wrote);
        } else {
            assert(holds_fragment(tri, c1, d1, fs, ts, xx, yy));
            let a = choose|a: Attributes|
                sample_attrs_ok(tri, xx, yy, a) && crate::bresenham_line::painted(
                    c1,
                    xx,
                    yy,
                    crate::shader::fragment_output_val(fs, a, ts),
                );
            if wrote {
                assert(same_pixel(c2, c1, xx, yy));
                assert(d2.at(xx, yy) == d1.at(xx, yy));
            }
            assert(crate::bresenham_line::painted(
                c2,
                xx,
                yy,
                crate::shader::fragment_output_val(fs, a, ts),
            ));
        }
    }
    assert forall|xx: int, yy: int|
        0 <= xx < w && 0 <= yy < h && !(in_scan_region(tri, w, h, xx, yy) && (yy < y || (yy == y
            && xx < x + 1)) && sample_covered(tri, xx, yy) && sample_z_val(tri, xx, yy) < d0.at(
            xx,
            yy,
        )) implies #[trigger] same_pixel(c2, c0, xx, yy) by {
        assert(same_pixel(c1, c0, xx, yy));
        if wrote {
            assert((xx, yy) != (x, y));
            assert(same_pixel(c2, c1, xx, yy));
        }
    }
    assert forall|xx: int, yy: int|
        0 <= xx < w && 0 <= yy < h && !(in_scan_region(tri, w, h, xx, yy) && (yy < y || (yy == y
            && xx < x + 1)) && sample_covered(tri, xx, yy) && sample_z_val(tri, xx, yy) < d0.at(
            xx,
            yy,
        )) implies #[trigger] d2.at(xx, yy) == d0.at(xx, yy) by {
        assert(d1.at(xx, yy) == d0.at(xx, yy));
        if wrote {
            assert((xx, yy) != (x, y));
            assert(d2.at(xx, yy) == d1.at(xx, yy));
        }
    }
}

/// At the end of a row the cursor moves to the head of the next one:
/// the visited set is unchanged, because no pixel of the region lies
/// left of its first column.
proof fn lemma_scan_row_done(
    tri: [Vertex; 3],
    c0: ColorAttachment,
    d0: DepthAttachment,
    c: ColorAttachment,
    d: DepthAttachment,
    fs: FragmentShading,
    ts: TextureStore,
    w: int,
    h: int,
    xmin: int,
    xmax: int,
    xe: int,
    y: int,
)
    requires
        scan_state_ok(tri, c0, d0, c, d, fs, ts, w, h, xe, y),
        xmin == aabb_min_val(
            tri[0].position.x.bits as int,
            tri[1].position.x.bits as int,
            tri[2].position.x.bits as int,
        ),
        xmax == aabb_max_val(
            tri[0].position.x.bits as int,
            tri[1].position.x.bits as int,
            tri[2].position.x.bits as int,
            w,
        ),
        (xmin <= xmax && xe == xmax + 1) || (xmin > xmax && xe == xmin),
    ensures
        scan_state_ok(tri, c0, d0, c, d, fs, ts, w, h, xmin, y + 1),
{
    assert forall|xx: int, yy: int|
        0 <= xx < w && 0 <= yy < h && in_scan_region(tri, w, h, xx, yy) && (yy < y + 1 || (yy == y
            + 1 && xx < xmin)) && sample_covered(tri, xx, yy) && sample_z_val(tri, xx, yy) < d0.at(
            xx,
            yy,
        ) implies #[trigger] holds_fragment(tri, c, d, fs, ts, xx, yy) by {
        assert(xmin <= xx <= xmax);
        assert(yy < y || (yy == y && xx < xe));
    }
    assert forall|xx: int, yy: int|
        0 <= xx < w && 0 <= yy < h && !(in_scan_region(tri, w, h, xx, yy) && (yy < y + 1 || (yy == y
            + 1 && xx < xmin)) && sample_covered(tri, xx, yy) && sample_z_val(tri, xx, yy) < d0.at(
            xx,
            yy,
        )) implies #[trigger] same_pixel(c, c0, xx, yy) by {
        assert(!(in_scan_region(tri, w, h, xx, yy) && (yy < y || (yy == y && xx < xe))
            && sample_covered(tri, xx, yy) && sample_z_val(tri, xx, yy) < d0.at(xx, yy)));
    }
    assert forall|xx: int, yy: int|
        0 <= xx < w && 0 <= yy < h && !(in_scan_region(tri, w, h, xx, yy) && (yy < y + 1 || (yy == y
            + 1 && xx < xmin)) && sample_covered(tri, xx, yy) && sample_z_val(tri, xx, yy) < d0.at(
            xx,
            yy,
        )) implies #[trigger] d.at(xx, yy) == d0.at(xx, yy) by {
        assert(!(in_scan_region(tri, w, h, xx, yy) && (yy < y || (yy == y && xx < xe))
            && sample_covered(tri, xx, yy) && sample_z_val(tri, xx, yy) < d0.at(xx, yy)));
    }
}

/// When the cursor has passed the last row, the visited set is the
/// whole region, and the scan state gives the per-pixel contract of
/// the fill together with its frame, monotonicity and strict-drop
/// consequences.
proof fn lemma_scan_complete(
    tri: [Vertex; 3],
    c0: ColorAttachment,
    d0: DepthAttachment,
    c: ColorAttachment,
    d: DepthAttachment,
    fs: FragmentShading,
    ts: TextureStore,
    w: int,
    h: int,
    xmin: int,
    ymin: int,
    ymax: int,
    ye: int,
)
    requires
        scan_state_ok(tri, c0, d0, c, d, fs, ts, w, h, xmin, ye),
        xmin == aabb_min_val(
            tri[0].position.x.bits as int,
            tri[1].position.x.bits as int,
            tri[2].position.x.bits as int,
        ),
        ymin == aabb_min_val(
            tri[0].position.y.bits as int,
            tri[1].position.y.bits as int,
            tri[2].position.y.bits as int,
        ),
        ymax == aabb_max_val(
            tri[0].position.y.bits as int,
            tri[1].position.y.bits as int,
            tri[2].position.y.bits as int,
            h,
        ),
        (ymin <= ymax && ye == ymax + 1) || (ymin > ymax && ye == ymin),
    ensures
        forall|xx: int, yy: int|
            0 <= xx < w && 0 <= yy < h && fragment_written(tri, d0, w, h, xx, yy)
                ==> #[trigger] holds_fragment(tri, c, d, fs, ts, xx, yy),
        forall|xx: int, yy: int|
            0 <= xx < w && 0 <= yy < h && !fragment_written(tri, d0, w, h, xx, yy)
                ==> #[trigger] same_pixel(c, c0, xx, yy),
        forall|xx: int, yy: int|
            0 <= xx < w && 0 <= yy < h && !fragment_written(tri, d0, w, h, xx, yy)
                ==> #[trigger] d.at(xx, yy) == d0.at(xx, yy),
        forall|xx: int, yy: int|
            0 <= xx < w && 0 <= yy < h ==> d.at(xx, yy) <= d0.at(xx, yy),
        forall|xx: int, yy: int|
            0 <= xx < w && 0 <= yy < h && !same_pixel(c, c0, xx, yy) ==> d.at(xx, yy) < d0.at(
                xx,
                yy,
            ),
{
    reveal(holds_fragment);
    reveal(fragment_written);
    assert forall|xx: int, yy: int|
        0 <= xx < w && 0 <= yy < h && fragment_written(tri, d0, w, h, xx, yy) implies #[trigger] holds_fragment(
        tri,
        c,
        d,
        fs,
        ts,
        xx,
        yy,
    ) by {
        assert(ymin <= yy <= ymax);
        assert(yy < ye || (yy == ye && xx < xmin));
    }
    assert forall|xx: int, yy: int|
        0 <= xx < w && 0 <= yy < h && !fragment_written(tri, d0, w, h, xx, yy) implies #[trigger] same_pixel(
        c,
        c0,
        xx,
        yy,
    ) by {
        assert(!(in_scan_region(tri, w, h, xx, yy) && (yy < ye || (yy == ye && xx < xmin))
            && sample_covered(tri, xx, yy) && sample_z_val(tri, xx, yy) < d0.at(xx, yy)));
    }
    assert forall|xx: int, yy: int|
        0 <= xx < w && 0 <= yy < h && !fragment_written(tri, d0, w, h, xx, yy) implies #[trigger] d.at(
        xx,
        yy,
    ) == d0.at(xx, yy) by {
        assert(!(in_scan_region(tri, w, h, xx, yy) && (yy < ye || (yy == ye && xx < xmin))
            && sample_covered(tri, xx, yy) && sample_z_val(tri, xx, yy) < d0.at(xx, yy)));
    }
    assert forall|xx: int, yy: int| 0 <= xx < w && 0 <= yy < h implies d.at(xx, yy) <= d0.at(
        xx,
        yy,
    ) by {
        if fragment_written(tri, d0, w, h, xx, yy) {
            assert(holds_fragment(tri, c, d, fs, ts, xx, yy));
        } else {
            assert(d.at(xx, yy) == d0.at(xx, yy));
        }
    }
    assert forall|xx: int, yy: int|
        0 <= xx < w && 0 <= yy < h && !same_pixel(c, c0, xx, yy) implies d.at(xx, yy) < d0.at(
        xx,
        yy,
    ) by {
        if fragment_written(tri, d0, w, h, xx, yy) {
            assert(holds_fragment(tri, c, d, fs, ts, xx, yy));
        } else {
            assert(same_pixel(c, c0, xx, yy));
        }
    }
}

/// One lane-exact matrix-vector product: each output lane is the row
/// dot product of the matrix cells with the input lanes.
pub open spec fn mv_ok(m: Seq<int>, vin: Vec4, vout: Vec4) -> bool {
    &&& vout.x.bits == crate::mat::mv_row_val(
        m,
        vin.x.bits as int,
        vin.y.bits as int,
        vin.z.bits as int,
        vin.w.bits as int,
        0,
    )
    &&& vout.y.bits == crate::mat::mv_row_val(
        m,
        vin.x.bits as int,
        vin.y.bits as int,
        vin.z.bits as int,
        vin.w.bits as int,
        1,
    )
    &&& vout.z.bits == crate::mat::mv_row_val(
        m,
        vin.x.bits as int,
        vin.y.bits as int,
        vin.z.bits as int,
        vin.w.bits as int,
        2,
    )
    &&& vout.w.bits == crate::mat::mv_row_val(
        m,
        vin.x.bits as int,
        vin.y.bits as int,
        vin.z.bits as int,
        vin.w.bits as int,
        3,
    )
}

/// A clip-space position: the input run through the model, the view
/// and the projection matrix, in that order.
pub open spec fn clip_position_ok(
    model: Mat4,
    view: Mat4,
    proj: Mat4,
    pin: Vec4,
    pout: Vec4,
) -> bool {
    exists|p1: Vec4, p2: Vec4|
        #[trigger] mv_ok(cells(model), pin, p1) && #[trigger] mv_ok(cells(view), p1, p2) && mv_ok(
            cells(proj),
            p2,
            pout,
        )
}

/// The three vertices of one triangle run through the vertex stage.
pub open spec fn shaded_triple_ok(
    vs: crate::shader::VertexShading,
    v0: Vertex,
    v1: Vertex,
    v2: Vertex,
    sh: [Vertex; 3],
) -> bool {
    &&& crate::shader::vertex_shaded_ok(vs, v0, sh[0])
    &&& crate::shader::vertex_shaded_ok(vs, v1, sh[1])
    &&& crate::shader::vertex_shaded_ok(vs, v2, sh[2])
}

/// The clip-space triangle of one batch entry: the vertices are
/// shaded, then each position is transformed; the attributes ride
/// along unchanged.
pub open spec fn clip_triangle_ok(
    r0: Renderer,
    model: Mat4,
    v0: Vertex,
    v1: Vertex,
    v2: Vertex,
    clip: [Vertex; 3],
) -> bool {
    exists|sh: [Vertex; 3]|
        #[trigger] shaded_triple_ok(r0.shader.vertex_shading, v0, v1, v2, sh) && clip_position_ok(
            model,
            r0.camera.view_matrix,
            r0.camera.frustum.mat,
            sh[0].position,
            clip[0].position,
        ) && clip_position_ok(
            model,
            r0.camera.view_matrix,
            r0.camera.frustum.mat,
            sh[1].position,
            clip[1].position,
        ) && clip_position_ok(
            model,
            r0.camera.view_matrix,
            r0.camera.frustum.mat,
            sh[2].position,
            clip[2].position,
        ) && clip[0].attributes == sh[0].attributes && clip[1].attributes == sh[1].attributes
            && clip[2].attributes == sh[2].attributes
}

/// The first three lanes of a homogeneous position.
pub open spec fn vec4_xyz(v: Vec4) -> crate::vec::Vec3 {
    crate::vec::Vec3 { x: v.x, y: v.y, z: v.z }
}

/// The cull decision for a clip-space triangle under the renderer's
/// winding and cull policies.
pub open spec fn clip_culled(r0: Renderer, clip: [Vertex; 3]) -> bool {
    crate::renderer::should_cull_val(
        crate::renderer::cull_dot_val(
            vec4_xyz(clip[0].position),
            vec4_xyz(clip[1].position),
            vec4_xyz(clip[2].position),
            r0.camera.view_direction,
        ),
        r0.front_face,
        r0.cull,
    )
}

/// One projected vertex: the positive view depth saved into `z`, the
/// perspective divide, the viewport mapping of `x` and `y`, and the
/// reserved homogeneous slot; the attributes ride along.
pub open spec fn projected_vertex_ok(w: int, h: int, cin: Vertex, vout: Vertex) -> bool {
    let wc = cin.position.w.bits as int;
    &&& vout.attributes == cin.attributes
    &&& vout.position.z == cin.position.w
    &&& vout.position.x.bits == fx_mul_val(
        fx_mul_val(
            fx_add_val(fx_div_val(cin.position.x.bits as int, wc), FX_ONE as int),
            (FX_ONE as int) / 2,
        ),
        (w - 1) * (FX_ONE as int),
    )
    &&& vout.position.y.bits == fx_mul_val(
        fx_mul_val(
            fx_add_val(fx_div_val(cin.position.y.bits as int, wc), FX_ONE as int),
            (FX_ONE as int) / 2,
        ),
        (h - 1) * (FX_ONE as int),
    )
    &&& vout.position.w.bits == crate::fx::tdiv(fx_add_val(wc, FX_ONE as int), 2)
}

/// One batch entry: its flag is the cull decision of its clip-space
/// triangle, and a surviving entry holds that triangle's projected
/// screen vertices.
#[verifier::opaque]
pub open spec fn projected_triangle_ok(
    r0: Renderer,
    model: Mat4,
    v0: Vertex,
    v1: Vertex,
    v2: Vertex,
    out: (bool, [Vertex; 3]),
) -> bool {
    exists|clip: [Vertex; 3]|
        #[trigger] clip_triangle_ok(r0, model, v0, v1, v2, clip) && out.0 == clip_culled(r0, clip)
            && (!out.0 ==> projected_vertex_ok(
            r0.viewport.w as int,
            r0.viewport.h as int,
            clip[0],
            out.1[0],
        ) && projected_vertex_ok(r0.viewport.w as int, r0.viewport.h as int, clip[1], out.1[1])
            && projected_vertex_ok(r0.viewport.w as int, r0.viewport.h as int, clip[2], out.1[2]))
}

/// Entry `t` of the batch against its three input vertices.
pub open spec fn batch_triangle_ok(
    r0: Renderer,
    model: Mat4,
    vs: Seq<Vertex>,
    t: int,
    out: (bool, [Vertex; 3]),
) -> bool {
    projected_triangle_ok(r0, model, vs[3 * t], vs[3 * t + 1], vs[3 * t + 2], out)
}

/// Whether a batch entry may write pixel `(x, y)`: it survived the
/// cull, and the pixel lies in its scanned bounding box or, with
/// wireframe on, on one of its traced edges.
pub open spec fn triangle_touches(
    pt: (bool, [Vertex; 3]),
    w: int,
    h: int,
    wire: bool,
    x: int,
    y: int,
) -> bool {
    !pt.0 && (in_scan_region(pt.1, w, h, x, y) || (wire && wire_pixels_upto(pt.1, w, h, 3).contains(
        (x, y),
    )))
}

/// Whether any entry of the batch may write pixel `(x, y)`.
pub open spec fn batch_touches(
    ts: Seq<(bool, [Vertex; 3])>,
    w: int,
    h: int,
    wire: bool,
    x: int,
    y: int,
) -> bool {
    exists|t: int| 0 <= t < ts.len() && #[trigger] triangle_touches(ts[t], w, h, wire, x, y)
}

/// The per-pixel outcome of one triangle's scan pass between two
/// buffer states: exactly the contract of `fill_triangle`.
pub open spec fn fill_effect_ok(
    tri: [Vertex; 3],
    c0: ColorAttachment,
    d0: DepthAttachment,
    c1: ColorAttachment,
    d1: DepthAttachment,
    fs: FragmentShading,
    ts: TextureStore,
    w: int,
    h: int,
) -> bool {
    &&& forall|xx: int, yy: int|
        0 <= xx < w && 0 <= yy < h && fragment_written(tri, d0, w, h, xx, yy)
            ==> #[trigger] holds_fragment(tri, c1, d1, fs, ts, xx, yy)
    &&& forall|xx: int, yy: int|
        0 <= xx < w && 0 <= yy < h && !fragment_written(tri, d0, w, h, xx, yy)
            ==> #[trigger] same_pixel(c1, c0, xx, yy)
    &&& forall|xx: int, yy: int|
        0 <= xx < w && 0 <= yy < h && !fragment_written(tri, d0, w, h, xx, yy)
            ==> #[trigger] d1.at(xx, yy) == d0.at(xx, yy)
}

/// The per-pixel outcome of one wireframe overlay pass: exactly the
/// contract of `rasterize_wireframe`.
pub open spec fn wire_effect_ok(
    tri: [Vertex; 3],
    c0: ColorAttachment,
    c1: ColorAttachment,
    w: int,
    h: int,
) -> bool {
    &&& forall|xx: int, yy: int|
        0 <= xx < w && 0 <= yy < h && wire_pixels_upto(tri, w, h, 3).contains((xx, yy))
            ==> #[trigger] crate::bresenham_line::painted(c1, xx, yy, crate::shader::white_val())
    &&& forall|xx: int, yy: int|
        0 <= xx < w && 0 <= yy < h && !wire_pixels_upto(tri, w, h, 3).contains((xx, yy))
            ==> #[trigger] same_pixel(c1, c0, xx, yy)
}

/// One batch entry's whole effect between consecutive buffer states:
/// a culled entry changes nothing; a surviving entry runs the scan
/// pass and then, with wireframe on, the overlay over its edges.
#[verifier::opaque]
pub open spec fn entry_effect_ok(
    entry: (bool, [Vertex; 3]),
    c0: ColorAttachment,
    d0: DepthAttachment,
    c1: ColorAttachment,
    d1: DepthAttachment,
    fs: FragmentShading,
    ts: TextureStore,
    w: int,
    h: int,
    wire: bool,
) -> bool {
    if entry.0 {
        c1 == c0 && d1 == d0
    } else {
        exists|cm: ColorAttachment|
            {
                &&& cm.width == c0.width
                &&& cm.height == c0.height
                &&& #[trigger] fill_effect_ok(entry.1, c0, d0, cm, d1, fs, ts, w, h)
                &&& if wire {
                    wire_effect_ok(entry.1, cm, c1, w, h)
                } else {
                    c1 == cm
                }
            }
    }
}

/// A pixel untouched by a batch is untouched by its last entry and
/// by the batch without it.
proof fn lemma_untouched_by_push(
    ts: Seq<(bool, [Vertex; 3])>,
    w: int,
    h: int,
    wire: bool,
    xx: int,
    yy: int,
)
    requires
        ts.len() >= 1,
        !batch_touches(ts, w, h, wire, xx, yy),
    ensures
        !triangle_touches(ts.last(), w, h, wire, xx, yy),
        !batch_touches(ts.drop_last(), w, h, wire, xx, yy),
{
    assert(ts.last() == ts[ts.len() - 1]);
    if batch_touches(ts.drop_last(), w, h, wire, xx, yy) {
        let t = choose|t: int|
            0 <= t < ts.drop_last().len() && #[trigger] triangle_touches(
                ts.drop_last()[t],
                w,
                h,
                wire,
                xx,
                yy,
            );
        assert(ts.drop_last()[t] == ts[t]);
        assert(triangle_touches(ts[t], w, h, wire, xx, yy));
    }
}

/// A culled batch entry touches nothing: pushing it preserves the
/// batch-level frame clauses unchanged.
proof fn lemma_draw_skip(
    r0: Renderer,
    c: ColorAttachment,
    d: DepthAttachment,
    wire: bool,
    w: int,
    h: int,
    ts: Seq<(bool, [Vertex; 3])>,
)
    requires
        w == r0.color.width as int,
        h == r0.color.height as int,
        ts.len() >= 1,
        ts.last().0 == true,
        forall|xx: int, yy: int|
            0 <= xx < w && 0 <= yy < h && !batch_touches(ts.drop_last(), w, h, wire, xx, yy)
                ==> #[trigger] same_pixel(c, r0.color, xx, yy),
        forall|xx: int, yy: int|
            0 <= xx < w && 0 <= yy < h && !batch_touches(ts.drop_last(), w, h, wire, xx, yy)
                ==> #[trigger] d.at(xx, yy) == r0.depth.at(xx, yy),
    ensures
        forall|xx: int, yy: int|
            0 <= xx < w && 0 <= yy < h && !batch_touches(ts, w, h, wire, xx, yy)
                ==> #[trigger] same_pixel(c, r0.color, xx, yy),
        forall|xx: int, yy: int|
            0 <= xx < w && 0 <= yy < h && !batch_touches(ts, w, h, wire, xx, yy)
                ==> #[trigger] d.at(xx, yy) == r0.depth.at(xx, yy),
{
    assert forall|xx: int, yy: int|
        0 <= xx < w && 0 <= yy < h && !batch_touches(ts, w, h, wire, xx, yy) implies #[trigger] same_pixel(
        c,
        r0.color,
        xx,
        yy,
    ) && d.at(xx, yy) == r0.depth.at(xx, yy) by {
        assert(!batch_touches(ts.drop_last(), w, h, wire, xx, yy)) by {
            if batch_touches(ts.drop_last(), w, h, wire, xx, yy) {
                let t = choose|t: int|
                    0 <= t < ts.drop_last().len() && #[trigger] triangle_touches(
                        ts.drop_last()[t],
                        w,
                        h,
                        wire,
                        xx,
                        yy,
                    );
                assert(ts.drop_last()[t] == ts[t]);
                assert(triangle_touches(ts[t], w, h, wire, xx, yy));
            }
        }
    }
}

/// One surviving triangle's fill and wireframe passes keep the
/// batch-level frame, monotonicity and strict-drop clauses.
proof fn lemma_draw_step(
    r0: Renderer,
    c_pre: ColorAttachment,
    d_pre: DepthAttachment,
    c_mid: ColorAttachment,
    c2: ColorAttachment,
    d2: DepthAttachment,
    tri: [Vertex; 3],
    wire: bool,
    w: int,
    h: int,
    ts: Seq<(bool, [Vertex; 3])>,
)
    requires
        r0.color.width == c_pre.width == c_mid.width == c2.width,
        r0.color.height == c_pre.height == c_mid.height == c2.height,
        r0.depth.width == d_pre.width == d2.width,
        r0.depth.height == d_pre.height == d2.height,
        r0.depth.width == r0.color.width,
        r0.depth.height == r0.color.height,
        w == r0.color.width as int,
        h == r0.color.height as int,
        ts.len() >= 1,
        ts.last() == (false, tri),
        forall|xx: int, yy: int|
            0 <= xx < w && 0 <= yy < h && !batch_touches(ts.drop_last(), w, h, wire, xx, yy)
                ==> #[trigger] same_pixel(c_pre, r0.color, xx, yy),
        forall|xx: int, yy: int|
            0 <= xx < w && 0 <= yy < h && !batch_touches(ts.drop_last(), w, h, wire, xx, yy)
                ==> #[trigger] d_pre.at(xx, yy) == r0.depth.at(xx, yy),
        forall|xx: int, yy: int|
            0 <= xx < w && 0 <= yy < h ==> d_pre.at(xx, yy) <= r0.depth.at(xx, yy),
        !wire ==> (forall|xx: int, yy: int|
            0 <= xx < w && 0 <= yy < h && !same_pixel(c_pre, r0.color, xx, yy) ==> d_pre.at(xx, yy)
                < r0.depth.at(xx, yy)),
        forall|xx: int, yy: int|
            0 <= xx < w && 0 <= yy < h && !in_scan_region(tri, w, h, xx, yy) ==> same_pixel(
                c_mid,
                c_pre,
                xx,
                yy,
            ),
        forall|xx: int, yy: int|
            0 <= xx < w && 0 <= yy < h && !in_scan_region(tri, w, h, xx, yy) ==> d2.at(xx, yy)
                == d_pre.at(xx, yy),
        forall|xx: int, yy: int| 0 <= xx < w && 0 <= yy < h ==> d2.at(xx, yy) <= d_pre.at(xx, yy),
        forall|xx: int, yy: int|
            0 <= xx < w && 0 <= yy < h && !same_pixel(c_mid, c_pre, xx, yy) ==> d2.at(xx, yy)
                < d_pre.at(xx, yy),
        wire ==> (forall|xx: int, yy: int|
            0 <= xx < w && 0 <= yy < h && !wire_pixels_upto(tri, w, h, 3).contains((xx, yy))
                ==> same_pixel(c2, c_mid, xx, yy)),
        !wire ==> c2 == c_mid,
    ensures
        forall|xx: int, yy: int|
            0 <= xx < w && 0 <= yy < h && !batch_touches(ts, w, h, wire, xx, yy)
                ==> #[trigger] same_pixel(c2, r0.color, xx, yy),
        forall|xx: int, yy: int|
            0 <= xx < w && 0 <= yy < h && !batch_touches(ts, w, h, wire, xx, yy)
                ==> #[trigger] d2.at(xx, yy) == r0.depth.at(xx, yy),
        forall|xx: int, yy: int| 0 <= xx < w && 0 <= yy < h ==> d2.at(xx, yy) <= r0.depth.at(xx, yy),
        !wire ==> (forall|xx: int, yy: int|
            0 <= xx < w && 0 <= yy < h && !same_pixel(c2, r0.color, xx, yy) ==> d2.at(xx, yy)
                < r0.depth.at(xx, yy)),
{
    assert forall|xx: int, yy: int|
        0 <= xx < w && 0 <= yy < h && !batch_touches(ts, w, h, wire, xx, yy) implies #[trigger] same_pixel(
        c2,
        r0.color,
        xx,
        yy,
    ) by {
        lemma_untouched_by_push(ts, w, h, wire, xx, yy);
        assert(!in_scan_region(tri, w, h, xx, yy));
        assert(same_pixel(c_mid, c_pre, xx, yy));
        if wire {
            assert(!wire_pixels_upto(tri, w, h, 3).contains((xx, yy)));
            assert(same_pixel(c2, c_mid, xx, yy));
        }
        assert(same_pixel(c_pre, r0.color, xx, yy));
    }
    assert forall|xx: int, yy: int|
        0 <= xx < w && 0 <= yy < h && !batch_touches(ts, w, h, wire, xx, yy) implies #[trigger] d2.at(
        xx,
        yy,
    ) == r0.depth.at(xx, yy) by {
        lemma_untouched_by_push(ts, w, h, wire, xx, yy);
        assert(!in_scan_region(tri, w, h, xx, yy));
        assert(d2.at(xx, yy) == d_pre.at(xx, yy));
        assert(d_pre.at(xx, yy) == r0.depth.at(xx, yy));
    }
    assert forall|xx: int, yy: int|
        0 <= xx < w && 0 <= yy < h implies d2.at(xx, yy) <= r0.depth.at(xx, yy) by {
        assert(d2.at(xx, yy) <= d_pre.at(xx, yy));
        assert(d_pre.at(xx, yy) <= r0.depth.at(xx, yy));
    }
    if !wire {
        assert forall|xx: int, yy: int|
            0 <= xx < w && 0 <= yy < h && !same_pixel(c2, r0.color, xx, yy) implies d2.at(xx, yy)
                < r0.depth.at(xx, yy) by {
            if same_pixel(c_mid, c_pre, xx, yy) {
                assert(!same_pixel(c_pre, r0.color, xx, yy));
                assert(d_pre.at(xx, yy) < r0.depth.at(xx, yy));
            } else {
                assert(d2.at(xx, yy) < d_pre.at(xx, yy));
            }
        }
    }
}

/// Composing two frame steps keeps the draw-level frame clauses.
proof fn lemma_compose_frames(
    c0: ColorAttachment,
    c1: ColorAttachment,
    c2: ColorAttachment,
    d0: DepthAttachment,
    d1: DepthAttachment,
    d2: DepthAttachment,
)
    requires
        c0.width == c1.width == c2.width,
        c0.height == c1.height == c2.height,
        forall|xx: int, yy: int|
            0 <= xx < c0.width && 0 <= yy < c0.height ==> d1.at(xx, yy) <= d0.at(xx, yy),
        forall|xx: int, yy: int|
            0 <= xx < c0.width && 0 <= yy < c0.height ==> d2.at(xx, yy) <= d1.at(xx, yy),
        forall|xx: int, yy: int|
            0 <= xx < c0.width && 0 <= yy < c0.height && !same_pixel(c1, c0, xx, yy) ==> d1.at(
                xx,
                yy,
            ) < d0.at(xx, yy),
        forall|xx: int, yy: int|
            0 <= xx < c0.width && 0 <= yy < c0.height && !same_pixel(c2, c1, xx, yy) ==> d2.at(
                xx,
                yy,
            ) < d1.at(xx, yy),
    ensures
        forall|xx: int, yy: int|
            0 <= xx < c0.width && 0 <= yy < c0.height ==> d2.at(xx, yy) <= d0.at(xx, yy),
        forall|xx: int, yy: int|
            0 <= xx < c0.width && 0 <= yy < c0.height && !same_pixel(c2, c0, xx, yy) ==> d2.at(
                xx,
                yy,
            ) < d0.at(xx, yy),
{
    assert forall|xx: int, yy: int|
        0 <= xx < c0.width && 0 <= yy < c0.height && !same_pixel(c2, c0, xx, yy) implies d2.at(
        xx,
        yy,
    ) < d0.at(xx, yy) by {
        if same_pixel(c2, c1, xx, yy) {
            assert(!same_pixel(c1, c0, xx, yy));
        }
    }
}

/// The second endpoint index of edge `j`: the edges run 0-1, 1-2,
/// 2-0.
pub open spec fn edge_other(j: int) -> int {
    if j == 2 {
        0
    } else {
        j + 1
    }
}

/// The floored screen column of vertex `i`.
pub open spec fn vx_floor(tri: [Vertex; 3], i: int) -> int {
    (tri[i].position.x.bits as int) / (FX_ONE as int)
}

/// The floored screen row of vertex `i`.
pub open spec fn vy_floor(tri: [Vertex; 3], i: int) -> int {
    (tri[i].position.y.bits as int) / (FX_ONE as int)
}

/// Bound on the coordinates the edge clipper accepts: a projected
/// vertex further out than this is beyond any real screen, and its
/// edge is skipped rather than clipped.
pub const COORD_GUARD: i64 = 1073741824;

/// Sliding one coordinate of an edge endpoint to a border: the other
/// coordinate follows the edge's carrier line, with the quotient
/// truncated toward zero and the result clamped into the guard range.
pub open spec fn slide_val(border: int, pm: int, po: int, qm: int, qo: int) -> int {
    crate::fx::clamp_val(
        po + crate::fx::tdiv_any((qo - po) * (border - pm), qm - pm),
        -(COORD_GUARD as int),
        COORD_GUARD as int,
    )
}

/// An edge endpoint pulled to each canvas border it lies beyond, in
/// the order left, right, top, bottom, sliding along the edge toward
/// its other endpoint `(qx, qy)`.
pub open spec fn clip_pt_val(px: int, py: int, qx: int, qy: int, wm: int, hm: int) -> (int, int) {
    let s1 = if px < 0 && qx != px {
        (0, slide_val(0, px, py, qx, qy))
    } else {
        (px, py)
    };
    let s2 = if s1.0 > wm && qx != s1.0 {
        (wm, slide_val(wm, s1.0, s1.1, qx, qy))
    } else {
        s1
    };
    let s3 = if s2.1 < 0 && qy != s2.1 {
        (slide_val(0, s2.1, s2.0, qy, qx), 0)
    } else {
        s2
    };
    if s3.1 > hm && qy != s3.1 {
        (slide_val(hm, s3.1, s3.0, qy, qx), hm)
    } else {
        s3
    }
}

/// Exec form of `slide_val`.
fn slide(border: i64, pm: i64, po: i64, qm: i64, qo: i64) -> (r: i64)
    requires
        qm != pm,
        -COORD_GUARD <= border <= COORD_GUARD,
        -COORD_GUARD <= pm <= COORD_GUARD,
        -COORD_GUARD <= po <= COORD_GUARD,
        -COORD_GUARD <= qm <= COORD_GUARD,
        -COORD_GUARD <= qo <= COORD_GUARD,
    ensures
        r == slide_val(border as int, pm as int, po as int, qm as int, qo as int),
        -COORD_GUARD <= r <= COORD_GUARD,
{
    proof {
        assert(i128::MIN <= (qo - po) * (border - pm) <= i128::MAX) by (nonlinear_arith)
            requires
                -0x4000_0000 <= qo <= 0x4000_0000,
                -0x4000_0000 <= po <= 0x4000_0000,
                -0x4000_0000 <= border <= 0x4000_0000,
                -0x4000_0000 <= pm <= 0x4000_0000,
        ;
    }
    let num: i128 = (qo as i128 - po as i128) * (border as i128 - pm as i128);
    let den: i128 = qm as i128 - pm as i128;
    let dm: i128 = if den < 0 {
        -den
    } else {
        den
    };
    proof {
        assert(-0x4000_0000_0000_0000 <= num <= 0x4000_0000_0000_0000) by (nonlinear_arith)
            requires
                num == (qo as int - po as int) * (border as int - pm as int),
                -0x4000_0000 <= qo <= 0x4000_0000,
                -0x4000_0000 <= po <= 0x4000_0000,
                -0x4000_0000 <= border <= 0x4000_0000,
                -0x4000_0000 <= pm <= 0x4000_0000,
        ;
        crate::fx::lemma_tdiv_bounds(num as int, dm as int);
    }
    let q0: i128 = num / dm;
    let q: i128 = if den < 0 {
        -q0
    } else {
        q0
    };
    let sum: i128 = po as i128 + q;
    if sum < -(COORD_GUARD as i128) {
        -COORD_GUARD
    } else if sum > COORD_GUARD as i128 {
        COORD_GUARD
    } else {
        sum as i64
    }
}

/// Exec form of `clip_pt_val`.
fn clip_point(px: i64, py: i64, qx: i64, qy: i64, wm: i64, hm: i64) -> (r: (i64, i64))
    requires
        -COORD_GUARD <= px <= COORD_GUARD,
        -COORD_GUARD <= py <= COORD_GUARD,
        -COORD_GUARD <= qx <= COORD_GUARD,
        -COORD_GUARD <= qy <= COORD_GUARD,
        0 <= wm <= 16384,
        0 <= hm <= 16384,
    ensures
        (r.0 as int, r.1 as int) == clip_pt_val(
            px as int,
            py as int,
            qx as int,
            qy as int,
            wm as int,
            hm as int,
        ),
{
    let (s1x, s1y): (i64, i64) = if px < 0 && qx != px {
        (0, slide(0, px, py, qx, qy))
    } else {
        (px, py)
    };
    let (s2x, s2y): (i64, i64) = if s1x > wm && qx != s1x {
        (wm, slide(wm, s1x, s1y, qx, qy))
    } else {
        (s1x, s1y)
    };
    let (s3x, s3y): (i64, i64) = if s2y < 0 && qy != s2y {
        (slide(0, s2y, s2x, qy, qx), 0)
    } else {
        (s2x, s2y)
    };
    if s3y > hm && qy != s3y {
        (slide(hm, s3y, s3x, qy, qx), hm)
    } else {
        (s3x, s3y)
    }
}

/// Whether edge `j` is traced: both floored endpoints lie within the
/// clipper's guard range, and clipping each endpoint to the canvas
/// lands both inside it. An endpoint pair already on canvas is left
/// exactly where it is.
pub open spec fn edge_on_canvas(tri: [Vertex; 3], j: int, w: int, h: int) -> bool {
    let x0 = vx_floor(tri, j);
    let y0 = vy_floor(tri, j);
    let x1 = vx_floor(tri, edge_other(j));
    let y1 = vy_floor(tri, edge_other(j));
    let a = clip_pt_val(x0, y0, x1, y1, w - 1, h - 1);
    let b = clip_pt_val(x1, y1, x0, y0, w - 1, h - 1);
    &&& -(COORD_GUARD as int) <= x0 <= COORD_GUARD as int
    &&& -(COORD_GUARD as int) <= y0 <= COORD_GUARD as int
    &&& -(COORD_GUARD as int) <= x1 <= COORD_GUARD as int
    &&& -(COORD_GUARD as int) <= y1 <= COORD_GUARD as int
    &&& 0 <= a.0 < w
    &&& 0 <= a.1 < h
    &&& 0 <= b.0 < w
    &&& 0 <= b.1 < h
}

/// The pixels of edge `j`: the line between its endpoints, each
/// clipped to the canvas.
pub open spec fn edge_pixels(tri: [Vertex; 3], j: int, w: int, h: int) -> Set<(int, int)> {
    let x0 = vx_floor(tri, j);
    let y0 = vy_floor(tri, j);
    let x1 = vx_floor(tri, edge_other(j));
    let y1 = vy_floor(tri, edge_other(j));
    let a = clip_pt_val(x0, y0, x1, y1, w - 1, h - 1);
    let b = clip_pt_val(x1, y1, x0, y0, w - 1, h - 1);
    crate::bresenham_line::line_pixels(a.0, a.1, b.0, b.1)
}

/// The pixels the wireframe overlay paints: the union of the traced
/// edges among the first `n`.
pub open spec fn wire_pixels_upto(tri: [Vertex; 3], w: int, h: int, n: int) -> Set<(int, int)> {
    Set::new(
        |p: (int, int)|
            exists|j: int|
                0 <= j < n && edge_on_canvas(tri, j, w, h) && (#[trigger] edge_pixels(
                    tri,
                    j,
                    w,
                    h,
                )).contains(p),
    )
}

/// Trace the three edges of a projected triangle with the Bresenham
/// line drawer, in white, straight onto the color buffer: a debug
/// overlay that does not depth-test. Each edge endpoint is clipped
/// to the canvas along the edge before drawing; every pixel of a
/// traced edge is painted white, and every other pixel keeps its
/// bytes. An edge is skipped when a floored endpoint lies beyond the
/// clipper's guard range or its clipped endpoints still fall off
/// canvas (the line primitive itself does not clip).
pub fn rasterize_wireframe(vertices: &[Vertex; 3], color: &mut ColorAttachment)
    requires
        old(color).wf(),
    ensures
        final(color).wf(),
        final(color).width == old(color).width,
        final(color).height == old(color).height,
        forall|xx: int, yy: int|
            0 <= xx < old(color).width && 0 <= yy < old(color).height && wire_pixels_upto(
                *vertices,
                old(color).width as int,
                old(color).height as int,
                3,
            ).contains((xx, yy)) ==> crate::bresenham_line::painted(
                *final(color),
                xx,
                yy,
                crate::shader::white_val(),
            ),
        forall|xx: int, yy: int|
            0 <= xx < old(color).width && 0 <= yy < old(color).height && !wire_pixels_upto(
                *vertices,
                old(color).width as int,
                old(color).height as int,
                3,
            ).contains((xx, yy)) ==> same_pixel(*final(color), *old(color), xx, yy),
{
    let one = Fx { bits: FX_ONE };
    let white = Vec4 { x: one, y: one, z: one, w: one };
    let ghost w = old(color).width as int;
    let ghost h = old(color).height as int;
    let mut j: usize = 0;
    while j < 3
        invariant
            color.wf(),
            j <= 3,
            color.width == old(color).width,
            color.height == old(color).height,
            w == old(color).width as int,
            h == old(color).height as int,
            white == crate::shader::white_val(),
            forall|xx: int, yy: int|
                0 <= xx < old(color).width && 0 <= yy < old(color).height && wire_pixels_upto(
                    *vertices,
                    w,
                    h,
                    j as int,
                ).contains((xx, yy)) ==> crate::bresenham_line::painted(
                    *color,
                    xx,
                    yy,
                    crate::shader::white_val(),
                ),
            forall|xx: int, yy: int|
                0 <= xx < old(color).width && 0 <= yy < old(color).height && !wire_pixels_upto(
                    *vertices,
                    w,
                    h,
                    j as int,
                ).contains((xx, yy)) ==> same_pixel(*color, *old(color), xx, yy),
        decreases 3 - j,
    {
        let k: usize = if j == 2 {
            0
        } else {
            j + 1
        };
        let x0 = vertices[j].position.x.floor_int();
        let y0 = vertices[j].position.y.floor_int();
        let x1 = vertices[k].position.x.floor_int();
        let y1 = vertices[k].position.y.floor_int();
        let cw = color.width() as i64;
        let ch = color.height() as i64;
        let ghost before = *color;
        let in_guard: bool = cw >= 1 && ch >= 1 && -COORD_GUARD <= x0 && x0 <= COORD_GUARD
            && -COORD_GUARD <= y0 && y0 <= COORD_GUARD && -COORD_GUARD <= x1 && x1 <= COORD_GUARD
            && -COORD_GUARD <= y1 && y1 <= COORD_GUARD;
        let mut drawn: bool = false;
        if in_guard {
            let a = clip_point(x0, y0, x1, y1, cw - 1, ch - 1);
            let b = clip_point(x1, y1, x0, y0, cw - 1, ch - 1);
            if 0 <= a.0 && a.0 < cw && 0 <= a.1 && a.1 < ch && 0 <= b.0 && b.0 < cw && 0 <= b.1
                && b.1 < ch {
                draw_line(a.0 as i32, a.1 as i32, b.0 as i32, b.1 as i32, &white, color);
                drawn = true;
            }
        }
        proof {
            let ghost edge = edge_pixels(*vertices, j as int, w, h);
            assert(edge_on_canvas(*vertices, j as int, w, h) == drawn);
            assert forall|xx: int, yy: int|
                0 <= xx < old(color).width && 0 <= yy < old(color).height && wire_pixels_upto(
                    *vertices,
                    w,
                    h,
                    j + 1,
                ).contains((xx, yy)) implies crate::bresenham_line::painted(
                *color,
                xx,
                yy,
                crate::shader::white_val(),
            ) by {
                let e = choose|e: int|
                    0 <= e < j + 1 && edge_on_canvas(*vertices, e, w, h) && (
                    #[trigger] edge_pixels(*vertices, e, w, h)).contains((xx, yy));
                if drawn && edge.contains((xx, yy)) {
                } else {
                    assert(wire_pixels_upto(*vertices, w, h, j as int).contains((xx, yy))) by {
                        assert(e != j);
                    }
                    assert(crate::bresenham_line::painted(
                        before,
                        xx,
                        yy,
                        crate::shader::white_val(),
                    ));
                    if drawn {
                        assert(same_pixel(*color, before, xx, yy));
                    }
                }
            }
            assert forall|xx: int, yy: int|
                0 <= xx < old(color).width && 0 <= yy < old(color).height && !wire_pixels_upto(
                    *vertices,
                    w,
                    h,
                    j + 1,
                ).contains((xx, yy)) implies same_pixel(*color, *old(color), xx, yy) by {
                assert(!wire_pixels_upto(*vertices, w, h, j as int).contains((xx, yy)));
                assert(same_pixel(before, *old(color), xx, yy));
                if drawn {
                    assert(!edge.contains((xx, yy)));
                    assert(same_pixel(*color, before, xx, yy));
                }
            }
        }
        j = j + 1;
    }
}

/// The CPU renderer: framebuffers, camera, viewport, shader slots
/// and the draw policies.
pub struct Renderer {
    pub camera: Camera,
    pub viewport: Viewport,
    pub color: ColorAttachment,
    pub depth: DepthAttachment,
    pub shader: Shader,
    pub uniforms: Uniforms,
    pub wireframe_mode: bool,
    pub front_face: FrontFace,
    pub cull: FaceCull,
}

impl Renderer {
    /// The renderer's invariant: both attachments are well formed and
    /// congruent, the camera caches agree with its parameters, and
    /// the viewport covers the canvas.
    pub open spec fn wf(&self) -> bool {
        &&& self.color.wf()
        &&& self.depth.wf()
        &&& self.depth.width == self.color.width
        &&& self.depth.height == self.color.height
        &&& self.camera.wf()
        &&& self.viewport.x == 0
        &&& self.viewport.y == 0
        &&& self.viewport.w == self.color.width
        &&& self.viewport.h == self.color.height
    }

    /// A renderer over a fresh black canvas, with the depth buffer at
    /// the far sentinel, wireframe off, and no culling.
    pub fn new(w: u32, h: u32, camera: Camera) -> (r: Renderer)
        requires
            1 <= w <= 16384,
            1 <= h <= 16384,
            camera.wf(),
        ensures
            r.wf(),
            r.color.width == w,
            r.color.height == h,
            r.camera == camera,
            r.wireframe_mode == false,
            r.cull == FaceCull::Off,
            r.front_face == FrontFace::CCW,
            forall|i: int| 0 <= i < r.color.data@.len() ==> r.color.data@[i] == 0,
            forall|i: int|
                0 <= i < r.depth.data@.len() ==> (#[trigger] r.depth.data@[i]).bits == i64::MAX,
    {
        let color = ColorAttachment::new(w, h);
        let mut depth = DepthAttachment::new(w, h);
        depth.clear(Fx { bits: i64::MAX });
        Renderer {
            camera,
            viewport: Viewport { x: 0, y: 0, w, h },
            color,
            depth,
            shader: Default::default(),
            uniforms: Uniforms::new(),
            wireframe_mode: false,
            front_face: FrontFace::CCW,
            cull: FaceCull::Off,
        }
    }

    /// Fill the color attachment with `color`; the depth buffer and
    /// every other part of the renderer are untouched.
    pub fn clear(&mut self, color: &Vec4)
        requires
            old(self).wf(),
        ensures
            final(self).wf(),
            final(self).color.width == old(self).color.width,
            final(self).color.height == old(self).color.height,
            final(self).depth == old(self).depth,
            final(self).camera == old(self).camera,
            final(self).shader == old(self).shader,
            final(self).uniforms == old(self).uniforms,
            final(self).wireframe_mode == old(self).wireframe_mode,
            final(self).front_face == old(self).front_face,
            final(self).cull == old(self).cull,
            forall|i: int|
                0 <= i < final(self).color.data@.len() ==> final(self).color.data@[i] == (if i % 3
                    == 0 {
                    crate::image::quant_val(color.x.bits as int)
                } else if i % 3 == 1 {
                    crate::image::quant_val(color.y.bits as int)
                } else {
                    crate::image::quant_val(color.z.bits as int)
                }),
    {
        self.color.clear(color);
    }

    /// Reset every depth cell to the far sentinel.
    pub fn clear_depth(&mut self)
        requires
            old(self).wf(),
        ensures
            final(self).wf(),
            final(self).color == old(self).color,
            final(self).camera == old(self).camera,
            final(self).shader == old(self).shader,
            final(self).uniforms == old(self).uniforms,
            final(self).wireframe_mode == old(self).wireframe_mode,
            final(self).front_face == old(self).front_face,
            final(self).cull == old(self).cull,
            final(self).depth.width == old(self).depth.width,
            final(self).depth.height == old(self).depth.height,
            forall|i: int|
                0 <= i < final(self).depth.data@.len() ==> (#[trigger] final(self).depth.data@[i]).bits == i64::MAX,
    {
        self.depth.clear(Fx { bits: i64::MAX });
    }

    pub fn get_canvas_width(&self) -> (r: u32)
        ensures
            r == self.color.width,
    {
        self.color.width()
    }

    pub fn get_canvas_height(&self) -> (r: u32)
        ensures
            r == self.color.height,
    {
        self.color.height()
    }

    /// The RGB bytes of the frame, three per pixel, row-major.
    pub fn get_frame_image(&self) -> (r: &[u8])
        requires
            self.wf(),
        ensures
            r@ == self.color.data@,
            r@.len() == 3 * (self.color.width as int) * (self.color.height as int),
    {
        self.color.bytes()
    }

    pub fn get_shader(&self) -> (r: &Shader)
        ensures
            r == &self.shader,
    {
        &self.shader
    }

    pub fn set_shader(&mut self, shader: Shader)
        requires
            old(self).wf(),
        ensures
            final(self).wf(),
            final(self).shader == shader,
            final(self).color == old(self).color,
            final(self).depth == old(self).depth,
            final(self).camera == old(self).camera,
            final(self).wireframe_mode == old(self).wireframe_mode,
    {
        self.shader = shader;
    }

    pub fn get_uniforms(&self) -> (r: &Uniforms)
        ensures
            r == &self.uniforms,
    {
        &self.uniforms
    }

    /// Bind one uniform; a later binding of the same key wins.
    pub fn set_uniform(&mut self, key: String, value: UniformValue)
        requires
            old(self).wf(),
        ensures
            final(self).wf(),
            final(self).uniforms.entries@ == old(self).uniforms.entries@.push((key, value)),
            final(self).color == old(self).color,
            final(self).depth == old(self).depth,
    {
        self.uniforms.set(key, value);
    }

    pub fn enable_wireframe(&mut self)
        requires
            old(self).wf(),
        ensures
            final(self).wf(),
            final(self).wireframe_mode == true,
            final(self).color == old(self).color,
            final(self).depth == old(self).depth,
    {
        self.wireframe_mode = true;
    }

    pub fn disable_wireframe(&mut self)
        requires
            old(self).wf(),
        ensures
            final(self).wf(),
            final(self).wireframe_mode == false,
            final(self).color == old(self).color,
            final(self).depth == old(self).depth,
    {
        self.wireframe_mode = false;
    }

    pub fn toggle_wireframe(&mut self)
        requires
            old(self).wf(),
        ensures
            final(self).wf(),
            final(self).wireframe_mode == !old(self).wireframe_mode,
            final(self).color == old(self).color,
            final(self).depth == old(self).depth,
    {
        self.wireframe_mode = !self.wireframe_mode;
    }

    pub fn set_face_cull(&mut self, cull: FaceCull)
        requires
            old(self).wf(),
        ensures
            final(self).wf(),
            final(self).cull == cull,
            final(self).color == old(self).color,
            final(self).depth == old(self).depth,
    {
        self.cull = cull;
    }

    pub fn set_front_face(&mut self, face: FrontFace)
        requires
            old(self).wf(),
        ensures
            final(self).wf(),
            final(self).front_face == face,
            final(self).color == old(self).color,
            final(self).depth == old(self).depth,
    {
        self.front_face = face;
    }

    /// Draw a batch of triangles: each three vertices are shaded,
    /// transformed by `model`, the view and the projection, culled by
    /// winding, projected to the screen, scan-filled with depth
    /// testing, and optionally traced in wireframe.
    ///
    /// The returned ghost trace holds, for every triangle of the
    /// batch, its cull flag and its projected screen-space vertices,
    /// each linked to the inputs by `batch_triangle_ok`, together
    /// with the buffer states between entries: consecutive states are
    /// related by `entry_effect_ok`, so each entry's per-pixel scan
    /// outcome — and, with wireframe on, its overlay — is pinned
    /// relative to the state its predecessors left. A pixel touched
    /// by no surviving triangle keeps its color bytes and its depth;
    /// depth never grows at any pixel; with wireframe off a changed
    /// pixel had its depth strictly lowered; and a single-triangle
    /// batch leaves every pixel either untouched or holding exactly
    /// its shaded fragment.
    #[verifier::rlimit(100)]
    pub fn draw_triangle(&mut self, model: &Mat4, vertices: &[Vertex], texture_store: &TextureStore) -> (trace: Ghost<
        (Seq<(bool, [Vertex; 3])>, Seq<(ColorAttachment, DepthAttachment)>),
    >)
        requires
            old(self).wf(),
            texture_store.wf(),
            vertices@.len() % 3 == 0,
        ensures
            final(self).wf(),
            final(self).color.width == old(self).color.width,
            final(self).color.height == old(self).color.height,
            final(self).color.data@.len() == old(self).color.data@.len(),
            final(self).camera == old(self).camera,
            final(self).shader == old(self).shader,
            final(self).uniforms == old(self).uniforms,
            final(self).wireframe_mode == old(self).wireframe_mode,
            final(self).front_face == old(self).front_face,
            final(self).cull == old(self).cull,
            final(self).depth.width == old(self).depth.width,
            final(self).depth.height == old(self).depth.height,
            trace@.0.len() == vertices@.len() / 3,
            forall|t: int|
                0 <= t < trace@.0.len() ==> #[trigger] batch_triangle_ok(
                    *old(self),
                    *model,
                    vertices@,
                    t,
                    trace@.0[t],
                ),
            trace@.1.len() == trace@.0.len() + 1,
            trace@.1[0] == (old(self).color, old(self).depth),
            trace@.1[trace@.0.len() as int] == (final(self).color, final(self).depth),
            forall|t: int|
                0 <= t < trace@.0.len() ==> #[trigger] entry_effect_ok(
                    trace@.0[t],
                    trace@.1[t].0,
                    trace@.1[t].1,
                    trace@.1[t + 1].0,
                    trace@.1[t + 1].1,
                    old(self).shader.fragment_shading,
                    *texture_store,
                    old(self).color.width as int,
                    old(self).color.height as int,
                    old(self).wireframe_mode,
                ),
            forall|xx: int, yy: int|
                0 <= xx < old(self).color.width && 0 <= yy < old(self).color.height
                    && !batch_touches(
                    trace@.0,
                    old(self).color.width as int,
                    old(self).color.height as int,
                    old(self).wireframe_mode,
                    xx,
                    yy,
                ) ==> #[trigger] same_pixel(final(self).color, old(self).color, xx, yy),
            forall|xx: int, yy: int|
                0 <= xx < old(self).color.width && 0 <= yy < old(self).color.height
                    && !batch_touches(
                    trace@.0,
                    old(self).color.width as int,
                    old(self).color.height as int,
                    old(self).wireframe_mode,
                    xx,
                    yy,
                ) ==> #[trigger] final(self).depth.at(xx, yy) == old(self).depth.at(xx, yy),
            forall|xx: int, yy: int|
                0 <= xx < old(self).color.width && 0 <= yy < old(self).color.height
                    ==> final(self).depth.at(xx, yy) <= old(self).depth.at(xx, yy),
            !old(self).wireframe_mode ==> (forall|xx: int, yy: int|
                0 <= xx < old(self).color.width && 0 <= yy < old(self).color.height && !same_pixel(
                    final(self).color,
                    old(self).color,
                    xx,
                    yy,
                ) ==> final(self).depth.at(xx, yy) < old(self).depth.at(xx, yy)),
            (vertices@.len() == 3 && !old(self).wireframe_mode && !trace@.0[0].0) ==> (forall|
                xx: int,
                yy: int,
            |
                0 <= xx < old(self).color.width && 0 <= yy < old(self).color.height
                    && fragment_written(
                    trace@.0[0].1,
                    old(self).depth,
                    old(self).color.width as int,
                    old(self).color.height as int,
                    xx,
                    yy,
                ) ==> #[trigger] holds_fragment(
                    trace@.0[0].1,
                    final(self).color,
                    final(self).depth,
                    old(self).shader.fragment_shading,
                    *texture_store,
                    xx,
                    yy,
                )),
            (vertices@.len() == 3 && !old(self).wireframe_mode && !trace@.0[0].0) ==> (forall|
                xx: int,
                yy: int,
            |
                0 <= xx < old(self).color.width && 0 <= yy < old(self).color.height
                    && !fragment_written(
                    trace@.0[0].1,
                    old(self).depth,
                    old(self).color.width as int,
                    old(self).color.height as int,
                    xx,
                    yy,
                ) ==> #[trigger] same_pixel(final(self).color, old(self).color, xx, yy)
                    && final(self).depth.at(xx, yy) == old(self).depth.at(xx, yy)),
    {
        let n: usize = vertices.len() / 3;
        let one = Fx { bits: FX_ONE };
        let ghost wi = old(self).color.width as int;
        let ghost hi = old(self).color.height as int;
        let ghost mut tris: Seq<(bool, [Vertex; 3])> = Seq::empty();
        let ghost mut states: Seq<(ColorAttachment, DepthAttachment)> = seq![
            (old(self).color, old(self).depth),
        ];
        let mut i: usize = 0;
        while i < n
            invariant
                self.wf(),
                texture_store.wf(),
                n == vertices@.len() / 3,
                i <= n,
                vertices@.len() % 3 == 0,
                vertices@.len() <= usize::MAX,
                one.bits == FX_ONE,
                wi == old(self).color.width as int,
                hi == old(self).color.height as int,
                self.color.width == old(self).color.width,
                self.color.height == old(self).color.height,
                self.depth.width == old(self).depth.width,
                self.depth.height == old(self).depth.height,
                old(self).depth.width == old(self).color.width,
                old(self).depth.height == old(self).color.height,
                self.camera == old(self).camera,
                self.shader == old(self).shader,
                self.uniforms == old(self).uniforms,
                self.wireframe_mode == old(self).wireframe_mode,
                self.front_face == old(self).front_face,
                self.cull == old(self).cull,
                self.viewport == old(self).viewport,
                tris.len() == i as int,
                states.len() == i + 1,
                states[0] == (old(self).color, old(self).depth),
                states[i as int] == (self.color, self.depth),
                forall|t: int|
                    0 <= t < i ==> #[trigger] entry_effect_ok(
                        tris[t],
                        states[t].0,
                        states[t].1,
                        states[t + 1].0,
                        states[t + 1].1,
                        old(self).shader.fragment_shading,
                        *texture_store,
                        wi,
                        hi,
                        old(self).wireframe_mode,
                    ),
                forall|t: int|
                    0 <= t < i ==> #[trigger] batch_triangle_ok(
                        *old(self),
                        *model,
                        vertices@,
                        t,
                        tris[t],
                    ),
                forall|xx: int, yy: int|
                    0 <= xx < old(self).color.width && 0 <= yy < old(self).color.height
                        && !batch_touches(tris, wi, hi, old(self).wireframe_mode, xx, yy)
                        ==> #[trigger] same_pixel(self.color, old(self).color, xx, yy),
                forall|xx: int, yy: int|
                    0 <= xx < old(self).color.width && 0 <= yy < old(self).color.height
                        && !batch_touches(tris, wi, hi, old(self).wireframe_mode, xx, yy)
                        ==> #[trigger] self.depth.at(xx, yy) == old(self).depth.at(xx, yy),
                forall|xx: int, yy: int|
                    0 <= xx < old(self).color.width && 0 <= yy < old(self).color.height
                        ==> self.depth.at(xx, yy) <= old(self).depth.at(xx, yy),
                !old(self).wireframe_mode ==> (forall|xx: int, yy: int|
                    0 <= xx < old(self).color.width && 0 <= yy < old(self).color.height
                        && !same_pixel(self.color, old(self).color, xx, yy) ==> self.depth.at(
                        xx,
                        yy,
                    ) < old(self).depth.at(xx, yy)),
                i == 0 ==> self.color == old(self).color && self.depth == old(self).depth,
                (n == 1 && i == 1 && !old(self).wireframe_mode && !tris[0].0) ==> (forall|
                    xx: int,
                    yy: int,
                |
                    0 <= xx < old(self).color.width && 0 <= yy < old(self).color.height
                        && fragment_written(tris[0].1, old(self).depth, wi, hi, xx, yy)
                        ==> #[trigger] holds_fragment(
                        tris[0].1,
                        self.color,
                        self.depth,
                        old(self).shader.fragment_shading,
                        *texture_store,
                        xx,
                        yy,
                    )),
                (n == 1 && i == 1 && !old(self).wireframe_mode && !tris[0].0) ==> (forall|
                    xx: int,
                    yy: int,
                |
                    0 <= xx < old(self).color.width && 0 <= yy < old(self).color.height
                        && !fragment_written(tris[0].1, old(self).depth, wi, hi, xx, yy)
                        ==> #[trigger] same_pixel(self.color, old(self).color, xx, yy)
                        && self.depth.at(xx, yy) == old(self).depth.at(xx, yy)),
            decreases n - i,
        {
            proof {
                assert(3 * (i as int) + 2 < vertices@.len()) by (nonlinear_arith)
                    requires
                        0 <= i < n,
                        n == vertices@.len() / 3,
                        vertices@.len() % 3 == 0,
                ;
                assert((i as int) * 3 + 2 < vertices@.len());
                assert(vertices@.len() <= usize::MAX);
            }
            let base: usize = i * 3;
            let mut tri = [vertices[base], vertices[base + 1], vertices[base + 2]];
            let mut j: usize = 0;
            while j < 3
                invariant
                    j <= 3,
                    base == i * 3,
                    (i as int) * 3 + 2 < vertices@.len(),
                    self.shader == old(self).shader,
                    self.uniforms == old(self).uniforms,
                    texture_store.wf(),
                    forall|k: int|
                        0 <= k < j ==> #[trigger] crate::shader::vertex_shaded_ok(
                            old(self).shader.vertex_shading,
                            vertices@[base + k],
                            tri@[k],
                        ),
                    forall|k: int| j <= k < 3 ==> tri@[k] == vertices@[base + k],
                decreases 3 - j,
            {
                let shaded = self.shader.call_vertex_shading(&tri[j], &self.uniforms, texture_store);
                tri[j] = shaded;
                j = j + 1;
            }
            let ghost sh_tri = tri;
            let view = *self.camera.get_view_matrix();
            let proj = *self.camera.get_frustum().get_mat();
            let mut j: usize = 0;
            while j < 3
                invariant
                    j <= 3,
                    view == old(self).camera.view_matrix,
                    proj == old(self).camera.frustum.mat,
                    forall|k: int|
                        0 <= k < j ==> #[trigger] clip_position_ok(
                            *model,
                            view,
                            proj,
                            sh_tri@[k].position,
                            tri@[k].position,
                        ) && tri@[k].attributes == sh_tri@[k].attributes,
                    forall|k: int| j <= k < 3 ==> tri@[k] == sh_tri@[k],
                decreases 3 - j,
            {
                let p1 = model.mul_vec4(tri[j].position);
                let p2 = view.mul_vec4(p1);
                let p3 = proj.mul_vec4(p2);
                tri[j].position = p3;
                proof {
                    assert(clip_position_ok(*model, view, proj, sh_tri@[j as int].position, p3)) by {
                        assert(mv_ok(cells(*model), sh_tri@[j as int].position, p1) && mv_ok(
                            cells(view),
                            p1,
                            p2,
                        ) && mv_ok(cells(proj), p2, p3));
                    }
                }
                j = j + 1;
            }
            let ghost clip_tri = tri;
            let positions = [
                tri[0].position.truncated_to_vec3(),
                tri[1].position.truncated_to_vec3(),
                tri[2].position.truncated_to_vec3(),
            ];
            let culled = should_cull(
                &positions,
                self.camera.get_view_direction(),
                self.front_face,
                self.cull,
            );
            if !culled {
                let vw = self.viewport.w;
                let vh = self.viewport.h;
                let half = Fx { bits: FX_ONE / 2 };
                let wspan = Fx { bits: ((vw as i64) - 1) * FX_ONE };
                let hspan = Fx { bits: ((vh as i64) - 1) * FX_ONE };
                let mut j: usize = 0;
                while j < 3
                    invariant
                        j <= 3,
                        vw == old(self).viewport.w,
                        vh == old(self).viewport.h,
                        one.bits == FX_ONE,
                        half.bits == FX_ONE / 2,
                        wspan.bits == ((vw as int) - 1) * FX_ONE,
                        hspan.bits == ((vh as int) - 1) * FX_ONE,
                        forall|k: int|
                            0 <= k < j ==> #[trigger] projected_vertex_ok(
                                vw as int,
                                vh as int,
                                clip_tri@[k],
                                tri@[k],
                            ),
                        forall|k: int| j <= k < 3 ==> tri@[k] == clip_tri@[k],
                    decreases 3 - j,
                {
                    proof {
                        assert(tri@[j as int] == clip_tri@[j as int]);
                    }
                    let w_clip = tri[j].position.w;
                    let sx_ = tri[j].position.x.div(w_clip).add(one).mul(half).mul(wspan);
                    let sy_ = tri[j].position.y.div(w_clip).add(one).mul(half).mul(hspan);
                    let nw = w_clip.add(one).div_int(2);
                    let keep = tri[j].attributes;
                    tri[j] = Vertex { position: Vec4 { x: sx_, y: sy_, z: w_clip, w: nw }, attributes: keep };
                    proof {
                        assert(projected_vertex_ok(
                            vw as int,
                            vh as int,
                            clip_tri@[j as int],
                            tri@[j as int],
                        ));
                    }
                    j = j + 1;
                }
                let ghost c_pre = self.color;
                let ghost d_pre = self.depth;
                fill_triangle(
                    &mut self.color,
                    &mut self.depth,
                    &tri,
                    &self.shader,
                    &self.uniforms,
                    texture_store,
                );
                let ghost c_mid = self.color;
                if self.wireframe_mode {
                    rasterize_wireframe(&tri, &mut self.color);
                }
                proof {
                    let ghost tris0 = tris;
                    tris = tris.push((false, tri));
                    assert(tris.drop_last() =~= tris0);
                    assert(tris.last() == (false, tri));
                    assert(projected_triangle_ok(
                        *old(self),
                        *model,
                        vertices@[(i as int) * 3],
                        vertices@[(i as int) * 3 + 1],
                        vertices@[(i as int) * 3 + 2],
                        (false, tri),
                    )) by {
                        reveal(projected_triangle_ok);
                        assert(base as int == (i as int) * 3);
                        assert(crate::shader::vertex_shaded_ok(
                            old(self).shader.vertex_shading,
                            vertices@[base as int + 0],
                            sh_tri[0],
                        ));
                        assert(crate::shader::vertex_shaded_ok(
                            old(self).shader.vertex_shading,
                            vertices@[base as int + 1],
                            sh_tri[1],
                        ));
                        assert(crate::shader::vertex_shaded_ok(
                            old(self).shader.vertex_shading,
                            vertices@[base as int + 2],
                            sh_tri[2],
                        ));
                        assert(shaded_triple_ok(
                            old(self).shader.vertex_shading,
                            vertices@[(i as int) * 3],
                            vertices@[(i as int) * 3 + 1],
                            vertices@[(i as int) * 3 + 2],
                            sh_tri,
                        ));
                        assert(clip_position_ok(*model, view, proj, sh_tri[0].position, clip_tri[0].position));
                        assert(clip_position_ok(*model, view, proj, sh_tri[1].position, clip_tri[1].position));
                        assert(clip_position_ok(*model, view, proj, sh_tri[2].position, clip_tri[2].position));
                        assert(clip_triangle_ok(
                            *old(self),
                            *model,
                            vertices@[(i as int) * 3],
                            vertices@[(i as int) * 3 + 1],
                            vertices@[(i as int) * 3 + 2],
                            clip_tri,
                        ));
                        assert(positions@[0] == vec4_xyz(clip_tri[0].position));
                        assert(positions@[1] == vec4_xyz(clip_tri[1].position));
                        assert(positions@[2] == vec4_xyz(clip_tri[2].position));
                        assert(!clip_culled(*old(self), clip_tri));
                    }
                    lemma_draw_step(
                        *old(self),
                        c_pre,
                        d_pre,
                        c_mid,
                        self.color,
                        self.depth,
                        tri,
                        old(self).wireframe_mode,
                        wi,
                        hi,
                        tris,
                    );
                    let ghost states0 = states;
                    states = states.push((self.color, self.depth));
                    let ghost entry = (false, tri);
                    assert(entry_effect_ok(
                        entry,
                        c_pre,
                        d_pre,
                        self.color,
                        self.depth,
                        old(self).shader.fragment_shading,
                        *texture_store,
                        wi,
                        hi,
                        old(self).wireframe_mode,
                    )) by {
                        reveal(entry_effect_ok);
                        assert(entry.1 == tri);
                        assert(fill_effect_ok(
                            entry.1,
                            c_pre,
                            d_pre,
                            c_mid,
                            self.depth,
                            old(self).shader.fragment_shading,
                            *texture_store,
                            wi,
                            hi,
                        ));
                        if old(self).wireframe_mode {
                            assert(wire_effect_ok(entry.1, c_mid, self.color, wi, hi));
                        }
                    }
                    if n == 1 && !old(self).wireframe_mode {
                        assert(c_pre == old(self).color && d_pre == old(self).depth);
                        assert(self.color == c_mid);
                    }
                }
            } else {
                proof {
                    let ghost tris0 = tris;
                    tris = tris.push((true, tri));
                    assert(tris.drop_last() =~= tris0);
                    assert(tris.last() == (true, tri));
                    assert(projected_triangle_ok(
                        *old(self),
                        *model,
                        vertices@[(i as int) * 3],
                        vertices@[(i as int) * 3 + 1],
                        vertices@[(i as int) * 3 + 2],
                        (true, tri),
                    )) by {
                        reveal(projected_triangle_ok);
                        assert(base as int == (i as int) * 3);
                        assert(crate::shader::vertex_shaded_ok(
                            old(self).shader.vertex_shading,
                            vertices@[base as int + 0],
                            sh_tri[0],
                        ));
                        assert(crate::shader::vertex_shaded_ok(
                            old(self).shader.vertex_shading,
                            vertices@[base as int + 1],
                            sh_tri[1],
                        ));
                        assert(crate::shader::vertex_shaded_ok(
                            old(self).shader.vertex_shading,
                            vertices@[base as int + 2],
                            sh_tri[2],
                        ));
                        assert(shaded_triple_ok(
                            old(self).shader.vertex_shading,
                            vertices@[(i as int) * 3],
                            vertices@[(i as int) * 3 + 1],
                            vertices@[(i as int) * 3 + 2],
                            sh_tri,
                        ));
                        assert(clip_position_ok(*model, view, proj, sh_tri[0].position, tri[0].position));
                        assert(clip_position_ok(*model, view, proj, sh_tri[1].position, tri[1].position));
                        assert(clip_position_ok(*model, view, proj, sh_tri[2].position, tri[2].position));
                        assert(clip_triangle_ok(
                            *old(self),
                            *model,
                            vertices@[(i as int) * 3],
                            vertices@[(i as int) * 3 + 1],
                            vertices@[(i as int) * 3 + 2],
                            tri,
                        ));
                        assert(positions@[0] == vec4_xyz(tri[0].position));
                        assert(positions@[1] == vec4_xyz(tri[1].position));
                        assert(positions@[2] == vec4_xyz(tri[2].position));
                        assert(clip_culled(*old(self), tri));
                    }
                    lemma_draw_skip(
                        *old(self),
                        self.color,
                        self.depth,
                        old(self).wireframe_mode,
                        wi,
                        hi,
                        tris,
                    );
                    let ghost states0 = states;
                    states = states.push((self.color, self.depth));
                    assert(entry_effect_ok(
                        (true, tri),
                        states0.last().0,
                        states0.last().1,
                        self.color,
                        self.depth,
                        old(self).shader.fragment_shading,
                        *texture_store,
                        wi,
                        hi,
                        old(self).wireframe_mode,
                    )) by {
                        reveal(entry_effect_ok);
                    }
                }
            }
            proof {
                assert forall|t: int| 0 <= t < i + 1 implies #[trigger] batch_triangle_ok(
                    *old(self),
                    *model,
                    vertices@,
                    t,
                    tris[t],
                ) by {
                    if t < i {
                        assert(batch_triangle_ok(*old(self), *model, vertices@, t, tris.drop_last()[t]));
                    }
                }
                assert forall|t: int| 0 <= t < i + 1 implies #[trigger] entry_effect_ok(
                    tris[t],
                    states[t].0,
                    states[t].1,
                    states[t + 1].0,
                    states[t + 1].1,
                    old(self).shader.fragment_shading,
                    *texture_store,
                    wi,
                    hi,
                    old(self).wireframe_mode,
                ) by {
                    if t < i {
                        assert(tris.drop_last()[t] == tris[t]);
                        assert(states.drop_last()[t] == states[t]);
                        if t + 1 < i + 1 {
                            assert(states.drop_last()[t + 1] == states[t + 1]);
                        }
                        assert(entry_effect_ok(
                            tris.drop_last()[t],
                            states.drop_last()[t].0,
                            states.drop_last()[t].1,
                            states.drop_last()[t + 1].0,
                            states.drop_last()[t + 1].1,
                            old(self).shader.fragment_shading,
                            *texture_store,
                            wi,
                            hi,
                            old(self).wireframe_mode,
                        ));
                    }
                }
            }
            i = i + 1;
        }
        Ghost((tris, states))
    }
}

impl RendererDerive for Renderer {
    open spec fn r_wf(&self) -> bool {
        self.wf()
    }

    fn clear(&mut self, color: &Vec4) {
        Renderer::clear(self, color);
    }

    fn clear_depth(&mut self) {
        Renderer::clear_depth(self);
    }

    fn get_canvas_width(&self) -> u32 {
        Renderer::get_canvas_width(self)
    }

    fn get_canvas_height(&self) -> u32 {
        Renderer::get_canvas_height(self)
    }

    fn get_frame_image(&self) -> &[u8] {
        self.color.bytes()
    }

    fn get_shader(&self) -> &Shader {
        Renderer::get_shader(self)
    }

    fn set_shader(&mut self, shader: Shader) {
        Renderer::set_shader(self, shader);
    }

    fn get_uniforms(&self) -> &Uniforms {
        Renderer::get_uniforms(self)
    }

    fn set_uniform(&mut self, key: String, value: UniformValue) {
        Renderer::set_uniform(self, key, value);
    }

    fn enable_wireframe(&mut self) {
        Renderer::enable_wireframe(self);
    }

    fn disable_wireframe(&mut self) {
        Renderer::disable_wireframe(self);
    }

    fn toggle_wireframe(&mut self) {
        Renderer::toggle_wireframe(self);
    }
}

impl RendererDraw for Renderer {
    open spec fn d_wf(&self) -> bool {
        self.wf()
    }

    fn draw_triangle(&mut self, model: &Mat4, vertices: &[Vertex], texture_store: &TextureStore) {
        Renderer::draw_triangle(self, model, vertices, texture_store);
    }
}

impl RendererInterface for Renderer {

}

/// A triangle whose screen bounding box degenerates — because it
/// lies fully outside the viewport, or clamps below its own start —
/// covers no scanned pixel at all; by the scan's frame contract no
/// pixel of either attachment changes.
pub proof fn lemma_empty_region_touches_nothing(tri: [Vertex; 3], w: int, h: int)
    requires
        aabb_max_val(
            tri[0].position.x.bits as int,
            tri[1].position.x.bits as int,
            tri[2].position.x.bits as int,
            w,
        ) < aabb_min_val(
            tri[0].position.x.bits as int,
            tri[1].position.x.bits as int,
            tri[2].position.x.bits as int,
        ) || aabb_max_val(
            tri[0].position.y.bits as int,
            tri[1].position.y.bits as int,
            tri[2].position.y.bits as int,
            h,
        ) < aabb_min_val(
            tri[0].position.y.bits as int,
            tri[1].position.y.bits as int,
            tri[2].position.y.bits as int,
        ),
    ensures
        forall|x: int, y: int| !in_scan_region(tri, w, h, x, y),
{
}

/// A scan region clamped to at most one column and one row holds at
/// most one pixel: any two scanned pixels coincide.
pub proof fn lemma_single_pixel_region(tri: [Vertex; 3], w: int, h: int)
    requires
        aabb_max_val(
            tri[0].position.x.bits as int,
            tri[1].position.x.bits as int,
            tri[2].position.x.bits as int,
            w,
        ) - aabb_min_val(
            tri[0].position.x.bits as int,
            tri[1].position.x.bits as int,
            tri[2].position.x.bits as int,
        ) <= 0,
        aabb_max_val(
            tri[0].position.y.bits as int,
            tri[1].position.y.bits as int,
            tri[2].position.y.bits as int,
            h,
        ) - aabb_min_val(
            tri[0].position.y.bits as int,
            tri[1].position.y.bits as int,
            tri[2].position.y.bits as int,
        ) <= 0,
    ensures
        forall|x1: int, y1: int, x2: int, y2: int|
            in_scan_region(tri, w, h, x1, y1) && in_scan_region(tri, w, h, x2, y2) ==> x1 == x2
                && y1 == y2,
{
}

/// After resetting depth to the far sentinel, one draw leaves every
/// pixel either untouched or holding a depth strictly below the
/// sentinel.
pub proof fn lemma_depth_written_below_sentinel(
    pre: Renderer,
    post: Renderer,
)
    requires
        pre.color.width == post.color.width,
        pre.color.height == post.color.height,
        !pre.wireframe_mode,
        forall|i: int| 0 <= i < pre.depth.data@.len() ==> (#[trigger] pre.depth.data@[i]).bits == i64::MAX,
        pre.depth.wf(),
        pre.depth.width == pre.color.width,
        pre.depth.height == pre.color.height,
        forall|xx: int, yy: int|
            0 <= xx < pre.color.width && 0 <= yy < pre.color.height && !same_pixel(
                post.color,
                pre.color,
                xx,
                yy,
            ) ==> post.depth.at(xx, yy) < pre.depth.at(xx, yy),
    ensures
        forall|xx: int, yy: int|
            0 <= xx < pre.color.width && 0 <= yy < pre.color.height ==> same_pixel(
                post.color,
                pre.color,
                xx,
                yy,
            ) || post.depth.at(xx, yy) < i64::MAX,
{
    assert forall|xx: int, yy: int|
        0 <= xx < pre.color.width && 0 <= yy < pre.color.height implies same_pixel(
        post.color,
        pre.color,
        xx,
        yy,
    ) || post.depth.at(xx, yy) < i64::MAX by {
        if !same_pixel(post.color, pre.color, xx, yy) {
            crate::image::lemma_depth_index_bound(
                pre.depth.width as int,
                pre.depth.height as int,
                xx,
                yy,
            );
            assert(pre.depth.at(xx, yy) == i64::MAX);
        }
    }
}

} // verus!
