//! The renderer surface: the viewport, the winding and culling
//! policies, the backend traits, texture sampling and the backface
//! test.
use crate::fx::{clamp_val, fx_add_val, fx_mul_val, fx_sub_val, Fx, FX_ONE};
use crate::mat::Mat4;
use crate::shader::{Shader, UniformValue, Uniforms, Vertex};
use crate::texture::{Texture, TextureStore};
use crate::vec::{Vec2, Vec3, Vec4};
use vstd::prelude::*;

verus! {

/// The screen rectangle normalized device coordinates map into.
pub struct Viewport {
    pub x: i32,
    pub y: i32,
    pub w: u32,
    pub h: u32,
}

/// The bookkeeping half of a renderer backend: buffers, shader and
/// uniform slots, wireframe switches.
pub trait RendererDerive {
    /// The backend's own well-formedness.
    spec fn r_wf(&self) -> bool;

    fn clear(&mut self, color: &Vec4)
        requires
            old(self).r_wf(),
        ensures
            final(self).r_wf(),
    ;

    fn clear_depth(&mut self)
        requires
            old(self).r_wf(),
        ensures
            final(self).r_wf(),
    ;

    fn get_canvas_width(&self) -> u32;

    fn get_canvas_height(&self) -> u32;

    fn get_frame_image(&self) -> &[u8];

    fn get_shader(&self) -> &Shader;

    fn set_shader(&mut self, shader: Shader)
        requires
            old(self).r_wf(),
        ensures
            final(self).r_wf(),
    ;

    fn get_uniforms(&self) -> &Uniforms;

    fn set_uniform(&mut self, key: String, value: UniformValue)
        requires
            old(self).r_wf(),
        ensures
            final(self).r_wf(),
    ;

    fn enable_wireframe(&mut self)
        requires
            old(self).r_wf(),
        ensures
            final(self).r_wf(),
    ;

    fn disable_wireframe(&mut self)
        requires
            old(self).r_wf(),
        ensures
            final(self).r_wf(),
    ;

    fn toggle_wireframe(&mut self)
        requires
            old(self).r_wf(),
        ensures
            final(self).r_wf(),
    ;
}

/// The drawing half of a renderer backend.
pub trait RendererDraw {
    /// The backend's own well-formedness.
    spec fn d_wf(&self) -> bool;

    fn draw_triangle(&mut self, model: &Mat4, vertices: &[Vertex], texture_store: &TextureStore)
        requires
            old(self).d_wf(),
            texture_store.wf(),
            vertices@.len() % 3 == 0,
        ensures
            final(self).d_wf(),
    ;
}

/// A full renderer backend.
pub trait RendererInterface: RendererDerive + RendererDraw {

}

/// Which faces are dropped.
#[derive(Clone, Copy, Debug, PartialEq, Eq, Structural)]
pub enum FaceCull {
    Front,
    Back,
    Off,
}

/// Which winding counts as the front face.
#[derive(Clone, Copy, Debug, PartialEq, Eq, Structural)]
pub enum FrontFace {
    /// clockwise
    CW,
    /// counter clockwise
    CCW,
}

/// How a scene is rendered.
#[derive(Debug, Clone, Copy, PartialEq, Eq, Structural)]
pub enum RenderMode {
    Wireframe,
    Diffuse,
    Bump,
}

impl Default for RenderMode {
    /// Rendering defaults to diffuse shading.
    fn default() -> (r: RenderMode)
        ensures
            r == RenderMode::Diffuse,
    {
        RenderMode::Diffuse
    }
}

/// What became of one rasterized face.
pub enum RasterizeResult {
    Accepted,
    Discard,
    GenerateNewFace,
}

/// Nearest-neighbor sample coordinate: the normalized coordinate is
/// clamped into `[0, 1]`, scaled to the last texel, and floored.
pub open spec fn sample_coord_val(u: int, extent: int) -> int {
    fx_mul_val(clamp_val(u, 0, FX_ONE as int), (extent - 1) * (FX_ONE as int)) / (FX_ONE as int)
}

/// Nearest-neighbor texture sampling by normalized coordinates.
pub fn texture_sample(texture: &Texture, textcoord: &Vec2) -> (r: Vec4)
    requires
        texture.wf(),
    ensures
        r == texture.data@[sample_coord_val(textcoord.y.bits as int, texture.height as int) * (
        texture.width as int) + sample_coord_val(textcoord.x.bits as int, texture.width as int)],
{
    let zero = Fx { bits: 0 };
    let one = Fx { bits: FX_ONE };
    let wm1 = Fx { bits: (texture.width() as i64 - 1) * FX_ONE };
    let hm1 = Fx { bits: (texture.height() as i64 - 1) * FX_ONE };
    let ux = textcoord.x.clamp(zero, one).mul(wm1);
    let uy = textcoord.y.clamp(zero, one).mul(hm1);
    let x = ux.floor_int();
    let y = uy.floor_int();
    proof {
        lemma_sample_coord_range(textcoord.x.bits as int, texture.width as int);
        lemma_sample_coord_range(textcoord.y.bits as int, texture.height as int);
    }
    texture.get_pixel(x as u32, y as u32)
}

/// A sample coordinate lands on a texel of the image.
proof fn lemma_sample_coord_range(u: int, extent: int)
    requires
        1 <= extent <= 16384,
    ensures
        0 <= sample_coord_val(u, extent) < extent,
{
    let cl = clamp_val(u, 0, FX_ONE as int);
    let prod = cl * ((extent - 1) * (FX_ONE as int));
    assert(0 <= prod <= (extent - 1) * (FX_ONE as int) * (FX_ONE as int)) by (nonlinear_arith)
        requires
            0 <= cl <= FX_ONE,
            extent >= 1,
            prod == cl * ((extent - 1) * (FX_ONE as int)),
    ;
    assert(fx_mul_val(cl, (extent - 1) * (FX_ONE as int)) == prod / (FX_ONE as int)) by {
        assert(crate::fx::tdiv(prod, FX_ONE as int) == prod / (FX_ONE as int));
        assert(prod / (FX_ONE as int) <= prod) by {
            vstd::arithmetic::div_mod::lemma_div_nonincreasing(prod, FX_ONE as int);
        }
        assert(prod / (FX_ONE as int) >= 0) by {
            vstd::arithmetic::div_mod::lemma_div_pos_is_pos(prod, FX_ONE as int);
        }
        assert(prod <= 0x4000 * 0x1_0000 * 0x1_0000) by (nonlinear_arith)
            requires
                0 <= prod <= (extent - 1) * (FX_ONE as int) * (FX_ONE as int),
                extent <= 16384,
        ;
    }
    let q = prod / (FX_ONE as int);
    vstd::arithmetic::div_mod::lemma_div_pos_is_pos(prod, FX_ONE as int);
    assert(q / (FX_ONE as int) < extent) by {
        assert(prod <= ((extent - 1) * (FX_ONE as int)) * (FX_ONE as int)) by (nonlinear_arith)
            requires
                0 <= cl <= FX_ONE,
                prod == cl * ((extent - 1) * (FX_ONE as int)),
                extent >= 1,
        ;
        vstd::arithmetic::div_mod::lemma_div_is_ordered(
            prod,
            ((extent - 1) * (FX_ONE as int)) * (FX_ONE as int),
            FX_ONE as int,
        );
        vstd::arithmetic::div_mod::lemma_div_multiples_vanish(
            (extent - 1) * (FX_ONE as int),
            FX_ONE as int,
        );
        assert(((extent - 1) * (FX_ONE as int)) * (FX_ONE as int) == (FX_ONE as int) * ((extent - 1)
            * (FX_ONE as int))) by (nonlinear_arith);
        vstd::arithmetic::div_mod::lemma_div_is_ordered(
            prod / (FX_ONE as int),
            (extent - 1) * (FX_ONE as int),
            1,
        );
        assert((extent - 1) * (FX_ONE as int) / (FX_ONE as int) == extent - 1) by {
            vstd::arithmetic::div_mod::lemma_div_multiples_vanish(extent - 1, FX_ONE as int);
            assert((extent - 1) * (FX_ONE as int) == (FX_ONE as int) * (extent - 1))
                by (nonlinear_arith);
        }
        vstd::arithmetic::div_mod::lemma_div_is_ordered(q, (extent - 1) * (FX_ONE as int), FX_ONE as int);
    }
}

/// The backface dot product: the clip-space triangle normal dotted
/// with the view direction.
pub open spec fn cull_dot_val(p0: Vec3, p1: Vec3, p2: Vec3, view: Vec3) -> int {
    let ax = fx_sub_val(p1.x.bits as int, p0.x.bits as int);
    let ay = fx_sub_val(p1.y.bits as int, p0.y.bits as int);
    let az = fx_sub_val(p1.z.bits as int, p0.z.bits as int);
    let bx = fx_sub_val(p2.x.bits as int, p1.x.bits as int);
    let by = fx_sub_val(p2.y.bits as int, p1.y.bits as int);
    let bz = fx_sub_val(p2.z.bits as int, p1.z.bits as int);
    let nx = fx_sub_val(fx_mul_val(ay, bz), fx_mul_val(az, by));
    let ny = fx_sub_val(fx_mul_val(az, bx), fx_mul_val(ax, bz));
    let nz = fx_sub_val(fx_mul_val(ax, by), fx_mul_val(ay, bx));
    fx_add_val(
        fx_add_val(fx_mul_val(nx, view.x.bits as int), fx_mul_val(ny, view.y.bits as int)),
        fx_mul_val(nz, view.z.bits as int),
    )
}

/// Whether a face with the given winding counts as front-facing.
pub open spec fn is_front_face_val(d: int, face: FrontFace) -> bool {
    match face {
        FrontFace::CW => d > 0,
        FrontFace::CCW => d <= 0,
    }
}

/// Whether the cull policy drops the face.
pub open spec fn should_cull_val(d: int, face: FrontFace, cull: FaceCull) -> bool {
    match cull {
        FaceCull::Front => is_front_face_val(d, face),
        FaceCull::Back => !is_front_face_val(d, face),
        FaceCull::Off => false,
    }
}

/// The backface test: compute the clip-space normal, dot it with the
/// view direction, and apply the winding and cull policies.
pub fn should_cull(
    positions: &[Vec3; 3],
    view_direction: &Vec3,
    face: FrontFace,
    cull: FaceCull,
) -> (r: bool)
    ensures
        r == should_cull_val(
            cull_dot_val(positions@[0], positions@[1], positions@[2], *view_direction),
            face,
            cull,
        ),
{
    let norm = positions[1].sub(positions[0]).cross(&positions[2].sub(positions[1]));
    let d = norm.dot(view_direction);
    let is_front_face = match face {
        FrontFace::CW => d.bits > 0,
        FrontFace::CCW => d.bits <= 0,
    };
    match cull {
        FaceCull::Front => is_front_face,
        FaceCull::Back => !is_front_face,
        FaceCull::Off => false,
    }
}

} // verus!
