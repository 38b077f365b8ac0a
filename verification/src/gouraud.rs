//! The gouraud shading program: per-vertex diffuse intensity against
//! a light direction, modulating the sampled texture.
use crate::shader::{FragmentShading, Shader, VertexShading};
use crate::vec::Vec3;
use vstd::prelude::*;

verus! {

/// A shader whose vertex stage lights slot zero against `light_dir`
/// and whose fragment stage samples texture zero, scaled by the
/// interpolated intensity.
pub fn make_gouraud_shader(light_dir: Vec3) -> (r: Shader)
    ensures
        r.vertex_shading == (VertexShading::Gouraud {
            light_dir,
            normal_slot: 0usize,
            intensity_slot: 0usize,
        }),
        r.fragment_shading == (FragmentShading::GouraudTextured {
            intensity_slot: 0usize,
            uv_slot: 0usize,
            texture_id: 0u32,
        }),
{
    Shader {
        vertex_shading: VertexShading::Gouraud { light_dir, normal_slot: 0, intensity_slot: 0 },
        fragment_shading: FragmentShading::GouraudTextured {
            intensity_slot: 0,
            uv_slot: 0,
            texture_id: 0,
        },
    }
}

} // verus!
