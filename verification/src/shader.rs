//! The shader abstraction: vertices with fixed-slot attribute
//! records, uniforms keyed by string, and the pluggable vertex and
//! fragment stages.
//!
//! A stage is a plain value describing one of the shading programs
//! the library ships, with its captured environment (a constant
//! color, a light direction, slot indices). Dispatch is a verified
//! match, so each program's output is stated exactly.
use crate::fx::{fx_add_val, fx_div_val, fx_mul_val, fx_sub_val, sqrt_val, Fx, FX_ONE};
use crate::mat::{Mat2, Mat3, Mat4};
use crate::texture::{Texture, TextureStore};
use crate::vec::{dot3_val, Vec2, Vec3, Vec4};
use vstd::prelude::*;

verus! {

/// Number of attribute slots of each type.
pub const ATTR_SLOTS: usize = 4;

/// The fixed-slot attribute record: four slots of each shape. The
/// fixed shape keeps interpolation allocation-free.
#[derive(Debug, Clone, Copy)]
pub struct Attributes {
    pub float: [Fx; 4],
    pub vec2: [Vec2; 4],
    pub vec3: [Vec3; 4],
    pub vec4: [Vec4; 4],
}

impl Attributes {
    /// The all-zero record.
    pub fn zeroed() -> (r: Attributes)
        ensures
            forall|i: int| 0 <= i < 4 ==> (#[trigger] r.float@[i]).bits == 0,
            forall|i: int|
                0 <= i < 4 ==> (#[trigger] r.vec2@[i]).x.bits == 0 && r.vec2@[i].y.bits == 0,
            forall|i: int|
                0 <= i < 4 ==> (#[trigger] r.vec3@[i]).x.bits == 0 && r.vec3@[i].y.bits == 0
                    && r.vec3@[i].z.bits == 0,
            forall|i: int|
                0 <= i < 4 ==> (#[trigger] r.vec4@[i]).x.bits == 0 && r.vec4@[i].y.bits == 0
                    && r.vec4@[i].z.bits == 0 && r.vec4@[i].w.bits == 0,
    {
        let z = Fx { bits: 0 };
        let z2 = Vec2 { x: z, y: z };
        let z3 = Vec3 { x: z, y: z, z: z };
        let z4 = Vec4 { x: z, y: z, z: z, w: z };
        Attributes {
            float: [z, z, z, z],
            vec2: [z2, z2, z2, z2],
            vec3: [z3, z3, z3, z3],
            vec4: [z4, z4, z4, z4],
        }
    }
}

impl Default for Attributes {
    /// Attribute records start zeroed.
    fn default() -> (r: Attributes)
        ensures
            forall|i: int| 0 <= i < 4 ==> (#[trigger] r.float@[i]).bits == 0,
    {
        Attributes::zeroed()
    }
}

/// A pipeline vertex: a homogeneous position and its attributes.
#[derive(Debug, Clone, Copy)]
pub struct Vertex {
    pub position: Vec4,
    pub attributes: Attributes,
}

impl Vertex {
    /// A vertex at a client position (`w` starts at one) with the
    /// given attributes.
    pub fn new(position: &Vec3, attributes: Attributes) -> (r: Vertex)
        ensures
            r.position.x == position.x,
            r.position.y == position.y,
            r.position.z == position.z,
            r.position.w.bits == FX_ONE,
            r.attributes == attributes,
    {
        Vertex {
            position: Vec4 {
                x: position.x,
                y: position.y,
                z: position.z,
                w: Fx { bits: FX_ONE },
            },
            attributes,
        }
    }
}

/// Reset the homogeneous lane to one, leaving the rest of the vertex
/// as it is.
pub fn vertex_rhw_init(v: &mut Vertex)
    ensures
        final(v).position.x == old(v).position.x,
        final(v).position.y == old(v).position.y,
        final(v).position.z == old(v).position.z,
        final(v).position.w.bits == FX_ONE,
        final(v).attributes == old(v).attributes,
{
    v.position.w = Fx { bits: FX_ONE };
}

/// The per-unit step between two attribute records: each slot holds
/// `(b - a) * t`.
pub fn interp_attributes(a: &Attributes, b: &Attributes, t: Fx) -> (r: Attributes)
    ensures
        forall|i: int|
            0 <= i < 4 ==> (#[trigger] r.float@[i]).bits == fx_mul_val(
                fx_sub_val(b.float@[i].bits as int, a.float@[i].bits as int),
                t.bits as int,
            ),
        forall|i: int|
            0 <= i < 4 ==> (#[trigger] r.vec2@[i]).x.bits == fx_mul_val(
                fx_sub_val(b.vec2@[i].x.bits as int, a.vec2@[i].x.bits as int),
                t.bits as int,
            ) && r.vec2@[i].y.bits == fx_mul_val(
                fx_sub_val(b.vec2@[i].y.bits as int, a.vec2@[i].y.bits as int),
                t.bits as int,
            ),
        forall|i: int|
            0 <= i < 4 ==> (#[trigger] r.vec3@[i]).x.bits == fx_mul_val(
                fx_sub_val(b.vec3@[i].x.bits as int, a.vec3@[i].x.bits as int),
                t.bits as int,
            ) && r.vec3@[i].y.bits == fx_mul_val(
                fx_sub_val(b.vec3@[i].y.bits as int, a.vec3@[i].y.bits as int),
                t.bits as int,
            ) && r.vec3@[i].z.bits == fx_mul_val(
                fx_sub_val(b.vec3@[i].z.bits as int, a.vec3@[i].z.bits as int),
                t.bits as int,
            ),
        forall|i: int|
            0 <= i < 4 ==> (#[trigger] r.vec4@[i]).x.bits == fx_mul_val(
                fx_sub_val(b.vec4@[i].x.bits as int, a.vec4@[i].x.bits as int),
                t.bits as int,
            ) && r.vec4@[i].y.bits == fx_mul_val(
                fx_sub_val(b.vec4@[i].y.bits as int, a.vec4@[i].y.bits as int),
                t.bits as int,
            ) && r.vec4@[i].z.bits == fx_mul_val(
                fx_sub_val(b.vec4@[i].z.bits as int, a.vec4@[i].z.bits as int),
                t.bits as int,
            ) && r.vec4@[i].w.bits == fx_mul_val(
                fx_sub_val(b.vec4@[i].w.bits as int, a.vec4@[i].w.bits as int),
                t.bits as int,
            ),
{
    let mut r = Attributes::zeroed();
    let mut i: usize = 0;
    while i < 4
        invariant
            i <= 4,
            forall|k: int|
                0 <= k < i ==> (#[trigger] r.float@[k]).bits == fx_mul_val(
                    fx_sub_val(b.float@[k].bits as int, a.float@[k].bits as int),
                    t.bits as int,
                ),
            forall|k: int|
                0 <= k < i ==> (#[trigger] r.vec2@[k]).x.bits == fx_mul_val(
                    fx_sub_val(b.vec2@[k].x.bits as int, a.vec2@[k].x.bits as int),
                    t.bits as int,
                ) && r.vec2@[k].y.bits == fx_mul_val(
                    fx_sub_val(b.vec2@[k].y.bits as int, a.vec2@[k].y.bits as int),
                    t.bits as int,
                ),
            forall|k: int|
                0 <= k < i ==> (#[trigger] r.vec3@[k]).x.bits == fx_mul_val(
                    fx_sub_val(b.vec3@[k].x.bits as int, a.vec3@[k].x.bits as int),
                    t.bits as int,
                ) && r.vec3@[k].y.bits == fx_mul_val(
                    fx_sub_val(b.vec3@[k].y.bits as int, a.vec3@[k].y.bits as int),
                    t.bits as int,
                ) && r.vec3@[k].z.bits == fx_mul_val(
                    fx_sub_val(b.vec3@[k].z.bits as int, a.vec3@[k].z.bits as int),
                    t.bits as int,
                ),
            forall|k: int|
                0 <= k < i ==> (#[trigger] r.vec4@[k]).x.bits == fx_mul_val(
                    fx_sub_val(b.vec4@[k].x.bits as int, a.vec4@[k].x.bits as int),
                    t.bits as int,
                ) && r.vec4@[k].y.bits == fx_mul_val(
                    fx_sub_val(b.vec4@[k].y.bits as int, a.vec4@[k].y.bits as int),
                    t.bits as int,
                ) && r.vec4@[k].z.bits == fx_mul_val(
                    fx_sub_val(b.vec4@[k].z.bits as int, a.vec4@[k].z.bits as int),
                    t.bits as int,
                ) && r.vec4@[k].w.bits == fx_mul_val(
                    fx_sub_val(b.vec4@[k].w.bits as int, a.vec4@[k].w.bits as int),
                    t.bits as int,
                ),
        decreases 4 - i,
    {
        let f = b.float[i].sub(a.float[i]).mul(t);
        r.float[i] = f;
        let v2 = b.vec2[i].sub(a.vec2[i]).mul(t);
        r.vec2[i] = v2;
        let v3 = b.vec3[i].sub(a.vec3[i]).mul(t);
        r.vec3[i] = v3;
        let v4 = b.vec4[i].sub(a.vec4[i]).mul(t);
        r.vec4[i] = v4;
        i = i + 1;
    }
    r
}

/// A tagged uniform value.
#[derive(Debug, Clone, Copy)]
pub enum UniformValue {
    Float(Fx),
    V2(Vec2),
    V3(Vec3),
    V4(Vec4),
    M2(Mat2),
    M3(Mat3),
    M4(Mat4),
    Texture(u32),
}

/// The most recent value set under a key, if any.
pub open spec fn lookup_val(s: Seq<(String, UniformValue)>, k: Seq<char>) -> Option<UniformValue>
    decreases s.len(),
{
    if s.len() == 0 {
        None
    } else if s.last().0@ == k {
        Some(s.last().1)
    } else {
        lookup_val(s.drop_last(), k)
    }
}

/// Uniforms: a string-keyed mapping of tagged values, written by the
/// client between frames and read by shaders.
pub struct Uniforms {
    pub entries: Vec<(String, UniformValue)>,
}

impl Uniforms {
    /// An empty mapping.
    pub fn new() -> (r: Uniforms)
        ensures
            r.entries@.len() == 0,
    {
        Uniforms { entries: Vec::new() }
    }

    /// Bind `key` to `value`; a later binding of the same key wins.
    pub fn set(&mut self, key: String, value: UniformValue)
        ensures
            final(self).entries@ == old(self).entries@.push((key, value)),
            forall|k: Seq<char>|
                lookup_val(final(self).entries@, k) == (if k == key@ {
                    Some(value)
                } else {
                    lookup_val(old(self).entries@, k)
                }),
    {
        self.entries.push((key, value));
        proof {
            assert forall|k: Seq<char>|
                lookup_val(self.entries@, k) == (if k == key@ {
                    Some(value)
                } else {
                    lookup_val(old(self).entries@, k)
                }) by {
                assert(self.entries@.last() == (key, value));
                assert(self.entries@.drop_last() =~= old(self).entries@);
            }
        }
    }

    /// The value bound to `key`, if any.
    pub fn get(&self, key: &String) -> (r: Option<&UniformValue>)
        ensures
            (r is Some) == (lookup_val(self.entries@, key@) is Some),
            r is Some ==> Some(*r->0) == lookup_val(self.entries@, key@),
    {
        let n = self.entries.len();
        proof {
            assert(self.entries@.take(n as int) =~= self.entries@);
        }
        let mut i: usize = n;
        while i > 0
            invariant
                i <= n,
                n == self.entries@.len(),
                lookup_val(self.entries@, key@) == lookup_val(self.entries@.take(i as int), key@),
            decreases i,
        {
            proof {
                assert(self.entries@.take(i as int).last() == self.entries@[i - 1]);
                assert(self.entries@.take(i as int).drop_last() =~= self.entries@.take(i - 1));
            }
            if self.entries[i - 1].0.eq(key) {
                return Some(&self.entries[i - 1].1);
            }
            i = i - 1;
        }
        proof {
            assert(self.entries@.take(0) =~= Seq::<(String, UniformValue)>::empty());
        }
        None
    }
}

/// The gouraud light intensity: the vertex normal dotted with the
/// normalized light direction, floored at zero.
pub open spec fn gouraud_intensity_val(light: Vec3, n: Vec3) -> int {
    let len = sqrt_val(dot3_val(light, light) * (FX_ONE as int));
    let lx = fx_div_val(light.x.bits as int, len);
    let ly = fx_div_val(light.y.bits as int, len);
    let lz = fx_div_val(light.z.bits as int, len);
    let d = fx_add_val(
        fx_add_val(fx_mul_val(n.x.bits as int, lx), fx_mul_val(n.y.bits as int, ly)),
        fx_mul_val(n.z.bits as int, lz),
    );
    if d < 0 {
        0
    } else {
        d
    }
}

/// The texel nearest-neighbor sampling yields for a normalized
/// coordinate pair, over the clamped-and-floored sample coordinates.
pub open spec fn texel_at(t: Texture, uv: Vec2) -> Vec4 {
    t.data@[crate::renderer::sample_coord_val(uv.y.bits as int, t.height as int) * (
    t.width as int) + crate::renderer::sample_coord_val(uv.x.bits as int, t.width as int)]
}

/// Each lane scaled by the fixed-point factor `s`.
pub open spec fn vec4_scale_val(v: Vec4, s: int) -> Vec4 {
    Vec4 {
        x: Fx { bits: fx_mul_val(v.x.bits as int, s) as i64 },
        y: Fx { bits: fx_mul_val(v.y.bits as int, s) as i64 },
        z: Fx { bits: fx_mul_val(v.z.bits as int, s) as i64 },
        w: Fx { bits: fx_mul_val(v.w.bits as int, s) as i64 },
    }
}

/// Opaque white, the fallback color of the fragment programs.
pub open spec fn white_val() -> Vec4 {
    Vec4 { x: Fx { bits: FX_ONE }, y: Fx { bits: FX_ONE }, z: Fx { bits: FX_ONE }, w: Fx { bits: FX_ONE } }
}

/// The color the fragment stage produces for an interpolated
/// attribute record: a constant, a sampled texel, or a sampled texel
/// scaled by the interpolated intensity — capped at one — with the
/// homogeneous lane forced to one; a missing texture handle falls
/// back to a gray of the capped intensity, an out-of-range slot to
/// white.
pub open spec fn fragment_output_val(f: FragmentShading, attrs: Attributes, textures: TextureStore) -> Vec4 {
    match f {
        FragmentShading::Constant(c) => c,
        FragmentShading::Textured { uv_slot, texture_id } => {
            if uv_slot < 4 && (texture_id as int) < textures.textures@.len() {
                texel_at(textures.textures@[texture_id as int], attrs.vec2@[uv_slot as int])
            } else {
                white_val()
            }
        },
        FragmentShading::GouraudTextured { intensity_slot, uv_slot, texture_id } => {
            if intensity_slot < 4 && uv_slot < 4 {
                let raw = attrs.float@[intensity_slot as int];
                let s: Fx = if raw.bits > FX_ONE {
                    Fx { bits: FX_ONE }
                } else {
                    raw
                };
                if (texture_id as int) < textures.textures@.len() {
                    let sc = vec4_scale_val(
                        texel_at(
                            textures.textures@[texture_id as int],
                            attrs.vec2@[uv_slot as int],
                        ),
                        s.bits as int,
                    );
                    Vec4 { x: sc.x, y: sc.y, z: sc.z, w: Fx { bits: FX_ONE } }
                } else {
                    Vec4 { x: s, y: s, z: s, w: Fx { bits: FX_ONE } }
                }
            } else {
                white_val()
            }
        },
    }
}

/// The vertex stage's exact output for one program: the identity
/// hands the vertex through; the gouraud stage writes the light
/// intensity of the slot normal into the intensity slot, leaving
/// everything else alone (and passes the vertex through unchanged
/// when a slot index is out of range).
pub open spec fn vertex_shaded_ok(vs: VertexShading, vin: Vertex, vout: Vertex) -> bool {
    match vs {
        VertexShading::Identity => vout == vin,
        VertexShading::Gouraud { light_dir, normal_slot, intensity_slot } => {
            if normal_slot < 4 && intensity_slot < 4 {
                &&& vout.position == vin.position
                &&& vout.attributes.vec2 == vin.attributes.vec2
                &&& vout.attributes.vec3 == vin.attributes.vec3
                &&& vout.attributes.vec4 == vin.attributes.vec4
                &&& vout.attributes.float@ =~= vin.attributes.float@.update(
                    intensity_slot as int,
                    Fx {
                        bits: gouraud_intensity_val(
                            light_dir,
                            vin.attributes.vec3@[normal_slot as int],
                        ) as i64,
                    },
                )
            } else {
                vout == vin
            }
        },
    }
}

/// The vertex stage: one of the shipped programs with its captured
/// environment.
#[derive(Debug, Clone, Copy)]
pub enum VertexShading {
    /// Hand the vertex through unchanged.
    Identity,
    /// Light the vertex: read the normal from a `vec3` slot, write
    /// the intensity against `light_dir` into a `float` slot.
    Gouraud { light_dir: Vec3, normal_slot: usize, intensity_slot: usize },
}

/// The fragment stage: one of the shipped programs with its captured
/// environment.
#[derive(Debug, Clone, Copy)]
pub enum FragmentShading {
    /// A constant color.
    Constant(Vec4),
    /// Sample a texture at the interpolated `vec2` slot; white when
    /// the handle misses.
    Textured { uv_slot: usize, texture_id: u32 },
    /// Sample and scale by the interpolated intensity, capped at one;
    /// a gray of the capped intensity when the handle misses.
    GouraudTextured { intensity_slot: usize, uv_slot: usize, texture_id: u32 },
}

/// The two pluggable stages of the pipeline. Either slot can be
/// replaced between draws.
#[derive(Debug, Clone, Copy)]
pub struct Shader {
    pub vertex_shading: VertexShading,
    pub fragment_shading: FragmentShading,
}

impl Default for Shader {
    /// The default shader: identity vertex stage, constant white.
    fn default() -> (r: Shader)
        ensures
            r.vertex_shading is Identity,
            r.fragment_shading == FragmentShading::Constant(
                Vec4 {
                    x: Fx { bits: FX_ONE },
                    y: Fx { bits: FX_ONE },
                    z: Fx { bits: FX_ONE },
                    w: Fx { bits: FX_ONE },
                },
            ),
    {
        let one = Fx { bits: FX_ONE };
        Shader {
            vertex_shading: VertexShading::Identity,
            fragment_shading: FragmentShading::Constant(Vec4 { x: one, y: one, z: one, w: one }),
        }
    }
}

impl Shader {
    /// Run the vertex stage on one vertex.
    pub fn call_vertex_shading(
        &self,
        v: &Vertex,
        uniforms: &Uniforms,
        textures: &TextureStore,
    ) -> (r: Vertex)
        ensures
            vertex_shaded_ok(self.vertex_shading, *v, r),
    {
        match self.vertex_shading {
            VertexShading::Identity => *v,
            VertexShading::Gouraud { light_dir, normal_slot, intensity_slot } => {
                if normal_slot < 4 && intensity_slot < 4 {
                    let l = light_dir.normalize();
                    let n = v.attributes.vec3[normal_slot];
                    let d = n.dot(&l);
                    let intensity = if d.bits < 0 {
                        Fx { bits: 0 }
                    } else {
                        d
                    };
                    let mut out = *v;
                    out.attributes.float[intensity_slot] = intensity;
                    out
                } else {
                    *v
                }
            },
        }
    }

    /// Run the fragment stage on one interpolated attribute record.
    pub fn call_fragment_shading(
        &self,
        attrs: &Attributes,
        uniforms: &Uniforms,
        textures: &TextureStore,
    ) -> (r: Vec4)
        requires
            textures.wf(),
        ensures
            r == fragment_output_val(self.fragment_shading, *attrs, *textures),
    {
        let one = Fx { bits: FX_ONE };
        match self.fragment_shading {
            FragmentShading::Constant(c) => c,
            FragmentShading::Textured { uv_slot, texture_id } => {
                if uv_slot < 4 {
                    match textures.get_texture_by_id(texture_id) {
                        Some(t) => crate::renderer::texture_sample(t, &attrs.vec2[uv_slot]),
                        None => Vec4 { x: one, y: one, z: one, w: one },
                    }
                } else {
                    Vec4 { x: one, y: one, z: one, w: one }
                }
            },
            FragmentShading::GouraudTextured { intensity_slot, uv_slot, texture_id } => {
                if intensity_slot < 4 && uv_slot < 4 {
                    let raw = attrs.float[intensity_slot];
                    let s = if raw.bits > FX_ONE {
                        one
                    } else {
                        raw
                    };
                    match textures.get_texture_by_id(texture_id) {
                        Some(t) => {
                            let sample = crate::renderer::texture_sample(t, &attrs.vec2[uv_slot]);
                            let scaled = sample.mul(s);
                            Vec4 { x: scaled.x, y: scaled.y, z: scaled.z, w: one }
                        },
                        None => Vec4 { x: s, y: s, z: s, w: one },
                    }
                } else {
                    Vec4 { x: one, y: one, z: one, w: one }
                }
            },
        }
    }
}

} // verus!
