use nino_renderer::camera::{Camera, CameraError};
use nino_renderer::cpu_renderer::Renderer;
use nino_renderer::fx::{Fx, FX_ONE};
use nino_renderer::gouraud::make_gouraud_shader;
use nino_renderer::line::Line;
use nino_renderer::mat::{apply_eular_rotate_x, apply_translate, Mat2, Mat3, Mat4};
use nino_renderer::model::Mesh;
use nino_renderer::renderer::{FaceCull, FrontFace};
use nino_renderer::shader::{
    interp_attributes, vertex_rhw_init, Attributes, FragmentShading, Shader, UniformValue,
    Uniforms, Vertex, VertexShading,
};
use nino_renderer::texture::{Texture, TextureStore};
use nino_renderer::trig::HALF_PI_BITS;
use nino_renderer::utils::{swap_and_move, SingleOrList};
use nino_renderer::buffer_attribute::TypeBufferAttribute;
use nino_renderer::vec::{Vec2, Vec3, Vec4};

fn fxi(n: i64) -> Fx {
    Fx { bits: n * FX_ONE }
}

fn fxf(v: f64) -> Fx {
    Fx { bits: (v * 65536.0).round() as i64 }
}

fn standard_camera() -> Camera {
    Camera::new(fxi(1), fxi(5), fxi(1), Fx { bits: HALF_PI_BITS }).unwrap()
}

fn pixel(r: &Renderer, x: u32, y: u32) -> (u8, u8, u8) {
    let frame = r.get_frame_image();
    let idx = 3 * (y as usize * r.get_canvas_width() as usize + x as usize);
    (frame[idx], frame[idx + 1], frame[idx + 2])
}

fn constant_shader(c: Vec4) -> Shader {
    Shader {
        vertex_shading: VertexShading::Identity,
        fragment_shading: FragmentShading::Constant(c),
    }
}

fn standard_triangle() -> Vec<Vertex> {
    vec![
        Vertex::new(&Vec3 { x: fxi(-1), y: fxi(1), z: fxi(0) }, Attributes::zeroed()),
        Vertex::new(&Vec3 { x: fxi(1), y: fxi(1), z: fxi(0) }, Attributes::zeroed()),
        Vertex::new(&Vec3 { x: fxi(0), y: fxi(-1), z: fxi(0) }, Attributes::zeroed()),
    ]
}

#[test]
fn camera_rejects_each_bad_parameter() {
    let good = Fx { bits: HALF_PI_BITS };
    assert_eq!(Camera::new(fxi(0), fxi(5), fxi(1), good).unwrap_err(), CameraError::InvalidNear);
    assert_eq!(Camera::new(fxi(1), fxi(1), fxi(1), good).unwrap_err(), CameraError::InvalidFar);
    assert_eq!(Camera::new(fxi(1), fxi(5), fxi(0), good).unwrap_err(), CameraError::InvalidAspect);
    assert_eq!(Camera::new(fxi(1), fxi(5), fxi(1), fxi(0)).unwrap_err(), CameraError::InvalidFov);
    assert_eq!(Camera::new(fxi(1), fxi(5), fxi(1), fxi(4)).unwrap_err(), CameraError::InvalidFov);
    assert!(Camera::new(fxi(1), fxi(5), fxi(1), good).is_ok());
}

#[test]
fn single_triangle_identity_transforms_constant_color() {
    let mut r = Renderer::new(4, 4, standard_camera());
    r.clear(&Vec4 { x: fxi(0), y: fxi(0), z: fxi(0), w: fxi(1) });
    r.set_shader(constant_shader(Vec4 { x: fxi(1), y: fxi(0), z: fxi(0), w: fxi(1) }));
    let model = apply_translate(&Vec3 { x: fxi(0), y: fxi(0), z: fxi(-2) });
    let vertices = standard_triangle();
    r.draw_triangle(&model, &vertices, &TextureStore::new());
    let mut reds = 0;
    for y in 0..4 {
        for x in 0..4 {
            if pixel(&r, x, y) == (255, 0, 0) {
                reds += 1;
            }
        }
    }
    assert!(reds >= 1, "at least one red pixel");
    assert_eq!(pixel(&r, 0, 0), (0, 0, 0));
}

#[test]
fn frame_image_keeps_its_size_after_drawing() {
    let mut r = Renderer::new(7, 5, standard_camera());
    r.clear(&Vec4 { x: fxi(0), y: fxi(0), z: fxi(0), w: fxi(1) });
    let model = apply_translate(&Vec3 { x: fxi(0), y: fxi(0), z: fxi(-2) });
    r.draw_triangle(&model, &standard_triangle(), &TextureStore::new());
    assert_eq!(r.get_frame_image().len(), 3 * 7 * 5);
    assert_eq!(r.get_canvas_width(), 7);
    assert_eq!(r.get_canvas_height(), 5);
}

#[test]
fn nearer_triangle_wins_the_depth_test() {
    let mut r = Renderer::new(8, 8, standard_camera());
    r.clear(&Vec4 { x: fxi(0), y: fxi(0), z: fxi(0), w: fxi(1) });
    let store = TextureStore::new();
    let far_model = apply_translate(&Vec3 { x: fxi(0), y: fxi(0), z: fxi(-4) });
    let near_model = apply_translate(&Vec3 { x: fxi(0), y: fxi(0), z: fxi(-2) });
    r.set_shader(constant_shader(Vec4 { x: fxi(1), y: fxi(0), z: fxi(0), w: fxi(1) }));
    r.draw_triangle(&far_model, &standard_triangle(), &store);
    r.set_shader(constant_shader(Vec4 { x: fxi(0), y: fxi(0), z: fxi(1), w: fxi(1) }));
    r.draw_triangle(&near_model, &standard_triangle(), &store);
    // every pixel covered by the nearer triangle shows its color; the
    // canvas center is covered by both
    assert_eq!(pixel(&r, 3, 3), (0, 0, 255));
    for y in 0..8 {
        for x in 0..8 {
            let p = pixel(&r, x, y);
            assert!(p == (0, 0, 0) || p == (255, 0, 0) || p == (0, 0, 255));
        }
    }
    // drawing the farther triangle again must not overwrite the nearer one
    r.set_shader(constant_shader(Vec4 { x: fxi(0), y: fxi(1), z: fxi(0), w: fxi(1) }));
    r.draw_triangle(&far_model, &standard_triangle(), &store);
    assert_eq!(pixel(&r, 3, 3), (0, 0, 255));
}

#[test]
fn backface_cull_drops_the_triangle_entirely() {
    let mut r = Renderer::new(8, 8, standard_camera());
    r.clear(&Vec4 { x: fxi(0), y: fxi(0), z: fxi(0), w: fxi(1) });
    r.set_face_cull(FaceCull::Back);
    r.set_front_face(FrontFace::CCW);
    r.set_shader(constant_shader(Vec4 { x: fxi(1), y: fxi(1), z: fxi(1), w: fxi(1) }));
    let model = apply_translate(&Vec3 { x: fxi(0), y: fxi(0), z: fxi(-2) });
    r.draw_triangle(&model, &standard_triangle(), &TextureStore::new());
    for y in 0..8 {
        for x in 0..8 {
            assert_eq!(pixel(&r, x, y), (0, 0, 0));
        }
    }
}

#[test]
fn clear_depth_then_draw_marks_only_covered_pixels() {
    let mut r = Renderer::new(8, 8, standard_camera());
    r.clear(&Vec4 { x: fxi(0), y: fxi(0), z: fxi(0), w: fxi(1) });
    r.clear_depth();
    r.set_shader(constant_shader(Vec4 { x: fxi(1), y: fxi(0), z: fxi(0), w: fxi(1) }));
    let model = apply_translate(&Vec3 { x: fxi(0), y: fxi(0), z: fxi(-2) });
    r.draw_triangle(&model, &standard_triangle(), &TextureStore::new());
    for y in 0..8u32 {
        for x in 0..8u32 {
            let depth = r.depth.get(x, y);
            if pixel(&r, x, y) == (255, 0, 0) {
                assert!(depth.bits < i64::MAX, "written pixel has finite depth");
            } else {
                assert_eq!(pixel(&r, x, y), (0, 0, 0));
                assert_eq!(depth.bits, i64::MAX, "untouched pixel keeps the sentinel");
            }
        }
    }
}

#[test]
fn offscreen_triangle_changes_nothing() {
    let mut r = Renderer::new(8, 8, standard_camera());
    r.clear(&Vec4 { x: fxf(0.25), y: fxf(0.5), z: fxf(0.75), w: fxi(1) });
    let before: Vec<u8> = r.get_frame_image().to_vec();
    r.set_shader(constant_shader(Vec4 { x: fxi(1), y: fxi(1), z: fxi(1), w: fxi(1) }));
    // far to the left of the frustum
    let model = apply_translate(&Vec3 { x: fxi(-50), y: fxi(0), z: fxi(-2) });
    r.draw_triangle(&model, &standard_triangle(), &TextureStore::new());
    assert_eq!(r.get_frame_image(), &before[..]);
}

#[test]
fn tiny_triangle_writes_at_most_one_pixel() {
    let mut r = Renderer::new(16, 16, standard_camera());
    r.clear(&Vec4 { x: fxi(0), y: fxi(0), z: fxi(0), w: fxi(1) });
    r.set_shader(constant_shader(Vec4 { x: fxi(1), y: fxi(1), z: fxi(1), w: fxi(1) }));
    let scale = 0.01;
    let vertices = vec![
        Vertex::new(&Vec3 { x: fxf(-scale), y: fxf(scale), z: fxi(0) }, Attributes::zeroed()),
        Vertex::new(&Vec3 { x: fxf(scale), y: fxf(scale), z: fxi(0) }, Attributes::zeroed()),
        Vertex::new(&Vec3 { x: fxf(0.0), y: fxf(-scale), z: fxi(0) }, Attributes::zeroed()),
    ];
    let model = apply_translate(&Vec3 { x: fxi(0), y: fxi(0), z: fxi(-2) });
    r.draw_triangle(&model, &vertices, &TextureStore::new());
    let mut written = 0;
    for y in 0..16 {
        for x in 0..16 {
            if pixel(&r, x, y) != (0, 0, 0) {
                written += 1;
            }
        }
    }
    assert!(written <= 1, "wrote {written} pixels");
}

#[test]
fn wireframe_traces_the_projected_edges() {
    let mut r = Renderer::new(16, 16, standard_camera());
    r.clear(&Vec4 { x: fxi(0), y: fxi(0), z: fxi(0), w: fxi(1) });
    r.enable_wireframe();
    // the fragment stage returns black: the filled interior stays
    // invisible, only the wireframe overlay writes white
    r.set_shader(constant_shader(Vec4 { x: fxi(0), y: fxi(0), z: fxi(0), w: fxi(0) }));
    let model = apply_translate(&Vec3 { x: fxi(0), y: fxi(0), z: fxi(-2) });
    r.draw_triangle(&model, &standard_triangle(), &TextureStore::new());
    // the projected vertices floor to (3,11), (11,11), (7,3)
    assert_eq!(pixel(&r, 3, 11), (255, 255, 255));
    assert_eq!(pixel(&r, 11, 11), (255, 255, 255));
    assert_eq!(pixel(&r, 7, 3), (255, 255, 255));
    // an interior pixel away from all three edges stays black
    assert_eq!(pixel(&r, 7, 8), (0, 0, 0));
}

#[test]
fn wireframe_toggle_flips_the_flag() {
    let mut r = Renderer::new(4, 4, standard_camera());
    assert!(!r.wireframe_mode);
    r.toggle_wireframe();
    assert!(r.wireframe_mode);
    r.toggle_wireframe();
    assert!(!r.wireframe_mode);
    r.enable_wireframe();
    assert!(r.wireframe_mode);
    r.disable_wireframe();
    assert!(!r.wireframe_mode);
}

#[test]
fn textured_quad_interpolates_in_one_over_z() {
    // a checkerboard on a quad tilted about x: the texel rows seen
    // along the center column must shrink with distance, which linear
    // screen-space interpolation would not produce
    let mut r = Renderer::new(64, 64, Camera::new(fxi(1), fxi(50), fxi(1), Fx { bits: HALF_PI_BITS }).unwrap());
    r.clear(&Vec4 { x: fxi(0), y: fxi(0), z: fxi(0), w: fxi(1) });
    let mut texels = Vec::new();
    for y in 0..8i64 {
        for x in 0..8i64 {
            let on = (x + y) % 2 == 0;
            let v = if on { fxi(1) } else { fxi(0) };
            texels.push(Vec4 { x: v, y: v, z: v, w: fxi(1) });
        }
    }
    let mut store = TextureStore::new();
    store.add(Texture::from_texels(8, 8, texels).unwrap());
    r.set_shader(Shader {
        vertex_shading: VertexShading::Identity,
        fragment_shading: FragmentShading::Textured { uv_slot: 0, texture_id: 0 },
    });
    let mut quad = Vec::new();
    let corners = [
        (-4.0, -4.0, 0.0, 0.0),
        (4.0, -4.0, 1.0, 0.0),
        (4.0, 4.0, 1.0, 1.0),
        (-4.0, 4.0, 0.0, 1.0),
    ];
    let vert = |c: (f64, f64, f64, f64)| -> Vertex {
        let mut attrs = Attributes::zeroed();
        attrs.vec2[0] = Vec2 { x: fxf(c.2), y: fxf(c.3) };
        Vertex::new(&Vec3 { x: fxf(c.0), y: fxf(c.1), z: fxi(0) }, attrs)
    };
    for idx in [0usize, 1, 2, 0, 2, 3] {
        quad.push(vert(corners[idx]));
    }
    let model = apply_translate(&Vec3 { x: fxi(0), y: fxi(0), z: fxi(-6) })
        .mul(apply_eular_rotate_x(Fx { bits: HALF_PI_BITS / 2 }));
    r.draw_triangle(&model, &quad, &store);
    // walk the center column and collect the runs of equal shade
    let mut runs: Vec<usize> = Vec::new();
    let mut last: Option<(u8, u8, u8)> = None;
    for y in 0..64 {
        let p = pixel(&r, 31, y);
        if p == (0, 0, 0) && last.is_none() {
            continue;
        }
        match last {
            Some(prev) if prev == p => {
                let n = runs.len();
                runs[n - 1] += 1;
            }
            _ => {
                runs.push(1);
                last = Some(p);
            }
        }
    }
    // several checker bands are visible, and their heights are not
    // all equal: the spacing compresses toward the far edge
    let interior = &runs[1..runs.len().saturating_sub(1)];
    assert!(interior.len() >= 3, "bands: {runs:?}");
    let min = interior.iter().min().unwrap();
    let max = interior.iter().max().unwrap();
    assert!(max > min, "perspective compresses distant bands: {runs:?}");
}

#[test]
fn gouraud_shader_lights_by_the_normal() {
    let shader = make_gouraud_shader(Vec3 { x: fxi(0), y: fxi(0), z: fxi(2) });
    let mut attrs = Attributes::zeroed();
    attrs.vec3[0] = Vec3 { x: fxi(0), y: fxi(0), z: fxi(1) };
    let v = Vertex::new(&Vec3 { x: fxi(0), y: fxi(0), z: fxi(0) }, attrs);
    let uniforms = Uniforms::new();
    let store = TextureStore::new();
    let lit = shader.call_vertex_shading(&v, &uniforms, &store);
    // unit normal along the light: full intensity, up to rounding
    assert!((lit.attributes.float[0].bits - FX_ONE).abs() <= 8);
    // fragment stage without the texture falls back to a gray
    let c = shader.call_fragment_shading(&lit.attributes, &uniforms, &store);
    assert_eq!(c.x.bits, lit.attributes.float[0].bits);
    assert_eq!(c.w.bits, FX_ONE);
    // a normal facing away is clamped to zero
    let mut away = Attributes::zeroed();
    away.vec3[0] = Vec3 { x: fxi(0), y: fxi(0), z: fxi(-1) };
    let dark = shader.call_vertex_shading(
        &Vertex::new(&Vec3 { x: fxi(0), y: fxi(0), z: fxi(0) }, away),
        &uniforms,
        &store,
    );
    assert_eq!(dark.attributes.float[0].bits, 0);
}

#[test]
fn gouraud_intensity_is_capped_at_one() {
    let shader = make_gouraud_shader(Vec3 { x: fxi(0), y: fxi(0), z: fxi(1) });
    let uniforms = Uniforms::new();
    let mut store = TextureStore::new();
    store.add(Texture::new_filled(2, 2, Vec4 { x: fxf(0.5), y: fxf(0.5), z: fxf(0.5), w: fxi(1) }));
    // an over-bright interpolated intensity must not over-scale
    let mut attrs = Attributes::zeroed();
    attrs.float[0] = fxi(2);
    let c = shader.call_fragment_shading(&attrs, &uniforms, &store);
    assert_eq!(c.x.bits, fxf(0.5).bits, "half-bright texel stays half bright");
    assert_eq!(c.w.bits, FX_ONE);
    // the texture-miss gray is capped too
    let dark = shader.call_fragment_shading(&attrs, &uniforms, &TextureStore::new());
    assert_eq!((dark.x.bits, dark.y.bits, dark.z.bits, dark.w.bits), (FX_ONE, FX_ONE, FX_ONE, FX_ONE));
}

#[test]
fn uniforms_return_the_last_binding() {
    let mut u = Uniforms::new();
    assert!(u.get(&String::from("light")).is_none());
    u.set(String::from("light"), UniformValue::Float(fxi(1)));
    u.set(String::from("shade"), UniformValue::Float(fxi(2)));
    u.set(String::from("light"), UniformValue::Float(fxi(3)));
    match u.get(&String::from("light")) {
        Some(UniformValue::Float(f)) => assert_eq!(f.bits, 3 * FX_ONE),
        other => panic!("unexpected binding {other:?}"),
    }
    match u.get(&String::from("shade")) {
        Some(UniformValue::Float(f)) => assert_eq!(f.bits, 2 * FX_ONE),
        other => panic!("unexpected binding {other:?}"),
    }
    assert!(u.get(&String::from("missing")).is_none());
}

#[test]
fn line_step_divides_the_longer_span() {
    let a = Vertex::new(&Vec3 { x: fxi(0), y: fxi(0), z: fxi(0) }, Attributes::zeroed());
    let mut battrs = Attributes::zeroed();
    battrs.float[0] = fxi(8);
    let b = Vertex::new(&Vec3 { x: fxi(8), y: fxi(4), z: fxi(0) }, battrs);
    let line = Line::new(a, b);
    assert_eq!(line.step.position.x.bits, FX_ONE);
    assert_eq!(line.step.position.y.bits, FX_ONE / 2);
    assert_eq!(line.step.attributes.float[0].bits, FX_ONE);
}

#[test]
fn rhw_init_resets_only_the_homogeneous_lane() {
    let mut v = Vertex::new(&Vec3 { x: fxi(2), y: fxi(3), z: fxi(4) }, Attributes::zeroed());
    v.position.w = fxi(9);
    vertex_rhw_init(&mut v);
    assert_eq!(v.position.x.bits, 2 * FX_ONE);
    assert_eq!(v.position.y.bits, 3 * FX_ONE);
    assert_eq!(v.position.z.bits, 4 * FX_ONE);
    assert_eq!(v.position.w.bits, FX_ONE);
}

#[test]
fn interp_attributes_scales_the_difference() {
    let mut a = Attributes::zeroed();
    let mut b = Attributes::zeroed();
    a.float[1] = fxi(2);
    b.float[1] = fxi(10);
    b.vec2[0] = Vec2 { x: fxi(4), y: fxi(-4) };
    let step = interp_attributes(&a, &b, fxf(0.25));
    assert_eq!(step.float[1].bits, 2 * FX_ONE);
    assert_eq!(step.vec2[0].x.bits, FX_ONE);
    assert_eq!(step.vec2[0].y.bits, -FX_ONE);
}

#[test]
fn swap_and_move_takes_the_value_out() {
    let mut v = vec![1u32, 2, 3];
    let taken = swap_and_move(&mut v);
    assert_eq!(taken, vec![1, 2, 3]);
    assert!(v.is_empty());
    let single: SingleOrList<u32> = SingleOrList::Data(7);
    match single {
        SingleOrList::Data(d) => assert_eq!(d, 7),
        SingleOrList::List(_) => panic!("expected a single value"),
    }
}

#[test]
fn buffer_attribute_reads_groups_from_the_front() {
    let buf = TypeBufferAttribute::new(vec![5u32, 6, 7], 2, false);
    assert_eq!(buf.next(), Some(vec![5, 5]));
    let empty = TypeBufferAttribute::new(Vec::<u32>::new(), 2, true);
    assert_eq!(empty.next(), None);
}

#[test]
fn mesh_carries_its_vertices() {
    let m = Mesh {
        vertices: vec![nino_renderer::model::Vertex {
            position: Vec3 { x: fxi(1), y: fxi(2), z: fxi(3) },
            normal: None,
            texture: Some(Vec2 { x: fxi(0), y: fxi(1) }),
        }],
        name: Some(String::from("tri")),
    };
    assert_eq!(m.vertices.len(), 1);
    assert_eq!(m.vertices[0].position.y.bits, 2 * FX_ONE);
}

#[test]
fn shader_default_is_identity_and_white() {
    let s: Shader = Default::default();
    let v = Vertex::new(&Vec3 { x: fxi(1), y: fxi(1), z: fxi(1) }, Attributes::zeroed());
    let u = Uniforms::new();
    let t = TextureStore::new();
    let out = s.call_vertex_shading(&v, &u, &t);
    assert_eq!(out.position.x.bits, v.position.x.bits);
    let c = s.call_fragment_shading(&Attributes::zeroed(), &u, &t);
    assert_eq!((c.x.bits, c.y.bits, c.z.bits, c.w.bits), (FX_ONE, FX_ONE, FX_ONE, FX_ONE));
}

#[test]
fn identity_matrix_leaves_vectors_alone() {
    let id = Mat4::identity();
    let v = Vec4 { x: fxf(1.25), y: fxf(-2.5), z: fxi(3), w: fxi(1) };
    let r = id.mul_vec4(v);
    assert_eq!(r.x.bits, v.x.bits);
    assert_eq!(r.y.bits, v.y.bits);
    assert_eq!(r.z.bits, v.z.bits);
    assert_eq!(r.w.bits, v.w.bits);
}

#[test]
fn render_mode_defaults_to_diffuse() {
    let mode: nino_renderer::renderer::RenderMode = Default::default();
    assert_eq!(mode, nino_renderer::renderer::RenderMode::Diffuse);
}

#[test]
fn wireframe_primitive_traces_given_screen_vertices() {
    let mut color = nino_renderer::image::ColorAttachment::new(16, 16);
    let corners = [(1i64, 1i64), (10, 1), (5, 8)];
    let mut tri = [
        Vertex::new(&Vec3 { x: fxi(0), y: fxi(0), z: fxi(0) }, Attributes::zeroed()); 3
    ];
    for (i, (px, py)) in corners.iter().enumerate() {
        tri[i].position.x = Fx { bits: px * FX_ONE };
        tri[i].position.y = Fx { bits: py * FX_ONE };
    }
    nino_renderer::cpu_renderer::rasterize_wireframe(&tri, &mut color);
    for (px, py) in corners {
        let idx = 3 * (py as usize * 16 + px as usize);
        assert_eq!(color.data[idx], 255, "vertex ({px},{py}) traced");
    }
    // a pixel away from all three edges stays black
    let idx = 3 * (12 * 16 + 13);
    assert_eq!(color.data[idx], 0);
}

#[test]
fn renderer_set_uniform_binds_for_shaders() {
    let mut r = Renderer::new(4, 4, standard_camera());
    r.set_uniform(String::from("gain"), UniformValue::Float(fxi(2)));
    match r.get_uniforms().get(&String::from("gain")) {
        Some(UniformValue::Float(f)) => assert_eq!(f.bits, 2 * FX_ONE),
        other => panic!("unexpected binding {other:?}"),
    }
}

#[test]
fn uniform_union_carries_small_matrices() {
    let mut u = Uniforms::new();
    u.set(String::from("m2"), UniformValue::M2(Mat2::identity()));
    u.set(String::from("m3"), UniformValue::M3(Mat3::identity()));
    match u.get(&String::from("m2")) {
        Some(UniformValue::M2(m)) => assert_eq!(m.get(0, 0).bits, FX_ONE),
        other => panic!("unexpected binding {other:?}"),
    }
    match u.get(&String::from("m3")) {
        Some(UniformValue::M3(m)) => assert_eq!(m.get(2, 2).bits, FX_ONE),
        other => panic!("unexpected binding {other:?}"),
    }
}

#[test]
fn default_pose_look_at_is_the_identity_view() {
    let cam = standard_camera();
    let view = cam.get_view_matrix();
    let id = Mat4::identity();
    for x in 0..4 {
        for y in 0..4 {
            assert_eq!(view.get(x, y).bits, id.get(x, y).bits, "cell ({x},{y})");
        }
    }
    assert_eq!(cam.get_view_direction().z.bits, -FX_ONE);
}

#[test]
fn look_at_repoints_the_camera() {
    let mut cam = standard_camera();
    // look along +x from the origin
    cam.set_look_at(
        Vec3 { x: fxi(0), y: fxi(0), z: fxi(0) },
        Vec3 { x: fxi(5), y: fxi(0), z: fxi(0) },
        Vec3 { x: fxi(0), y: fxi(1), z: fxi(0) },
    );
    let d = cam.get_view_direction();
    assert_eq!((d.x.bits, d.y.bits, d.z.bits), (FX_ONE, 0, 0));
    // the forward row of the view matrix is -forward
    let view = cam.get_view_matrix();
    assert_eq!(view.get(0, 2).bits, -FX_ONE);
    assert_eq!(view.get(3, 3).bits, FX_ONE);
    // a point ahead of the camera lands in front (negative view z)
    let p = view.mul_vec4(Vec4 { x: fxi(3), y: fxi(0), z: fxi(0), w: fxi(1) });
    assert_eq!(p.z.bits, -3 * FX_ONE);
}

#[test]
fn repointed_camera_still_draws() {
    let mut r = Renderer::new(8, 8, standard_camera());
    r.camera.set_look_at(
        Vec3 { x: fxi(0), y: fxi(0), z: fxi(2) },
        Vec3 { x: fxi(0), y: fxi(0), z: fxi(0) },
        Vec3 { x: fxi(0), y: fxi(1), z: fxi(0) },
    );
    r.clear(&Vec4 { x: fxi(0), y: fxi(0), z: fxi(0), w: fxi(1) });
    r.set_shader(constant_shader(Vec4 { x: fxi(1), y: fxi(0), z: fxi(0), w: fxi(1) }));
    // the triangle sits at the origin, two units ahead of the eye
    let model = Mat4::identity();
    r.draw_triangle(&model, &standard_triangle(), &TextureStore::new());
    let mut reds = 0;
    for y in 0..8 {
        for x in 0..8 {
            if pixel(&r, x, y) == (255, 0, 0) {
                reds += 1;
            }
        }
    }
    assert!(reds >= 1, "repointed camera still rasterizes");
}

#[test]
fn wireframe_clips_partially_visible_edges() {
    let mut color = nino_renderer::image::ColorAttachment::new(16, 16);
    // one vertex hangs off the left of the canvas
    let corners = [(-5i64, 4i64), (10, 4), (5, 12)];
    let mut tri = [
        Vertex::new(&Vec3 { x: fxi(0), y: fxi(0), z: fxi(0) }, Attributes::zeroed()); 3
    ];
    for (i, (px, py)) in corners.iter().enumerate() {
        tri[i].position.x = Fx { bits: px * FX_ONE };
        tri[i].position.y = Fx { bits: py * FX_ONE };
    }
    nino_renderer::cpu_renderer::rasterize_wireframe(&tri, &mut color);
    // the horizontal edge is drawn from the canvas border onward
    for x in [0usize, 5, 10] {
        let idx = 3 * (4 * 16 + x);
        assert_eq!(color.data[idx], 255, "clipped edge pixel ({x},4)");
    }
    // a pixel far from every edge stays black
    let idx = 3 * (15 * 16 + 15);
    assert_eq!(color.data[idx], 0);
}
