use nino_renderer::barycentric::Barycentric;
use nino_renderer::bresenham_line::draw_line;
use nino_renderer::fx::{Fx, FX_ONE};
use nino_renderer::image::ColorAttachment;
use nino_renderer::renderer::texture_sample;
use nino_renderer::texture::{Texture, TextureStore};
use nino_renderer::vec::{Vec2, Vec4};

fn fxi(n: i64) -> Fx {
    Fx { bits: n * FX_ONE }
}

fn fxf(v: f64) -> Fx {
    Fx { bits: (v * 65536.0).round() as i64 }
}

fn white() -> Vec4 {
    Vec4 { x: fxi(1), y: fxi(1), z: fxi(1), w: fxi(1) }
}

fn painted_set(c: &ColorAttachment) -> Vec<(i32, i32)> {
    let mut out = Vec::new();
    for y in 0..c.height as i32 {
        for x in 0..c.width as i32 {
            let idx = 3 * (y as usize * c.width as usize + x as usize);
            if c.data[idx] != 0 || c.data[idx + 1] != 0 || c.data[idx + 2] != 0 {
                out.push((x, y));
            }
        }
    }
    out
}

fn line_set(x0: i32, y0: i32, x1: i32, y1: i32) -> Vec<(i32, i32)> {
    let mut c = ColorAttachment::new(32, 32);
    draw_line(x0, y0, x1, y1, &white(), &mut c);
    painted_set(&c)
}

#[test]
fn clear_fills_every_byte_with_the_quantized_channel() {
    let mut c = ColorAttachment::new(5, 3);
    c.clear(&Vec4 { x: fxf(0.5), y: fxi(0), z: fxi(2), w: fxi(1) });
    assert_eq!(c.data.len(), 3 * 5 * 3);
    for i in 0..c.data.len() {
        let expected = match i % 3 {
            0 => 127u8,
            1 => 0u8,
            _ => 255u8,
        };
        assert_eq!(c.data[i], expected, "byte {i}");
    }
}

#[test]
fn point_line_writes_exactly_its_pixel() {
    let set = line_set(7, 9, 7, 9);
    assert_eq!(set, vec![(7, 9)]);
}

#[test]
fn degenerate_lines_are_direction_symmetric() {
    assert_eq!(line_set(3, 5, 3, 12), line_set(3, 12, 3, 5));
    assert_eq!(line_set(2, 8, 14, 8), line_set(14, 8, 2, 8));
    assert_eq!(line_set(4, 4, 10, 10), line_set(10, 10, 4, 4));
}

#[test]
fn gentle_line_is_direction_symmetric() {
    assert_eq!(line_set(0, 0, 5, 2), line_set(5, 2, 0, 0));
}

fn assert_connected_with_endpoints(x0: i32, y0: i32, x1: i32, y1: i32) {
    let set = line_set(x0, y0, x1, y1);
    assert!(set.contains(&(x0, y0)), "start of ({x0},{y0})-({x1},{y1})");
    assert!(set.contains(&(x1, y1)), "end of ({x0},{y0})-({x1},{y1})");
    let mut reached = vec![(x0, y0)];
    let mut frontier = vec![(x0, y0)];
    while let Some((px, py)) = frontier.pop() {
        for dx in -1..2 {
            for dy in -1..2 {
                let q = (px + dx, py + dy);
                if set.contains(&q) && !reached.contains(&q) {
                    reached.push(q);
                    frontier.push(q);
                }
            }
        }
    }
    assert_eq!(reached.len(), set.len(), "({x0},{y0})-({x1},{y1}) is 8-connected");
}

#[test]
fn octant_lines_are_connected_and_reach_their_endpoints() {
    let cx = 16;
    let cy = 16;
    let ends = [
        (24, 19),
        (19, 24),
        (13, 24),
        (8, 19),
        (8, 13),
        (13, 8),
        (19, 8),
        (24, 13),
    ];
    for (ex, ey) in ends {
        assert_connected_with_endpoints(cx, cy, ex, ey);
    }
}

#[test]
fn barycentric_partitions_one_inside_the_triangle() {
    let pts = [
        Vec2 { x: fxi(0), y: fxi(0) },
        Vec2 { x: fxi(8), y: fxi(0) },
        Vec2 { x: fxi(0), y: fxi(8) },
    ];
    let b = Barycentric::new(&Vec2 { x: fxi(2), y: fxi(3) }, &pts);
    assert!(b.is_inside());
    assert_eq!(b.alpha().bits + b.beta().bits + b.gamma().bits, FX_ONE);
    assert!(b.alpha().bits >= 0 && b.alpha().bits <= FX_ONE);
    assert!(b.beta().bits >= 0 && b.beta().bits <= FX_ONE);
    assert!(b.gamma().bits >= 0 && b.gamma().bits <= FX_ONE);
    let outside = Barycentric::new(&Vec2 { x: fxi(7), y: fxi(7) }, &pts);
    assert!(!outside.is_inside());
}

#[test]
fn degenerate_triangle_counts_as_outside() {
    let pts = [
        Vec2 { x: fxi(1), y: fxi(1) },
        Vec2 { x: fxi(2), y: fxi(2) },
        Vec2 { x: fxi(3), y: fxi(3) },
    ];
    let b = Barycentric::new(&Vec2 { x: fxi(2), y: fxi(2) }, &pts);
    assert!(!b.is_inside());
    assert!(!b.is_valid());
}

#[test]
fn nearest_sampling_clamps_and_floors() {
    let mut texels = Vec::new();
    for y in 0..4i64 {
        for x in 0..4i64 {
            texels.push(Vec4 { x: fxi(x), y: fxi(y), z: fxi(0), w: fxi(1) });
        }
    }
    let t = Texture::from_texels(4, 4, texels).unwrap();
    let probe = |u: f64, v: f64| -> (i64, i64) {
        let c = texture_sample(&t, &Vec2 { x: fxf(u), y: fxf(v) });
        (c.x.bits / FX_ONE, c.y.bits / FX_ONE)
    };
    assert_eq!(probe(0.0, 0.0), (0, 0));
    assert_eq!(probe(1.0, 1.0), (3, 3));
    assert_eq!(probe(0.4, 0.7), (1, 2));
    assert_eq!(probe(-2.0, 5.0), (0, 3));
}

#[test]
fn texture_store_hands_out_stable_handles() {
    let mut store = TextureStore::new();
    let a = store.add(Texture::new_filled(2, 2, white()));
    let b = store.add(Texture::new_filled(4, 4, white()));
    assert_eq!(a, 0);
    assert_eq!(b, 1);
    assert_eq!(store.get_texture_by_id(0).unwrap().width(), 2);
    assert_eq!(store.get_texture_by_id(1).unwrap().width(), 4);
    assert!(store.get_texture_by_id(2).is_none());
}

#[test]
fn bad_texture_shapes_are_rejected() {
    assert!(Texture::from_texels(0, 4, Vec::new()).is_none());
    assert!(Texture::from_texels(2, 2, vec![white(); 3]).is_none());
    assert!(Texture::from_texels(2, 2, vec![white(); 4]).is_some());
}
