use nino_renderer::fx::{Fx, FX_ONE};
use nino_renderer::mat::{apply_eular_rotate_xyz, apply_eular_rotate_y, apply_translate, Mat4};
use nino_renderer::trig::{cos_fx, sin_fx, HALF_PI_BITS, PI_BITS};
use nino_renderer::mat::{Mat2, Mat3};
use nino_renderer::vec::{Vec2, Vec3, Vec4};

fn fxi(n: i64) -> Fx {
    Fx { bits: n * FX_ONE }
}

fn fxf(v: f64) -> Fx {
    Fx { bits: (v * 65536.0).round() as i64 }
}

fn close(a: Fx, b: Fx, tol_bits: i64) -> bool {
    (a.bits - b.bits).abs() <= tol_bits
}

#[test]
fn fx_arithmetic_exact_values() {
    assert_eq!(fxi(3).add(fxi(4)).bits, 7 * FX_ONE);
    assert_eq!(fxi(3).sub(fxi(4)).bits, -FX_ONE);
    assert_eq!(fxi(3).mul(fxi(4)).bits, 12 * FX_ONE);
    assert_eq!(fxi(12).div(fxi(4)).bits, 3 * FX_ONE);
    assert_eq!(fxi(1).div(fxi(2)).bits, FX_ONE / 2);
    assert_eq!(fxi(7).div(Fx { bits: 0 }).bits, 0);
    assert_eq!(fxi(-7).floor_int(), -7);
    assert_eq!(fxf(-1.5).floor_int(), -2);
    assert_eq!(fxf(-1.5).ceil_int(), -1);
    assert_eq!(fxf(2.25).ceil_int(), 3);
    assert_eq!(fxi(9).sqrt().bits, 3 * FX_ONE);
    assert_eq!(fxi(2).sqrt().bits, 92681);
}

#[test]
fn fx_saturates_at_the_ends() {
    let top = Fx { bits: i64::MAX };
    assert_eq!(top.add(top).bits, i64::MAX);
    let bottom = Fx { bits: i64::MIN };
    assert_eq!(bottom.sub(top).bits, i64::MIN);
}

#[test]
fn matrix_identity_is_two_sided() {
    let m = Mat4::from_row(&[
        fxi(1), fxi(2), fxi(3), fxi(4),
        fxi(5), fxi(6), fxi(7), fxi(8),
        fxi(9), fxi(10), fxi(11), fxi(12),
        fxi(13), fxi(14), fxi(15), fxi(16),
    ]);
    let id = Mat4::identity();
    let left = id.mul(m);
    let right = m.mul(id);
    for x in 0..4 {
        for y in 0..4 {
            assert_eq!(left.get(x, y).bits, m.get(x, y).bits);
            assert_eq!(right.get(x, y).bits, m.get(x, y).bits);
        }
    }
}

#[test]
fn translate_composes_by_adding_offsets() {
    let a = Vec3 { x: fxf(1.5), y: fxf(-2.0), z: fxf(0.25) };
    let b = Vec3 { x: fxf(3.0), y: fxf(4.5), z: fxf(-1.25) };
    let ab = Vec3 { x: fxf(4.5), y: fxf(2.5), z: fxf(-1.0) };
    let composed = apply_translate(&a).mul(apply_translate(&b));
    let direct = apply_translate(&ab);
    for x in 0..4 {
        for y in 0..4 {
            assert_eq!(composed.get(x, y).bits, direct.get(x, y).bits);
        }
    }
}

#[test]
fn rotate_y_carries_unit_z_to_sin_cos() {
    let theta = Fx { bits: HALF_PI_BITS / 3 };
    let m = apply_eular_rotate_y(theta);
    let v = Vec4 { x: fxi(0), y: fxi(0), z: fxi(1), w: fxi(1) };
    let r = m.mul_vec4(v);
    assert_eq!(r.x.bits, sin_fx(theta).bits);
    assert_eq!(r.y.bits, 0);
    assert_eq!(r.z.bits, cos_fx(theta).bits);
    assert_eq!(r.w.bits, FX_ONE);
}

#[test]
fn transpose_is_an_involution() {
    let m = Mat4::from_row(&[
        fxf(0.5), fxi(2), fxi(-3), fxi(4),
        fxi(5), fxf(-6.25), fxi(7), fxi(8),
        fxi(9), fxi(10), fxf(11.75), fxi(12),
        fxi(13), fxi(14), fxi(15), fxi(-16),
    ]);
    let tt = m.transpose().transpose();
    for x in 0..4 {
        for y in 0..4 {
            assert_eq!(tt.get(x, y).bits, m.get(x, y).bits);
        }
    }
}

#[test]
fn from_col_transposes_the_layout() {
    let mut cells = [Fx { bits: 0 }; 16];
    for (i, cell) in cells.iter_mut().enumerate() {
        *cell = fxi(i as i64);
    }
    let m = Mat4::from_col(&cells);
    for x in 0..4 {
        for y in 0..4 {
            assert_eq!(m.get(x, y).bits, cells[y + 4 * x].bits);
        }
    }
}

#[test]
fn sine_and_cosine_approximate_the_reals() {
    for k in -12..13 {
        let angle = (k as f64) * 0.5;
        let s = sin_fx(fxf(angle));
        let c = cos_fx(fxf(angle));
        assert!(close(s, fxf(angle.sin()), 80), "sin({angle})");
        assert!(close(c, fxf(angle.cos()), 80), "cos({angle})");
    }
    assert_eq!(sin_fx(fxi(0)).bits, 0);
    assert!(close(sin_fx(Fx { bits: HALF_PI_BITS }), fxi(1), 40));
    assert!(close(sin_fx(Fx { bits: PI_BITS }), fxi(0), 40));
}

#[test]
fn rotate_xyz_at_zero_is_near_identity() {
    let m = apply_eular_rotate_xyz(&Vec3 { x: fxi(0), y: fxi(0), z: fxi(0) });
    let id = Mat4::identity();
    for x in 0..4 {
        for y in 0..4 {
            let diff = (m.get(x, y).bits - id.get(x, y).bits).abs();
            assert!(diff <= 64, "cell ({x},{y}) off by {diff}");
        }
    }
}

#[test]
fn vector_ops_compute_exactly() {
    let a = Vec3 { x: fxi(1), y: fxi(2), z: fxi(3) };
    let b = Vec3 { x: fxi(-4), y: fxi(5), z: fxi(6) };
    assert_eq!(a.dot(&b).bits, (-4 + 10 + 18) * FX_ONE);
    let c = a.cross(&b);
    assert_eq!(c.x.bits, (2 * 6 - 3 * 5) * FX_ONE);
    assert_eq!(c.y.bits, (3 * -4 - 1 * 6) * FX_ONE);
    assert_eq!(c.z.bits, (1 * 5 - 2 * -4) * FX_ONE);
    let l = Vec3 { x: fxi(3), y: fxi(4), z: fxi(0) }.length();
    assert_eq!(l.bits, 5 * FX_ONE);
    let n = Vec3 { x: fxi(3), y: fxi(4), z: fxi(0) }.normalize();
    // quotients truncate toward zero
    assert_eq!(n.x.bits, 39321);
    assert_eq!(n.y.bits, 52428);
}

#[test]
fn small_matrices_share_the_matrix_laws() {
    let m2 = Mat2::from_row(&[fxi(1), fxi(2), fxi(3), fxi(4)]);
    let id2 = Mat2::identity();
    let l2 = id2.mul(m2);
    let r2 = m2.mul(id2);
    let tt2 = m2.transpose().transpose();
    for x in 0..2 {
        for y in 0..2 {
            assert_eq!(l2.get(x, y).bits, m2.get(x, y).bits);
            assert_eq!(r2.get(x, y).bits, m2.get(x, y).bits);
            assert_eq!(tt2.get(x, y).bits, m2.get(x, y).bits);
        }
    }
    // one exact product cell: row (1,2) dot column (2,4)
    let p2 = m2.mul(m2);
    assert_eq!(p2.get(0, 0).bits, (1 * 1 + 2 * 3) * FX_ONE);
    assert_eq!(p2.get(1, 1).bits, (3 * 2 + 4 * 4) * FX_ONE);

    let m3 = Mat3::from_row(&[
        fxi(1), fxi(2), fxi(3),
        fxi(4), fxi(5), fxi(6),
        fxi(7), fxi(8), fxi(9),
    ]);
    let id3 = Mat3::identity();
    let l3 = id3.mul(m3);
    let tt3 = m3.transpose().transpose();
    for x in 0..3 {
        for y in 0..3 {
            assert_eq!(l3.get(x, y).bits, m3.get(x, y).bits);
            assert_eq!(tt3.get(x, y).bits, m3.get(x, y).bits);
        }
    }
    let p3 = m3.mul(m3);
    assert_eq!(p3.get(0, 0).bits, (1 * 1 + 2 * 4 + 3 * 7) * FX_ONE);
    let c3 = Mat3::from_col(&[fxi(1), fxi(2), fxi(3), fxi(4), fxi(5), fxi(6), fxi(7), fxi(8), fxi(9)]);
    assert_eq!(c3.get(0, 1).bits, 2 * FX_ONE);
    assert_eq!(c3.get(1, 0).bits, 4 * FX_ONE);
}

#[test]
fn all_vector_widths_share_dot_length_normalize() {
    let a2 = Vec2 { x: fxi(3), y: fxi(4) };
    assert_eq!(a2.dot(&a2).bits, 25 * FX_ONE);
    assert_eq!(a2.length().bits, 5 * FX_ONE);
    let n2 = a2.normalize();
    assert_eq!(n2.x.bits, 39321);
    assert_eq!(n2.y.bits, 52428);

    let a4 = Vec4 { x: fxi(2), y: fxi(0), z: fxi(0), w: fxi(0) };
    assert_eq!(a4.dot(&a4).bits, 4 * FX_ONE);
    assert_eq!(a4.length().bits, 2 * FX_ONE);
    let n4 = a4.normalize();
    assert_eq!(n4.x.bits, FX_ONE);
    assert_eq!(n4.y.bits, 0);
}
