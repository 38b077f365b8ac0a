//! The camera: a perspective frustum and the view state the
//! rasterizer reads. Construction validates the parameters and is
//! the only error source of the pipeline.
use crate::fx::{fx_add_val, fx_div_val, fx_mul_val, fx_sub_val, sat64, tdiv, Fx, FX_ONE};
use crate::mat::{cells, Mat4};
use crate::trig::{cos_val, sin_val, PI_BITS};
use crate::vec::{dot3_val, v3_cross_val, v3_norm_val, v3_sub_val, Vec3};
use vstd::prelude::*;

verus! {

/// Why a camera could not be built.
#[derive(Clone, Copy, Debug, PartialEq, Eq, Structural)]
pub enum CameraError {
    /// The near plane must be strictly positive.
    InvalidNear,
    /// The far plane must lie beyond the near plane.
    InvalidFar,
    /// The aspect ratio must be strictly positive.
    InvalidAspect,
    /// The vertical field of view must lie strictly between zero and
    /// half a turn.
    InvalidFov,
}

/// The cells of the perspective projection matrix for the given
/// fixed-point parameters: the canonical symmetric frustum, with the
/// homogeneous row reading off the negated view depth.
pub open spec fn projection_cells(near: int, far: int, aspect: int, fovy: int) -> Seq<int> {
    let half = tdiv(fovy, 2);
    let t = fx_div_val(sin_val(half), cos_val(half));
    let f = fx_div_val(FX_ONE as int, t);
    Seq::new(
        16,
        |i: int|
            {
                if i == 0 {
                    fx_div_val(f, aspect)
                } else if i == 5 {
                    f
                } else if i == 10 {
                    fx_div_val(fx_add_val(far, near), fx_sub_val(near, far))
                } else if i == 11 {
                    fx_div_val(
                        fx_mul_val(fx_mul_val(2 * (FX_ONE as int), far), near),
                        fx_sub_val(near, far),
                    )
                } else if i == 14 {
                    -(FX_ONE as int)
                } else {
                    0
                }
            },
    )
}

/// The cells of the look-at view matrix for a camera pose: the
/// orthonormal-ish basis rows built from the forward, side and up
/// directions, with the translation terms carrying the eye.
pub open spec fn look_at_cells(eye: Vec3, target: Vec3, up: Vec3) -> Seq<int> {
    let f = v3_norm_val(v3_sub_val(target, eye));
    let s = v3_norm_val(v3_cross_val(f, up));
    let u = v3_cross_val(s, f);
    Seq::new(
        16,
        |i: int|
            {
                if i == 0 {
                    s.x.bits as int
                } else if i == 1 {
                    s.y.bits as int
                } else if i == 2 {
                    s.z.bits as int
                } else if i == 3 {
                    sat64(-dot3_val(s, eye))
                } else if i == 4 {
                    u.x.bits as int
                } else if i == 5 {
                    u.y.bits as int
                } else if i == 6 {
                    u.z.bits as int
                } else if i == 7 {
                    sat64(-dot3_val(u, eye))
                } else if i == 8 {
                    sat64(-(f.x.bits as int))
                } else if i == 9 {
                    sat64(-(f.y.bits as int))
                } else if i == 10 {
                    sat64(-(f.z.bits as int))
                } else if i == 11 {
                    dot3_val(f, eye)
                } else if i == 15 {
                    FX_ONE as int
                } else {
                    0
                }
            },
    )
}

/// The forward, side and up basis of a camera pose.
fn pose_basis(eye: &Vec3, target: &Vec3, up: &Vec3) -> (b: (Vec3, Vec3, Vec3))
    ensures
        b.0 == v3_norm_val(v3_sub_val(*target, *eye)),
        b.1 == v3_norm_val(v3_cross_val(v3_norm_val(v3_sub_val(*target, *eye)), *up)),
        b.2 == v3_cross_val(
            v3_norm_val(v3_cross_val(v3_norm_val(v3_sub_val(*target, *eye)), *up)),
            v3_norm_val(v3_sub_val(*target, *eye)),
        ),
{
    let f = target.sub(*eye).normalize();
    let s = f.cross(up).normalize();
    let u = s.cross(&f);
    proof {
        reveal(v3_sub_val);
        reveal(v3_cross_val);
        reveal(v3_norm_val);
        assert(f == v3_norm_val(v3_sub_val(*target, *eye)));
        assert(s == v3_norm_val(v3_cross_val(f, *up)));
        assert(u == v3_cross_val(s, f));
    }
    (f, s, u)
}

/// The look-at view matrix of a camera pose.
#[verifier::rlimit(100)]
pub fn look_at(eye: &Vec3, target: &Vec3, up: &Vec3) -> (r: Mat4)
    ensures
        cells(r) =~= look_at_cells(*eye, *target, *up),
{
    let zero = Fx { bits: 0 };
    let one = Fx { bits: FX_ONE };
    let basis = pose_basis(eye, target, up);
    let f = basis.0;
    let s = basis.1;
    let u = basis.2;
    Mat4::from_row(
        &[
            s.x, s.y, s.z, s.dot(eye).neg(),
            u.x, u.y, u.z, u.dot(eye).neg(),
            f.x.neg(), f.y.neg(), f.z.neg(), f.dot(eye),
            zero, zero, zero, one,
        ],
    )
}

/// A perspective frustum: the cached projection matrix.
#[derive(Debug)]
pub struct Frustum {
    pub mat: Mat4,
}

impl Frustum {
    /// Build the projection matrix from validated parameters.
    pub fn new(near: Fx, far: Fx, aspect: Fx, fovy: Fx) -> (r: Frustum)
        ensures
            cells(r.mat) =~= projection_cells(
                near.bits as int,
                far.bits as int,
                aspect.bits as int,
                fovy.bits as int,
            ),
    {
        let zero = Fx { bits: 0 };
        let half = fovy.div_int(2);
        let t = crate::trig::sin_fx(half).div(crate::trig::cos_fx(half));
        let f = Fx { bits: FX_ONE }.div(t);
        let a = f.div(aspect);
        let b = far.add(near).div(near.sub(far));
        let c = Fx { bits: 2 * FX_ONE }.mul(far).mul(near).div(near.sub(far));
        let neg_one = Fx { bits: -FX_ONE };
        Frustum {
            mat: Mat4::from_row(
                &[
                    a, zero, zero, zero,
                    zero, f, zero, zero,
                    zero, zero, b, c,
                    zero, zero, neg_one, zero,
                ],
            ),
        }
    }

    /// The cached projection matrix.
    pub fn get_mat(&self) -> (r: &Mat4)
        ensures
            r == &self.mat,
    {
        &self.mat
    }
}

/// The camera: validated parameters, the pose, and the cached view
/// matrix, frustum and view direction.
#[derive(Debug)]
pub struct Camera {
    pub near: Fx,
    pub far: Fx,
    pub aspect: Fx,
    pub fovy: Fx,
    pub eye: Vec3,
    pub target: Vec3,
    pub up: Vec3,
    pub view_matrix: Mat4,
    pub frustum: Frustum,
    pub view_direction: Vec3,
}

impl Camera {
    /// The caches agree with the parameters and the pose: the view
    /// matrix is the look-at matrix of the eye, target and up, the
    /// view direction is the normalized direction from the eye to the
    /// target, and the frustum holds the projection matrix of the
    /// stored parameters.
    pub open spec fn wf(&self) -> bool {
        &&& cells(self.view_matrix) =~= look_at_cells(self.eye, self.target, self.up)
        &&& self.view_direction == v3_norm_val(v3_sub_val(self.target, self.eye))
        &&& cells(self.frustum.mat) =~= projection_cells(
            self.near.bits as int,
            self.far.bits as int,
            self.aspect.bits as int,
            self.fovy.bits as int,
        )
    }

    /// Build a camera; each invalid parameter is reported, checked in
    /// the order near, far, aspect, field of view.
    pub fn new(near: Fx, far: Fx, aspect: Fx, fovy: Fx) -> (r: Result<Camera, CameraError>)
        ensures
            r is Ok <==> (near.bits > 0 && far.bits > near.bits && aspect.bits > 0 && 0 < fovy.bits
                < PI_BITS),
            r == Err::<Camera, CameraError>(CameraError::InvalidNear) <==> near.bits <= 0,
            r == Err::<Camera, CameraError>(CameraError::InvalidFar) <==> (near.bits > 0
                && far.bits <= near.bits),
            r == Err::<Camera, CameraError>(CameraError::InvalidAspect) <==> (near.bits > 0
                && far.bits > near.bits && aspect.bits <= 0),
            r == Err::<Camera, CameraError>(CameraError::InvalidFov) <==> (near.bits > 0
                && far.bits > near.bits && aspect.bits > 0 && !(0 < fovy.bits < PI_BITS)),
            r is Ok ==> r->Ok_0.wf() && r->Ok_0.near == near && r->Ok_0.far == far
                && r->Ok_0.aspect == aspect && r->Ok_0.fovy == fovy,
    {
        if near.bits <= 0 {
            return Err(CameraError::InvalidNear);
        }
        if far.bits <= near.bits {
            return Err(CameraError::InvalidFar);
        }
        if aspect.bits <= 0 {
            return Err(CameraError::InvalidAspect);
        }
        if fovy.bits <= 0 || fovy.bits >= PI_BITS {
            return Err(CameraError::InvalidFov);
        }
        let zero = Fx { bits: 0 };
        let eye = Vec3 { x: zero, y: zero, z: zero };
        let target = Vec3 { x: zero, y: zero, z: Fx { bits: -FX_ONE } };
        let up = Vec3 { x: zero, y: Fx { bits: FX_ONE }, z: zero };
        let view_matrix = look_at(&eye, &target, &up);
        let view_direction = target.sub(eye).normalize();
        proof {
            reveal(v3_sub_val);
            reveal(v3_norm_val);
            assert(view_direction == v3_norm_val(v3_sub_val(target, eye)));
        }
        Ok(
            Camera {
                near,
                far,
                aspect,
                fovy,
                eye,
                target,
                up,
                view_matrix,
                frustum: Frustum::new(near, far, aspect, fovy),
                view_direction,
            },
        )
    }

    /// Point the camera: store the new pose and rebuild the cached
    /// view matrix and view direction from it.
    pub fn set_look_at(&mut self, eye: Vec3, target: Vec3, up: Vec3)
        requires
            old(self).wf(),
        ensures
            final(self).wf(),
            final(self).eye == eye,
            final(self).target == target,
            final(self).up == up,
            final(self).near == old(self).near,
            final(self).far == old(self).far,
            final(self).aspect == old(self).aspect,
            final(self).fovy == old(self).fovy,
            final(self).frustum == old(self).frustum,
    {
        self.eye = eye;
        self.target = target;
        self.up = up;
        self.view_matrix = look_at(&eye, &target, &up);
        let dir = target.sub(eye).normalize();
        proof {
            reveal(v3_sub_val);
            reveal(v3_norm_val);
            assert(dir == v3_norm_val(v3_sub_val(target, eye)));
        }
        self.view_direction = dir;
    }

    /// The cached frustum.
    pub fn get_frustum(&self) -> (r: &Frustum)
        ensures
            r == &self.frustum,
    {
        &self.frustum
    }

    /// The cached view matrix.
    pub fn get_view_matrix(&self) -> (r: &Mat4)
        ensures
            r == &self.view_matrix,
    {
        &self.view_matrix
    }

    /// The normalized direction the camera looks along.
    pub fn get_view_direction(&self) -> (r: &Vec3)
        ensures
            r == &self.view_direction,
    {
        &self.view_direction
    }
}

} // verus!
