//! Square matrices of two, three and four lanes over the fixed-point
//! scalar, with the affine constructors of the pipeline: translation
//! and Euler rotations.
//!
//! A matrix value is modelled as the sequence of its cell bits, in
//! row-major order; `get(x, y)` addresses column `x` of row `y`.
//! Products, transposes and the constructors all state their cells
//! exactly, and the algebraic laws of the library (identity,
//! composition of translations, transpose involution, rotation of the
//! unit z axis) are proved below with no tolerance.
use crate::fx::{fx_add_val, fx_mul_val, sat64, tdiv, Fx, FX_ONE};
use crate::trig::{cos_fx, cos_val, sin_fx, sin_val};
use crate::vec::{Vec3, Vec4};
use vstd::prelude::*;

verus! {

/// A 2x2 matrix, row-major: cell `(x, y)` lives at `x + y * 2`.
#[derive(Clone, Copy, Debug)]
pub struct Mat2 {
    pub data: [Fx; 4],
}

/// The cell bits of a 2x2 matrix, row-major.
pub open spec fn cells2(m: Mat2) -> Seq<int> {
    Seq::new(4, |i: int| m.data@[i].bits as int)
}

/// Cell `(x, y)` of a 2x2 matrix: column `x` of row `y`.
pub open spec fn sget2(m: Mat2, x: int, y: int) -> int {
    cells2(m)[x + y * 2]
}

/// One cell of the product of two 2x2 cell sequences.
pub open spec fn mul_cell2_val(a: Seq<int>, b: Seq<int>, x: int, y: int) -> int {
    fx_add_val(
        fx_mul_val(a[0 + y * 2], b[x + 0 * 2]),
        fx_mul_val(a[1 + y * 2], b[x + 1 * 2]),
    )
}

/// The cells of a 2x2 matrix product.
pub open spec fn mul_cells2(a: Seq<int>, b: Seq<int>) -> Seq<int> {
    Seq::new(4, |i: int| mul_cell2_val(a, b, i % 2, i / 2))
}

/// The cells of the 2x2 identity matrix.
pub open spec fn identity_cells2() -> Seq<int> {
    Seq::new(4, |i: int| if i % 2 == i / 2 {
        FX_ONE as int
    } else {
        0
    })
}

impl Mat2 {
    /// The matrix with the given cells, row-major.
    pub fn from_row(data: &[Fx; 4]) -> (r: Mat2)
        ensures
            r.data == *data,
    {
        Mat2 { data: *data }
    }

    /// The matrix with the given cells, column-major.
    pub fn from_col(data: &[Fx; 4]) -> (r: Mat2)
        ensures
            forall|x: int, y: int|
                0 <= x < 2 && 0 <= y < 2 ==> #[trigger] sget2(r, x, y) == data@[y + 2 * x].bits,
    {
        let mut mat = Mat2::zeros();
        let mut k: usize = 0;
        while k < 4
            invariant
                k <= 4,
                forall|j: int|
                    0 <= j < k ==> (#[trigger] mat.data@[j]).bits == data@[j / 2 + 2 * (j % 2)].bits,
            decreases 4 - k,
        {
            let v = data[k / 2 + 2 * (k % 2)];
            mat.data[k] = v;
            k = k + 1;
        }
        proof {
            assert forall|x: int, y: int| 0 <= x < 2 && 0 <= y < 2 implies #[trigger] sget2(mat, x, y)
                == data@[y + 2 * x].bits by {
                let j = x + y * 2;
                assert(j % 2 == x && j / 2 == y) by (nonlinear_arith)
                    requires
                        0 <= x < 2,
                        0 <= y < 2,
                        j == x + y * 2,
                ;
                assert(mat.data@[j].bits == data@[j / 2 + 2 * (j % 2)].bits);
            }
        }
        mat
    }

    /// The all-zero matrix.
    pub fn zeros() -> (r: Mat2)
        ensures
            forall|i: int| 0 <= i < 4 ==> (#[trigger] r.data@[i]).bits == 0,
            forall|i: int| 0 <= i < 4 ==> cells2(r)[i] == 0,
    {
        let z = Fx { bits: 0 };
        Mat2 { data: [z, z, z, z] }
    }

    /// The all-one matrix.
    pub fn ones() -> (r: Mat2)
        ensures
            forall|i: int| 0 <= i < 4 ==> (#[trigger] r.data@[i]).bits == FX_ONE,
            forall|i: int| 0 <= i < 4 ==> cells2(r)[i] == FX_ONE,
    {
        let o = Fx { bits: FX_ONE };
        Mat2 { data: [o, o, o, o] }
    }

    /// The identity matrix.
    pub fn identity() -> (r: Mat2)
        ensures
            cells2(r) =~= identity_cells2(),
    {
        let mut mat = Mat2::zeros();
        let mut k: usize = 0;
        while k < 4
            invariant
                k <= 4,
                forall|j: int|
                    0 <= j < 4 ==> (#[trigger] mat.data@[j]).bits == if j % 2 == j / 2 && j < k {
                        FX_ONE as int
                    } else {
                        0
                    },
            decreases 4 - k,
        {
            if k % 2 == k / 2 {
                mat.data[k] = Fx { bits: FX_ONE };
            }
            k = k + 1;
        }
        mat
    }

    /// Cell at column `x` of row `y`.
    pub fn get(&self, x: usize, y: usize) -> (r: Fx)
        requires
            x < 2,
            y < 2,
        ensures
            r.bits == cells2(*self)[x + y * 2],
    {
        self.data[x + y * 2]
    }

    /// Replace the cell at column `x` of row `y`.
    pub fn set(&mut self, x: usize, y: usize, value: Fx)
        requires
            x < 2,
            y < 2,
        ensures
            final(self).data@ == old(self).data@.update(x + y * 2, value),
            cells2(*final(self)) =~= cells2(*old(self)).update(x + y * 2, value.bits as int),
    {
        self.data[x + y * 2] = value;
    }

    /// The transpose.
    pub fn transpose(&self) -> (r: Mat2)
        ensures
            forall|x: int, y: int|
                0 <= x < 2 && 0 <= y < 2 ==> #[trigger] sget2(r, x, y) == sget2(*self, y, x),
    {
        let mut mat = Mat2::zeros();
        let mut k: usize = 0;
        while k < 4
            invariant
                k <= 4,
                forall|j: int|
                    0 <= j < k ==> (#[trigger] mat.data@[j]).bits == self.data@[j / 2 + 2 * (j
                        % 2)].bits,
            decreases 4 - k,
        {
            let v = self.data[k / 2 + 2 * (k % 2)];
            mat.data[k] = v;
            k = k + 1;
        }
        proof {
            assert forall|x: int, y: int| 0 <= x < 2 && 0 <= y < 2 implies #[trigger] sget2(mat, x, y)
                == sget2(*self, y, x) by {
                let j = x + y * 2;
                assert(j % 2 == x && j / 2 == y) by (nonlinear_arith)
                    requires
                        0 <= x < 2,
                        0 <= y < 2,
                        j == x + y * 2,
                ;
                assert(mat.data@[j].bits == self.data@[j / 2 + 2 * (j % 2)].bits);
            }
        }
        mat
    }

    /// Matrix product: each cell is the row-by-column dot product.
    pub fn mul(self, rhs: Mat2) -> (r: Mat2)
        ensures
            cells2(r) =~= mul_cells2(cells2(self), cells2(rhs)),
    {
        let mut mat = Mat2::zeros();
        let mut k: usize = 0;
        while k < 4
            invariant
                k <= 4,
                forall|j: int|
                    0 <= j < k ==> (#[trigger] mat.data@[j]).bits == mul_cell2_val(
                        cells2(self),
                        cells2(rhs),
                        j % 2,
                        j / 2,
                    ),
            decreases 4 - k,
        {
            let x: usize = k % 2;
            let y: usize = k / 2;
            let sum = self.get(0, y).mul(rhs.get(x, 0)).add(self.get(1, y).mul(rhs.get(x, 1)));
            mat.data[k] = sum;
            k = k + 1;
        }
        mat
    }

    /// Every cell scaled by `rhs`.
    pub fn mul_scalar(self, rhs: Fx) -> (r: Mat2)
        ensures
            forall|i: int|
                0 <= i < 4 ==> cells2(r)[i] == fx_mul_val(cells2(self)[i], rhs.bits as int),
    {
        let mut mat = Mat2::zeros();
        let mut i: usize = 0;
        while i < 4
            invariant
                i <= 4,
                forall|k: int|
                    0 <= k < i ==> (#[trigger] mat.data@[k]).bits == fx_mul_val(
                        self.data@[k].bits as int,
                        rhs.bits as int,
                    ),
            decreases 4 - i,
        {
            let v = self.data[i].mul(rhs);
            mat.data[i] = v;
            i = i + 1;
        }
        mat
    }

    /// Cellwise sum.
    pub fn add(self, rhs: Mat2) -> (r: Mat2)
        ensures
            forall|i: int| 0 <= i < 4 ==> cells2(r)[i] == fx_add_val(cells2(self)[i], cells2(rhs)[i]),
    {
        let mut mat = Mat2::zeros();
        let mut i: usize = 0;
        while i < 4
            invariant
                i <= 4,
                forall|k: int|
                    0 <= k < i ==> (#[trigger] mat.data@[k]).bits == fx_add_val(
                        self.data@[k].bits as int,
                        rhs.data@[k].bits as int,
                    ),
            decreases 4 - i,
        {
            let v = self.data[i].add(rhs.data[i]);
            mat.data[i] = v;
            i = i + 1;
        }
        mat
    }
}

/// A 3x3 matrix, row-major: cell `(x, y)` lives at `x + y * 3`.
#[derive(Clone, Copy, Debug)]
pub struct Mat3 {
    pub data: [Fx; 9],
}

/// The cell bits of a 3x3 matrix, row-major.
pub open spec fn cells3(m: Mat3) -> Seq<int> {
    Seq::new(9, |i: int| m.data@[i].bits as int)
}

/// Cell `(x, y)` of a 3x3 matrix: column `x` of row `y`.
pub open spec fn sget3(m: Mat3, x: int, y: int) -> int {
    cells3(m)[x + y * 3]
}

/// One cell of the product of two 3x3 cell sequences.
pub open spec fn mul_cell3_val(a: Seq<int>, b: Seq<int>, x: int, y: int) -> int {
    fx_add_val(
        fx_add_val(
        fx_mul_val(a[0 + y * 3], b[x + 0 * 3]),
        fx_mul_val(a[1 + y * 3], b[x + 1 * 3]),
    ),
        fx_mul_val(a[2 + y * 3], b[x + 2 * 3]),
    )
}

/// The cells of a 3x3 matrix product.
pub open spec fn mul_cells3(a: Seq<int>, b: Seq<int>) -> Seq<int> {
    Seq::new(9, |i: int| mul_cell3_val(a, b, i % 3, i / 3))
}

/// The cells of the 3x3 identity matrix.
pub open spec fn identity_cells3() -> Seq<int> {
    Seq::new(9, |i: int| if i % 3 == i / 3 {
        FX_ONE as int
    } else {
        0
    })
}

impl Mat3 {
    /// The matrix with the given cells, row-major.
    pub fn from_row(data: &[Fx; 9]) -> (r: Mat3)
        ensures
            r.data == *data,
    {
        Mat3 { data: *data }
    }

    /// The matrix with the given cells, column-major.
    pub fn from_col(data: &[Fx; 9]) -> (r: Mat3)
        ensures
            forall|x: int, y: int|
                0 <= x < 3 && 0 <= y < 3 ==> #[trigger] sget3(r, x, y) == data@[y + 3 * x].bits,
    {
        let mut mat = Mat3::zeros();
        let mut k: usize = 0;
        while k < 9
            invariant
                k <= 9,
                forall|j: int|
                    0 <= j < k ==> (#[trigger] mat.data@[j]).bits == data@[j / 3 + 3 * (j % 3)].bits,
            decreases 9 - k,
        {
            let v = data[k / 3 + 3 * (k % 3)];
            mat.data[k] = v;
            k = k + 1;
        }
        proof {
            assert forall|x: int, y: int| 0 <= x < 3 && 0 <= y < 3 implies #[trigger] sget3(mat, x, y)
                == data@[y + 3 * x].bits by {
                let j = x + y * 3;
                assert(j % 3 == x && j / 3 == y) by (nonlinear_arith)
                    requires
                        0 <= x < 3,
                        0 <= y < 3,
                        j == x + y * 3,
                ;
                assert(mat.data@[j].bits == data@[j / 3 + 3 * (j % 3)].bits);
            }
        }
        mat
    }

    /// The all-zero matrix.
    pub fn zeros() -> (r: Mat3)
        ensures
            forall|i: int| 0 <= i < 9 ==> (#[trigger] r.data@[i]).bits == 0,
            forall|i: int| 0 <= i < 9 ==> cells3(r)[i] == 0,
    {
        let z = Fx { bits: 0 };
        Mat3 { data: [z, z, z, z, z, z, z, z, z] }
    }

    /// The all-one matrix.
    pub fn ones() -> (r: Mat3)
        ensures
            forall|i: int| 0 <= i < 9 ==> (#[trigger] r.data@[i]).bits == FX_ONE,
            forall|i: int| 0 <= i < 9 ==> cells3(r)[i] == FX_ONE,
    {
        let o = Fx { bits: FX_ONE };
        Mat3 { data: [o, o, o, o, o, o, o, o, o] }
    }

    /// The identity matrix.
    pub fn identity() -> (r: Mat3)
        ensures
            cells3(r) =~= identity_cells3(),
    {
        let mut mat = Mat3::zeros();
        let mut k: usize = 0;
        while k < 9
            invariant
                k <= 9,
                forall|j: int|
                    0 <= j < 9 ==> (#[trigger] mat.data@[j]).bits == if j % 3 == j / 3 && j < k {
                        FX_ONE as int
                    } else {
                        0
                    },
            decreases 9 - k,
        {
            if k % 3 == k / 3 {
                mat.data[k] = Fx { bits: FX_ONE };
            }
            k = k + 1;
        }
        mat
    }

    /// Cell at column `x` of row `y`.
    pub fn get(&self, x: usize, y: usize) -> (r: Fx)
        requires
            x < 3,
            y < 3,
        ensures
            r.bits == cells3(*self)[x + y * 3],
    {
        self.data[x + y * 3]
    }

    /// Replace the cell at column `x` of row `y`.
    pub fn set(&mut self, x: usize, y: usize, value: Fx)
        requires
            x < 3,
            y < 3,
        ensures
            final(self).data@ == old(self).data@.update(x + y * 3, value),
            cells3(*final(self)) =~= cells3(*old(self)).update(x + y * 3, value.bits as int),
    {
        self.data[x + y * 3] = value;
    }

    /// The transpose.
    pub fn transpose(&self) -> (r: Mat3)
        ensures
            forall|x: int, y: int|
                0 <= x < 3 && 0 <= y < 3 ==> #[trigger] sget3(r, x, y) == sget3(*self, y, x),
    {
        let mut mat = Mat3::zeros();
        let mut k: usize = 0;
        while k < 9
            invariant
                k <= 9,
                forall|j: int|
                    0 <= j < k ==> (#[trigger] mat.data@[j]).bits == self.data@[j / 3 + 3 * (j
                        % 3)].bits,
            decreases 9 - k,
        {
            let v = self.data[k / 3 + 3 * (k % 3)];
            mat.data[k] = v;
            k = k + 1;
        }
        proof {
            assert forall|x: int, y: int| 0 <= x < 3 && 0 <= y < 3 implies #[trigger] sget3(mat, x, y)
                == sget3(*self, y, x) by {
                let j = x + y * 3;
                assert(j % 3 == x && j / 3 == y) by (nonlinear_arith)
                    requires
                        0 <= x < 3,
                        0 <= y < 3,
                        j == x + y * 3,
                ;
                assert(mat.data@[j].bits == self.data@[j / 3 + 3 * (j % 3)].bits);
            }
        }
        mat
    }

    /// Matrix product: each cell is the row-by-column dot product.
    pub fn mul(self, rhs: Mat3) -> (r: Mat3)
        ensures
            cells3(r) =~= mul_cells3(cells3(self), cells3(rhs)),
    {
        let mut mat = Mat3::zeros();
        let mut k: usize = 0;
        while k < 9
            invariant
                k <= 9,
                forall|j: int|
                    0 <= j < k ==> (#[trigger] mat.data@[j]).bits == mul_cell3_val(
                        cells3(self),
                        cells3(rhs),
                        j % 3,
                        j / 3,
                    ),
            decreases 9 - k,
        {
            let x: usize = k % 3;
            let y: usize = k / 3;
            let sum = self.get(0, y).mul(rhs.get(x, 0)).add(self.get(1, y).mul(rhs.get(x, 1))).add(self.get(2, y).mul(rhs.get(x, 2)));
            mat.data[k] = sum;
            k = k + 1;
        }
        mat
    }

    /// Every cell scaled by `rhs`.
    pub fn mul_scalar(self, rhs: Fx) -> (r: Mat3)
        ensures
            forall|i: int|
                0 <= i < 9 ==> cells3(r)[i] == fx_mul_val(cells3(self)[i], rhs.bits as int),
    {
        let mut mat = Mat3::zeros();
        let mut i: usize = 0;
        while i < 9
            invariant
                i <= 9,
                forall|k: int|
                    0 <= k < i ==> (#[trigger] mat.data@[k]).bits == fx_mul_val(
                        self.data@[k].bits as int,
                        rhs.bits as int,
                    ),
            decreases 9 - i,
        {
            let v = self.data[i].mul(rhs);
            mat.data[i] = v;
            i = i + 1;
        }
        mat
    }

    /// Cellwise sum.
    pub fn add(self, rhs: Mat3) -> (r: Mat3)
        ensures
            forall|i: int| 0 <= i < 9 ==> cells3(r)[i] == fx_add_val(cells3(self)[i], cells3(rhs)[i]),
    {
        let mut mat = Mat3::zeros();
        let mut i: usize = 0;
        while i < 9
            invariant
                i <= 9,
                forall|k: int|
                    0 <= k < i ==> (#[trigger] mat.data@[k]).bits == fx_add_val(
                        self.data@[k].bits as int,
                        rhs.data@[k].bits as int,
                    ),
            decreases 9 - i,
        {
            let v = self.data[i].add(rhs.data[i]);
            mat.data[i] = v;
            i = i + 1;
        }
        mat
    }
}

/// A 4x4 matrix, row-major: cell `(x, y)` lives at `x + y * 4`.
#[derive(Clone, Copy, Debug)]
pub struct Mat4 {
    pub data: [Fx; 16],
}

/// The cell bits of a matrix, row-major.
pub open spec fn cells(m: Mat4) -> Seq<int> {
    Seq::new(16, |i: int| m.data@[i].bits as int)
}

/// Cell `(x, y)` of a matrix: column `x` of row `y`.
pub open spec fn sget(m: Mat4, x: int, y: int) -> int {
    cells(m)[x + y * 4]
}

/// One cell of the product of two cell sequences: the dot product of
/// row `y` of `a` with column `x` of `b`, summed left to right.
pub open spec fn mul_cell_val(a: Seq<int>, b: Seq<int>, x: int, y: int) -> int {
    fx_add_val(
        fx_add_val(
            fx_add_val(
                fx_mul_val(a[0 + y * 4], b[x + 0 * 4]),
                fx_mul_val(a[1 + y * 4], b[x + 1 * 4]),
            ),
            fx_mul_val(a[2 + y * 4], b[x + 2 * 4]),
        ),
        fx_mul_val(a[3 + y * 4], b[x + 3 * 4]),
    )
}

/// The cells of a matrix product.
pub open spec fn mul_cells(a: Seq<int>, b: Seq<int>) -> Seq<int> {
    Seq::new(16, |i: int| mul_cell_val(a, b, i % 4, i / 4))
}

/// One lane of a matrix-vector product: the dot product of row `row`
/// with the lanes, summed left to right.
pub open spec fn mv_row_val(a: Seq<int>, xb: int, yb: int, zb: int, wb: int, row: int) -> int {
    fx_add_val(
        fx_add_val(
            fx_add_val(fx_mul_val(a[0 + row * 4], xb), fx_mul_val(a[1 + row * 4], yb)),
            fx_mul_val(a[2 + row * 4], zb),
        ),
        fx_mul_val(a[3 + row * 4], wb),
    )
}

/// The cells of the identity matrix.
pub open spec fn identity_cells() -> Seq<int> {
    Seq::new(16, |i: int| if i % 4 == i / 4 {
        FX_ONE as int
    } else {
        0
    })
}

/// The cells of a translation by `(ox, oy, oz)`.
pub open spec fn translate_cells(ox: int, oy: int, oz: int) -> Seq<int> {
    Seq::new(16, |i: int| {
        if i == 3 {
            ox
        } else if i == 7 {
            oy
        } else if i == 11 {
            oz
        } else if i % 4 == i / 4 {
            FX_ONE as int
        } else {
            0
        }
    })
}

/// The cells of a rotation about the x axis by the angle whose
/// fixed-point bits are `t`.
pub open spec fn rotate_x_cells(t: int) -> Seq<int> {
    let c = cos_val(t);
    let s = sin_val(t);
    Seq::new(16, |i: int| {
        if i == 0 || i == 15 {
            FX_ONE as int
        } else if i == 5 || i == 10 {
            c
        } else if i == 6 {
            -s
        } else if i == 9 {
            s
        } else {
            0
        }
    })
}

/// The cells of a rotation about the y axis.
pub open spec fn rotate_y_cells(t: int) -> Seq<int> {
    let c = cos_val(t);
    let s = sin_val(t);
    Seq::new(16, |i: int| {
        if i == 5 || i == 15 {
            FX_ONE as int
        } else if i == 0 || i == 10 {
            c
        } else if i == 2 {
            s
        } else if i == 8 {
            -s
        } else {
            0
        }
    })
}

/// The cells of a rotation about the z axis.
pub open spec fn rotate_z_cells(t: int) -> Seq<int> {
    let c = cos_val(t);
    let s = sin_val(t);
    Seq::new(16, |i: int| {
        if i == 10 || i == 15 {
            FX_ONE as int
        } else if i == 0 || i == 5 {
            c
        } else if i == 1 {
            -s
        } else if i == 4 {
            s
        } else {
            0
        }
    })
}

impl Mat4 {
    /// The matrix with the given cells, row-major.
    pub fn from_row(data: &[Fx; 16]) -> (r: Mat4)
        ensures
            r.data == *data,
    {
        Mat4 { data: *data }
    }

    /// The matrix with the given cells, column-major.
    pub fn from_col(data: &[Fx; 16]) -> (r: Mat4)
        ensures
            forall|x: int, y: int|
                0 <= x < 4 && 0 <= y < 4 ==> #[trigger] sget(r, x, y) == data@[y + 4 * x].bits,
    {
        let mut mat = Mat4::zeros();
        let mut k: usize = 0;
        while k < 16
            invariant
                k <= 16,
                forall|j: int|
                    0 <= j < k ==> (#[trigger] mat.data@[j]).bits == data@[j / 4 + 4 * (j % 4)].bits,
            decreases 16 - k,
        {
            let v = data[k / 4 + 4 * (k % 4)];
            mat.data[k] = v;
            k = k + 1;
        }
        proof {
            assert forall|x: int, y: int| 0 <= x < 4 && 0 <= y < 4 implies #[trigger] sget(mat, x, y)
                == data@[y + 4 * x].bits by {
                let j = x + y * 4;
                assert(j % 4 == x && j / 4 == y) by (nonlinear_arith)
                    requires
                        0 <= x < 4,
                        0 <= y < 4,
                        j == x + y * 4,
                ;
                assert(mat.data@[j].bits == data@[j / 4 + 4 * (j % 4)].bits);
            }
        }
        mat
    }

    /// The all-zero matrix.
    pub fn zeros() -> (r: Mat4)
        ensures
            forall|i: int| 0 <= i < 16 ==> (#[trigger] r.data@[i]).bits == 0,
            forall|i: int| 0 <= i < 16 ==> cells(r)[i] == 0,
    {
        Mat4 { data: [Fx { bits: 0 }; 16] }
    }

    /// The all-one matrix.
    pub fn ones() -> (r: Mat4)
        ensures
            forall|i: int| 0 <= i < 16 ==> (#[trigger] r.data@[i]).bits == FX_ONE,
            forall|i: int| 0 <= i < 16 ==> cells(r)[i] == FX_ONE,
    {
        Mat4 { data: [Fx { bits: FX_ONE }; 16] }
    }

    /// The identity matrix.
    pub fn identity() -> (r: Mat4)
        ensures
            cells(r) =~= identity_cells(),
    {
        let mut mat = Mat4::zeros();
        let mut k: usize = 0;
        while k < 16
            invariant
                k <= 16,
                forall|j: int|
                    0 <= j < 16 ==> (#[trigger] mat.data@[j]).bits == if j % 4 == j / 4 && j < k {
                        FX_ONE as int
                    } else {
                        0
                    },
            decreases 16 - k,
        {
            if k % 4 == k / 4 {
                mat.data[k] = Fx { bits: FX_ONE };
            }
            k = k + 1;
        }
        mat
    }

    /// Cell at column `x` of row `y`.
    pub fn get(&self, x: usize, y: usize) -> (r: Fx)
        requires
            x < 4,
            y < 4,
        ensures
            r.bits == cells(*self)[x + y * 4],
    {
        self.data[x + y * 4]
    }

    /// Replace the cell at column `x` of row `y`.
    pub fn set(&mut self, x: usize, y: usize, value: Fx)
        requires
            x < 4,
            y < 4,
        ensures
            final(self).data@ == old(self).data@.update(x + y * 4, value),
            cells(*final(self)) =~= cells(*old(self)).update(x + y * 4, value.bits as int),
    {
        self.data[x + y * 4] = value;
    }

    /// The transpose.
    pub fn transpose(&self) -> (r: Mat4)
        ensures
            forall|x: int, y: int|
                0 <= x < 4 && 0 <= y < 4 ==> #[trigger] sget(r, x, y) == sget(*self, y, x),
    {
        let mut mat = Mat4::zeros();
        let mut k: usize = 0;
        while k < 16
            invariant
                k <= 16,
                forall|j: int|
                    0 <= j < k ==> (#[trigger] mat.data@[j]).bits == self.data@[j / 4 + 4 * (j
                        % 4)].bits,
            decreases 16 - k,
        {
            let v = self.data[k / 4 + 4 * (k % 4)];
            mat.data[k] = v;
            k = k + 1;
        }
        proof {
            assert forall|x: int, y: int| 0 <= x < 4 && 0 <= y < 4 implies #[trigger] sget(mat, x, y)
                == sget(*self, y, x) by {
                let j = x + y * 4;
                assert(j % 4 == x && j / 4 == y) by (nonlinear_arith)
                    requires
                        0 <= x < 4,
                        0 <= y < 4,
                        j == x + y * 4,
                ;
                assert(mat.data@[j].bits == self.data@[j / 4 + 4 * (j % 4)].bits);
            }
        }
        mat
    }

    /// Matrix product: each cell is the row-by-column dot product.
    pub fn mul(self, rhs: Mat4) -> (r: Mat4)
        ensures
            cells(r) =~= mul_cells(cells(self), cells(rhs)),
    {
        let mut mat = Mat4::zeros();
        let mut k: usize = 0;
        while k < 16
            invariant
                k <= 16,
                forall|j: int|
                    0 <= j < k ==> (#[trigger] mat.data@[j]).bits == mul_cell_val(
                        cells(self),
                        cells(rhs),
                        j % 4,
                        j / 4,
                    ),
            decreases 16 - k,
        {
            let x: usize = k % 4;
            let y: usize = k / 4;
            let sum = self.get(0, y).mul(rhs.get(x, 0)).add(self.get(1, y).mul(rhs.get(x, 1))).add(
                self.get(2, y).mul(rhs.get(x, 2)),
            ).add(self.get(3, y).mul(rhs.get(x, 3)));
            mat.data[k] = sum;
            k = k + 1;
        }
        mat
    }

    /// Matrix-vector product: four row dot products.
    pub fn mul_vec4(self, v: Vec4) -> (r: Vec4)
        ensures
            r.x.bits == mv_row_val(
                cells(self),
                v.x.bits as int,
                v.y.bits as int,
                v.z.bits as int,
                v.w.bits as int,
                0,
            ),
            r.y.bits == mv_row_val(
                cells(self),
                v.x.bits as int,
                v.y.bits as int,
                v.z.bits as int,
                v.w.bits as int,
                1,
            ),
            r.z.bits == mv_row_val(
                cells(self),
                v.x.bits as int,
                v.y.bits as int,
                v.z.bits as int,
                v.w.bits as int,
                2,
            ),
            r.w.bits == mv_row_val(
                cells(self),
                v.x.bits as int,
                v.y.bits as int,
                v.z.bits as int,
                v.w.bits as int,
                3,
            ),
    {
        Vec4 {
            x: self.get(0, 0).mul(v.x).add(self.get(1, 0).mul(v.y)).add(self.get(2, 0).mul(v.z))
                .add(self.get(3, 0).mul(v.w)),
            y: self.get(0, 1).mul(v.x).add(self.get(1, 1).mul(v.y)).add(self.get(2, 1).mul(v.z))
                .add(self.get(3, 1).mul(v.w)),
            z: self.get(0, 2).mul(v.x).add(self.get(1, 2).mul(v.y)).add(self.get(2, 2).mul(v.z))
                .add(self.get(3, 2).mul(v.w)),
            w: self.get(0, 3).mul(v.x).add(self.get(1, 3).mul(v.y)).add(self.get(2, 3).mul(v.z))
                .add(self.get(3, 3).mul(v.w)),
        }
    }

    /// Every cell scaled by `rhs`.
    pub fn mul_scalar(self, rhs: Fx) -> (r: Mat4)
        ensures
            forall|i: int|
                0 <= i < 16 ==> cells(r)[i] == fx_mul_val(cells(self)[i], rhs.bits as int),
    {
        let mut mat = Mat4::zeros();
        let mut i: usize = 0;
        while i < 16
            invariant
                i <= 16,
                forall|k: int|
                    0 <= k < i ==> (#[trigger] mat.data@[k]).bits == fx_mul_val(
                        self.data@[k].bits as int,
                        rhs.bits as int,
                    ),
            decreases 16 - i,
        {
            let v = self.data[i].mul(rhs);
            mat.data[i] = v;
            i = i + 1;
        }
        mat
    }

    /// Cellwise sum.
    pub fn add(self, rhs: Mat4) -> (r: Mat4)
        ensures
            forall|i: int| 0 <= i < 16 ==> cells(r)[i] == fx_add_val(cells(self)[i], cells(rhs)[i]),
    {
        let mut mat = Mat4::zeros();
        let mut i: usize = 0;
        while i < 16
            invariant
                i <= 16,
                forall|k: int|
                    0 <= k < i ==> (#[trigger] mat.data@[k]).bits == fx_add_val(
                        self.data@[k].bits as int,
                        rhs.data@[k].bits as int,
                    ),
            decreases 16 - i,
        {
            let v = self.data[i].add(rhs.data[i]);
            mat.data[i] = v;
            i = i + 1;
        }
        mat
    }
}

/// Identity with the last column set to the offset: maps `(p, 1)` to
/// `(p + offset, 1)` under `mul_vec4`.
pub fn apply_translate(offset: &Vec3) -> (r: Mat4)
    ensures
        cells(r) =~= translate_cells(offset.x.bits as int, offset.y.bits as int, offset.z.bits as int),
{
    let one = Fx { bits: FX_ONE };
    let zero = Fx { bits: 0 };
    Mat4::from_row(
        &[
            one, zero, zero, offset.x,
            zero, one, zero, offset.y,
            zero, zero, one, offset.z,
            zero, zero, zero, one,
        ],
    )
}

/// The standard rotation about the x axis.
pub fn apply_eular_rotate_x(angle: Fx) -> (r: Mat4)
    ensures
        cells(r) =~= rotate_x_cells(angle.bits as int),
{
    let c = cos_fx(angle);
    let s = sin_fx(angle);
    let one = Fx { bits: FX_ONE };
    let zero = Fx { bits: 0 };
    Mat4::from_row(
        &[
            one, zero, zero, zero,
            zero, c, s.neg(), zero,
            zero, s, c, zero,
            zero, zero, zero, one,
        ],
    )
}

/// The standard rotation about the y axis.
pub fn apply_eular_rotate_y(angle: Fx) -> (r: Mat4)
    ensures
        cells(r) =~= rotate_y_cells(angle.bits as int),
{
    let c = cos_fx(angle);
    let s = sin_fx(angle);
    let one = Fx { bits: FX_ONE };
    let zero = Fx { bits: 0 };
    Mat4::from_row(
        &[
            c, zero, s, zero,
            zero, one, zero, zero,
            s.neg(), zero, c, zero,
            zero, zero, zero, one,
        ],
    )
}

/// The standard rotation about the z axis.
pub fn apply_eular_rotate_z(angle: Fx) -> (r: Mat4)
    ensures
        cells(r) =~= rotate_z_cells(angle.bits as int),
{
    let c = cos_fx(angle);
    let s = sin_fx(angle);
    let one = Fx { bits: FX_ONE };
    let zero = Fx { bits: 0 };
    Mat4::from_row(
        &[
            c, s.neg(), zero, zero,
            s, c, zero, zero,
            zero, zero, one, zero,
            zero, zero, zero, one,
        ],
    )
}

/// The Euler rotation with z outermost: `Rz * Ry * Rx`.
pub fn apply_eular_rotate_xyz(rotation: &Vec3) -> (r: Mat4)
    ensures
        cells(r) =~= mul_cells(
            mul_cells(rotate_z_cells(rotation.z.bits as int), rotate_y_cells(rotation.y.bits as int)),
            rotate_x_cells(rotation.x.bits as int),
        ),
{
    apply_eular_rotate_z(rotation.z).mul(apply_eular_rotate_y(rotation.y)).mul(
        apply_eular_rotate_x(rotation.x),
    )
}

/// Scaling a bit value by one gives it back unchanged.
proof fn lemma_fx_mul_one(a: int)
    requires
        i64::MIN <= a <= i64::MAX,
    ensures
        fx_mul_val(a, FX_ONE as int) == a,
        fx_mul_val(FX_ONE as int, a) == a,
{
    if a >= 0 {
        assert(a * FX_ONE == FX_ONE * a) by (nonlinear_arith);
        vstd::arithmetic::div_mod::lemma_div_multiples_vanish(a, FX_ONE as int);
        assert(tdiv(a * FX_ONE, FX_ONE as int) == a);
    } else {
        assert(-(a * FX_ONE) == (-a) * FX_ONE) by (nonlinear_arith);
        assert((-a) * FX_ONE == FX_ONE * (-a)) by (nonlinear_arith);
        vstd::arithmetic::div_mod::lemma_div_multiples_vanish(-a, FX_ONE as int);
        assert(tdiv(a * FX_ONE, FX_ONE as int) == a);
        assert(a * FX_ONE == FX_ONE * a) by (nonlinear_arith);
    }
}

/// Scaling by zero gives zero.
proof fn lemma_fx_mul_zero(a: int)
    ensures
        fx_mul_val(a, 0) == 0,
        fx_mul_val(0, a) == 0,
{
    assert(a * 0 == 0) by (nonlinear_arith);
    assert(0 * a == 0) by (nonlinear_arith);
}

/// The identity matrix is a right identity of the matrix product.
pub proof fn lemma_identity_right(m: Mat4)
    ensures
        mul_cells(cells(m), identity_cells()) =~= cells(m),
{
    assert forall|i: int| 0 <= i < 16 implies mul_cells(cells(m), identity_cells())[i] == cells(
        m,
    )[i] by {
        let x = i % 4;
        let y = i / 4;
        assert(0 <= x < 4 && 0 <= y < 4) by (nonlinear_arith)
            requires
                0 <= i < 16,
                x == i % 4,
                y == i / 4,
        ;
        lemma_fx_mul_one(cells(m)[x + y * 4]);
        lemma_fx_mul_zero(cells(m)[0 + y * 4]);
        lemma_fx_mul_zero(cells(m)[1 + y * 4]);
        lemma_fx_mul_zero(cells(m)[2 + y * 4]);
        lemma_fx_mul_zero(cells(m)[3 + y * 4]);
        assert(x + y * 4 == i) by (nonlinear_arith)
            requires
                x == i % 4,
                y == i / 4,
        ;
    }
}

/// The identity matrix is a left identity of the matrix product.
pub proof fn lemma_identity_left(m: Mat4)
    ensures
        mul_cells(identity_cells(), cells(m)) =~= cells(m),
{
    assert forall|i: int| 0 <= i < 16 implies mul_cells(identity_cells(), cells(m))[i] == cells(
        m,
    )[i] by {
        let x = i % 4;
        let y = i / 4;
        assert(0 <= x < 4 && 0 <= y < 4) by (nonlinear_arith)
            requires
                0 <= i < 16,
                x == i % 4,
                y == i / 4,
        ;
        lemma_fx_mul_one(cells(m)[x + y * 4]);
        lemma_fx_mul_zero(cells(m)[x + 0 * 4]);
        lemma_fx_mul_zero(cells(m)[x + 1 * 4]);
        lemma_fx_mul_zero(cells(m)[x + 2 * 4]);
        lemma_fx_mul_zero(cells(m)[x + 3 * 4]);
        assert(x + y * 4 == i) by (nonlinear_arith)
            requires
                x == i % 4,
                y == i / 4,
        ;
    }
}

/// Composing two translations translates by the sum of the offsets,
/// exactly, whenever the summed offsets stay in range.
#[verifier::rlimit(80)]
pub proof fn lemma_translate_compose(a: Vec3, b: Vec3)
    requires
        i64::MIN <= a.x.bits + b.x.bits <= i64::MAX,
        i64::MIN <= a.y.bits + b.y.bits <= i64::MAX,
        i64::MIN <= a.z.bits + b.z.bits <= i64::MAX,
    ensures
        mul_cells(
            translate_cells(a.x.bits as int, a.y.bits as int, a.z.bits as int),
            translate_cells(b.x.bits as int, b.y.bits as int, b.z.bits as int),
        ) =~= translate_cells(
            a.x.bits + b.x.bits,
            a.y.bits + b.y.bits,
            a.z.bits + b.z.bits,
        ),
{
    let ta = translate_cells(a.x.bits as int, a.y.bits as int, a.z.bits as int);
    let tb = translate_cells(b.x.bits as int, b.y.bits as int, b.z.bits as int);
    let tc = translate_cells(a.x.bits + b.x.bits, a.y.bits + b.y.bits, a.z.bits + b.z.bits);
    assert forall|i: int| 0 <= i < 16 implies mul_cells(ta, tb)[i] == tc[i] by {
        let x = i % 4;
        let y = i / 4;
        assert(0 <= x < 4 && 0 <= y < 4 && x + y * 4 == i) by (nonlinear_arith)
            requires
                0 <= i < 16,
                x == i % 4,
                y == i / 4,
        ;
        lemma_fx_mul_one(ta[0 + y * 4]);
        lemma_fx_mul_one(ta[1 + y * 4]);
        lemma_fx_mul_one(ta[2 + y * 4]);
        lemma_fx_mul_one(ta[3 + y * 4]);
        lemma_fx_mul_one(tb[x + 0 * 4]);
        lemma_fx_mul_one(tb[x + 1 * 4]);
        lemma_fx_mul_one(tb[x + 2 * 4]);
        lemma_fx_mul_one(tb[x + 3 * 4]);
        lemma_fx_mul_zero(ta[0 + y * 4]);
        lemma_fx_mul_zero(ta[1 + y * 4]);
        lemma_fx_mul_zero(ta[2 + y * 4]);
        lemma_fx_mul_zero(ta[3 + y * 4]);
        lemma_fx_mul_zero(tb[x + 0 * 4]);
        lemma_fx_mul_zero(tb[x + 1 * 4]);
        lemma_fx_mul_zero(tb[x + 2 * 4]);
        lemma_fx_mul_zero(tb[x + 3 * 4]);
    }
}

/// The transpose is an involution: transposing twice gives back every
/// cell of the original matrix.
pub proof fn lemma_transpose_involution(m: Mat4, t: Mat4, tt: Mat4)
    requires
        forall|x: int, y: int|
            0 <= x < 4 && 0 <= y < 4 ==> #[trigger] sget(t, x, y) == sget(m, y, x),
        forall|x: int, y: int|
            0 <= x < 4 && 0 <= y < 4 ==> #[trigger] sget(tt, x, y) == sget(t, y, x),
    ensures
        cells(tt) =~= cells(m),
{
    assert forall|i: int| 0 <= i < 16 implies cells(tt)[i] == cells(m)[i] by {
        let x = i % 4;
        let y = i / 4;
        assert(0 <= x < 4 && 0 <= y < 4 && x + y * 4 == i) by (nonlinear_arith)
            requires
                0 <= i < 16,
                x == i % 4,
                y == i / 4,
        ;
        assert(sget(tt, x, y) == sget(t, y, x));
        assert(sget(t, y, x) == sget(m, x, y));
    }
}

/// A rotation about the y axis carries the unit z axis to
/// `(sin t, 0, cos t, 1)`, exactly, lane by lane.
pub proof fn lemma_rotate_y_unit_z(t: int)
    ensures
        mv_row_val(rotate_y_cells(t), 0, 0, FX_ONE as int, FX_ONE as int, 0) == sin_val(t),
        mv_row_val(rotate_y_cells(t), 0, 0, FX_ONE as int, FX_ONE as int, 1) == 0,
        mv_row_val(rotate_y_cells(t), 0, 0, FX_ONE as int, FX_ONE as int, 2) == cos_val(t),
        mv_row_val(rotate_y_cells(t), 0, 0, FX_ONE as int, FX_ONE as int, 3) == FX_ONE,
{
    let rc = rotate_y_cells(t);
    lemma_fx_mul_zero(rc[0]);
    lemma_fx_mul_zero(rc[1]);
    lemma_fx_mul_zero(rc[4]);
    lemma_fx_mul_zero(rc[5]);
    lemma_fx_mul_zero(rc[8]);
    lemma_fx_mul_zero(rc[9]);
    lemma_fx_mul_zero(rc[12]);
    lemma_fx_mul_zero(rc[13]);
    lemma_fx_mul_one(rc[2]);
    lemma_fx_mul_one(rc[3]);
    lemma_fx_mul_one(rc[6]);
    lemma_fx_mul_one(rc[7]);
    lemma_fx_mul_one(rc[10]);
    lemma_fx_mul_one(rc[11]);
    lemma_fx_mul_one(rc[14]);
    lemma_fx_mul_one(rc[15]);
}

} // verus!
