//! The Bresenham line drawer over the color attachment.
//!
//! The set of pixels a line covers is defined by the spec functions
//! below — the degenerate vertical and horizontal lines as integer
//! intervals, the general line by a recursion that mirrors the error
//! accumulator — and `draw_line` is proved to paint exactly that set:
//! every covered in-bounds pixel holds the quantized color, every
//! other pixel of the buffer is untouched.
use crate::image::{pixel_index, quant_val, ColorAttachment};
use crate::vec::Vec4;
use vstd::prelude::*;

verus! {

/// The pixels of the general (neither vertical nor horizontal) line,
/// walked along the major axis from `x` until `xe`, inclusive: the
/// accumulator `e` gains `2 * dy` each step and pays `2 * dx` when it
/// crosses zero, stepping the minor axis.
pub open spec fn bres_rec(
    x: int,
    y: int,
    e: int,
    xe: int,
    sx: int,
    sy: int,
    dx: int,
    dy: int,
) -> Set<(int, int)>
    decreases (if sx == 1 {
        xe - x
    } else {
        x - xe
    }),
{
    if x == xe {
        Set::empty().insert((x, y))
    } else if (sx == 1 && x < xe) || (sx == -1 && x > xe) {
        let e2 = e + 2 * dy;
        if e2 >= 0 {
            bres_rec(x + sx, y + sy, e2 - 2 * dx, xe, sx, sy, dx, dy).insert((x, y))
        } else {
            bres_rec(x + sx, y, e2, xe, sx, sy, dx, dy).insert((x, y))
        }
    } else {
        Set::empty().insert((x, y))
    }
}

/// The first endpoint comes no later than the second in the
/// left-to-right, then top-to-bottom order of the canvas.
pub open spec fn endpoints_ordered(x0: int, y0: int, x1: int, y1: int) -> bool {
    x0 < x1 || (x0 == x1 && y0 <= y1)
}

/// The pixels covered by a walk from the first endpoint to the
/// second, as the accumulator dictates.
pub open spec fn line_pixels_dir(x0: int, y0: int, x1: int, y1: int) -> Set<(int, int)> {
    if x0 == x1 && y0 == y1 {
        Set::empty().insert((x0, y0))
    } else if x0 == x1 {
        Set::new(
            |p: (int, int)|
                p.0 == x0 && (if y0 < y1 {
                    y0 <= p.1 <= y1
                } else {
                    y1 <= p.1 <= y0
                }),
        )
    } else if y0 == y1 {
        Set::new(
            |p: (int, int)|
                p.1 == y0 && (if x0 < x1 {
                    x0 <= p.0 <= x1
                } else {
                    x1 <= p.0 <= x0
                }),
        )
    } else {
        let dx = if x1 > x0 {
            x1 - x0
        } else {
            x0 - x1
        };
        let dy = if y1 > y0 {
            y1 - y0
        } else {
            y0 - y1
        };
        let sx: int = if x1 > x0 {
            1
        } else {
            -1
        };
        let sy: int = if y1 > y0 {
            1
        } else {
            -1
        };
        if dy <= dx {
            bres_rec(x0, y0, -dx, x1, sx, sy, dx, dy)
        } else {
            Set::new(|p: (int, int)| bres_rec(y0, x0, -dy, y1, sy, sx, dy, dx).contains((p.1, p.0)))
        }
    }
}

/// The set of pixels a line between two points covers. The endpoints
/// are brought into canvas order first, so the set depends only on
/// the unordered pair of endpoints: drawing a line in either
/// direction paints the same pixels.
pub open spec fn line_pixels(x0: int, y0: int, x1: int, y1: int) -> Set<(int, int)> {
    if endpoints_ordered(x0, y0, x1, y1) {
        line_pixels_dir(x0, y0, x1, y1)
    } else {
        line_pixels_dir(x1, y1, x0, y0)
    }
}

/// Pixel `(x, y)` of `c` holds the quantized channels of `col`.
pub open spec fn painted(c: ColorAttachment, x: int, y: int, col: Vec4) -> bool {
    &&& c.data@[pixel_index(c.width as int, x, y)] == quant_val(col.x.bits as int)
    &&& c.data@[pixel_index(c.width as int, x, y) + 1] == quant_val(col.y.bits as int)
    &&& c.data@[pixel_index(c.width as int, x, y) + 2] == quant_val(col.z.bits as int)
}

/// Pixel `(x, y)` holds the same three bytes in `a` as in `b`.
pub open spec fn same_pixel(a: ColorAttachment, b: ColorAttachment, x: int, y: int) -> bool {
    &&& a.data@[pixel_index(a.width as int, x, y)] == b.data@[pixel_index(b.width as int, x, y)]
    &&& a.data@[pixel_index(a.width as int, x, y) + 1] == b.data@[pixel_index(
        b.width as int,
        x,
        y,
    ) + 1]
    &&& a.data@[pixel_index(a.width as int, x, y) + 2] == b.data@[pixel_index(
        b.width as int,
        x,
        y,
    ) + 2]
}

/// Paint one pixel and leave every other pixel untouched.
fn paint(c: &mut ColorAttachment, x: i64, y: i64, color: &Vec4)
    requires
        old(c).wf(),
        0 <= x < old(c).width,
        0 <= y < old(c).height,
    ensures
        final(c).wf(),
        final(c).width == old(c).width,
        final(c).height == old(c).height,
        painted(*final(c), x as int, y as int, *color),
        forall|xx: int, yy: int|
            0 <= xx < old(c).width && 0 <= yy < old(c).height && (xx, yy) != (x as int, y as int)
                ==> same_pixel(*final(c), *old(c), xx, yy),
    {
        c.set(x as u32, y as u32, color);
        proof {
            crate::image::lemma_pixel_index_bound(
                c.width as int,
                c.height as int,
                x as int,
                y as int,
            );
            assert forall|xx: int, yy: int|
                0 <= xx < old(c).width && 0 <= yy < old(c).height && (xx, yy) != (
                x as int,
                y as int,
            ) implies same_pixel(*c, *old(c), xx, yy) by {
                crate::image::lemma_pixel_index_distinct(
                    c.width as int,
                    c.height as int,
                    x as int,
                    y as int,
                    xx,
                    yy,
                );
                crate::image::lemma_pixel_index_bound(
                    c.width as int,
                    c.height as int,
                    xx,
                    yy,
                );
            }
        }
    }

/// Bresenham line between `(x0, y0)` and `(x1, y1)`: paints exactly
/// `line_pixels(x0, y0, x1, y1)` with `color`. Both endpoints must
/// lie inside the buffer; the primitive does not clip.
pub fn draw_line(x0: i32, y0: i32, x1: i32, y1: i32, color: &Vec4, color_pool: &mut ColorAttachment)
    requires
        old(color_pool).wf(),
        0 <= x0 < old(color_pool).width,
        0 <= x1 < old(color_pool).width,
        0 <= y0 < old(color_pool).height,
        0 <= y1 < old(color_pool).height,
    ensures
        final(color_pool).wf(),
        final(color_pool).width == old(color_pool).width,
        final(color_pool).height == old(color_pool).height,
        forall|xx: int, yy: int|
            0 <= xx < old(color_pool).width && 0 <= yy < old(color_pool).height && line_pixels(
                x0 as int,
                y0 as int,
                x1 as int,
                y1 as int,
            ).contains((xx, yy)) ==> painted(*final(color_pool), xx, yy, *color),
        forall|xx: int, yy: int|
            0 <= xx < old(color_pool).width && 0 <= yy < old(color_pool).height && !line_pixels(
                x0 as int,
                y0 as int,
                x1 as int,
                y1 as int,
            ).contains((xx, yy)) ==> same_pixel(*final(color_pool), *old(color_pool), xx, yy),
{
    let ghost target = line_pixels(x0 as int, y0 as int, x1 as int, y1 as int);
    let x0: i64 = x0 as i64;
    let y0: i64 = y0 as i64;
    let x1: i64 = x1 as i64;
    let y1: i64 = y1 as i64;
    let sw: bool = x1 < x0 || (x1 == x0 && y1 < y0);
    let xa: i64 = if sw {
        x1
    } else {
        x0
    };
    let ya: i64 = if sw {
        y1
    } else {
        y0
    };
    let xb: i64 = if sw {
        x0
    } else {
        x1
    };
    let yb: i64 = if sw {
        y0
    } else {
        y1
    };
    let x0: i64 = xa;
    let y0: i64 = ya;
    let x1: i64 = xb;
    let y1: i64 = yb;
    proof {
        assert(target =~= line_pixels_dir(x0 as int, y0 as int, x1 as int, y1 as int));
    }
    if x0 == x1 && y0 == y1 {
        paint(color_pool, x0, y0, color);
        return ;
    }
    if x0 == x1 {
        let ylo: i64 = if y0 < y1 {
            y0
        } else {
            y1
        };
        let yhi: i64 = if y0 < y1 {
            y1
        } else {
            y0
        };
        proof {
            assert(forall|p: (int, int)|
                target.contains(p) <==> (p.0 == x0 && ylo <= p.1 <= yhi));
        }
        let mut y: i64 = ylo;
        while y <= yhi
            invariant
                color_pool.wf(),
                color_pool.width == old(color_pool).width,
                color_pool.height == old(color_pool).height,
                ylo <= y <= yhi + 1,
                0 <= x0 < color_pool.width,
                0 <= ylo,
                yhi < color_pool.height,
                forall|p: (int, int)| target.contains(p) <==> (p.0 == x0 && ylo <= p.1 <= yhi),
                forall|xx: int, yy: int|
                    0 <= xx < old(color_pool).width && 0 <= yy < old(color_pool).height && xx == x0
                        && ylo <= yy < y ==> painted(*color_pool, xx, yy, *color),
                forall|xx: int, yy: int|
                    0 <= xx < old(color_pool).width && 0 <= yy < old(color_pool).height && !(xx
                        == x0 && ylo <= yy < y) ==> same_pixel(*color_pool, *old(color_pool), xx, yy),
            decreases yhi + 1 - y,
        {
            let ghost before = *color_pool;
            paint(color_pool, x0, y, color);
            proof {
                assert forall|xx: int, yy: int|
                    0 <= xx < old(color_pool).width && 0 <= yy < old(color_pool).height && xx == x0
                        && ylo <= yy < y + 1 implies painted(*color_pool, xx, yy, *color) by {
                    if yy != y {
                        assert(painted(before, xx, yy, *color));
                        assert(same_pixel(*color_pool, before, xx, yy));
                    }
                }
                assert forall|xx: int, yy: int|
                    0 <= xx < old(color_pool).width && 0 <= yy < old(color_pool).height && !(xx
                        == x0 && ylo <= yy < y + 1) implies same_pixel(
                    *color_pool,
                    *old(color_pool),
                    xx,
                    yy,
                ) by {
                    assert(same_pixel(*color_pool, before, xx, yy));
                    assert(same_pixel(before, *old(color_pool), xx, yy));
                }
            }
            y = y + 1;
        }
        return ;
    }
    if y0 == y1 {
        let xlo: i64 = if x0 < x1 {
            x0
        } else {
            x1
        };
        let xhi: i64 = if x0 < x1 {
            x1
        } else {
            x0
        };
        proof {
            assert(forall|p: (int, int)|
                target.contains(p) <==> (p.1 == y0 && xlo <= p.0 <= xhi));
        }
        let mut x: i64 = xlo;
        while x <= xhi
            invariant
                color_pool.wf(),
                color_pool.width == old(color_pool).width,
                color_pool.height == old(color_pool).height,
                xlo <= x <= xhi + 1,
                0 <= y0 < color_pool.height,
                0 <= xlo,
                xhi < color_pool.width,
                forall|p: (int, int)| target.contains(p) <==> (p.1 == y0 && xlo <= p.0 <= xhi),
                forall|xx: int, yy: int|
                    0 <= xx < old(color_pool).width && 0 <= yy < old(color_pool).height && yy == y0
                        && xlo <= xx < x ==> painted(*color_pool, xx, yy, *color),
                forall|xx: int, yy: int|
                    0 <= xx < old(color_pool).width && 0 <= yy < old(color_pool).height && !(yy
                        == y0 && xlo <= xx < x) ==> same_pixel(*color_pool, *old(color_pool), xx, yy),
            decreases xhi + 1 - x,
        {
            let ghost before = *color_pool;
            paint(color_pool, x, y0, color);
            proof {
                assert forall|xx: int, yy: int|
                    0 <= xx < old(color_pool).width && 0 <= yy < old(color_pool).height && yy == y0
                        && xlo <= xx < x + 1 implies painted(*color_pool, xx, yy, *color) by {
                    if xx != x {
                        assert(painted(before, xx, yy, *color));
                        assert(same_pixel(*color_pool, before, xx, yy));
                    }
                }
                assert forall|xx: int, yy: int|
                    0 <= xx < old(color_pool).width && 0 <= yy < old(color_pool).height && !(yy
                        == y0 && xlo <= xx < x + 1) implies same_pixel(
                    *color_pool,
                    *old(color_pool),
                    xx,
                    yy,
                ) by {
                    assert(same_pixel(*color_pool, before, xx, yy));
                    assert(same_pixel(before, *old(color_pool), xx, yy));
                }
            }
            x = x + 1;
        }
        return ;
    }
    let dx0: i64 = if x1 > x0 {
        x1 - x0
    } else {
        x0 - x1
    };
    let dy0: i64 = if y1 > y0 {
        y1 - y0
    } else {
        y0 - y1
    };
    let sx0: i64 = if x1 > x0 {
        1
    } else {
        -1
    };
    let sy0: i64 = if y1 > y0 {
        1
    } else {
        -1
    };
    let swapped: bool = dx0 < dy0;
    if !swapped {
        bres_walk(color_pool, x0, y0, x1, sx0, sy0, dx0, dy0, color, Ghost(target), false);
    } else {
        proof {
            assert(target =~= Set::new(
                |p: (int, int)|
                    bres_rec(
                        y0 as int,
                        x0 as int,
                        -(dy0 as int),
                        y1 as int,
                        sy0 as int,
                        sx0 as int,
                        dy0 as int,
                        dx0 as int,
                    ).contains((p.1, p.0)),
            ));
        }
        bres_walk(color_pool, y0, x0, y1, sy0, sx0, dy0, dx0, color, Ghost(target), true);
    }
}

/// Walk the major axis of a general line, painting as the error
/// accumulator dictates. When `swapped` is set the walked coordinates
/// are `(y, x)` of the painted pixels, and `target` is the pixel set
/// being painted, in painting orientation.
#[verifier::rlimit(100)]
fn bres_walk(
    c: &mut ColorAttachment,
    x0: i64,
    y0: i64,
    xe: i64,
    sx: i64,
    sy: i64,
    dx: i64,
    dy: i64,
    color: &Vec4,
    target: Ghost<Set<(int, int)>>,
    swapped: bool,
)
    requires
        old(c).wf(),
        1 <= dx <= 0x8000,
        1 <= dy <= dx,
        sx == 1 || sx == -1,
        sy == 1 || sy == -1,
        xe == x0 + sx * dx,
        (if swapped {
            target@ =~= Set::new(
                |p: (int, int)|
                    bres_rec(
                        x0 as int,
                        y0 as int,
                        -(dx as int),
                        xe as int,
                        sx as int,
                        sy as int,
                        dx as int,
                        dy as int,
                    ).contains((p.1, p.0)),
            )
        } else {
            target@ =~= bres_rec(
                x0 as int,
                y0 as int,
                -(dx as int),
                xe as int,
                sx as int,
                sy as int,
                dx as int,
                dy as int,
            )
        }),
        (if swapped {
            0 <= y0 < old(c).width && 0 <= y0 + sy * dy < old(c).width && 0 <= x0 < old(c).height
                && 0 <= xe < old(c).height
        } else {
            0 <= x0 < old(c).width && 0 <= xe < old(c).width && 0 <= y0 < old(c).height && 0 <= y0
                + sy * dy < old(c).height
        }),
    ensures
        final(c).wf(),
        final(c).width == old(c).width,
        final(c).height == old(c).height,
        forall|xx: int, yy: int|
            0 <= xx < old(c).width && 0 <= yy < old(c).height && target@.contains((xx, yy))
                ==> painted(*final(c), xx, yy, *color),
        forall|xx: int, yy: int|
            0 <= xx < old(c).width && 0 <= yy < old(c).height && !target@.contains((xx, yy))
                ==> same_pixel(*final(c), *old(c), xx, yy),
{
    let mut x: i64 = x0;
    let mut y: i64 = y0;
    let mut e: i64 = -dx;
    loop
        invariant
            c.wf(),
            c.width == old(c).width,
            c.height == old(c).height,
            1 <= dx <= 0x8000,
            1 <= dy <= dx,
            sx == 1 || sx == -1,
            sy == 1 || sy == -1,
            xe == x0 + sx * dx,
            e == 2 * dy * ((x - x0) * sx) - 2 * dx * ((y - y0) * sy) - dx,
            -2 * dx <= e,
            e < 0 || e <= 2 * (dy - dx),
            0 <= (x - x0) * sx <= dx,
            0 <= (y - y0) * sy <= dy,
            (if swapped {
                0 <= y < old(c).width && 0 <= y0 + sy * dy < old(c).width && 0 <= x < old(c).height
                    && 0 <= xe < old(c).height && 0 <= x0 < old(c).height && 0 <= y0 < old(c).width
            } else {
                0 <= x < old(c).width && 0 <= xe < old(c).width && 0 <= y < old(c).height && 0 <= y0
                    + sy * dy < old(c).height && 0 <= x0 < old(c).width && 0 <= y0 < old(c).height
            }),
            bres_rec(
                x as int,
                y as int,
                e as int,
                xe as int,
                sx as int,
                sy as int,
                dx as int,
                dy as int,
            ) <= (if swapped {
                Set::new(|p: (int, int)| target@.contains((p.1, p.0)))
            } else {
                target@
            }),
            forall|xx: int, yy: int|
                0 <= xx < old(c).width && 0 <= yy < old(c).height && target@.contains((xx, yy)) && !(
                if swapped {
                    bres_rec(
                        x as int,
                        y as int,
                        e as int,
                        xe as int,
                        sx as int,
                        sy as int,
                        dx as int,
                        dy as int,
                    ).contains((yy, xx))
                } else {
                    bres_rec(
                        x as int,
                        y as int,
                        e as int,
                        xe as int,
                        sx as int,
                        sy as int,
                        dx as int,
                        dy as int,
                    ).contains((xx, yy))
                }) ==> painted(*c, xx, yy, *color),
            forall|xx: int, yy: int|
                0 <= xx < old(c).width && 0 <= yy < old(c).height && !target@.contains((xx, yy))
                    ==> same_pixel(*c, *old(c), xx, yy),
        decreases (if sx == 1 {
            xe - x
        } else {
            x - xe
        }),
    {
        let ghost rem = bres_rec(
            x as int,
            y as int,
            e as int,
            xe as int,
            sx as int,
            sy as int,
            dx as int,
            dy as int,
        );
        let px: i64 = if swapped {
            y
        } else {
            x
        };
        let py: i64 = if swapped {
            x
        } else {
            y
        };
        let ghost before = *c;
        paint(c, px, py, color);
        proof {
            assert(rem.contains((x as int, y as int)));
            assert(target@.contains((px as int, py as int)));
        }
        if x == xe {
            proof {
                assert(rem =~= Set::empty().insert((x as int, y as int)));
                assert forall|xx: int, yy: int|
                    0 <= xx < old(c).width && 0 <= yy < old(c).height && target@.contains(
                    (xx, yy),
                ) implies painted(*c, xx, yy, *color) by {
                    if (xx, yy) != (px as int, py as int) {
                        let q = if swapped {
                            (yy, xx)
                        } else {
                            (xx, yy)
                        };
                        assert(!rem.contains(q));
                        assert(painted(before, xx, yy, *color));
                        assert(same_pixel(*c, before, xx, yy));
                    }
                }
                assert forall|xx: int, yy: int|
                    0 <= xx < old(c).width && 0 <= yy < old(c).height && !target@.contains(
                    (xx, yy),
                ) implies same_pixel(*c, *old(c), xx, yy) by {
                    assert((xx, yy) != (px as int, py as int));
                    assert(same_pixel(*c, before, xx, yy));
                    assert(same_pixel(before, *old(c), xx, yy));
                }
            }
            return ;
        }
        proof {
            assert((if sx == 1 {
                x < xe
            } else {
                x > xe
            })) by (nonlinear_arith)
                requires
                    xe == x0 + sx * dx,
                    sx == 1 || sx == -1,
                    0 <= (x - x0) * sx <= dx,
                    x != xe,
                    dx >= 1,
            ;
            assert((x - x0) * sx < dx) by (nonlinear_arith)
                requires
                    xe == x0 + sx * dx,
                    sx == 1 || sx == -1,
                    0 <= (x - x0) * sx <= dx,
                    x != xe,
            ;
        }
        let e2: i64 = e + 2 * dy;
        let ghost old_x = x;
        let ghost old_y = y;
        let ghost old_e = e;
        x = x + sx;
        if e2 >= 0 {
            y = y + sy;
            e = e2 - 2 * dx;
        } else {
            e = e2;
        }
        proof {
            lemma_bres_step(
                old_x as int,
                old_y as int,
                x0 as int,
                y0 as int,
                xe as int,
                sx as int,
                sy as int,
                dx as int,
                dy as int,
                e2 as int,
                x as int,
                y as int,
                e as int,
            );
            let rem2 = bres_rec(
                x as int,
                y as int,
                e as int,
                xe as int,
                sx as int,
                sy as int,
                dx as int,
                dy as int,
            );
            assert(rem =~= rem2.insert((old_x as int, old_y as int)));
            assert(rem2 <= rem);
            let lim: int = if swapped {
                old(c).width as int
            } else {
                old(c).height as int
            };
            assert(0 <= y < lim) by (nonlinear_arith)
                requires
                    y == y0 + sy * ((y - y0) * sy),
                    0 <= (y - y0) * sy <= dy,
                    sy == 1 || sy == -1,
                    0 <= y0 < lim,
                    0 <= y0 + sy * dy < lim,
            ;
            assert forall|xx: int, yy: int|
                0 <= xx < old(c).width && 0 <= yy < old(c).height && target@.contains((xx, yy)) && !(
                if swapped {
                    rem2.contains((yy, xx))
                } else {
                    rem2.contains((xx, yy))
                }) implies painted(*c, xx, yy, *color) by {
                let q = if swapped {
                    (yy, xx)
                } else {
                    (xx, yy)
                };
                if q == (old_x as int, old_y as int) {
                    assert((xx, yy) == (px as int, py as int));
                } else if !rem.contains(q) {
                    if (xx, yy) != (px as int, py as int) {
                        assert(painted(before, xx, yy, *color));
                        assert(same_pixel(*c, before, xx, yy));
                    }
                } else {
                    assert(rem.contains(q) && q != (old_x as int, old_y as int));
                    assert(rem2.contains(q));
                }
            }
            assert forall|xx: int, yy: int|
                0 <= xx < old(c).width && 0 <= yy < old(c).height && !target@.contains(
                (xx, yy),
            ) implies same_pixel(*c, *old(c), xx, yy) by {
                assert((xx, yy) != (px as int, py as int));
                assert(same_pixel(*c, before, xx, yy));
                assert(same_pixel(before, *old(c), xx, yy));
            }
        }
    }
}

/// One step of the error accumulator keeps the walk invariants.
proof fn lemma_bres_step(
    x: int,
    y: int,
    x0: int,
    y0: int,
    xe: int,
    sx: int,
    sy: int,
    dx: int,
    dy: int,
    e2: int,
    nx: int,
    ny: int,
    ne: int,
)
    requires
        1 <= dy <= dx,
        sx == 1 || sx == -1,
        sy == 1 || sy == -1,
        xe == x0 + sx * dx,
        e2 == 2 * dy * ((x - x0) * sx) - 2 * dx * ((y - y0) * sy) - dx + 2 * dy,
        -2 * dx + 2 * dy <= e2,
        e2 < 2 * dy || e2 <= 2 * (dy - dx) + 2 * dy,
        0 <= (x - x0) * sx < dx,
        0 <= (y - y0) * sy <= dy,
        nx == x + sx,
        (if e2 >= 0 {
            ny == y + sy && ne == e2 - 2 * dx
        } else {
            ny == y && ne == e2
        }),
    ensures
        ne == 2 * dy * ((nx - x0) * sx) - 2 * dx * ((ny - y0) * sy) - dx,
        -2 * dx <= ne,
        ne < 0 || ne <= 2 * (dy - dx),
        0 <= (nx - x0) * sx <= dx,
        0 <= (ny - y0) * sy <= dy,
{
    let a = (x - x0) * sx;
    let b = (y - y0) * sy;
    assert((nx - x0) * sx == a + 1) by (nonlinear_arith)
        requires
            nx == x + sx,
            a == (x - x0) * sx,
            sx == 1 || sx == -1,
    ;
    if e2 >= 0 {
        assert((ny - y0) * sy == b + 1) by (nonlinear_arith)
            requires
                ny == y + sy,
                b == (y - y0) * sy,
                sy == 1 || sy == -1,
        ;
        assert(ne == 2 * dy * (a + 1) - 2 * dx * (b + 1) - dx) by (nonlinear_arith)
            requires
                ne == e2 - 2 * dx,
                e2 == 2 * dy * a - 2 * dx * b - dx + 2 * dy,
        ;
        assert(b + 1 <= dy) by (nonlinear_arith)
            requires
                ne == 2 * dy * (a + 1) - 2 * dx * (b + 1) - dx,
                ne >= -2 * dx,
                a + 1 <= dx,
                1 <= dy <= dx,
                b >= 0,
        ;
    } else {
        assert(ne == 2 * dy * (a + 1) - 2 * dx * b - dx) by (nonlinear_arith)
            requires
                ne == e2,
                e2 == 2 * dy * a - 2 * dx * b - dx + 2 * dy,
        ;
    }
}

/// A point-to-itself line covers exactly its own pixel.
pub proof fn lemma_line_single_pixel(x: int, y: int)
    ensures
        line_pixels(x, y, x, y) =~= Set::empty().insert((x, y)),
{
}

/// The covered set does not depend on the direction of travel: the
/// walk always starts from the endpoint that comes first in canvas
/// order, so both directions name the same set.
pub proof fn lemma_line_symmetric(x0: int, y0: int, x1: int, y1: int)
    ensures
        line_pixels(x0, y0, x1, y1) =~= line_pixels(x1, y1, x0, y0),
{
}

} // verus!
