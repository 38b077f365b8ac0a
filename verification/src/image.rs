//! The two framebuffer attachments: color (RGB, one byte per
//! channel, row-major, top row first) and depth (one fixed-point
//! value per pixel).
//!
//! A color channel is quantized from the fixed-point interval
//! `[0, 1]`: the value is clamped and scaled to `0..=255`. Both
//! attachments state their contents byte for byte.
use crate::fx::{clamp_val, tdiv, Fx, FX_ONE};
use crate::vec::Vec4;
use vstd::prelude::*;

verus! {

/// The byte a color channel quantizes to: clamp into `[0, 1]`, then
/// scale to `0..=255`.
pub open spec fn quant_val(c: int) -> int {
    tdiv(clamp_val(c, 0, FX_ONE as int) * 255, FX_ONE as int)
}

/// The flat byte index of the red channel of pixel `(x, y)`.
pub open spec fn pixel_index(width: int, x: int, y: int) -> int {
    3 * (y * width + x)
}

/// Quantize one fixed-point channel to a byte.
pub fn quantize_channel(c: Fx) -> (r: u8)
    ensures
        r == quant_val(c.bits as int),
        0 <= quant_val(c.bits as int) <= 255,
{
    let clamped: i64 = if c.bits < 0 {
        0
    } else if c.bits > FX_ONE {
        FX_ONE
    } else {
        c.bits
    };
    ((clamped * 255) / FX_ONE) as u8
}

/// The color attachment: `3 * width * height` RGB bytes.
pub struct ColorAttachment {
    pub width: u32,
    pub height: u32,
    pub data: Vec<u8>,
}

impl ColorAttachment {
    /// Shape invariant: exactly three bytes for every pixel, with the
    /// dimensions within the machine limit of the index arithmetic.
    pub open spec fn wf(&self) -> bool {
        self.data@.len() == 3 * (self.width as int) * (self.height as int) && self.width <= 16384
            && self.height <= 16384
    }

    /// A black buffer of the given dimensions.
    pub fn new(width: u32, height: u32) -> (r: ColorAttachment)
        requires
            width <= 16384,
            height <= 16384,
        ensures
            r.wf(),
            r.width == width,
            r.height == height,
            forall|i: int| 0 <= i < r.data@.len() ==> r.data@[i] == 0,
    {
        proof {
            assert(0 <= 3 * (width as int) * (height as int) <= 0x3000_0000) by (nonlinear_arith)
                requires
                    width <= 16384,
                    height <= 16384,
            ;
        }
        let count: usize = 3 * (width as usize) * (height as usize);
        let data: Vec<u8> = vec![0u8; count];
        ColorAttachment { width, height, data }
    }

    pub fn width(&self) -> (r: u32)
        ensures
            r == self.width,
    {
        self.width
    }

    pub fn height(&self) -> (r: u32)
        ensures
            r == self.height,
    {
        self.height
    }

    /// Write one pixel: the three bytes at its index become the
    /// quantized channels of `color`; everything else is untouched.
    pub fn set(&mut self, x: u32, y: u32, color: &Vec4)
        requires
            old(self).wf(),
            x < old(self).width,
            y < old(self).height,
        ensures
            final(self).wf(),
            final(self).width == old(self).width,
            final(self).height == old(self).height,
            final(self).data@ =~= old(self).data@.update(
                pixel_index(old(self).width as int, x as int, y as int),
                quant_val(color.x.bits as int) as u8,
            ).update(
                pixel_index(old(self).width as int, x as int, y as int) + 1,
                quant_val(color.y.bits as int) as u8,
            ).update(
                pixel_index(old(self).width as int, x as int, y as int) + 2,
                quant_val(color.z.bits as int) as u8,
            ),
    {
        proof {
            lemma_pixel_index_bound(self.width as int, self.height as int, x as int, y as int);
            assert((y as int) * (self.width as int) + (x as int) < 0x1000_0000) by (nonlinear_arith)
                requires
                    x < self.width <= 16384,
                    y < self.height <= 16384,
            ;
        }
        let idx: usize = 3 * ((y as usize) * (self.width as usize) + (x as usize));
        let r = quantize_channel(color.x);
        let g = quantize_channel(color.y);
        let b = quantize_channel(color.z);
        self.data.set(idx, r);
        self.data.set(idx + 1, g);
        self.data.set(idx + 2, b);
    }

    /// Fill every pixel with the quantized channels of `color`: after
    /// the call each byte holds the channel its position selects.
    pub fn clear(&mut self, color: &Vec4)
        requires
            old(self).wf(),
        ensures
            final(self).wf(),
            final(self).width == old(self).width,
            final(self).height == old(self).height,
            final(self).data@.len() == old(self).data@.len(),
            forall|i: int|
                0 <= i < final(self).data@.len() ==> final(self).data@[i] == (if i % 3 == 0 {
                    quant_val(color.x.bits as int)
                } else if i % 3 == 1 {
                    quant_val(color.y.bits as int)
                } else {
                    quant_val(color.z.bits as int)
                }),
    {
        let r = quantize_channel(color.x);
        let g = quantize_channel(color.y);
        let b = quantize_channel(color.z);
        let n: usize = self.data.len();
        let mut i: usize = 0;
        while i < n
            invariant
                i <= n,
                n == self.data@.len(),
                self.data@.len() == old(self).data@.len(),
                self.width == old(self).width,
                self.height == old(self).height,
                old(self).wf(),
                self.wf(),
                r == quant_val(color.x.bits as int),
                g == quant_val(color.y.bits as int),
                b == quant_val(color.z.bits as int),
                forall|j: int|
                    0 <= j < i ==> self.data@[j] == (if j % 3 == 0 {
                        quant_val(color.x.bits as int)
                    } else if j % 3 == 1 {
                        quant_val(color.y.bits as int)
                    } else {
                        quant_val(color.z.bits as int)
                    }),
            decreases n - i,
        {
            let v: u8 = if i % 3 == 0 {
                r
            } else if i % 3 == 1 {
                g
            } else {
                b
            };
            self.data.set(i, v);
            i = i + 1;
        }
    }

    /// The raw bytes, for the host to blit.
    pub fn bytes(&self) -> (r: &[u8])
        ensures
            r@ == self.data@,
    {
        self.data.as_slice()
    }
}

/// Two distinct in-bounds pixels own disjoint byte triples.
pub proof fn lemma_pixel_index_distinct(width: int, height: int, x: int, y: int, xx: int, yy: int)
    requires
        0 <= x < width,
        0 <= y < height,
        0 <= xx < width,
        0 <= yy < height,
        (x, y) != (xx, yy),
    ensures
        pixel_index(width, xx, yy) + 2 < pixel_index(width, x, y) || pixel_index(width, x, y) + 2
            < pixel_index(width, xx, yy),
{
    assert(3 * (yy * width + xx) + 2 < 3 * (y * width + x) || 3 * (y * width + x) + 2 < 3 * (yy
        * width + xx)) by (nonlinear_arith)
        requires
            0 <= x < width,
            0 <= y < height,
            0 <= xx < width,
            0 <= yy < height,
            x != xx || y != yy,
    ;
}

/// Two distinct in-bounds pixels own distinct depth cells.
pub proof fn lemma_depth_index_distinct(width: int, height: int, x: int, y: int, xx: int, yy: int)
    requires
        0 <= x < width,
        0 <= y < height,
        0 <= xx < width,
        0 <= yy < height,
        (x, y) != (xx, yy),
    ensures
        yy * width + xx != y * width + x,
{
    assert(yy * width + xx != y * width + x) by (nonlinear_arith)
        requires
            0 <= x < width,
            0 <= y < height,
            0 <= xx < width,
            0 <= yy < height,
            x != xx || y != yy,
    ;
}

/// The byte index of an in-bounds pixel lies within the buffer.
pub proof fn lemma_pixel_index_bound(width: int, height: int, x: int, y: int)
    requires
        0 <= x < width,
        0 <= y < height,
    ensures
        0 <= pixel_index(width, x, y),
        pixel_index(width, x, y) + 2 < 3 * width * height,
{
    assert(y * width + x >= 0) by (nonlinear_arith)
        requires
            x >= 0,
            y >= 0,
            width > 0,
    ;
    assert(3 * (y * width + x) + 2 < 3 * width * height) by (nonlinear_arith)
        requires
            0 <= x < width,
            0 <= y < height,
    ;
}

/// The depth attachment: one fixed-point depth per pixel.
pub struct DepthAttachment {
    pub width: u32,
    pub height: u32,
    pub data: Vec<Fx>,
}

impl DepthAttachment {
    /// Shape invariant: one value for every pixel, with the
    /// dimensions within the machine limit of the index arithmetic.
    pub open spec fn wf(&self) -> bool {
        self.data@.len() == (self.width as int) * (self.height as int) && self.width <= 16384
            && self.height <= 16384
    }

    /// The stored depth of pixel `(x, y)`.
    pub open spec fn at(&self, x: int, y: int) -> int {
        self.data@[y * (self.width as int) + x].bits as int
    }

    /// A buffer of the given dimensions, holding zero everywhere.
    pub fn new(width: u32, height: u32) -> (r: DepthAttachment)
        requires
            width <= 16384,
            height <= 16384,
        ensures
            r.wf(),
            r.width == width,
            r.height == height,
            forall|i: int| 0 <= i < r.data@.len() ==> (#[trigger] r.data@[i]).bits == 0,
    {
        proof {
            assert(0 <= (width as int) * (height as int) <= 0x1000_0000) by (nonlinear_arith)
                requires
                    width <= 16384,
                    height <= 16384,
            ;
        }
        let count: usize = (width as usize) * (height as usize);
        let data: Vec<Fx> = vec![Fx { bits: 0 }; count];
        DepthAttachment { width, height, data }
    }

    /// Fill every pixel with `value`.
    pub fn clear(&mut self, value: Fx)
        requires
            old(self).wf(),
        ensures
            final(self).wf(),
            final(self).width == old(self).width,
            final(self).height == old(self).height,
            forall|i: int|
                0 <= i < final(self).data@.len() ==> (#[trigger] final(self).data@[i]).bits
                    == value.bits,
    {
        let n: usize = self.data.len();
        let mut i: usize = 0;
        while i < n
            invariant
                i <= n,
                n == self.data@.len(),
                self.data@.len() == old(self).data@.len(),
                self.width == old(self).width,
                self.height == old(self).height,
                old(self).wf(),
                self.wf(),
                forall|j: int| 0 <= j < i ==> (#[trigger] self.data@[j]).bits == value.bits,
            decreases n - i,
        {
            self.data.set(i, value);
            i = i + 1;
        }
    }

    /// The stored depth at `(x, y)`.
    pub fn get(&self, x: u32, y: u32) -> (r: Fx)
        requires
            self.wf(),
            x < self.width,
            y < self.height,
        ensures
            r.bits == self.at(x as int, y as int),
    {
        proof {
            lemma_depth_index_bound(self.width as int, self.height as int, x as int, y as int);
            assert((y as int) * (self.width as int) + (x as int) < 0x1000_0000) by (nonlinear_arith)
                requires
                    x < self.width <= 16384,
                    y < self.height <= 16384,
            ;
        }
        self.data[(y as usize) * (self.width as usize) + (x as usize)]
    }

    /// Replace the depth at `(x, y)`; every other pixel is untouched.
    pub fn set(&mut self, x: u32, y: u32, value: Fx)
        requires
            old(self).wf(),
            x < old(self).width,
            y < old(self).height,
        ensures
            final(self).wf(),
            final(self).width == old(self).width,
            final(self).height == old(self).height,
            final(self).data@ =~= old(self).data@.update(
                (y as int) * (old(self).width as int) + (x as int),
                value,
            ),
    {
        proof {
            lemma_depth_index_bound(self.width as int, self.height as int, x as int, y as int);
            assert((y as int) * (self.width as int) + (x as int) < 0x1000_0000) by (nonlinear_arith)
                requires
                    x < self.width <= 16384,
                    y < self.height <= 16384,
            ;
        }
        let idx: usize = (y as usize) * (self.width as usize) + (x as usize);
        self.data.set(idx, value);
    }
}

/// The flat index of an in-bounds pixel lies within the depth buffer.
pub proof fn lemma_depth_index_bound(width: int, height: int, x: int, y: int)
    requires
        0 <= x < width,
        0 <= y < height,
    ensures
        0 <= y * width + x < width * height,
{
    assert(y * width + x >= 0 && y * width + x < width * height) by (nonlinear_arith)
        requires
            0 <= x < width,
            0 <= y < height,
    ;
}

} // verus!
