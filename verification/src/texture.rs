//! Textures and the indexed texture store.
//!
//! A texture is a dense RGBA image of fixed-point channels; sampling
//! is nearest-neighbor over clamped normalized coordinates (done by
//! `texture_sample` in the renderer module). The store hands out
//! stable integer handles and is add-only.
use crate::vec::Vec4;
use vstd::prelude::*;

verus! {

/// A dense RGBA image.
pub struct Texture {
    pub width: u32,
    pub height: u32,
    pub data: Vec<Vec4>,
}

impl Texture {
    /// Shape invariant: one texel per coordinate pair, nonempty, with
    /// the dimensions within the machine limit of index arithmetic.
    pub open spec fn wf(&self) -> bool {
        self.data@.len() == (self.width as int) * (self.height as int) && 1 <= self.width <= 16384
            && 1 <= self.height <= 16384
    }

    /// A texture filled with the given color.
    pub fn new_filled(width: u32, height: u32, fill: Vec4) -> (r: Texture)
        requires
            1 <= width <= 16384,
            1 <= height <= 16384,
        ensures
            r.wf(),
            r.width == width,
            r.height == height,
            forall|i: int| 0 <= i < r.data@.len() ==> r.data@[i] == fill,
    {
        proof {
            assert(0 <= (width as int) * (height as int) <= 0x1000_0000) by (nonlinear_arith)
                requires
                    width <= 16384,
                    height <= 16384,
            ;
        }
        let count: usize = (width as usize) * (height as usize);
        let data: Vec<Vec4> = vec![fill; count];
        Texture { width, height, data }
    }

    /// A texture over an explicit texel row-major image.
    pub fn from_texels(width: u32, height: u32, data: Vec<Vec4>) -> (r: Option<Texture>)
        ensures
            r is Some <==> (1 <= width <= 16384 && 1 <= height <= 16384 && data@.len() == (
            width as int) * (height as int)),
            r is Some ==> r->0.wf() && r->0.width == width && r->0.height == height && r->0.data@
                == data@,
    {
        if width < 1 || width > 16384 || height < 1 || height > 16384 {
            return None;
        }
        proof {
            assert(0 <= (width as int) * (height as int) <= 0x1000_0000) by (nonlinear_arith)
                requires
                    width <= 16384,
                    height <= 16384,
            ;
        }
        let count: usize = (width as usize) * (height as usize);
        if data.len() != count {
            return None;
        }
        Some(Texture { width, height, data })
    }

    pub fn width(&self) -> (r: u32)
        ensures
            r == self.width,
    {
        self.width
    }

    pub fn height(&self) -> (r: u32)
        ensures
            r == self.height,
    {
        self.height
    }

    /// The texel at `(x, y)`, row-major.
    pub fn get_pixel(&self, x: u32, y: u32) -> (r: Vec4)
        requires
            self.wf(),
            x < self.width,
            y < self.height,
        ensures
            r == self.data@[(y as int) * (self.width as int) + (x as int)],
    {
        proof {
            crate::image::lemma_depth_index_bound(
                self.width as int,
                self.height as int,
                x as int,
                y as int,
            );
            assert((y as int) * (self.width as int) + (x as int) < 0x1000_0000) by (nonlinear_arith)
                requires
                    x < self.width <= 16384,
                    y < self.height <= 16384,
            ;
        }
        self.data[(y as usize) * (self.width as usize) + (x as usize)]
    }
}

/// An add-only, densely indexed collection of textures with stable
/// integer handles.
pub struct TextureStore {
    pub textures: Vec<Texture>,
}

impl TextureStore {
    /// Shape invariant: every stored texture is well formed.
    pub open spec fn wf(&self) -> bool {
        forall|i: int| 0 <= i < self.textures@.len() ==> (#[trigger] self.textures@[i]).wf()
    }

    /// An empty store.
    pub fn new() -> (r: TextureStore)
        ensures
            r.wf(),
            r.textures@.len() == 0,
    {
        TextureStore { textures: Vec::new() }
    }

    /// Add a texture; its handle is the index it will keep.
    pub fn add(&mut self, texture: Texture) -> (r: u32)
        requires
            old(self).wf(),
            texture.wf(),
            old(self).textures@.len() < 0xffff_ffff,
        ensures
            final(self).wf(),
            r == old(self).textures@.len(),
            final(self).textures@ == old(self).textures@.push(texture),
    {
        let r = self.textures.len() as u32;
        self.textures.push(texture);
        r
    }

    /// Look a texture up by handle: `Some` exactly for handles that
    /// were handed out.
    pub fn get_texture_by_id(&self, id: u32) -> (r: Option<&Texture>)
        ensures
            r is Some <==> (id as int) < self.textures@.len(),
            r is Some ==> *r->0 == self.textures@[id as int],
    {
        if (id as usize) < self.textures.len() {
            Some(&self.textures[id as usize])
        } else {
            None
        }
    }
}

} // verus!
