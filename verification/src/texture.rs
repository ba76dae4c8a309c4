//! Decoded textures: RGBA8 rows, row-major, immutable once stored.

use vstd::prelude::*;

verus! {

#[derive(Clone, Copy, PartialEq, Eq, Structural, Debug)]
pub enum TextureFormat {
    RGB,
    RGBA,
    ARGB,
}

pub struct Texture {
    pub data: Vec<u8>,
    pub format: TextureFormat,
    pub width: u32,
    pub height: u32,
}

impl Texture {
    /// A texture holds one RGBA byte quadruple per texel.
    pub open spec fn wf(&self) -> bool {
        &&& self.data@.len() == 4 * self.width * self.height
        &&& 1 <= self.width <= 0x8000
        &&& 1 <= self.height <= 0x8000
    }

    pub fn new(data: Vec<u8>, format: TextureFormat, width: u32, height: u32) -> (r: Texture)
        requires
            data@.len() == 4 * width * height,
            1 <= width <= 0x8000,
            1 <= height <= 0x8000,
        ensures
            r.wf(),
            r == (Texture { data, format, width, height }),
    {
        Texture { data, width, height, format }
    }

    pub fn get_data(&self) -> (r: &Vec<u8>)
        ensures
            r@ == self.data@,
    {
        &self.data
    }
}

} // verus!
