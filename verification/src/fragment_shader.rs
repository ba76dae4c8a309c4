//! Fragment shaders: each maps an interpolated payload and the uniform
//! store to one RGBA8 color. The two built-in shapes are a color blend and
//! nearest-neighbour texture sampling.

use vstd::prelude::*;

verus! {

use crate::fx3::Fx3;
use crate::texture::Texture;
use crate::uniforms::Uniforms;

/// A color channel from a fixed-point value: the unit interval scaled to
/// a byte, values outside it clamped.
pub open spec fn channel_spec(c: int) -> u8 {
    if c <= 0 {
        0u8
    } else if c >= 65536 {
        255u8
    } else {
        ((c * 255) / 65536) as u8
    }
}

/// A fixed-point value clamped to the unit interval.
pub open spec fn clamp01_spec(c: int) -> int {
    if c <= 0 {
        0
    } else if c >= 65536 {
        65536
    } else {
        c
    }
}

/// The texel coordinate nearest to texture coordinate `u` on an axis of
/// `extent` texels: `round(u * (extent - 1))`, with `u` clamped to the
/// unit interval.
pub open spec fn texel_coord_spec(u: int, extent: int) -> int {
    (clamp01_spec(u) * (extent - 1) + 32768) / 65536
}

/// The color of the texel nearest to `(u, v)`.
pub open spec fn sample_spec(u: int, v: int, t: Texture) -> [u8; 4] {
    let i = 4 * (texel_coord_spec(u, t.width as int) + texel_coord_spec(v, t.height as int) * t.width);
    [t.data@[i], t.data@[i + 1], t.data@[i + 2], t.data@[i + 3]]
}

fn clamp01(c: i64) -> (r: i64)
    ensures
        r == clamp01_spec(c as int),
{
    if c <= 0 {
        0
    } else if c >= 65536 {
        65536
    } else {
        c
    }
}

/// Nearest-neighbour texture sampling.
pub fn sample_2d(u: i64, v: i64, texture: &Texture) -> (r: [u8; 4])
    requires
        texture.wf(),
    ensures
        r == sample_spec(u as int, v as int, *texture),
{
    let w = texture.width as u64;
    let h = texture.height as u64;
    let cu = clamp01(u) as u64;
    let cv = clamp01(v) as u64;
    proof {
        assert(cu * (w - 1) <= 65536 * 0x7fff && cv * (h - 1) <= 65536 * 0x7fff)
            by (nonlinear_arith)
            requires
                0 <= cu <= 65536,
                0 <= cv <= 65536,
                0 <= w - 1 <= 0x7fff,
                0 <= h - 1 <= 0x7fff,
        ;
    }
    let u_px = (cu * (w - 1) + 32768) / 65536;
    let v_px = (cv * (h - 1) + 32768) / 65536;
    proof {
        lemma_texel_coord_in_range(u as int, w as int);
        lemma_texel_coord_in_range(v as int, h as int);
        assert(u_px == texel_coord_spec(u as int, w as int));
        assert(v_px == texel_coord_spec(v as int, h as int));
        assert(u_px + v_px * w < w * h && 0 <= u_px + v_px * w) by (nonlinear_arith)
            requires
                0 <= u_px <= w - 1,
                0 <= v_px <= h - 1,
                1 <= w,
                1 <= h,
        ;
        assert(4 * (u_px + v_px * w) + 4 <= 4 * (w * h)) by (nonlinear_arith)
            requires
                u_px + v_px * w < w * h,
                0 <= u_px + v_px * w,
        ;
        assert(texture.data@.len() == 4 * (w * h)) by {
            vstd::arithmetic::mul::lemma_mul_is_associative(4, w as int, h as int);
        }
    }
    let n = texture.data.len();
    proof {
        assert(n == 4 * (w * h));
    }
    let index = (4 * (u_px + v_px * w)) as usize;
    let b0 = texture.data[index];
    let b1 = texture.data[index + 1];
    let b2 = texture.data[index + 2];
    let b3 = texture.data[index + 3];
    [b0, b1, b2, b3]
}

/// The nearest-texel coordinate lies on the axis.
proof fn lemma_texel_coord_in_range(u: int, extent: int)
    requires
        1 <= extent <= 0x8000,
    ensures
        0 <= texel_coord_spec(u, extent) <= extent - 1,
        texel_coord_spec(u, extent) == (clamp01_spec(u) * (extent - 1) + 32768) / 65536,
{
    let c = clamp01_spec(u);
    assert(0 <= c * (extent - 1) <= 65536 * (extent - 1)) by (nonlinear_arith)
        requires
            0 <= c <= 65536,
            0 <= extent - 1,
    ;
    assert(0 <= (c * (extent - 1) + 32768) / 65536) by {
        vstd::arithmetic::div_mod::lemma_div_pos_is_pos(c * (extent - 1) + 32768, 65536);
    }
    assert((c * (extent - 1) + 32768) / 65536 <= extent - 1) by {
        vstd::arithmetic::div_mod::lemma_div_is_ordered(
            c * (extent - 1) + 32768,
            65536 * (extent - 1) + 32768,
            65536,
        );
        assert((65536 * (extent - 1) + 32768) / 65536 == extent - 1) by {
            vstd::arithmetic::div_mod::lemma_fundamental_div_mod_converse(
                65536 * (extent - 1) + 32768,
                65536,
                extent - 1,
                32768,
            );
        }
    }
}

/// A fragment shader: a pure function from an interpolated payload and the
/// read-only uniforms to an RGBA8 color.
pub trait FragmentShader: Sized {
    /// Whether the shader can run against this uniform store.
    spec fn valid(&self, uniforms: Uniforms) -> bool;

    /// The color produced for a payload.
    spec fn shade_spec(&self, fs_in: Fx3, uniforms: Uniforms) -> [u8; 4];

    fn fragment_shader_fn(&self, fs_in: Fx3, uniforms: &Uniforms) -> (r: [u8; 4])
        requires
            self.valid(*uniforms),
        ensures
            r == self.shade_spec(fs_in, *uniforms),
    ;
}

/// Maps a payload in the unit cube to its RGBA color.
#[derive(Clone, Copy, PartialEq, Eq, Structural, Debug)]
pub struct ColorBlend {}

impl ColorBlend {
    pub fn new() -> (r: ColorBlend)
        ensures
            r == (ColorBlend {  }),
    {
        ColorBlend {  }
    }
}

impl FragmentShader for ColorBlend {
    open spec fn valid(&self, uniforms: Uniforms) -> bool {
        true
    }

    open spec fn shade_spec(&self, fs_in: Fx3, uniforms: Uniforms) -> [u8; 4] {
        [channel_spec(fs_in.x as int), channel_spec(fs_in.y as int), channel_spec(fs_in.z as int), 255u8]
    }

    fn fragment_shader_fn(&self, fs_in: Fx3, uniforms: &Uniforms) -> (r: [u8; 4]) {
        [channel(fs_in.x), channel(fs_in.y), channel(fs_in.z), 255]
    }
}

fn channel(c: i64) -> (r: u8)
    ensures
        r == channel_spec(c as int),
{
    let v = clamp01(c);
    ((v * 255) / 65536) as u8
}

/// Samples a bound texture at the payload's first two lanes.
#[derive(Clone, Copy, PartialEq, Eq, Structural, Debug)]
pub struct Textured {
    pub texture_handle: usize,
}

impl Textured {
    pub fn new(texture_handle: usize) -> (r: Textured)
        ensures
            r.texture_handle == texture_handle,
    {
        Textured { texture_handle }
    }

    pub fn set_texture_handle(&mut self, texture_handle: usize)
        ensures
            final(self).texture_handle == texture_handle,
    {
        self.texture_handle = texture_handle
    }

    pub fn get_texture_handle(&self) -> (r: usize)
        ensures
            r == self.texture_handle,
    {
        self.texture_handle
    }
}

impl FragmentShader for Textured {
    open spec fn valid(&self, uniforms: Uniforms) -> bool {
        uniforms.model().contains_key(self.texture_handle as int) && uniforms.model()[
            self.texture_handle as int
        ].wf()
    }

    open spec fn shade_spec(&self, fs_in: Fx3, uniforms: Uniforms) -> [u8; 4] {
        sample_spec(fs_in.x as int, fs_in.y as int, uniforms.model()[self.texture_handle as int])
    }

    fn fragment_shader_fn(&self, fs_in: Fx3, uniforms: &Uniforms) -> (r: [u8; 4]) {
        sample_2d(fs_in.x, fs_in.y, uniforms.get_texture(self.texture_handle))
    }
}

} // verus!
