//! The rasterizer core: the color, depth and fragment buffers, the texture
//! store, and the per-frame verbs (clear, shade, texture upload).

use vstd::prelude::*;

verus! {

use crate::depth_buffer::{DepthBuffer, DEPTH_FAR};
use crate::fragment_buffer::{FragmentBuffer, FragmentKey, FragmentSlab};
use crate::fragment_shader::FragmentShader;
use crate::fx3::Fx3;
use crate::limits::MAX_DIM;
use crate::rasterizer::frag_keys_wf;
use crate::texture::{Texture, TextureFormat};
use crate::uniforms::Uniforms;

pub struct Fuwa {
    pub width: u32,
    pub height: u32,
    pub pixel_count: u32,
    pub x_factor: i64,
    pub y_factor: i64,
    pub pixels: Vec<u8>,
    pub depth_buffer: DepthBuffer,
    pub fragment_buffer: FragmentBuffer,
    pub fragment_slab: FragmentSlab,
    pub uniforms: Uniforms,
    pub thread_count: usize,
}

/// A fragment slot points at a shader and a stored payload.
pub open spec fn frag_matches(f: Option<FragmentKey>, sid: int) -> bool {
    f is Some && f.unwrap().shader_index == sid
}

impl Fuwa {
    /// The sizes, scale factors and buffer lengths agree, every depth cell
    /// is nonnegative, every live fragment key addresses the slab, and the
    /// texture store is sound.
    pub open spec fn wf(self) -> bool {
        &&& 1 <= self.width <= MAX_DIM
        &&& 1 <= self.height <= MAX_DIM
        &&& self.pixel_count == self.width * self.height
        &&& self.x_factor == self.width * 32768
        &&& self.y_factor == self.height * 32768
        &&& self.pixels@.len() == 4 * self.pixel_count
        &&& self.depth_buffer.depth_buffer@.len() == self.pixel_count + 8
        &&& forall|i: int|
            0 <= i < self.depth_buffer.depth_buffer@.len() ==> self.depth_buffer.depth_buffer@[i]
                >= 0
        &&& self.fragment_buffer.fragments@.len() == self.pixel_count
        &&& frag_keys_wf(self.fragment_buffer.fragments@, self.fragment_slab.entries@)
        &&& self.uniforms.wf()
    }

    /// Color zeroed, depth at the far sentinel, no live fragments, and an
    /// empty payload slab: the state between frames.
    pub open spec fn cleared(self) -> bool {
        &&& forall|i: int| 0 <= i < self.pixels@.len() ==> self.pixels@[i] == 0
        &&& forall|i: int|
            0 <= i < self.depth_buffer.depth_buffer@.len() ==> self.depth_buffer.depth_buffer@[i]
                == DEPTH_FAR
        &&& forall|i: int|
            0 <= i < self.fragment_buffer.fragments@.len()
                ==> self.fragment_buffer.fragments@[i] is None
        &&& self.fragment_slab.entries@.len() == 0
    }

    /// The fields that no per-frame verb changes.
    pub open spec fn same_shape(pre: Fuwa, post: Fuwa) -> bool {
        &&& post.width == pre.width
        &&& post.height == pre.height
        &&& post.pixel_count == pre.pixel_count
        &&& post.x_factor == pre.x_factor
        &&& post.y_factor == pre.y_factor
        &&& post.thread_count == pre.thread_count
        &&& post.pixels@.len() == pre.pixels@.len()
        &&& post.depth_buffer.depth_buffer@.len() == pre.depth_buffer.depth_buffer@.len()
        &&& post.fragment_buffer.fragments@.len() == pre.fragment_buffer.fragments@.len()
    }

    #[verifier::loop_isolation(false)]
    pub fn new(width: u32, height: u32, thread_count: usize) -> (r: Fuwa)
        requires
            1 <= width <= MAX_DIM,
            1 <= height <= MAX_DIM,
        ensures
            r.wf(),
            r.cleared(),
            r.width == width,
            r.height == height,
            r.thread_count == thread_count,
            r.uniforms.model() == crate::uniforms::empty_model(),
    {
        proof {
            assert(width as int * height as int <= 0x1000_0000 && width as int * height as int
                >= 1) by (nonlinear_arith)
                requires
                    1 <= width as int <= 0x4000,
                    1 <= height as int <= 0x4000,
            ;
        }
        let pixel_count: u32 = width * height;
        let pixels = zero_bytes(4 * (pixel_count as usize));
        Fuwa {
            width,
            height,
            pixel_count,
            x_factor: (width as i64) * 32768,
            y_factor: (height as i64) * 32768,
            pixels,
            depth_buffer: DepthBuffer::new(pixel_count as usize),
            fragment_buffer: FragmentBuffer::new(pixel_count as usize),
            fragment_slab: FragmentSlab::new(),
            uniforms: Uniforms::new(),
            thread_count,
        }
    }

    /// Zeroes the color buffer.
    #[verifier::loop_isolation(false)]
    pub fn clear(&mut self)
        ensures
            Fuwa::same_shape(*old(self), *final(self)),
            final(self).depth_buffer == old(self).depth_buffer,
            final(self).fragment_buffer == old(self).fragment_buffer,
            final(self).fragment_slab == old(self).fragment_slab,
            final(self).uniforms == old(self).uniforms,
            forall|i: int| 0 <= i < final(self).pixels@.len() ==> final(self).pixels@[i] == 0,
            old(self).wf() ==> final(self).wf(),
    {
        let n = self.pixels.len();
        let mut i: usize = 0;
        while i < n
            invariant
                i <= n == self.pixels@.len(),
                forall|j: int| 0 <= j < i ==> self.pixels@[j] == 0,
                self.depth_buffer == old(self).depth_buffer,
                self.fragment_buffer == old(self).fragment_buffer,
                self.fragment_slab == old(self).fragment_slab,
                self.uniforms == old(self).uniforms,
                self.width == old(self).width,
                self.height == old(self).height,
                self.pixel_count == old(self).pixel_count,
                self.x_factor == old(self).x_factor,
                self.y_factor == old(self).y_factor,
                self.thread_count == old(self).thread_count,
            decreases n - i,
        {
            self.pixels[i] = 0;
            i = i + 1;
        }
    }

    /// Fills the color buffer with one RGBA color.
    #[verifier::loop_isolation(false)]
    pub fn clear_color(&mut self, color: &[u8; 4])
        requires
            old(self).wf(),
        ensures
            final(self).wf(),
            Fuwa::same_shape(*old(self), *final(self)),
            final(self).depth_buffer == old(self).depth_buffer,
            final(self).fragment_buffer == old(self).fragment_buffer,
            final(self).fragment_slab == old(self).fragment_slab,
            final(self).uniforms == old(self).uniforms,
            forall|j: int, k: int|
                0 <= j < old(self).pixel_count && 0 <= k < 4 ==> final(self).pixels@[#[trigger] (4
                    * j + k)] == color@[k],
    {
        proof {
            let gw = old(self).width as int;
            let gh = old(self).height as int;
            assert(gw * gh <= 0x1000_0000) by (nonlinear_arith)
                requires
                    1 <= gw <= 0x4000,
                    1 <= gh <= 0x4000,
            ;
        }
        let n = self.pixel_count as usize;
        let mut j: usize = 0;
        while j < n
            invariant
                j <= n <= 0x1000_0000,
                n == self.pixel_count,
                self.pixels@.len() == 4 * n,
                forall|jj: int, k: int|
                    0 <= jj < j && 0 <= k < 4 ==> self.pixels@[#[trigger] (4 * jj + k)]
                        == color@[k],
                self.depth_buffer == old(self).depth_buffer,
                self.fragment_buffer == old(self).fragment_buffer,
                self.fragment_slab == old(self).fragment_slab,
                self.uniforms == old(self).uniforms,
                self.width == old(self).width,
                self.height == old(self).height,
                self.pixel_count == old(self).pixel_count,
                self.x_factor == old(self).x_factor,
                self.y_factor == old(self).y_factor,
                self.thread_count == old(self).thread_count,
            decreases n - j,
        {
            self.pixels[4 * j] = color[0];
            self.pixels[4 * j + 1] = color[1];
            self.pixels[4 * j + 2] = color[2];
            self.pixels[4 * j + 3] = color[3];
            j = j + 1;
        }
    }

    /// Resets the depth buffer to the far sentinel.
    pub fn clear_depth_buffer(&mut self)
        ensures
            Fuwa::same_shape(*old(self), *final(self)),
            final(self).pixels == old(self).pixels,
            final(self).fragment_buffer == old(self).fragment_buffer,
            final(self).fragment_slab == old(self).fragment_slab,
            final(self).uniforms == old(self).uniforms,
            forall|i: int|
                0 <= i < final(self).depth_buffer.depth_buffer@.len() ==> final(self).depth_buffer.depth_buffer@[i] == DEPTH_FAR,
            old(self).wf() ==> final(self).wf(),
    {
        self.depth_buffer.clear();
    }

    /// Zeroes the color buffer, resets the depth buffer, empties every
    /// fragment slot, and drops the finished frame's payloads.
    pub fn clear_all(&mut self)
        ensures
            Fuwa::same_shape(*old(self), *final(self)),
            final(self).uniforms == old(self).uniforms,
            final(self).cleared(),
            old(self).wf() ==> final(self).wf(),
    {
        self.clear();
        self.depth_buffer.clear();
        self.fragment_buffer.clear();
        self.fragment_slab.clear();
    }

    /// Writes one pixel. The coordinates must lie in the viewport; a
    /// caller handing coordinates from outside has a programming error.
    pub fn set_pixel(&mut self, x: u32, y: u32, color: &[u8; 4])
        requires
            old(self).wf(),
            x < old(self).width,
            y < old(self).height,
        ensures
            final(self).wf(),
            Fuwa::same_shape(*old(self), *final(self)),
            final(self).depth_buffer == old(self).depth_buffer,
            final(self).fragment_buffer == old(self).fragment_buffer,
            final(self).fragment_slab == old(self).fragment_slab,
            final(self).uniforms == old(self).uniforms,
            forall|k: int|
                0 <= k < 4 ==> final(self).pixels@[#[trigger] (4 * (y * old(self).width + x) + k)]
                    == color@[k],
            forall|i: int|
                0 <= i < final(self).pixels@.len() && !(4 * (y * old(self).width + x) <= i < 4 * (y
                    * old(self).width + x) + 4) ==> final(self).pixels@[i] == old(self).pixels@[i],
    {
        proof {
            let gw = old(self).width as int;
            let gh = old(self).height as int;
            assert(0 <= (y as int) * gw + (x as int) && (y as int) * gw + (x as int) < gw * gh
                && gw * gh <= 0x1000_0000) by (nonlinear_arith)
                requires
                    0 <= (x as int) && (x as int) < gw,
                    0 <= (y as int) && (y as int) < gh,
                    gw <= 0x4000,
                    gh <= 0x4000,
            ;
        }
        let index: usize = 4 * ((y as usize) * (self.width as usize) + (x as usize));
        self.pixels[index] = color[0];
        self.pixels[index + 1] = color[1];
        self.pixels[index + 2] = color[2];
        self.pixels[index + 3] = color[3];
    }

    /// Scalar depth test-and-set at a pixel.
    pub fn try_set_depth(&mut self, x: u32, y: u32, depth: i64) -> (r: bool)
        requires
            old(self).wf(),
            x < old(self).width,
            y < old(self).height,
        ensures
            r == (depth > old(self).depth_buffer.depth_buffer@[x + y * old(self).width]),
            final(self).depth_buffer.depth_buffer@ == old(self).depth_buffer.depth_buffer@.update(
                x + y * old(self).width as int,
                crate::depth_buffer::depth_merge(
                    old(self).depth_buffer.depth_buffer@[x + y * old(self).width],
                    depth,
                ),
            ),
            final(self).pixels == old(self).pixels,
            final(self).fragment_buffer == old(self).fragment_buffer,
            final(self).fragment_slab == old(self).fragment_slab,
            final(self).uniforms == old(self).uniforms,
            Fuwa::same_shape(*old(self), *final(self)),
            depth >= 0 && old(self).wf() ==> final(self).wf(),
    {
        proof {
            lemma_flat_index(self.width as int, self.height as int, x as int, y as int);
        }
        self.depth_buffer.try_set_depth((x as usize) + (y as usize) * (self.width as usize), depth)
    }

    /// 8-wide depth test-and-set starting at a pixel.
    pub fn try_set_depth_simd(&mut self, x: u32, y: u32, depths: &[i64; 8]) -> (r: Option<
        [bool; 8],
    >)
        requires
            old(self).wf(),
            x < old(self).width,
            y < old(self).height,
        ensures
            final(self).pixels == old(self).pixels,
            final(self).fragment_buffer == old(self).fragment_buffer,
            final(self).fragment_slab == old(self).fragment_slab,
            final(self).uniforms == old(self).uniforms,
            Fuwa::same_shape(*old(self), *final(self)),
            forall|l: int|
                0 <= l < 8 ==> final(self).depth_buffer.depth_buffer@[x + y * old(self).width + l]
                    == crate::depth_buffer::depth_merge(
                    old(self).depth_buffer.depth_buffer@[x + y * old(self).width + l],
                    depths@[l],
                ),
            forall|j: int|
                0 <= j < old(self).depth_buffer.depth_buffer@.len() && !(x + y * old(self).width
                    <= j < x + y * old(self).width + 8) ==> final(self).depth_buffer.depth_buffer@[j] == old(self).depth_buffer.depth_buffer@[j],
            match r {
                Some(mask) => forall|l: int|
                    0 <= l < 8 ==> mask@[l] == (depths@[l] > old(self).depth_buffer.depth_buffer@[x + y * old(self).width + l]),
                None => forall|l: int|
                    0 <= l < 8 ==> !(depths@[l] > old(self).depth_buffer.depth_buffer@[x + y * old(self).width + l]),
            },
    {
        proof {
            lemma_flat_index(self.width as int, self.height as int, x as int, y as int);
        }
        self.depth_buffer.try_set_depth_simd(
            (x as usize) + (y as usize) * (self.width as usize),
            depths,
        )
    }

    /// Stores a fragment key at a pixel; the key must address a stored
    /// payload.
    pub fn set_fragment(&mut self, x: u32, y: u32, frag: FragmentKey)
        requires
            old(self).wf(),
            x < old(self).width,
            y < old(self).height,
            frag.fragment_key < old(self).fragment_slab.entries@.len(),
        ensures
            final(self).wf(),
            Fuwa::same_shape(*old(self), *final(self)),
            final(self).pixels == old(self).pixels,
            final(self).depth_buffer == old(self).depth_buffer,
            final(self).fragment_slab == old(self).fragment_slab,
            final(self).uniforms == old(self).uniforms,
            final(self).fragment_buffer.fragments@ == old(self).fragment_buffer.fragments@.update(x + y * old(self).width as int, Some(frag)),
    {
        proof {
            lemma_flat_index(self.width as int, self.height as int, x as int, y as int);
        }
        self.fragment_buffer.set_fragment(
            (x as usize) + (y as usize) * (self.width as usize),
            frag,
        );
    }

    /// Registers a decoded RGBA8 texture and returns its stable handle.
    pub fn load_texture(&mut self, rgba8: Vec<u8>, width: u32, height: u32) -> (h: usize)
        requires
            old(self).wf(),
            rgba8@.len() == 4 * width * height,
            1 <= width <= 0x8000,
            1 <= height <= 0x8000,
        ensures
            final(self).wf(),
            Fuwa::same_shape(*old(self), *final(self)),
            final(self).pixels == old(self).pixels,
            final(self).depth_buffer == old(self).depth_buffer,
            final(self).fragment_buffer == old(self).fragment_buffer,
            final(self).fragment_slab == old(self).fragment_slab,
            !old(self).uniforms.model().contains_key(h as int),
            final(self).uniforms.model() == old(self).uniforms.model().insert(
                h as int,
                Texture {
                    data: rgba8,
                    format: TextureFormat::RGBA,
                    width,
                    height,
                },
            ),
    {
        let texture = Texture::new(rgba8, TextureFormat::RGBA, width, height);
        self.uniforms.add_texture(texture)
    }


    /// Writes a grayscale view of the depth buffer into the color buffer:
    /// the nearest cell is darkest, the farthest is white, and a buffer
    /// without depth contrast shows all white.
    #[verifier::loop_isolation(false)]
    pub fn render_depth_buffer(&mut self)
        requires
            old(self).wf(),
        ensures
            final(self).wf(),
            Fuwa::same_shape(*old(self), *final(self)),
            final(self).depth_buffer == old(self).depth_buffer,
            final(self).fragment_buffer == old(self).fragment_buffer,
            final(self).fragment_slab == old(self).fragment_slab,
            final(self).uniforms == old(self).uniforms,
            forall|j: int, k: int|
                0 <= j < old(self).pixel_count && 0 <= k < 3 ==> final(self).pixels@[#[trigger] (4
                    * j + k)] == depth_gray(
                    old(self).depth_buffer.depth_buffer@[j],
                    min_depth(old(self).depth_buffer.depth_buffer@, old(self).pixel_count as int),
                    max_depth(old(self).depth_buffer.depth_buffer@, old(self).pixel_count as int),
                ),
            forall|j: int|
                0 <= j < old(self).pixel_count ==> final(self).pixels@[#[trigger] (4 * j + 3)]
                    == 255,
    {
        let ghost cells = self.depth_buffer.depth_buffer@;
        proof {
            let gw = old(self).width as int;
            let gh = old(self).height as int;
            assert(1 <= gw * gh <= 0x1000_0000) by (nonlinear_arith)
                requires
                    1 <= gw <= 0x4000,
                    1 <= gh <= 0x4000,
            ;
        }
        let n = self.pixel_count as usize;
        let mut lo = self.depth_buffer.depth_buffer[0];
        let mut hi = lo;
        let mut i: usize = 1;
        while i < n
            invariant
                1 <= i <= n,
                lo == min_depth(cells, i as int),
                hi == max_depth(cells, i as int),
                0 <= lo <= hi,
            decreases n - i,
        {
            let c = self.depth_buffer.depth_buffer[i];
            if c < lo {
                lo = c;
            }
            if c > hi {
                hi = c;
            }
            i = i + 1;
        }
        let mut j: usize = 0;
        while j < n
            invariant
                0 <= j <= n <= 0x1000_0000,
                self.pixels@.len() == 4 * n,
                self.depth_buffer == old(self).depth_buffer,
                self.fragment_buffer == old(self).fragment_buffer,
                self.fragment_slab == old(self).fragment_slab,
                self.uniforms == old(self).uniforms,
                self.width == old(self).width,
                self.height == old(self).height,
                self.pixel_count == old(self).pixel_count,
                self.x_factor == old(self).x_factor,
                self.y_factor == old(self).y_factor,
                self.thread_count == old(self).thread_count,
                forall|jj: int, k: int|
                    0 <= jj < j && 0 <= k < 3 ==> self.pixels@[#[trigger] (4 * jj + k)]
                        == depth_gray(cells[jj], min_depth(cells, n as int), max_depth(cells, n as int)),
                forall|jj: int|
                    0 <= jj < j ==> self.pixels@[#[trigger] (4 * jj + 3)] == 255,
            decreases n - j,
        {
            let cell = self.depth_buffer.depth_buffer[j];
            proof {
                lemma_depth_extremes(cells, n as int, j as int);
            }
            let g: u8 = if hi > lo {
                let d = (cell - lo) as u128;
                let r = (hi - lo) as u128;
                proof {
                    assert((d as int) * 255 <= (r as int) * 255) by (nonlinear_arith)
                        requires
                            d <= r,
                    ;
                    assert(((r as int) * 255) / (r as int) == 255) by {
                        vstd::arithmetic::div_mod::lemma_fundamental_div_mod_converse(
                            (r as int) * 255,
                            r as int,
                            255,
                            0,
                        );
                    }
                    vstd::arithmetic::div_mod::lemma_div_is_ordered(
                        (d as int) * 255,
                        (r as int) * 255,
                        r as int,
                    );
                    vstd::arithmetic::div_mod::lemma_div_pos_is_pos((d as int) * 255, r as int);
                }
                (255 - (d * 255) / r) as u8
            } else {
                255
            };
            self.pixels[4 * j] = g;
            self.pixels[4 * j + 1] = g;
            self.pixels[4 * j + 2] = g;
            self.pixels[4 * j + 3] = 255;
            j = j + 1;
        }
    }

    /// The color buffer a presenter pushes to the host surface.
    pub fn frame(&self) -> (r: &Vec<u8>)
        ensures
            r@ == self.pixels@,
    {
        &self.pixels
    }

    /// Reallocates every size-dependent buffer for a new resolution.
    pub fn resize(&mut self, width: u32, height: u32)
        requires
            old(self).wf(),
            1 <= width <= MAX_DIM,
            1 <= height <= MAX_DIM,
        ensures
            final(self).wf(),
            final(self).cleared(),
            final(self).width == width,
            final(self).height == height,
            final(self).uniforms == old(self).uniforms,
            final(self).thread_count == old(self).thread_count,
    {
        proof {
            assert(width as int * height as int <= 0x1000_0000 && width as int * height as int
                >= 1) by (nonlinear_arith)
                requires
                    1 <= width as int <= 0x4000,
                    1 <= height as int <= 0x4000,
            ;
        }
        let pixel_count: u32 = width * height;
        self.width = width;
        self.height = height;
        self.pixel_count = pixel_count;
        self.x_factor = (width as i64) * 32768;
        self.y_factor = (height as i64) * 32768;
        self.pixels = zero_bytes(4 * (pixel_count as usize));
        self.depth_buffer = DepthBuffer::new(pixel_count as usize);
        self.fragment_buffer = FragmentBuffer::new(pixel_count as usize);
        self.fragment_slab = FragmentSlab::new();
    }

    /// The deferred shade pass: every fragment tagged with `shader_index`
    /// is shaded and its slot emptied; everything else is untouched.
    #[verifier::loop_isolation(false)]
    pub fn render<S: FragmentShader>(&mut self, shader: &S, shader_index: usize)
        requires
            old(self).wf(),
            shader.valid(old(self).uniforms),
        ensures
            final(self).wf(),
            render_rel(*old(self), *final(self), shader_index as int, *shader),
    {
        let ghost pre_pixels = self.pixels@;
        let ghost pre_frag = self.fragment_buffer.fragments@;
        proof {
            let gw = old(self).width as int;
            let gh = old(self).height as int;
            assert(gw * gh <= 0x1000_0000) by (nonlinear_arith)
                requires
                    1 <= gw <= 0x4000,
                    1 <= gh <= 0x4000,
            ;
        }
        let n = self.pixel_count as usize;
        let mut i: usize = 0;
        while i < n
            invariant
                i <= n <= 0x1000_0000,
                self.pixels@.len() == pre_pixels.len(),
                self.fragment_buffer.fragments@.len() == pre_frag.len(),
                forall|j: int|
                    i <= j < n ==> self.fragment_buffer.fragments@[j] == pre_frag[j],
                forall|j: int|
                    0 <= j < i ==> render_pixel_ok(
                        pre_frag[j],
                        self.fragment_buffer.fragments@[j],
                        pre_pixels,
                        self.pixels@,
                        j,
                        shader_index as int,
                        *shader,
                        old(self).fragment_slab.entries@,
                        old(self).uniforms,
                    ),
                forall|j: int, k: int|
                    i <= j < n && 0 <= k < 4 ==> self.pixels@[#[trigger] (4 * j + k)]
                        == pre_pixels[4 * j + k],
                self.depth_buffer == old(self).depth_buffer,
                self.fragment_slab == old(self).fragment_slab,
                self.uniforms == old(self).uniforms,
                self.width == old(self).width,
                self.height == old(self).height,
                self.pixel_count == old(self).pixel_count,
                self.x_factor == old(self).x_factor,
                self.y_factor == old(self).y_factor,
                self.thread_count == old(self).thread_count,
                frag_keys_wf(self.fragment_buffer.fragments@, self.fragment_slab.entries@),
            decreases n - i,
        {
            let slot = self.fragment_buffer.get_fragment(i);
            match slot {
                Some(key) => {
                    if key.shader_index == shader_index {
                        let fs_in = self.fragment_slab.get(key.fragment_key);
                        let color = shader.fragment_shader_fn(fs_in, &self.uniforms);
                        self.pixels[4 * i] = color[0];
                        self.pixels[4 * i + 1] = color[1];
                        self.pixels[4 * i + 2] = color[2];
                        self.pixels[4 * i + 3] = color[3];
                        self.fragment_buffer.clear_fragment(i);
                    }
                },
                None => {},
            }
            i = i + 1;
        }
    }
}


/// The least depth among the first `n` cells.
pub open spec fn min_depth(cells: Seq<i64>, n: int) -> i64
    decreases n,
{
    if n <= 1 {
        cells[0]
    } else if cells[n - 1] < min_depth(cells, n - 1) {
        cells[n - 1]
    } else {
        min_depth(cells, n - 1)
    }
}

/// The greatest depth among the first `n` cells.
pub open spec fn max_depth(cells: Seq<i64>, n: int) -> i64
    decreases n,
{
    if n <= 1 {
        cells[0]
    } else if cells[n - 1] > max_depth(cells, n - 1) {
        cells[n - 1]
    } else {
        max_depth(cells, n - 1)
    }
}

/// The grayscale a depth cell maps to: the nearest cell is darkest, the
/// farthest is white, and a flat buffer shows all white.
pub open spec fn depth_gray(cell: i64, lo: i64, hi: i64) -> u8 {
    if hi > lo {
        (255 - ((cell - lo) * 255) / (hi - lo)) as u8
    } else {
        255u8
    }
}

/// Every cell of the prefix lies between the prefix's extremes.
proof fn lemma_depth_extremes(cells: Seq<i64>, n: int, j: int)
    requires
        0 <= j < n,
        n <= cells.len(),
    ensures
        min_depth(cells, n) <= cells[j],
        cells[j] <= max_depth(cells, n),
    decreases n,
{
    if j < n - 1 {
        lemma_depth_extremes(cells, n - 1, j);
    }
}

/// What the shade pass does at one pixel: a fragment carrying the pass's
/// shader id is shaded into the color buffer and its slot emptied; any
/// other slot and its pixel are untouched.
pub open spec fn render_pixel_ok<S: FragmentShader>(
    f_old: Option<FragmentKey>,
    f_new: Option<FragmentKey>,
    pix_old: Seq<u8>,
    pix_new: Seq<u8>,
    i: int,
    sid: int,
    shader: S,
    slab: Seq<Fx3>,
    uniforms: Uniforms,
) -> bool {
    if frag_matches(f_old, sid) {
        &&& f_new is None
        &&& forall|k: int|
            0 <= k < 4 ==> pix_new[4 * i + k] == shader.shade_spec(
                slab[f_old.unwrap().fragment_key as int],
                uniforms,
            )@[k]
    } else {
        &&& f_new == f_old
        &&& forall|k: int| 0 <= k < 4 ==> pix_new[#[trigger] (4 * i + k)] == pix_old[4 * i + k]
    }
}

/// The whole contract of one shade pass, relating the state before to the
/// state after.
pub open spec fn render_rel<S: FragmentShader>(pre: Fuwa, post: Fuwa, sid: int, shader: S) -> bool {
    &&& Fuwa::same_shape(pre, post)
    &&& post.depth_buffer == pre.depth_buffer
    &&& post.fragment_slab == pre.fragment_slab
    &&& post.uniforms == pre.uniforms
    &&& forall|i: int|
        0 <= i < pre.pixel_count ==> #[trigger] render_pixel_ok(
            pre.fragment_buffer.fragments@[i],
            post.fragment_buffer.fragments@[i],
            pre.pixels@,
            post.pixels@,
            i,
            sid,
            shader,
            pre.fragment_slab.entries@,
            pre.uniforms,
        )
}

/// A pixel's flat index lies in the cell range.
proof fn lemma_flat_index(w: int, h: int, x: int, y: int)
    requires
        1 <= w,
        0 <= x < w,
        0 <= y < h,
    ensures
        0 <= x + y * w < w * h,
{
    assert(0 <= x + y * w < w * h) by (nonlinear_arith)
        requires
            1 <= w,
            0 <= x < w,
            0 <= y < h,
    ;
}

/// A zeroed byte buffer of the given length.
fn zero_bytes(n: usize) -> (r: Vec<u8>)
    ensures
        r@.len() == n,
        forall|i: int| 0 <= i < n ==> r@[i] == 0,
{
    let mut out: Vec<u8> = Vec::new();
    let mut i: usize = 0;
    while i < n
        invariant
            i == out@.len() <= n,
            forall|j: int| 0 <= j < i ==> out@[j] == 0,
        decreases n - i,
    {
        out.push(0);
        i = i + 1;
    }
    out
}

} // verus!
