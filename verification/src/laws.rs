//! The library's laws: properties that relate several operations, proved
//! once and for all inputs.

use vstd::prelude::*;

verus! {

use crate::fixed::FX_ONE;
use crate::fragment_shader::FragmentShader;
use crate::fuwa::{frag_matches, render_rel, Fuwa};
use crate::mesh::IndexedVertexList;
use crate::pipeline::{assembled_tri, fold_depth};
use crate::rasterizer::{cand_val, covered, interp_attr, interp_z};
use crate::triangle::{screen_wf, Triangle};
use crate::vertex_shader::VertexShader;

/// After a draw call a pixel's depth cell holds the maximum of what it
/// held before and the candidate reciprocal depths of every surviving
/// triangle that covered the pixel: nothing less, and nothing that no
/// triangle produced.
pub proof fn lemma_depth_fold_is_max<VS: VertexShader>(
    vs: VS,
    list: IndexedVertexList,
    n: int,
    xf: int,
    yf: int,
    w: int,
    h: int,
    x: int,
    y: int,
    d0: i64,
)
    requires
        n >= 0,
    ensures
        fold_depth(vs, list, n, xf, yf, w, h, x, y, d0) >= d0,
        forall|j: int|
            0 <= j < n && #[trigger] assembled_tri(vs, list, j, xf, yf) is Some ==> fold_depth(
                vs,
                list,
                n,
                xf,
                yf,
                w,
                h,
                x,
                y,
                d0,
            ) >= cand_val(assembled_tri(vs, list, j, xf, yf).unwrap(), w, h, x, y),
        fold_depth(vs, list, n, xf, yf, w, h, x, y, d0) == d0 || exists|j: int|
            0 <= j < n && #[trigger] assembled_tri(vs, list, j, xf, yf) is Some && cand_val(
                assembled_tri(vs, list, j, xf, yf).unwrap(),
                w,
                h,
                x,
                y,
            ) == fold_depth(vs, list, n, xf, yf, w, h, x, y, d0),
    decreases n,
{
    if n > 0 {
        lemma_depth_fold_is_max(vs, list, n - 1, xf, yf, w, h, x, y, d0);
        let prev = fold_depth(vs, list, n - 1, xf, yf, w, h, x, y, d0);
        let cur = fold_depth(vs, list, n, xf, yf, w, h, x, y, d0);
        match assembled_tri(vs, list, n - 1, xf, yf) {
            Some(t) => {
                let c = cand_val(t, w, h, x, y);
                if c > prev {
                    assert(cur == c);
                } else {
                    assert(cur == prev);
                }
            },
            None => {
                assert(cur == prev);
            },
        }
        if cur != d0 {
            if prev != d0 && cur == prev {
                let jj = choose|jj: int|
                    0 <= jj < n - 1 && #[trigger] assembled_tri(vs, list, jj, xf, yf) is Some
                        && cand_val(assembled_tri(vs, list, jj, xf, yf).unwrap(), w, h, x, y)
                        == prev;
                assert(0 <= jj < n && assembled_tri(vs, list, jj, xf, yf) is Some && cand_val(
                    assembled_tri(vs, list, jj, xf, yf).unwrap(),
                    w,
                    h,
                    x,
                    y,
                ) == cur);
            }
        }
    }
}

/// The constant-attribute property at unit depth: when a triangle's three
/// vertices carry one attribute value and all sit at view depth one, every
/// covered pixel's interpolated payload is exactly that value.
///
/// At other depths the perspective divide rounds, so the payload can be
/// off by the last fixed-point digit.
pub proof fn lemma_constant_attribute(t: Triangle, x: int, y: int)
    requires
        screen_wf(t),
        t.a0 == t.a1 && t.a1 == t.a2,
        t.p0.z == FX_ONE && t.p1.z == FX_ONE && t.p2.z == FX_ONE,
        covered(t, x, y),
    ensures
        interp_z(t, x, y) == FX_ONE,
        interp_attr(t, x, y) == t.a0,
{
    assert(interp_z(t, x, y) == FX_ONE);
    lemma_div_sat_by_one(t.a0.x as int);
    lemma_div_sat_by_one(t.a0.y as int);
    lemma_div_sat_by_one(t.a0.z as int);
}

/// Dividing by the fixed-point one gives the value back.
proof fn lemma_div_sat_by_one(a: int)
    requires
        i64::MIN <= a <= i64::MAX,
    ensures
        crate::fixed::fx_div_sat_spec(a, FX_ONE as int) == a,
{
    if a >= 0 {
        assert((a * 65536) / 65536 == a) by {
            vstd::arithmetic::div_mod::lemma_fundamental_div_mod_converse(a * 65536, 65536, a, 0);
        }
    } else {
        assert((a * 65536) * -1 == (-a) * 65536) by (nonlinear_arith);
        assert(((-a) * 65536) / 65536 == -a) by {
            vstd::arithmetic::div_mod::lemma_fundamental_div_mod_converse(
                (-a) * 65536,
                65536,
                -a,
                0,
            );
        }
    }
}

/// Clearing twice is the same as clearing once: the cleared state's
/// buffers are fully pinned, so a second clear reproduces them.
pub proof fn lemma_clear_all_idempotent(s0: Fuwa, s1: Fuwa, s2: Fuwa)
    requires
        Fuwa::same_shape(s0, s1),
        s1.cleared(),
        s1.uniforms == s0.uniforms,
        Fuwa::same_shape(s1, s2),
        s2.cleared(),
        s2.uniforms == s1.uniforms,
    ensures
        s2.pixels@ == s1.pixels@,
        s2.depth_buffer.depth_buffer@ == s1.depth_buffer.depth_buffer@,
        s2.fragment_buffer.fragments@ == s1.fragment_buffer.fragments@,
        s2.fragment_slab.entries@ == s1.fragment_slab.entries@,
        s2.uniforms == s0.uniforms,
{
    assert(s2.pixels@ =~= s1.pixels@);
    assert(s2.depth_buffer.depth_buffer@ =~= s1.depth_buffer.depth_buffer@);
    assert(s2.fragment_buffer.fragments@ =~= s1.fragment_buffer.fragments@);
    assert(s2.fragment_slab.entries@ =~= s1.fragment_slab.entries@);
}

/// A shade pass that finds no fragment carrying its shader id leaves the
/// color and fragment buffers exactly as they were.
pub proof fn lemma_render_no_match<S: FragmentShader>(pre: Fuwa, post: Fuwa, sid: int, shader: S)
    requires
        render_rel(pre, post, sid, shader),
        pre.pixels@.len() == 4 * pre.pixel_count,
        pre.fragment_buffer.fragments@.len() == pre.pixel_count,
        forall|i: int|
            0 <= i < pre.pixel_count ==> !frag_matches(
                #[trigger] pre.fragment_buffer.fragments@[i],
                sid,
            ),
    ensures
        post.pixels@ == pre.pixels@,
        post.fragment_buffer.fragments@ == pre.fragment_buffer.fragments@,
        post.depth_buffer == pre.depth_buffer,
        post.fragment_slab == pre.fragment_slab,
        post.uniforms == pre.uniforms,
{
    assert forall|b: int| 0 <= b < post.pixels@.len() implies post.pixels@[b] == pre.pixels@[b] by {
        vstd::arithmetic::div_mod::lemma_fundamental_div_mod(b, 4);
        let j = b / 4;
        let k = b % 4;
        assert(0 <= j < pre.pixel_count) by {
            vstd::arithmetic::div_mod::lemma_div_pos_is_pos(b, 4);
            if j >= pre.pixel_count {
                assert(b >= 4 * pre.pixel_count) by (nonlinear_arith)
                    requires
                        b == 4 * j + k,
                        j >= pre.pixel_count,
                        k >= 0,
                ;
            }
        }
        assert(crate::fuwa::render_pixel_ok(
            pre.fragment_buffer.fragments@[j],
            post.fragment_buffer.fragments@[j],
            pre.pixels@,
            post.pixels@,
            j,
            sid,
            shader,
            pre.fragment_slab.entries@,
            pre.uniforms,
        ));
        assert(post.pixels@[4 * j + k] == pre.pixels@[4 * j + k]);
    }
    assert(post.pixels@ =~= pre.pixels@);
    assert forall|i: int|
        0 <= i < post.fragment_buffer.fragments@.len() implies post.fragment_buffer.fragments@[i]
        == pre.fragment_buffer.fragments@[i] by {
        assert(crate::fuwa::render_pixel_ok(
            pre.fragment_buffer.fragments@[i],
            post.fragment_buffer.fragments@[i],
            pre.pixels@,
            post.pixels@,
            i,
            sid,
            shader,
            pre.fragment_slab.entries@,
            pre.uniforms,
        ));
    }
    assert(post.fragment_buffer.fragments@ =~= pre.fragment_buffer.fragments@);
}

/// A shade pass empties every slot carrying its shader id, so running the
/// same pass again changes nothing.
pub proof fn lemma_render_idempotent<S: FragmentShader>(
    s0: Fuwa,
    s1: Fuwa,
    s2: Fuwa,
    sid: int,
    shader: S,
)
    requires
        render_rel(s0, s1, sid, shader),
        render_rel(s1, s2, sid, shader),
        s0.pixels@.len() == 4 * s0.pixel_count,
        s0.fragment_buffer.fragments@.len() == s0.pixel_count,
    ensures
        s2.pixels@ == s1.pixels@,
        s2.fragment_buffer.fragments@ == s1.fragment_buffer.fragments@,
        s2.depth_buffer == s1.depth_buffer,
        s2.fragment_slab == s1.fragment_slab,
        s2.uniforms == s1.uniforms,
{
    assert forall|i: int| 0 <= i < s1.pixel_count implies !frag_matches(
        #[trigger] s1.fragment_buffer.fragments@[i],
        sid,
    ) by {
        assert(crate::fuwa::render_pixel_ok(
            s0.fragment_buffer.fragments@[i],
            s1.fragment_buffer.fragments@[i],
            s0.pixels@,
            s1.pixels@,
            i,
            sid,
            shader,
            s0.fragment_slab.entries@,
            s0.uniforms,
        ));
    }
    lemma_render_no_match(s1, s2, sid, shader);
}

} // verus!
