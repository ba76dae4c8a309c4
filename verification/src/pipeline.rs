//! The pipeline driver: runs the vertex shader over the mesh in parallel,
//! assembles and culls triangles, transforms the survivors to screen
//! space, and hands each one to the rasterizer in turn.
//!
//! Triangle dispatch is serial: concurrent triangles could race on
//! overlapping pixels, so the depth-test order is pinned by the index
//! list. The vertex stage is data-parallel; its output keeps input order.

use vstd::prelude::*;

verus! {

use crate::depth_buffer::depth_merge;
use crate::fragment_buffer::FragmentKey;
use crate::fuwa::Fuwa;
use crate::fx3::{fx3_bounded, Fx3};
use crate::limits::VS_BOUND;
use crate::mesh::{record_bounded, IndexedVertexList, VertexRecord};
use crate::rasterizer::{cand_val, interp_attr, rasterize_triangle};
use crate::triangle::{is_backfacing_spec, transform_triangle_spec, Triangle};
use crate::vertex_shader::VertexShader;
use rayon::prelude::ParallelIterator;

/// The vertex stage's output for every record, in input order.
pub open spec fn vs_outputs<VS: VertexShader>(vs: VS, records: Seq<VertexRecord>) -> Seq<
    (Fx3, Fx3),
> {
    records.map(|i: int, r: VertexRecord| vs.vs_spec(r))
}

/// Relies on rayon's parallel iterator `map` + `collect`: an indexed
/// parallel map collects into a vector in input order, each element
/// produced by one call of the verified vertex-shader entry point.
#[verifier::external_body]
fn par_run_vertex_shader<VS: VertexShader + Sync>(
    vertex_shader: &VS,
    verts: &Vec<VertexRecord>,
) -> (out: Vec<(Fx3, Fx3)>)
    requires
        vertex_shader.wf(),
        forall|i: int| 0 <= i < verts@.len() ==> record_bounded(verts@[i]),
    ensures
        out@.len() == verts@.len(),
        forall|i: int|
            0 <= i < verts@.len() ==> #[trigger] out@[i] == vertex_shader.vs_spec(verts@[i])
                && fx3_bounded(out@[i].0, VS_BOUND as int) && fx3_bounded(
                out@[i].1,
                VS_BOUND as int,
            ),
{
    rayon::iter::IntoParallelRefIterator::par_iter(verts.as_slice()).map(
        |v| vertex_shader.vertex_shader_fn(v),
    ).collect()
}

/// The screen triangle the draw call makes of the mesh's `j`-th index
/// triple: `None` when it is back-facing, behind the eye, or outside the
/// raster range.
pub open spec fn assembled_tri<VS: VertexShader>(
    vs: VS,
    list: IndexedVertexList,
    j: int,
    xfac: int,
    yfac: int,
) -> Option<Triangle> {
    let outs = vs_outputs(vs, list.raw_vertex_list@);
    let v0 = outs[list.index_list@[3 * j] as int];
    let v1 = outs[list.index_list@[3 * j + 1] as int];
    let v2 = outs[list.index_list@[3 * j + 2] as int];
    let t = Triangle { p0: v0.0, p1: v1.0, p2: v2.0, a0: v0.1, a1: v1.1, a2: v2.1 };
    if is_backfacing_spec(t) {
        None
    } else {
        transform_triangle_spec(t, xfac, yfac)
    }
}

/// The depth cell a pixel holds after the first `n` triangles of a draw
/// call: the running merge of each surviving triangle's candidate.
pub open spec fn fold_depth<VS: VertexShader>(
    vs: VS,
    list: IndexedVertexList,
    n: int,
    xfac: int,
    yfac: int,
    w: int,
    h: int,
    x: int,
    y: int,
    d0: i64,
) -> i64
    decreases n,
{
    if n <= 0 {
        d0
    } else {
        let prev = fold_depth(vs, list, n - 1, xfac, yfac, w, h, x, y, d0);
        match assembled_tri(vs, list, n - 1, xfac, yfac) {
            Some(t) => depth_merge(prev, cand_val(t, w, h, x, y)),
            None => prev,
        }
    }
}

/// The fragment slot a draw call leaves at a pixel: untouched unless the
/// pass deepened the cell, in which case it keys a stored payload
/// interpolated by some surviving triangle whose candidate is the final
/// depth.
pub open spec fn draw_frag_ok<VS: VertexShader>(
    vs: VS,
    list: IndexedVertexList,
    n: int,
    xfac: int,
    yfac: int,
    w: int,
    h: int,
    x: int,
    y: int,
    sid: int,
    d_old: i64,
    d_new: i64,
    f_old: Option<FragmentKey>,
    f_new: Option<FragmentKey>,
    slab: Seq<Fx3>,
) -> bool {
    if d_new > d_old {
        &&& f_new is Some
        &&& f_new.unwrap().shader_index == sid
        &&& f_new.unwrap().fragment_key < slab.len()
        &&& exists|j: int|
            0 <= j < n && #[trigger] assembled_tri(vs, list, j, xfac, yfac) is Some && cand_val(
                assembled_tri(vs, list, j, xfac, yfac).unwrap(),
                w,
                h,
                x,
                y,
            ) == d_new && slab[f_new.unwrap().fragment_key as int] == interp_attr(
                assembled_tri(vs, list, j, xfac, yfac).unwrap(),
                x,
                y,
            )
    } else {
        f_new == f_old
    }
}

/// One draw call: the vertex stage runs over every record in parallel,
/// triangles are assembled from the index triples, back-facing ones are
/// culled, the rest are perspective-transformed and rasterized in order,
/// tagging their fragments with `fs_index`.
#[verifier::loop_isolation(false)]
#[verifier::rlimit(100)]
pub fn draw<VS: VertexShader + Sync>(
    fuwa: &mut Fuwa,
    vertex_shader: &VS,
    fs_index: usize,
    indexed_list: &IndexedVertexList,
)
    requires
        old(fuwa).wf(),
        vertex_shader.wf(),
        indexed_list.wf(),
    ensures
        final(fuwa).wf(),
        Fuwa::same_shape(*old(fuwa), *final(fuwa)),
        final(fuwa).pixels == old(fuwa).pixels,
        final(fuwa).uniforms == old(fuwa).uniforms,
        old(fuwa).fragment_slab.entries@.len() <= final(fuwa).fragment_slab.entries@.len(),
        forall|j: int|
            0 <= j < old(fuwa).fragment_slab.entries@.len() ==> final(fuwa).fragment_slab.entries@[j] == old(fuwa).fragment_slab.entries@[j],
        forall|px: int, py: int|
            0 <= px < old(fuwa).width && 0 <= py < old(fuwa).height
                ==> final(fuwa).depth_buffer.depth_buffer@[py * old(fuwa).width + px]
                == #[trigger] fold_depth(
                *vertex_shader,
                *indexed_list,
                indexed_list.index_list@.len() as int / 3,
                old(fuwa).x_factor as int,
                old(fuwa).y_factor as int,
                old(fuwa).width as int,
                old(fuwa).height as int,
                px,
                py,
                old(fuwa).depth_buffer.depth_buffer@[py * old(fuwa).width + px],
            ),
        forall|px: int, py: int|
            0 <= px < old(fuwa).width && 0 <= py < old(fuwa).height ==> #[trigger] draw_frag_ok(
                *vertex_shader,
                *indexed_list,
                indexed_list.index_list@.len() as int / 3,
                old(fuwa).x_factor as int,
                old(fuwa).y_factor as int,
                old(fuwa).width as int,
                old(fuwa).height as int,
                px,
                py,
                fs_index as int,
                old(fuwa).depth_buffer.depth_buffer@[py * old(fuwa).width + px],
                final(fuwa).depth_buffer.depth_buffer@[py * old(fuwa).width + px],
                old(fuwa).fragment_buffer.fragments@[py * old(fuwa).width + px],
                final(fuwa).fragment_buffer.fragments@[py * old(fuwa).width + px],
                final(fuwa).fragment_slab.entries@,
            ),
{
    let ghost gvs = *vertex_shader;
    let ghost glist = *indexed_list;
    let ghost w = fuwa.width as int;
    let ghost h = fuwa.height as int;
    let ghost xf = fuwa.x_factor as int;
    let ghost yf = fuwa.y_factor as int;
    let ghost pre_depth = fuwa.depth_buffer.depth_buffer@;
    let ghost pre_frag = fuwa.fragment_buffer.fragments@;
    let ghost pre_slab = fuwa.fragment_slab.entries@;
    let vs_output = par_run_vertex_shader(vertex_shader, &indexed_list.raw_vertex_list);
    proof {
        assert(vs_output@ =~= vs_outputs(gvs, glist.raw_vertex_list@));
    }
    let ntris = indexed_list.index_list.len() / 3;
    proof {
        vstd::arithmetic::div_mod::lemma_fundamental_div_mod(
            glist.index_list@.len() as int,
            3,
        );
    }
    let mut j: usize = 0;
    while j < ntris
        invariant
            0 <= j <= ntris,
            fuwa.wf(),
            fuwa.width == old(fuwa).width,
            fuwa.height == old(fuwa).height,
            fuwa.pixel_count == old(fuwa).pixel_count,
            fuwa.x_factor == old(fuwa).x_factor,
            fuwa.y_factor == old(fuwa).y_factor,
            fuwa.thread_count == old(fuwa).thread_count,
            fuwa.pixels == old(fuwa).pixels,
            fuwa.uniforms == old(fuwa).uniforms,
            fuwa.depth_buffer.depth_buffer@.len() == pre_depth.len(),
            fuwa.fragment_buffer.fragments@.len() == pre_frag.len(),
            pre_slab.len() <= fuwa.fragment_slab.entries@.len(),
            forall|k: int|
                0 <= k < pre_slab.len() ==> fuwa.fragment_slab.entries@[k] == pre_slab[k],
            forall|px: int, py: int|
                0 <= px < w && 0 <= py < h ==> fuwa.depth_buffer.depth_buffer@[#[trigger] (py * w
                    + px)] == fold_depth(gvs, glist, j as int, xf, yf, w, h, px, py, pre_depth[py
                    * w + px]),
            forall|px: int, py: int|
                0 <= px < w && 0 <= py < h ==> #[trigger] draw_frag_ok(
                    gvs,
                    glist,
                    j as int,
                    xf,
                    yf,
                    w,
                    h,
                    px,
                    py,
                    fs_index as int,
                    pre_depth[py * w + px],
                    fuwa.depth_buffer.depth_buffer@[py * w + px],
                    pre_frag[py * w + px],
                    fuwa.fragment_buffer.fragments@[py * w + px],
                    fuwa.fragment_slab.entries@,
                ),
        decreases ntris - j,
    {
        proof {
            assert(3 * (j as int) + 3 <= glist.index_list@.len());
        }
        let i0 = indexed_list.index_list[3 * j];
        let i1 = indexed_list.index_list[3 * j + 1];
        let i2 = indexed_list.index_list[3 * j + 2];
        let v0 = vs_output[i0];
        let v1 = vs_output[i1];
        let v2 = vs_output[i2];
        let tri = Triangle::new([v0.0, v1.0, v2.0], [v0.1, v1.1, v2.1]);
        let ghost db0 = fuwa.depth_buffer.depth_buffer@;
        let ghost fb0 = fuwa.fragment_buffer.fragments@;
        let ghost sb0 = fuwa.fragment_slab.entries@;
        if !tri.is_backfacing() {
            let transformed = tri.transform_screen_space_perspective(
                fuwa.x_factor,
                fuwa.y_factor,
            );
            match transformed {
                Some(st) => {
                    proof {
                        assert(assembled_tri(gvs, glist, j as int, xf, yf) == Some(st));
                    }
                    rasterize_triangle(
                        &mut fuwa.depth_buffer,
                        &mut fuwa.fragment_buffer,
                        &mut fuwa.fragment_slab,
                        &st,
                        fs_index,
                        fuwa.width,
                        fuwa.height,
                    );
                    proof {
                        lemma_draw_step_some(
                            gvs,
                            glist,
                            j as int,
                            xf,
                            yf,
                            w,
                            h,
                            fs_index as int,
                            st,
                            pre_depth,
                            db0,
                            fuwa.depth_buffer.depth_buffer@,
                            pre_frag,
                            fb0,
                            fuwa.fragment_buffer.fragments@,
                            pre_slab,
                            sb0,
                            fuwa.fragment_slab.entries@,
                        );
                    }
                },
                None => {
                    proof {
                        assert(assembled_tri(gvs, glist, j as int, xf, yf) is None);
                        lemma_draw_step_none(gvs, glist, j as int, xf, yf, w, h);
                        lemma_draw_skip_all(
                            gvs,
                            glist,
                            j as int,
                            xf,
                            yf,
                            w,
                            h,
                            fs_index as int,
                            pre_depth,
                            fuwa.depth_buffer.depth_buffer@,
                            pre_frag,
                            fuwa.fragment_buffer.fragments@,
                            fuwa.fragment_slab.entries@,
                        );
                    }
                },
            }
        } else {
            proof {
                assert(assembled_tri(gvs, glist, j as int, xf, yf) is None);
                lemma_draw_step_none(gvs, glist, j as int, xf, yf, w, h);
                lemma_draw_skip_all(
                    gvs,
                    glist,
                    j as int,
                    xf,
                    yf,
                    w,
                    h,
                    fs_index as int,
                    pre_depth,
                    fuwa.depth_buffer.depth_buffer@,
                    pre_frag,
                    fuwa.fragment_buffer.fragments@,
                    fuwa.fragment_slab.entries@,
                );
            }
        }
        j = j + 1;
    }
}

/// A skipped triangle leaves the running depth fold and the fragment
/// witnesses where they were.
proof fn lemma_draw_step_none<VS: VertexShader>(
    vs: VS,
    list: IndexedVertexList,
    j: int,
    xf: int,
    yf: int,
    w: int,
    h: int,
)
    requires
        assembled_tri(vs, list, j, xf, yf) is None,
        j >= 0,
    ensures
        forall|px: int, py: int, d0: i64|
            #[trigger] fold_depth(vs, list, j + 1, xf, yf, w, h, px, py, d0) == fold_depth(
                vs,
                list,
                j,
                xf,
                yf,
                w,
                h,
                px,
                py,
                d0,
            ),
{
}

/// The running depth fold never drops below its seed.
proof fn lemma_fold_depth_ge<VS: VertexShader>(
    vs: VS,
    list: IndexedVertexList,
    n: int,
    xf: int,
    yf: int,
    w: int,
    h: int,
    x: int,
    y: int,
    d0: i64,
)
    ensures
        fold_depth(vs, list, n, xf, yf, w, h, x, y, d0) >= d0,
    decreases n,
{
    if n > 0 {
        lemma_fold_depth_ge(vs, list, n - 1, xf, yf, w, h, x, y, d0);
    }
}

/// Fragment witnesses carry over any step that leaves a pixel untouched.
proof fn lemma_frag_ok_carry<VS: VertexShader>(
    vs: VS,
    list: IndexedVertexList,
    j: int,
    xf: int,
    yf: int,
    w: int,
    h: int,
    x: int,
    y: int,
    sid: int,
    d_old: i64,
    d_new: i64,
    f_old: Option<FragmentKey>,
    f_new: Option<FragmentKey>,
    slab: Seq<Fx3>,
)
    requires
        j >= 0,
        draw_frag_ok(vs, list, j, xf, yf, w, h, x, y, sid, d_old, d_new, f_old, f_new, slab),
    ensures
        draw_frag_ok(vs, list, j + 1, xf, yf, w, h, x, y, sid, d_old, d_new, f_old, f_new, slab),
{
    if d_new > d_old {
        let jj = choose|jj: int|
            0 <= jj < j && #[trigger] assembled_tri(vs, list, jj, xf, yf) is Some && cand_val(
                assembled_tri(vs, list, jj, xf, yf).unwrap(),
                w,
                h,
                x,
                y,
            ) == d_new && slab[f_new.unwrap().fragment_key as int] == interp_attr(
                assembled_tri(vs, list, jj, xf, yf).unwrap(),
                x,
                y,
            );
        assert(0 <= jj < j + 1 && assembled_tri(vs, list, jj, xf, yf) is Some && cand_val(
            assembled_tri(vs, list, jj, xf, yf).unwrap(),
            w,
            h,
            x,
            y,
        ) == d_new && slab[f_new.unwrap().fragment_key as int] == interp_attr(
            assembled_tri(vs, list, jj, xf, yf).unwrap(),
            x,
            y,
        ));
    }
}

/// One rasterized triangle advances the running depth fold by one merge
/// and preserves or installs the fragment witness.
proof fn lemma_draw_step_some<VS: VertexShader>(
    vs: VS,
    list: IndexedVertexList,
    j: int,
    xf: int,
    yf: int,
    w: int,
    h: int,
    sid: int,
    st: Triangle,
    pre_depth: Seq<i64>,
    db0: Seq<i64>,
    db1: Seq<i64>,
    pre_frag: Seq<Option<FragmentKey>>,
    fb0: Seq<Option<FragmentKey>>,
    fb1: Seq<Option<FragmentKey>>,
    pre_slab: Seq<Fx3>,
    sb0: Seq<Fx3>,
    sb1: Seq<Fx3>,
)
    requires
        j >= 0,
        assembled_tri(vs, list, j, xf, yf) == Some(st),
        db0.len() == pre_depth.len(),
        db1.len() == db0.len(),
        fb0.len() == pre_frag.len(),
        fb1.len() == fb0.len(),
        w * h + 8 == db0.len(),
        w * h == fb0.len(),
        1 <= w,
        1 <= h,
        sb0.len() <= sb1.len(),
        forall|k: int| 0 <= k < sb0.len() ==> sb1[k] == sb0[k],
        pre_slab.len() <= sb0.len(),
        forall|k: int| 0 <= k < pre_slab.len() ==> sb0[k] == pre_slab[k],
        forall|px: int, py: int|
            0 <= px < w && 0 <= py < h ==> db0[#[trigger] (py * w + px)] == fold_depth(
                vs,
                list,
                j,
                xf,
                yf,
                w,
                h,
                px,
                py,
                pre_depth[py * w + px],
            ),
        forall|px: int, py: int|
            0 <= px < w && 0 <= py < h ==> #[trigger] draw_frag_ok(
                vs,
                list,
                j,
                xf,
                yf,
                w,
                h,
                px,
                py,
                sid,
                pre_depth[py * w + px],
                db0[py * w + px],
                pre_frag[py * w + px],
                fb0[py * w + px],
                sb0,
            ),
        forall|px: int, py: int|
            0 <= px < w && 0 <= py < h ==> #[trigger] crate::rasterizer::raster_pixel_post(
                st,
                sid,
                w,
                h,
                px,
                py,
                db0[py * w + px],
                db1[py * w + px],
                fb0[py * w + px],
                fb1[py * w + px],
                sb1,
            ),
    ensures
        forall|px: int, py: int|
            0 <= px < w && 0 <= py < h ==> db1[#[trigger] (py * w + px)] == fold_depth(
                vs,
                list,
                j + 1,
                xf,
                yf,
                w,
                h,
                px,
                py,
                pre_depth[py * w + px],
            ),
        forall|px: int, py: int|
            0 <= px < w && 0 <= py < h ==> #[trigger] draw_frag_ok(
                vs,
                list,
                j + 1,
                xf,
                yf,
                w,
                h,
                px,
                py,
                sid,
                pre_depth[py * w + px],
                db1[py * w + px],
                pre_frag[py * w + px],
                fb1[py * w + px],
                sb1,
            ),
{
    assert forall|px: int, py: int| 0 <= px < w && 0 <= py < h implies db1[#[trigger] (py * w
        + px)] == fold_depth(vs, list, j + 1, xf, yf, w, h, px, py, pre_depth[py * w + px]) by {
        let i = py * w + px;
        assert(crate::rasterizer::raster_pixel_post(
            st,
            sid,
            w,
            h,
            px,
            py,
            db0[i],
            db1[i],
            fb0[i],
            fb1[i],
            sb1,
        ));
        assert(db0[i] == fold_depth(vs, list, j, xf, yf, w, h, px, py, pre_depth[i]));
        assert(fold_depth(vs, list, j + 1, xf, yf, w, h, px, py, pre_depth[i]) == depth_merge(
            fold_depth(vs, list, j, xf, yf, w, h, px, py, pre_depth[i]),
            cand_val(st, w, h, px, py),
        ));
    }
    assert forall|px: int, py: int| 0 <= px < w && 0 <= py < h implies #[trigger] draw_frag_ok(
        vs,
        list,
        j + 1,
        xf,
        yf,
        w,
        h,
        px,
        py,
        sid,
        pre_depth[py * w + px],
        db1[py * w + px],
        pre_frag[py * w + px],
        fb1[py * w + px],
        sb1,
    ) by {
        let i = py * w + px;
        let d_pre = pre_depth[i];
        let d0 = db0[i];
        let d1 = db1[i];
        let c = cand_val(st, w, h, px, py);
        assert(crate::rasterizer::raster_pixel_post(st, sid, w, h, px, py, d0, d1, fb0[i], fb1[i], sb1));
        assert(draw_frag_ok(
            vs,
            list,
            j,
            xf,
            yf,
            w,
            h,
            px,
            py,
            sid,
            d_pre,
            d0,
            pre_frag[i],
            fb0[i],
            sb0,
        ));
        assert(d0 == fold_depth(vs, list, j, xf, yf, w, h, px, py, d_pre));
        lemma_fold_depth_ge(vs, list, j, xf, yf, w, h, px, py, d_pre);
        if d1 > d_pre {
            if c > d0 {
                assert(d1 == c);
                assert(fb1[i] is Some);
                assert(assembled_tri(vs, list, j, xf, yf) is Some);
                assert(0 <= j < j + 1 && assembled_tri(vs, list, j, xf, yf) is Some && cand_val(
                    assembled_tri(vs, list, j, xf, yf).unwrap(),
                    w,
                    h,
                    px,
                    py,
                ) == d1 && sb1[fb1[i].unwrap().fragment_key as int] == interp_attr(
                    assembled_tri(vs, list, j, xf, yf).unwrap(),
                    px,
                    py,
                ));
            } else {
                assert(d1 == d0);
                assert(fb1[i] == fb0[i]);
                assert(d0 > d_pre);
                let key = fb0[i].unwrap();
                assert(key.fragment_key < sb0.len());
                assert(sb1[key.fragment_key as int] == sb0[key.fragment_key as int]);
                let jj = choose|jj: int|
                    0 <= jj < j && #[trigger] assembled_tri(vs, list, jj, xf, yf) is Some
                        && cand_val(assembled_tri(vs, list, jj, xf, yf).unwrap(), w, h, px, py)
                        == d0 && sb0[key.fragment_key as int] == interp_attr(
                        assembled_tri(vs, list, jj, xf, yf).unwrap(),
                        px,
                        py,
                    );
                assert(0 <= jj < j + 1 && assembled_tri(vs, list, jj, xf, yf) is Some && cand_val(
                    assembled_tri(vs, list, jj, xf, yf).unwrap(),
                    w,
                    h,
                    px,
                    py,
                ) == d1 && sb1[fb1[i].unwrap().fragment_key as int] == interp_attr(
                    assembled_tri(vs, list, jj, xf, yf).unwrap(),
                    px,
                    py,
                ));
            }
        } else {
            assert(d1 == d0 && d0 == d_pre);
            assert(fb1[i] == fb0[i] && fb0[i] == pre_frag[i]);
        }
    }
}

/// A skipped triangle preserves every pixel's fragment witness.
proof fn lemma_draw_skip_all<VS: VertexShader>(
    vs: VS,
    list: IndexedVertexList,
    j: int,
    xf: int,
    yf: int,
    w: int,
    h: int,
    sid: int,
    pre_depth: Seq<i64>,
    db: Seq<i64>,
    pre_frag: Seq<Option<FragmentKey>>,
    fb: Seq<Option<FragmentKey>>,
    slab: Seq<Fx3>,
)
    requires
        j >= 0,
        forall|px: int, py: int|
            0 <= px < w && 0 <= py < h ==> #[trigger] draw_frag_ok(
                vs,
                list,
                j,
                xf,
                yf,
                w,
                h,
                px,
                py,
                sid,
                pre_depth[py * w + px],
                db[py * w + px],
                pre_frag[py * w + px],
                fb[py * w + px],
                slab,
            ),
    ensures
        forall|px: int, py: int|
            0 <= px < w && 0 <= py < h ==> #[trigger] draw_frag_ok(
                vs,
                list,
                j + 1,
                xf,
                yf,
                w,
                h,
                px,
                py,
                sid,
                pre_depth[py * w + px],
                db[py * w + px],
                pre_frag[py * w + px],
                fb[py * w + px],
                slab,
            ),
{
    assert forall|px: int, py: int| 0 <= px < w && 0 <= py < h implies #[trigger] draw_frag_ok(
        vs,
        list,
        j + 1,
        xf,
        yf,
        w,
        h,
        px,
        py,
        sid,
        pre_depth[py * w + px],
        db[py * w + px],
        pre_frag[py * w + px],
        fb[py * w + px],
        slab,
    ) by {
        lemma_frag_ok_carry(
            vs,
            list,
            j,
            xf,
            yf,
            w,
            h,
            px,
            py,
            sid,
            pre_depth[py * w + px],
            db[py * w + px],
            pre_frag[py * w + px],
            fb[py * w + px],
            slab,
        );
    }
}

} // verus!