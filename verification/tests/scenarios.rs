use fuwa::fragment_shader::{ColorBlend, Textured};
use fuwa::fuwa::Fuwa;
use fuwa::mesh::IndexedVertexList;
use fuwa::pipeline::draw;
use fuwa::vertex_shader::BasicVertexShader;

fn fx(v: f64) -> i64 {
    (v * 65536.0).round() as i64
}

/// A vertex record: view-space position then payload.
fn rec(x: f64, y: f64, z: f64, a: f64, b: f64, c: f64) -> [i64; 6] {
    [fx(x), fx(y), fx(z), fx(a), fx(b), fx(c)]
}

fn pixel(fuwa: &Fuwa, x: u32, y: u32) -> [u8; 4] {
    let i = (4 * (y * fuwa.width + x)) as usize;
    let f = fuwa.frame();
    [f[i], f[i + 1], f[i + 2], f[i + 3]]
}

fn assert_near(got: [u8; 4], want: [u8; 4], tol: i32) {
    for k in 0..4 {
        let d = (got[k] as i32 - want[k] as i32).abs();
        assert!(
            d <= tol,
            "channel {} of {:?} is not within {} of {:?}",
            k,
            got,
            tol,
            want
        );
    }
}

/// One triangle whose screen corners are (2,2), (2,6) and (6,2) at an 8x8
/// viewport, with red, blue and green payloads.
fn single_triangle() -> IndexedVertexList {
    IndexedVertexList {
        raw_vertex_list: vec![
            rec(-0.5, 0.5, 1.0, 1.0, 0.0, 0.0),
            rec(-0.5, -0.5, 1.0, 0.0, 0.0, 1.0),
            rec(0.5, 0.5, 1.0, 0.0, 1.0, 0.0),
        ],
        index_list: vec![0, 1, 2],
    }
}

/// A full-screen pair of triangles at one view depth with one payload.
fn full_screen_quad(z: f64, r: f64, g: f64, b: f64) -> IndexedVertexList {
    IndexedVertexList {
        raw_vertex_list: vec![
            rec(-1.0 * z, 1.0 * z, z, r, g, b),
            rec(-1.0 * z, -1.0 * z, z, r, g, b),
            rec(1.0 * z, 1.0 * z, z, r, g, b),
            rec(1.0 * z, -1.0 * z, z, r, g, b),
        ],
        index_list: vec![0, 1, 2, 2, 1, 3],
    }
}

/// A full-screen quad carrying UV coordinates over the unit square.
fn textured_quad() -> IndexedVertexList {
    IndexedVertexList {
        raw_vertex_list: vec![
            rec(-1.0, 1.0, 1.0, 0.0, 0.0, 0.0),
            rec(-1.0, -1.0, 1.0, 0.0, 1.0, 0.0),
            rec(1.0, 1.0, 1.0, 1.0, 0.0, 0.0),
            rec(1.0, -1.0, 1.0, 1.0, 1.0, 0.0),
        ],
        index_list: vec![0, 1, 2, 2, 1, 3],
    }
}

#[test]
fn single_opaque_triangle_color_blend() {
    let mut fuwa = Fuwa::new(8, 8, 1);
    let vs = BasicVertexShader::new();
    let shader = ColorBlend::new();
    fuwa.clear_all();
    draw(&mut fuwa, &vs, 0, &single_triangle());
    fuwa.render(&shader, 0);
    assert_eq!(pixel(&fuwa, 2, 2), [255, 0, 0, 255]);
    assert_near(pixel(&fuwa, 5, 2), [64, 191, 0, 255], 2);
    let corner = pixel(&fuwa, 7, 7);
    assert_eq!(&corner[0..3], &[0, 0, 0]);
}

#[test]
fn depth_occlusion_nearer_wins() {
    let mut fuwa = Fuwa::new(8, 8, 1);
    let vs = BasicVertexShader::new();
    let shader = ColorBlend::new();
    fuwa.clear_all();
    draw(&mut fuwa, &vs, 0, &full_screen_quad(1.0, 1.0, 0.0, 0.0));
    draw(&mut fuwa, &vs, 1, &full_screen_quad(2.0, 0.0, 0.0, 1.0));
    fuwa.render(&shader, 0);
    fuwa.render(&shader, 1);
    for x in 0..8 {
        for y in 0..8 {
            assert_near(pixel(&fuwa, x, y), [255, 0, 0, 255], 2);
        }
    }
    // reversed draw order: the nearer surface still wins
    let mut fuwa2 = Fuwa::new(8, 8, 1);
    fuwa2.clear_all();
    draw(&mut fuwa2, &vs, 1, &full_screen_quad(2.0, 0.0, 0.0, 1.0));
    draw(&mut fuwa2, &vs, 0, &full_screen_quad(1.0, 1.0, 0.0, 0.0));
    fuwa2.render(&shader, 0);
    fuwa2.render(&shader, 1);
    assert_near(pixel(&fuwa2, 4, 4), [255, 0, 0, 255], 2);
}

#[test]
fn back_face_is_culled() {
    let mut fuwa = Fuwa::new(8, 8, 1);
    let vs = BasicVertexShader::new();
    let shader = ColorBlend::new();
    fuwa.clear_all();
    let mut mesh = single_triangle();
    mesh.index_list = vec![0, 2, 1];
    draw(&mut fuwa, &vs, 0, &mesh);
    fuwa.render(&shader, 0);
    for x in 0..8 {
        for y in 0..8 {
            assert_eq!(pixel(&fuwa, x, y), [0, 0, 0, 0]);
        }
    }
}

#[test]
fn degenerate_triangle_leaves_no_trace() {
    let mut fuwa = Fuwa::new(8, 8, 1);
    let vs = BasicVertexShader::new();
    fuwa.clear_all();
    let mesh = IndexedVertexList {
        raw_vertex_list: vec![
            rec(-0.5, 0.5, 1.0, 1.0, 0.0, 0.0),
            rec(0.0, 0.5, 1.0, 0.0, 1.0, 0.0),
            rec(0.5, 0.5, 1.0, 0.0, 0.0, 1.0),
        ],
        index_list: vec![0, 1, 2],
    };
    draw(&mut fuwa, &vs, 0, &mesh);
    for cell in fuwa.depth_buffer.depth_buffer.iter() {
        assert_eq!(*cell, 0);
    }
    for slot in fuwa.fragment_buffer.fragments.iter() {
        assert!(slot.is_none());
    }
}

#[test]
fn textured_quad_reads_the_checker() {
    let mut fuwa = Fuwa::new(8, 8, 1);
    let vs = BasicVertexShader::new();
    fuwa.clear_all();
    let mut data = Vec::new();
    // row 0: red then green; row 1: blue then yellow
    data.extend_from_slice(&[255, 0, 0, 255]);
    data.extend_from_slice(&[0, 255, 0, 255]);
    data.extend_from_slice(&[0, 0, 255, 255]);
    data.extend_from_slice(&[255, 255, 0, 255]);
    let handle = fuwa.load_texture(data, 2, 2);
    let shader = Textured::new(handle);
    draw(&mut fuwa, &vs, 0, &textured_quad());
    fuwa.render(&shader, 0);
    assert_eq!(pixel(&fuwa, 1, 1), [255, 0, 0, 255]);
    assert_eq!(pixel(&fuwa, 6, 1), [0, 255, 0, 255]);
    assert_eq!(pixel(&fuwa, 1, 6), [0, 0, 255, 255]);
    assert_eq!(pixel(&fuwa, 6, 6), [255, 255, 0, 255]);
}

#[test]
fn two_shaders_in_one_frame() {
    let mut fuwa = Fuwa::new(8, 8, 1);
    let vs = BasicVertexShader::new();
    fuwa.clear_all();
    let mut data = Vec::new();
    for _ in 0..4 {
        data.extend_from_slice(&[0, 255, 255, 255]);
    }
    let handle = fuwa.load_texture(data, 2, 2);
    let textured = Textured::new(handle);
    let color = ColorBlend::new();
    // the color triangle sits nearer over its corner; the textured quad
    // covers the whole screen farther away
    draw(&mut fuwa, &vs, 0, &single_triangle());
    draw(&mut fuwa, &vs, 1, &full_screen_quad(2.0, 0.0, 0.0, 0.0));
    fuwa.render(&color, 0);
    fuwa.render(&textured, 1);
    // covered only by the quad: textured
    assert_eq!(pixel(&fuwa, 7, 7), [0, 255, 255, 255]);
    // covered by both: the triangle is nearer and wins with its shader
    assert_eq!(pixel(&fuwa, 2, 2), [255, 0, 0, 255]);
}

#[test]
fn constant_attribute_is_reproduced_exactly() {
    let mut fuwa = Fuwa::new(8, 8, 1);
    let vs = BasicVertexShader::new();
    let shader = ColorBlend::new();
    fuwa.clear_all();
    let mesh = IndexedVertexList {
        raw_vertex_list: vec![
            rec(-0.5, 0.5, 1.0, 0.5, 0.25, 1.0),
            rec(-0.5, -0.5, 1.0, 0.5, 0.25, 1.0),
            rec(0.5, 0.5, 1.0, 0.5, 0.25, 1.0),
        ],
        index_list: vec![0, 1, 2],
    };
    draw(&mut fuwa, &vs, 0, &mesh);
    fuwa.render(&shader, 0);
    // (0.5, 0.25, 1) scaled to bytes, exactly
    assert_eq!(pixel(&fuwa, 3, 3), [127, 63, 255, 255]);
    assert_eq!(pixel(&fuwa, 2, 2), [127, 63, 255, 255]);
}

#[test]
fn uniform_depth_interpolates_to_the_vertex_depth() {
    // all three vertices at view depth 1: every covered cell holds
    // exactly the reciprocal depth 1, a consequence of the edge functions'
    // partition of unity
    let mut fuwa = Fuwa::new(8, 8, 1);
    let vs = BasicVertexShader::new();
    fuwa.clear_all();
    draw(&mut fuwa, &vs, 0, &single_triangle());
    let mut covered = 0;
    for cell in fuwa.depth_buffer.depth_buffer.iter() {
        if *cell != 0 {
            assert_eq!(*cell, 65536);
            covered += 1;
        }
    }
    assert!(covered > 0);
}

#[test]
fn matches_reference_scanline_rasterizer() {
    // reference: per-pixel edge tests and barycentric interpolation in f64
    let mut fuwa = Fuwa::new(8, 8, 1);
    let vs = BasicVertexShader::new();
    let shader = ColorBlend::new();
    fuwa.clear_all();
    draw(&mut fuwa, &vs, 0, &single_triangle());
    fuwa.render(&shader, 0);
    // screen-space corners and payloads of single_triangle
    let p = [(2.0f64, 2.0f64), (2.0, 6.0), (6.0, 2.0)];
    let col = [(1.0f64, 0.0f64, 0.0f64), (0.0, 0.0, 1.0), (0.0, 1.0, 0.0)];
    let edge = |a: (f64, f64), b: (f64, f64), x: f64, y: f64| -> f64 {
        (b.1 - a.1) * x + (a.0 - b.0) * y + (b.0 * a.1 - b.1 * a.0)
    };
    let area = edge(p[1], p[2], 1.0, 1.0) + edge(p[2], p[0], 1.0, 1.0) + edge(p[0], p[1], 1.0, 1.0);
    // the reference walks the same clamped bounding box, exclusive at the
    // ceiling fence
    let min_x = p.iter().map(|v| v.0).fold(f64::MAX, f64::min).max(0.0).floor() as u32;
    let max_x = p.iter().map(|v| v.0).fold(f64::MIN, f64::max).min(8.0).ceil() as u32;
    let min_y = p.iter().map(|v| v.1).fold(f64::MAX, f64::min).max(0.0).floor() as u32;
    let max_y = p.iter().map(|v| v.1).fold(f64::MIN, f64::max).min(8.0).ceil() as u32;
    for y in 0..8u32 {
        for x in 0..8u32 {
            let e0 = edge(p[1], p[2], x as f64, y as f64);
            let e1 = edge(p[2], p[0], x as f64, y as f64);
            let e2 = edge(p[0], p[1], x as f64, y as f64);
            let in_box = min_x <= x && x < max_x && min_y <= y && y < max_y;
            if in_box && e0 >= 0.0 && e1 >= 0.0 && e2 >= 0.0 {
                let l1 = e1 / area;
                let l2 = e2 / area;
                let l0 = 1.0 - l1 - l2;
                let r = (col[0].0 * l0 + col[1].0 * l1 + col[2].0 * l2) * 255.0;
                let g = (col[0].1 * l0 + col[1].1 * l1 + col[2].1 * l2) * 255.0;
                let b = (col[0].2 * l0 + col[1].2 * l1 + col[2].2 * l2) * 255.0;
                let want = [r as u8, g as u8, b as u8, 255];
                assert_near(pixel(&fuwa, x, y), want, 2);
            } else {
                assert_eq!(&pixel(&fuwa, x, y)[0..3], &[0, 0, 0]);
            }
        }
    }
}
