use fuwa::fragment_shader::ColorBlend;
use fuwa::fuwa::Fuwa;
use fuwa::mesh::IndexedVertexList;
use fuwa::pipeline::draw;
use fuwa::vertex_shader::BasicVertexShader;

fn fx(v: f64) -> i64 {
    (v * 65536.0).round() as i64
}

fn rec(x: f64, y: f64, z: f64, a: f64, b: f64, c: f64) -> [i64; 6] {
    [fx(x), fx(y), fx(z), fx(a), fx(b), fx(c)]
}

fn triangle_mesh() -> IndexedVertexList {
    IndexedVertexList {
        raw_vertex_list: vec![
            rec(-0.5, 0.5, 1.0, 1.0, 0.0, 0.0),
            rec(-0.5, -0.5, 1.0, 0.0, 0.0, 1.0),
            rec(0.5, 0.5, 1.0, 0.0, 1.0, 0.0),
        ],
        index_list: vec![0, 1, 2],
    }
}

fn snapshot(fuwa: &Fuwa) -> (Vec<u8>, Vec<i64>, usize, usize) {
    (
        fuwa.pixels.clone(),
        fuwa.depth_buffer.depth_buffer.clone(),
        fuwa.fragment_buffer.fragments.iter().filter(|s| s.is_some()).count(),
        fuwa.fragment_slab.len(),
    )
}

#[test]
fn clear_all_resets_every_buffer() {
    let mut fuwa = Fuwa::new(8, 8, 1);
    let vs = BasicVertexShader::new();
    draw(&mut fuwa, &vs, 0, &triangle_mesh());
    fuwa.clear_all();
    assert!(fuwa.pixels.iter().all(|b| *b == 0));
    assert!(fuwa.depth_buffer.depth_buffer.iter().all(|c| *c == 0));
    assert!(fuwa.fragment_buffer.fragments.iter().all(|s| s.is_none()));
    assert_eq!(fuwa.fragment_slab.len(), 0);
}

#[test]
fn clearing_twice_equals_clearing_once() {
    let mut fuwa = Fuwa::new(8, 8, 1);
    let vs = BasicVertexShader::new();
    draw(&mut fuwa, &vs, 0, &triangle_mesh());
    fuwa.clear_all();
    let once = snapshot(&fuwa);
    fuwa.clear_all();
    let twice = snapshot(&fuwa);
    assert_eq!(once, twice);
}

#[test]
fn render_without_matching_fragments_is_a_no_op() {
    let mut fuwa = Fuwa::new(8, 8, 1);
    let vs = BasicVertexShader::new();
    let shader = ColorBlend::new();
    fuwa.clear_all();
    draw(&mut fuwa, &vs, 7, &triangle_mesh());
    let before = snapshot(&fuwa);
    fuwa.render(&shader, 3);
    let after = snapshot(&fuwa);
    assert_eq!(before, after);
}

#[test]
fn second_render_with_same_id_is_a_no_op() {
    let mut fuwa = Fuwa::new(8, 8, 1);
    let vs = BasicVertexShader::new();
    let shader = ColorBlend::new();
    fuwa.clear_all();
    draw(&mut fuwa, &vs, 0, &triangle_mesh());
    fuwa.render(&shader, 0);
    // every matching slot was emptied by the pass
    assert!(fuwa.fragment_buffer.fragments.iter().all(|s| s.is_none()));
    let once = snapshot(&fuwa);
    fuwa.render(&shader, 0);
    let twice = snapshot(&fuwa);
    assert_eq!(once, twice);
}

#[test]
fn depth_holds_the_maximum_reciprocal_depth() {
    let mut fuwa = Fuwa::new(8, 8, 1);
    let vs = BasicVertexShader::new();
    fuwa.clear_all();
    // two full-screen quads at view depths 1 and 4
    let near = IndexedVertexList {
        raw_vertex_list: vec![
            rec(-1.0, 1.0, 1.0, 1.0, 0.0, 0.0),
            rec(-1.0, -1.0, 1.0, 1.0, 0.0, 0.0),
            rec(1.0, 1.0, 1.0, 1.0, 0.0, 0.0),
            rec(1.0, -1.0, 1.0, 1.0, 0.0, 0.0),
        ],
        index_list: vec![0, 1, 2, 2, 1, 3],
    };
    let far = IndexedVertexList {
        raw_vertex_list: vec![
            rec(-4.0, 4.0, 4.0, 0.0, 1.0, 0.0),
            rec(-4.0, -4.0, 4.0, 0.0, 1.0, 0.0),
            rec(4.0, 4.0, 4.0, 0.0, 1.0, 0.0),
            rec(4.0, -4.0, 4.0, 0.0, 1.0, 0.0),
        ],
        index_list: vec![0, 1, 2, 2, 1, 3],
    };
    draw(&mut fuwa, &vs, 0, &far);
    draw(&mut fuwa, &vs, 0, &near);
    // 1/1 beats 1/4 at every pixel
    for y in 0..8u32 {
        for x in 0..8u32 {
            let cell = fuwa.depth_buffer.depth_buffer[(y * 8 + x) as usize];
            assert_eq!(cell, 65536);
        }
    }
}

#[test]
fn resize_reallocates_and_clears() {
    let mut fuwa = Fuwa::new(8, 8, 1);
    let vs = BasicVertexShader::new();
    draw(&mut fuwa, &vs, 0, &triangle_mesh());
    fuwa.resize(4, 2);
    assert_eq!(fuwa.width, 4);
    assert_eq!(fuwa.height, 2);
    assert_eq!(fuwa.pixel_count, 8);
    assert_eq!(fuwa.pixels.len(), 32);
    assert!(fuwa.pixels.iter().all(|b| *b == 0));
}

#[test]
fn clear_color_floods_every_pixel() {
    let mut fuwa = Fuwa::new(4, 4, 1);
    fuwa.clear_color(&[10, 20, 30, 40]);
    for j in 0..16 {
        assert_eq!(
            &fuwa.pixels[4 * j..4 * j + 4],
            &[10, 20, 30, 40]
        );
    }
    fuwa.set_pixel(1, 1, &[1, 2, 3, 4]);
    let i = 4 * (1 * 4 + 1);
    assert_eq!(&fuwa.pixels[i..i + 4], &[1, 2, 3, 4]);
}

#[test]
fn depth_view_maps_near_to_dark() {
    let mut fuwa = Fuwa::new(4, 4, 1);
    fuwa.clear_all();
    assert!(fuwa.try_set_depth(1, 0, 65536));
    assert!(fuwa.try_set_depth(2, 0, 32768));
    fuwa.render_depth_buffer();
    // the nearest cell is black, the farthest white, halfway in between
    assert_eq!(&fuwa.pixels[4..8], &[0, 0, 0, 255]);
    assert_eq!(&fuwa.pixels[8..12], &[128, 128, 128, 255]);
    assert_eq!(&fuwa.pixels[0..4], &[255, 255, 255, 255]);
}

#[test]
fn flat_depth_view_is_all_white() {
    let mut fuwa = Fuwa::new(2, 2, 1);
    fuwa.clear_all();
    fuwa.render_depth_buffer();
    assert!(fuwa.pixels.iter().all(|b| *b == 255));
}
