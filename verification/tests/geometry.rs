use fuwa::fx3::{fx3_add, fx3_cmul, fx3_scale, fx3_sub, Fx3};
use fuwa::rasterizer::calculate_raster_bb;
use fuwa::triangle::Triangle;

const ONE: i64 = 65536;

fn v(x: f64, y: f64, z: f64) -> Fx3 {
    Fx3 {
        x: (x * 65536.0).round() as i64,
        y: (y * 65536.0).round() as i64,
        z: (z * 65536.0).round() as i64,
    }
}

#[test]
fn payload_vector_operations() {
    let a = Fx3 { x: ONE, y: 2 * ONE, z: -ONE };
    let b = Fx3 { x: ONE / 2, y: ONE, z: ONE };
    assert_eq!(fx3_add(&a, &b), Fx3 { x: 3 * ONE / 2, y: 3 * ONE, z: 0 });
    assert_eq!(fx3_sub(&a, &b), Fx3 { x: ONE / 2, y: ONE, z: -2 * ONE });
    assert_eq!(fx3_scale(&a, ONE / 2), Fx3 { x: ONE / 2, y: ONE, z: -ONE / 2 });
    assert_eq!(fx3_cmul(&a, &b), Fx3 { x: ONE / 2, y: 2 * ONE, z: -ONE });
}

#[test]
fn bounding_box_clamps_and_rounds() {
    let t = Triangle {
        p0: v(2.25, 2.0, 1.0),
        p1: v(2.0, 6.5, 1.0),
        p2: v(6.5, 2.0, 1.0),
        a0: v(0.0, 0.0, 0.0),
        a1: v(0.0, 0.0, 0.0),
        a2: v(0.0, 0.0, 0.0),
    };
    let bb = calculate_raster_bb(&t, 8, 8);
    assert_eq!(bb.min_x(), 2);
    assert_eq!(bb.min_y(), 2);
    assert_eq!(bb.max_x(), 7);
    assert_eq!(bb.max_y(), 7);
    assert_eq!(bb.prepare(), [2, 2, 7, 7]);
    // a triangle reaching past the viewport is clamped to it
    let wide = Triangle { p0: v(-3.0, -1.0, 1.0), p1: v(12.0, -1.0, 1.0), p2: v(-3.0, 12.0, 1.0), ..t };
    let bb = calculate_raster_bb(&wide, 8, 8);
    assert_eq!(bb.prepare(), [0, 0, 8, 8]);
}

#[test]
fn back_face_test_follows_the_winding() {
    let front = Triangle {
        p0: v(-0.5, 0.5, 1.0),
        p1: v(-0.5, -0.5, 1.0),
        p2: v(0.5, 0.5, 1.0),
        a0: v(0.0, 0.0, 0.0),
        a1: v(0.0, 0.0, 0.0),
        a2: v(0.0, 0.0, 0.0),
    };
    assert!(!front.is_backfacing());
    let back = Triangle { p0: front.p0, p1: front.p2, p2: front.p1, ..front };
    assert!(back.is_backfacing());
}

#[test]
fn perspective_transform_premultiplies() {
    // at view depth 2 the reciprocal depth is one half and the payload is
    // halved with it
    let t = Triangle {
        p0: v(0.0, 0.0, 2.0),
        p1: v(2.0, 0.0, 2.0),
        p2: v(0.0, -2.0, 2.0),
        a0: v(1.0, 0.0, 0.0),
        a1: v(0.0, 1.0, 0.0),
        a2: v(0.0, 0.0, 1.0),
    };
    let s = t.transform_screen_space_perspective(4 * ONE, 4 * ONE).unwrap();
    // x_s = (x/z + 1) * 4, y_s = (-y/z + 1) * 4
    assert_eq!(s.p0, Fx3 { x: 4 * ONE, y: 4 * ONE, z: ONE / 2 });
    assert_eq!(s.p1, Fx3 { x: 8 * ONE, y: 4 * ONE, z: ONE / 2 });
    assert_eq!(s.p2, Fx3 { x: 4 * ONE, y: 8 * ONE, z: ONE / 2 });
    assert_eq!(s.a0, Fx3 { x: ONE / 2, y: 0, z: 0 });
    // a vertex at or behind the eye drops the triangle
    let behind = Triangle { p0: v(0.0, 0.0, 0.0), ..t };
    assert!(behind.transform_screen_space_perspective(4 * ONE, 4 * ONE).is_none());
}
