use fuwa::depth_buffer::DepthBuffer;
use fuwa::fragment_buffer::{FragmentBuffer, FragmentKey, FragmentSlab};
use fuwa::fx3::Fx3;
use fuwa::handle::{Handle, HandleGenerator};
use fuwa::mesh::{VertexDescriptor, VertexDescriptorField};
use fuwa::stats::FuwaStats;
use fuwa::texture::{Texture, TextureFormat};
use fuwa::uniforms::Uniforms;

#[test]
fn depth_buffer_scalar_test_and_set() {
    let mut db = DepthBuffer::new(4);
    assert_eq!(db.depth_buffer.len(), 12);
    assert!(db.try_set_depth(0, 100));
    assert!(!db.try_set_depth(0, 100));
    assert!(!db.try_set_depth(0, 50));
    assert!(db.try_set_depth(0, 200));
    assert_eq!(db.depth_buffer[0], 200);
    db.clear();
    assert_eq!(db.depth_buffer[0], 0);
}

#[test]
fn depth_buffer_simd_masks_and_merges() {
    let mut db = DepthBuffer::new(8);
    db.try_set_depth(1, 500);
    db.try_set_depth(3, 10);
    let depths = [100, 400, i64::MIN, 20, 0, -5, 7, 9];
    let mask = db.try_set_depth_simd(0, &depths).unwrap();
    assert_eq!(
        mask,
        [true, false, false, true, false, false, true, true]
    );
    // winners installed, losers keep the incumbent
    assert_eq!(db.depth_buffer[0], 100);
    assert_eq!(db.depth_buffer[1], 500);
    assert_eq!(db.depth_buffer[2], 0);
    assert_eq!(db.depth_buffer[3], 20);
    assert_eq!(db.depth_buffer[4], 0);
    assert_eq!(db.depth_buffer[5], 0);
    // a stamp where every lane loses reports nothing
    let worse = [0i64; 8];
    assert!(db.try_set_depth_simd(0, &worse).is_none());
}

#[test]
fn fragment_buffer_set_get_clear() {
    let mut fb = FragmentBuffer::new(3);
    assert_eq!(fb.len(), 3);
    assert!(fb.get_fragment(1).is_none());
    fb.set_fragment(1, FragmentKey { shader_index: 2, fragment_key: 7 });
    let k = fb.get_fragment(1).unwrap();
    assert_eq!(k.shader_index, 2);
    assert_eq!(k.fragment_key, 7);
    fb.clear_fragment(1);
    assert!(fb.get_fragment(1).is_none());
    fb.set_fragment(0, FragmentKey { shader_index: 0, fragment_key: 0 });
    fb.clear();
    assert!(fb.get_fragment(0).is_none());
}

#[test]
fn fragment_slab_keys_are_stable() {
    let mut slab = FragmentSlab::new();
    let a = slab.insert(Fx3 { x: 1, y: 2, z: 3 });
    let b = slab.insert(Fx3 { x: 4, y: 5, z: 6 });
    assert_eq!(a, 0);
    assert_eq!(b, 1);
    assert_eq!(slab.get(a), Fx3 { x: 1, y: 2, z: 3 });
    assert_eq!(slab.get(b), Fx3 { x: 4, y: 5, z: 6 });
    assert_eq!(slab.len(), 2);
    slab.clear();
    assert_eq!(slab.len(), 0);
}

#[test]
fn handles_count_up_and_never_repeat() {
    let mut generator = HandleGenerator::new();
    let h0 = generator.next_handle();
    let h1 = generator.next_handle();
    assert_eq!(h0, Handle(0));
    assert_eq!(h1, Handle(1));
    assert!(h0 != h1);
}

#[test]
fn stats_reset_keeps_draw_calls() {
    let mut stats = FuwaStats::new();
    stats.total_vertices = 10;
    stats.draw_calls = 3;
    stats.reset();
    assert_eq!(stats.total_vertices, 0);
    assert_eq!(stats.draw_calls, 3);
}

#[test]
fn vertex_descriptor_sums_field_sizes() {
    let d = VertexDescriptor::new(
        vec![VertexDescriptorField::Vec3, VertexDescriptorField::Vec2],
        0,
    );
    assert_eq!(d.stride, 5);
    assert_eq!(d.position_index, 0);
    assert_eq!(VertexDescriptorField::Vec4.size(), 4);
}

#[test]
fn uniforms_store_round_trip() {
    let mut uniforms = Uniforms::new();
    let checker = vec![9u8; 16];
    let t = Texture::new(checker.clone(), TextureFormat::RGBA, 2, 2);
    let h = uniforms.add_texture(t);
    assert!(uniforms.has_texture(h));
    assert!(!uniforms.has_texture(h + 1));
    let back = uniforms.get_texture(h);
    assert_eq!(back.width, 2);
    assert_eq!(back.height, 2);
    assert_eq!(back.get_data().as_slice(), checker.as_slice());
    // a second texture gets a distinct handle and both stay reachable
    let t2 = Texture::new(vec![1u8; 4], TextureFormat::RGBA, 1, 1);
    let h2 = uniforms.add_texture(t2);
    assert!(h2 != h);
    assert_eq!(uniforms.get_texture(h).height, 2);
    assert_eq!(uniforms.get_texture(h2).height, 1);
}
