use fuwa::fragment_shader::{sample_2d, ColorBlend, FragmentShader, Textured};
use fuwa::fx3::Fx3;
use fuwa::texture::{Texture, TextureFormat};
use fuwa::uniforms::Uniforms;
use fuwa::vertex_shader::{BasicVertexShader, Mat3Fx, VertexShader};

const ONE: i64 = 65536;

#[test]
fn color_blend_scales_and_clamps() {
    let uniforms = Uniforms::new();
    let shader = ColorBlend::new();
    assert_eq!(
        shader.fragment_shader_fn(Fx3 { x: ONE, y: 0, z: ONE / 2 }, &uniforms),
        [255, 0, 127, 255]
    );
    // out-of-range payloads clamp instead of wrapping
    assert_eq!(
        shader.fragment_shader_fn(Fx3 { x: 10 * ONE, y: -3 * ONE, z: ONE / 4 }, &uniforms),
        [255, 0, 63, 255]
    );
}

#[test]
fn nearest_sampling_rounds_and_clamps() {
    let mut data = Vec::new();
    data.extend_from_slice(&[255, 0, 0, 255]);
    data.extend_from_slice(&[0, 255, 0, 255]);
    data.extend_from_slice(&[0, 0, 255, 255]);
    data.extend_from_slice(&[255, 255, 0, 255]);
    let t = Texture::new(data, TextureFormat::RGBA, 2, 2);
    // u rounds to the nearest texel column
    assert_eq!(sample_2d(0, 0, &t), [255, 0, 0, 255]);
    assert_eq!(sample_2d(ONE / 4, 0, &t), [255, 0, 0, 255]);
    assert_eq!(sample_2d(3 * ONE / 4, 0, &t), [0, 255, 0, 255]);
    assert_eq!(sample_2d(ONE, ONE, &t), [255, 255, 0, 255]);
    // coordinates outside the unit square clamp to the border
    assert_eq!(sample_2d(-ONE, 0, &t), [255, 0, 0, 255]);
    assert_eq!(sample_2d(5 * ONE, 0, &t), [0, 255, 0, 255]);
}

#[test]
fn textured_shader_resolves_its_handle() {
    let mut uniforms = Uniforms::new();
    let data = vec![7u8, 8, 9, 10];
    let t = Texture::new(data, TextureFormat::RGBA, 1, 1);
    let h = uniforms.add_texture(t);
    let mut shader = Textured::new(h);
    assert_eq!(shader.get_texture_handle(), h);
    assert_eq!(
        shader.fragment_shader_fn(Fx3 { x: 0, y: 0, z: 0 }, &uniforms),
        [7, 8, 9, 10]
    );
    shader.set_texture_handle(h + 99);
    assert_eq!(shader.get_texture_handle(), h + 99);
}

#[test]
fn basic_vertex_shader_rotates_and_translates() {
    let mut vs = BasicVertexShader::new();
    // identity: the record passes through
    let raw = [ONE, 2 * ONE, 3 * ONE, ONE / 2, 0, 0];
    let (pos, attr) = vs.vertex_shader_fn(&raw);
    assert_eq!(pos, Fx3 { x: ONE, y: 2 * ONE, z: 3 * ONE });
    assert_eq!(attr, Fx3 { x: ONE / 2, y: 0, z: 0 });
    // a quarter turn around z maps x to y
    vs.bind_rotation(Mat3Fx {
        x_axis: Fx3 { x: 0, y: ONE, z: 0 },
        y_axis: Fx3 { x: -ONE, y: 0, z: 0 },
        z_axis: Fx3 { x: 0, y: 0, z: ONE },
    });
    vs.bind_translation(Fx3 { x: 0, y: 0, z: 10 * ONE });
    let (pos, _) = vs.vertex_shader_fn(&[ONE, 0, 0, 0, 0, 0]);
    assert_eq!(pos, Fx3 { x: 0, y: ONE, z: 10 * ONE });
}
