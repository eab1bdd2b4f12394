use draw_env::draw_env::{DrawEnv, EnableBlend, EnableDepth, UNSET_ID};
use draw_env::glsl::GLSLAny;
use draw_env::handles::{BufferHandle, ShaderHandle, TextureHandle};

fn sorted<T: Copy + Ord>(s: &[T]) -> Vec<T> {
    let mut v = s.to_vec();
    v.sort();
    v
}

fn float(x: f32) -> GLSLAny {
    GLSLAny::Float(x.to_bits())
}

#[test]
fn fresh_environment_is_empty() {
    let e = DrawEnv::new();
    assert_eq!(e.count(), 0);
    assert_eq!(e.offset(), 0);
    assert_eq!(e.draw_type(), 0);
    assert_eq!(e.shader(), UNSET_ID);
    assert_eq!(e.indices(), UNSET_ID);
    assert_eq!(UNSET_ID, usize::MAX);
    assert!(e.buffers().is_empty());
    assert!(e.textures().is_empty());
    assert!(e.uniforms().is_empty());
    assert_eq!(e.depth(), EnableDepth::No);
    assert_eq!(e.blend(), EnableBlend::No);
}

#[test]
fn set_draw_count_overwrites_shape() {
    let mut e = DrawEnv::new();
    e.set_draw_count(36, 6, gl::TRIANGLES);
    assert_eq!((e.count(), e.offset(), e.draw_type()), (36, 6, gl::TRIANGLES));
    e.set_draw_count(0, 0, gl::LINES);
    assert_eq!((e.count(), e.offset(), e.draw_type()), (0, 0, gl::LINES));
}

#[test]
fn shader_and_index_buffer_are_overwritten() {
    let mut e = DrawEnv::new();
    e.add_shader(&ShaderHandle::from_id(3));
    e.add_shader(&ShaderHandle::from_id(9));
    assert_eq!(e.shader(), 9);
    e.add_index_buffer(&BufferHandle::<u16>::from_id(4));
    assert_eq!(e.indices(), 4);
    assert_eq!(e.buffers().len(), 0);
}

#[test]
fn vertex_buffer_first_binding_wins() {
    let mut e = DrawEnv::new();
    let h1 = BufferHandle::<f32>::from_id(11);
    let h2 = BufferHandle::<f32>::from_id(12);
    e.add_buffer(&h1, 0);
    e.add_buffer(&h2, 1);
    e.add_buffer(&h1, 5);
    assert_eq!(e.buffers().len(), 2);
    assert_eq!(sorted(e.buffers()), vec![(11, 0), (12, 1)]);
}

#[test]
fn texture_first_binding_wins() {
    let mut e = DrawEnv::new();
    let t = TextureHandle::from_id(2);
    e.add_texture(&t, 3);
    e.add_texture(&t, 7);
    assert_eq!(sorted(e.textures()), vec![(2, 3)]);
}

#[test]
fn remove_then_rebind_buffer_changes_location() {
    let mut e = DrawEnv::new();
    let h = BufferHandle::<u32>::from_id(5);
    e.add_buffer(&h, 0);
    e.remove_buffer(&h);
    e.add_buffer(&h, 4);
    assert_eq!(sorted(e.buffers()), vec![(5, 4)]);
}

#[test]
fn remove_absent_buffer_changes_nothing() {
    let mut e = DrawEnv::new();
    e.add_buffer(&BufferHandle::<u8>::from_id(1), 0);
    e.add_buffer(&BufferHandle::<u8>::from_id(2), 1);
    e.add_buffer(&BufferHandle::<u8>::from_id(3), 2);
    let before = e.buffers().to_vec();
    e.remove_buffer(&BufferHandle::<u8>::from_id(99));
    assert_eq!(e.buffers().to_vec(), before);
}

#[test]
fn remove_buffer_keeps_the_others() {
    let mut e = DrawEnv::new();
    for id in 1..=4usize {
        e.add_buffer(&BufferHandle::<u8>::from_id(id), id as u32 * 10);
    }
    e.remove_buffer(&BufferHandle::<u8>::from_id(2));
    assert_eq!(sorted(e.buffers()), vec![(1, 10), (3, 30), (4, 40)]);
    e.remove_buffer(&BufferHandle::<u8>::from_id(4));
    assert_eq!(sorted(e.buffers()), vec![(1, 10), (3, 30)]);
}

#[test]
fn texture_removed_twice_is_empty() {
    let mut e = DrawEnv::new();
    let t1 = TextureHandle::from_id(8);
    e.add_texture(&t1, 0);
    e.remove_texture(&t1);
    assert!(e.textures().is_empty());
    e.remove_texture(&t1);
    assert!(e.textures().is_empty());
}

#[test]
fn uniform_set_then_no_value_is_empty() {
    let mut e = DrawEnv::new();
    e.set_uniform(3, float(1.0));
    assert_eq!(e.uniforms(), &[(3, float(1.0))]);
    e.set_uniform(3, GLSLAny::NoValue);
    assert!(e.uniforms().is_empty());
}

#[test]
fn uniform_second_value_replaces_first() {
    let mut e = DrawEnv::new();
    e.set_uniform(2, float(0.5));
    e.set_uniform(2, GLSLAny::Vec3([1.0f32.to_bits(), 2.0f32.to_bits(), 3.0f32.to_bits()]));
    assert_eq!(
        e.uniforms(),
        &[(2, GLSLAny::Vec3([1.0f32.to_bits(), 2.0f32.to_bits(), 3.0f32.to_bits()]))]
    );
}

#[test]
fn uniform_no_value_at_empty_location_changes_nothing() {
    let mut e = DrawEnv::new();
    e.set_uniform(1, GLSLAny::Int(-4));
    e.set_uniform(7, GLSLAny::NoValue);
    assert_eq!(e.uniforms(), &[(1, GLSLAny::Int(-4))]);
    let mut f = DrawEnv::new();
    f.set_uniform(0, GLSLAny::NoValue);
    assert!(f.uniforms().is_empty());
}

#[test]
fn uniforms_are_keyed_by_location_not_value() {
    let mut e = DrawEnv::new();
    e.set_uniform(0, GLSLAny::Bool(true));
    e.set_uniform(1, GLSLAny::Bool(true));
    e.set_uniform(-1, GLSLAny::UInt(9));
    let mut got = e.uniforms().to_vec();
    got.sort_by_key(|p| p.0);
    assert_eq!(got, vec![(-1, GLSLAny::UInt(9)), (0, GLSLAny::Bool(true)), (1, GLSLAny::Bool(true))]);
    e.set_uniform(0, GLSLAny::NoValue);
    let mut got = e.uniforms().to_vec();
    got.sort_by_key(|p| p.0);
    assert_eq!(got, vec![(-1, GLSLAny::UInt(9)), (1, GLSLAny::Bool(true))]);
}

#[test]
fn depth_disable_after_enable() {
    let mut e = DrawEnv::new();
    e.enable_depth(gl::LESS);
    assert_eq!(e.depth(), EnableDepth::Yes(gl::LESS));
    e.disable_depth();
    assert_eq!(e.depth(), EnableDepth::No);
}

#[test]
fn blend_last_call_wins() {
    let mut e = DrawEnv::new();
    e.enable_blend(gl::SRC_ALPHA, gl::ONE_MINUS_SRC_ALPHA);
    assert_eq!(e.blend(), EnableBlend::Yes(gl::SRC_ALPHA, gl::ONE_MINUS_SRC_ALPHA));
    e.disable_blend();
    assert_eq!(e.blend(), EnableBlend::No);
    e.enable_blend(gl::ONE, gl::ZERO);
    assert_eq!(e.blend(), EnableBlend::Yes(gl::ONE, gl::ZERO));
}

#[test]
fn handles_report_their_identity() {
    assert_eq!(ShaderHandle::from_id(usize::MAX - 1).get_id(), usize::MAX - 1);
    assert_eq!(BufferHandle::<u8>::from_id(0).get_id(), 0);
    assert_eq!(TextureHandle::from_id(17).get_id(), 17);
    assert!(GLSLAny::NoValue.is_no_value());
    assert!(!GLSLAny::Float(0).is_no_value());
}
