use supernova::renderer::{
    Backend, CompareFunction, DepthStencilState, Device, Feature, Pipeline, PrimitiveTopology, RenderTarget,
    StencilOp, StencilState, TexturePaths, VertexLayout,
};

#[test]
fn feature_bits() {
    assert_eq!(Feature::compute_shaders().bits(), 1);
    assert_eq!(Feature::geometry_shaders().bits(), 2);
    assert_eq!(Feature::texture_compression_bc().bits(), 4);
    assert_eq!(Feature::texture_compression_etc().bits(), 8);
    assert_eq!(Feature::sampler_anisotropic().bits(), 16);
    assert_eq!(Feature::uniform_buffers().bits(), 32);
    assert_eq!(Feature::storage_buffers().bits(), 64);
}

#[test]
fn default_device() {
    let d = Device::new();
    assert_eq!(d.backend(), Backend::NoBackend);
    assert_eq!(d.features(), &[Feature::uniform_buffers()]);
    assert_eq!(d.next_resource_id, 0);
    let e = Device::default();
    assert_eq!(e.backend, Backend::NoBackend);
}

#[test]
fn pipeline_defaults_and_shaders() {
    let mut p = Pipeline::new();
    assert!(p.vertex_shader.is_empty());
    assert_eq!(p.vertex_layout.stride, 32);
    assert_eq!(p.primitive_topology, PrimitiveTopology::TriangleList);
    assert!(p.depth_stencil_state.depth_write_enabled);
    assert_eq!(p.depth_stencil_state.depth_compare, CompareFunction::Less);
    p.set_shaders(String::from("vs"), String::from("fs"));
    assert_eq!(p.vertex_shader, "vs");
    assert_eq!(p.fragment_shader, "fs");
    assert_eq!(p.primitive_topology, PrimitiveTopology::TriangleList);
    let q = Pipeline::default();
    assert!(q.fragment_shader.is_empty());
}

#[test]
fn descriptor_defaults() {
    let s = StencilState::default();
    assert_eq!(s.fail_op, StencilOp::Keep);
    assert_eq!(s.compare, CompareFunction::Always);
    let d = DepthStencilState::default();
    assert!(d.depth_write_enabled);
    let l = VertexLayout::default();
    assert_eq!(l.stride, 32);
    assert!(l.attributes.is_empty());
    let t = TexturePaths::new();
    assert!(t.albedo.is_none() && t.emissive.is_none());
    assert!(TexturePaths::default().normal.is_none());
    let r = RenderTarget::new(640, 480);
    assert_eq!((r.width, r.height), (640, 480));
}
