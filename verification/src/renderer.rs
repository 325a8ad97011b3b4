//! Rendering descriptors: devices, pipelines, render targets and resource
//! bindings, as plain data.

use vstd::prelude::*;

verus! {

/// Vertex format enumeration
#[derive(Debug, Clone, Copy, PartialEq, Eq, Structural)]
pub enum VertexFormat {
    Simple,
    Colored,
    Textured,
    Animated,
}

/// Index type for drawing
pub type Index = u32;

/// Material handle type
pub type MaterialHandle = u32;

/// Entity handle type
pub type EntityHandle = u32;

/// Resource handle type
pub type ResourceHandle = u32;

/// Texture paths for material
#[derive(Debug, Clone)]
pub struct TexturePaths {
    pub albedo: Option<String>,
    pub normal: Option<String>,
    pub metallic_roughness: Option<String>,
    pub occlusion: Option<String>,
    pub emissive: Option<String>,
}

impl TexturePaths {
    /// No texture paths.
    pub fn new() -> (t: TexturePaths)
        ensures
            t.albedo is None,
            t.normal is None,
            t.metallic_roughness is None,
            t.occlusion is None,
            t.emissive is None,
    {
        TexturePaths { albedo: None, normal: None, metallic_roughness: None, occlusion: None, emissive: None }
    }
}

impl Default for TexturePaths {
    fn default() -> (t: TexturePaths)
        ensures
            t.albedo is None,
            t.normal is None,
            t.metallic_roughness is None,
            t.occlusion is None,
            t.emissive is None,
    {
        TexturePaths::new()
    }
}

/// Light type enumeration
#[derive(Debug, Clone, Copy, PartialEq, Eq, Structural)]
pub enum LightType {
    Directional,
    Point,
    Spot,
    Ambient,
}

/// Camera projection type
#[derive(Debug, Clone, Copy, PartialEq, Eq, Structural)]
pub enum CameraProjection {
    Perspective,
    Orthographic,
}

/// Texture resource
#[derive(Debug, Clone)]
pub struct Texture {
    pub width: u32,
    pub height: u32,
    pub channels: u8,
    pub data: Vec<u8>,
}

/// Render target
pub struct RenderTarget {
    pub width: u32,
    pub height: u32,
}

impl RenderTarget {
    /// A render target of the given size.
    pub fn new(width: u32, height: u32) -> (t: RenderTarget)
        ensures
            t.width == width,
            t.height == height,
    {
        RenderTarget { width, height }
    }
}

/// Graphics backend type
#[derive(Debug, Clone, Copy, PartialEq, Eq, Structural)]
pub enum Backend {
    Vulkan,
    DirectX12,
    Metal,
    OpenGL,
    WebGPU,
    WebGL,
    /// No graphics backend.
    NoBackend,
}

/// A set of optional device features, as a bit mask.
#[derive(Debug, Clone, Copy, PartialEq, Eq, Structural, Hash)]
pub struct Feature {
    bits: u64,
}

impl Feature {
    /// The flag with bit mask 1.
    pub fn compute_shaders() -> (f: Feature)
        ensures
            f.spec_bits() == 1,
    {
        Feature { bits: 1u64 }
    }

    /// The flag with bit mask 2.
    pub fn geometry_shaders() -> (f: Feature)
        ensures
            f.spec_bits() == 2,
    {
        Feature { bits: 2u64 }
    }

    /// The flag with bit mask 4.
    pub fn texture_compression_bc() -> (f: Feature)
        ensures
            f.spec_bits() == 4,
    {
        Feature { bits: 4u64 }
    }

    /// The flag with bit mask 8.
    pub fn texture_compression_etc() -> (f: Feature)
        ensures
            f.spec_bits() == 8,
    {
        Feature { bits: 8u64 }
    }

    /// The flag with bit mask 16.
    pub fn sampler_anisotropic() -> (f: Feature)
        ensures
            f.spec_bits() == 16,
    {
        Feature { bits: 16u64 }
    }

    /// The flag with bit mask 32.
    pub fn uniform_buffers() -> (f: Feature)
        ensures
            f.spec_bits() == 32,
    {
        Feature { bits: 32u64 }
    }

    /// The flag with bit mask 64.
    pub fn storage_buffers() -> (f: Feature)
        ensures
            f.spec_bits() == 64,
    {
        Feature { bits: 64u64 }
    }

    /// The bit mask.
    pub closed spec fn spec_bits(self) -> u64 {
        self.bits
    }

    /// The bit mask.
    pub fn bits(&self) -> (b: u64)
        ensures
            b == self.spec_bits(),
    {
        self.bits
    }
}

/// Graphics device abstraction
pub struct Device {
    pub backend: Backend,
    pub features: Vec<Feature>,
    pub next_resource_id: ResourceHandle,
}

impl Device {
    /// A device without a backend, offering uniform buffers.
    pub fn new() -> (d: Device)
        ensures
            d.backend == Backend::NoBackend,
            d.features@.len() == 1,
            d.features@[0].spec_bits() == 32,
            d.next_resource_id == 0,
    {
        let mut features: Vec<Feature> = Vec::new();
        features.push(Feature::uniform_buffers());
        Device { backend: Backend::NoBackend, features, next_resource_id: 0 }
    }

    /// The backend of the device.
    pub fn backend(&self) -> (b: Backend)
        ensures
            b == self.backend,
    {
        self.backend
    }

    /// The features of the device.
    pub fn features(&self) -> (f: &[Feature])
        ensures
            f@ == self.features@,
    {
        self.features.as_slice()
    }
}

impl Default for Device {
    fn default() -> (d: Device)
        ensures
            d.backend == Backend::NoBackend,
            d.features@.len() == 1,
            d.features@[0].spec_bits() == 32,
            d.next_resource_id == 0,
    {
        Device::new()
    }
}

/// Vertex attribute format
#[derive(Debug, Clone, Copy, PartialEq, Eq, Structural)]
pub enum VertexAttributeFormat {
    Float,
    Float2,
    Float3,
    Float4,
    Int,
    Int2,
    Int3,
    Int4,
    UInt,
    UInt2,
    UInt3,
    UInt4,
}

/// Shader stage
#[derive(Debug, Clone, Copy, PartialEq, Eq, Structural, Hash)]
pub enum ShaderStage {
    Vertex,
    Fragment,
    Geometry,
    Compute,
    Task,
    Mesh,
    All,
}

/// Primitive topology
#[derive(Debug, Clone, Copy, PartialEq, Eq, Structural)]
pub enum PrimitiveTopology {
    PointList,
    LineList,
    LineStrip,
    TriangleList,
    TriangleStrip,
    TriangleFan,
}

/// Compare function
#[derive(Debug, Clone, Copy, PartialEq, Eq, Structural)]
pub enum CompareFunction {
    Never,
    Less,
    Equal,
    LessEqual,
    Greater,
    NotEqual,
    GreaterEqual,
    Always,
}

/// Depth/stencil state
#[derive(Debug, Clone, Copy)]
pub struct DepthStencilState {
    pub depth_write_enabled: bool,
    pub depth_compare: CompareFunction,
}

impl Default for DepthStencilState {
    fn default() -> (s: DepthStencilState)
        ensures
            s.depth_write_enabled,
            s.depth_compare == CompareFunction::Less,
    {
        DepthStencilState { depth_write_enabled: true, depth_compare: CompareFunction::Less }
    }
}

/// Stencil operation
#[derive(Debug, Clone, Copy, PartialEq, Eq, Structural)]
pub enum StencilOp {
    Keep,
    Zero,
    Replace,
    Increment,
    Decrement,
    IncrementWrap,
    DecrementWrap,
    Invert,
}

/// Stencil state
#[derive(Debug, Clone, Copy)]
pub struct StencilState {
    pub fail_op: StencilOp,
    pub pass_op: StencilOp,
    pub depth_fail_op: StencilOp,
    pub compare: CompareFunction,
}

impl Default for StencilState {
    fn default() -> (s: StencilState)
        ensures
            s.fail_op == StencilOp::Keep,
            s.pass_op == StencilOp::Keep,
            s.depth_fail_op == StencilOp::Keep,
            s.compare == CompareFunction::Always,
    {
        StencilState {
            fail_op: StencilOp::Keep,
            pass_op: StencilOp::Keep,
            depth_fail_op: StencilOp::Keep,
            compare: CompareFunction::Always,
        }
    }
}

/// Vertex attribute
pub struct VertexAttribute {
    pub format: VertexAttributeFormat,
    pub offset: u32,
    pub shader_stage: ShaderStage,
}

/// Vertex layout descriptor
pub struct VertexLayout {
    pub stride: u32,
    pub attributes: Vec<VertexAttribute>,
}

impl Default for VertexLayout {
    fn default() -> (l: VertexLayout)
        ensures
            l.stride == 32,
            l.attributes@.len() == 0,
    {
        VertexLayout { stride: 32, attributes: Vec::new() }
    }
}

/// Shader pipeline state
pub struct Pipeline {
    pub vertex_shader: String,
    pub fragment_shader: String,
    pub vertex_layout: VertexLayout,
    pub primitive_topology: PrimitiveTopology,
    pub depth_stencil_state: DepthStencilState,
}

impl Pipeline {
    /// A pipeline with no shaders, the default layout, triangle lists and
    /// the default depth/stencil state.
    pub fn new() -> (p: Pipeline)
        ensures
            p.vertex_shader@ == Seq::<char>::empty(),
            p.fragment_shader@ == Seq::<char>::empty(),
            p.vertex_layout.stride == 32,
            p.vertex_layout.attributes@.len() == 0,
            p.primitive_topology == PrimitiveTopology::TriangleList,
            p.depth_stencil_state.depth_write_enabled,
            p.depth_stencil_state.depth_compare == CompareFunction::Less,
    {
        Pipeline {
            vertex_shader: String::new(),
            fragment_shader: String::new(),
            vertex_layout: VertexLayout::default(),
            primitive_topology: PrimitiveTopology::TriangleList,
            depth_stencil_state: DepthStencilState::default(),
        }
    }

    /// Set the shader sources.
    pub fn set_shaders(&mut self, vertex: String, fragment: String)
        ensures
            final(self).vertex_shader@ == vertex@,
            final(self).fragment_shader@ == fragment@,
            final(self).primitive_topology == old(self).primitive_topology,
            final(self).vertex_layout == old(self).vertex_layout,
            final(self).depth_stencil_state == old(self).depth_stencil_state,
    {
        self.vertex_shader = vertex;
        self.fragment_shader = fragment;
    }
}

impl Default for Pipeline {
    fn default() -> (p: Pipeline)
        ensures
            p.vertex_shader@ == Seq::<char>::empty(),
            p.fragment_shader@ == Seq::<char>::empty(),
            p.vertex_layout.stride == 32,
            p.vertex_layout.attributes@.len() == 0,
            p.primitive_topology == PrimitiveTopology::TriangleList,
            p.depth_stencil_state.depth_write_enabled,
            p.depth_stencil_state.depth_compare == CompareFunction::Less,
    {
        Pipeline::new()
    }
}

/// Binding resource
pub enum BindingResource {
    Buffer { buffer: ResourceHandle, offset: u64, size: u64 },
    TextureView { texture: ResourceHandle },
    Sampler { sampler: ResourceHandle },
}

/// Bind group entry
pub struct BindGroupEntry {
    pub binding: u32,
    pub resource: BindingResource,
}

/// Bind group for shader resources
pub struct BindGroup {
    pub entries: Vec<BindGroupEntry>,
}

} // verus!
