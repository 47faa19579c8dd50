//! The ink renderer: which surface, buffers, bindings and textures it asks for, and
//! what it does when a frame is not there.

use crate::constants::{ONE, TWO};
use crate::gpu::{
    the_choice_is_offered, AddressMode, AlphaMode, Backends, BindingKind, BindingPlan, BufferPlan,
    BufferRole, Compare, DeviceLimits, DeviceSetup, FilterMode, FormatWish, FrameAction, FrameEvent,
    InstancePlan, PresentMode, SamplerPlan, SurfaceSettings, TextureFormat, TexturePlan, TextureUse,
    Topology,
};
use crate::ink::{is_ribbon, vertex_words, InkMesh, InkVertex};
use crate::number::{single, Double, Single};
use crate::paper::{a_paper_is_full_and_opaque, is_paper, PaperParams, PaperTexture};
use crate::physics::StrokePoint;
use crate::unit::{FloatUnit, Op};
use crate::words::{is_image, words_as_bytes};
use vstd::prelude::*;

verus! {

/// What can go wrong with the renderer.
#[derive(Debug)]
pub enum RenderError {
    NoAdapter,
    RequestDevice(String),
    CreateSurface(String),
    Surface(String),
    ShaderCompile(String),
    InvalidMesh,
    Io(String),
}

impl RenderError {
    /// The error in words.
    pub open spec fn words(self) -> Seq<char> {
        match self {
            RenderError::NoAdapter => "no Vulkan adapter found"@,
            RenderError::RequestDevice(reason) => "device request failed: "@ + reason@,
            RenderError::CreateSurface(reason) => "surface creation failed: "@ + reason@,
            RenderError::Surface(reason) => "surface lost or timeout: "@ + reason@,
            RenderError::ShaderCompile(reason) => "shader compilation failed: "@ + reason@,
            RenderError::InvalidMesh => "invalid mesh"@,
            RenderError::Io(reason) => "IO error: "@ + reason@,
        }
    }

    /// The error in words.
    pub fn message(&self) -> (r: String)
        ensures
            r@ == self.words(),
    {
        match self {
            RenderError::NoAdapter => "no Vulkan adapter found".to_string(),
            RenderError::RequestDevice(reason) => with_reason("device request failed: ", reason),
            RenderError::CreateSurface(reason) => with_reason("surface creation failed: ", reason),
            RenderError::Surface(reason) => with_reason("surface lost or timeout: ", reason),
            RenderError::ShaderCompile(reason) => with_reason("shader compilation failed: ", reason),
            RenderError::InvalidMesh => "invalid mesh".to_string(),
            RenderError::Io(reason) => with_reason("IO error: ", reason),
        }
    }
}

/// A message with its reason.
fn with_reason(what: &str, reason: &String) -> (r: String)
    ensures
        r@ == what@ + reason@,
{
    let mut message = what.to_string();
    message.append(reason.as_str());
    message
}

/// How the renderer is set up.
#[derive(Clone, Copy, Debug, PartialEq, Eq)]
pub struct RenderConfig {
    pub surface_format: TextureFormat,
    /// Width and height, in pixels.
    pub physical_size: (u32, u32),
    pub scale_factor: Single,
    /// Whether frames wait for the screen.
    pub vsync: bool,
}

impl Default for RenderConfig {
    fn default() -> (r: RenderConfig)
        ensures
            r.surface_format == TextureFormat::Rgba8UnormSrgb,
            r.physical_size == (1080u32, 2400u32),
            r.scale_factor == single(TWO),
            r.vsync,
    {
        RenderConfig {
            surface_format: TextureFormat::Rgba8UnormSrgb,
            physical_size: (1080, 2400),
            scale_factor: single(TWO),
            vsync: true,
        }
    }
}

/// The part of a graphics context that is decided without a device.
pub struct VulkanContext;

impl VulkanContext {
    /// The instance of a context: Vulkan and nothing else, with checks where the
    /// program is built for debugging.
    pub fn instance_plan(debug: bool) -> (r: InstancePlan)
        ensures
            r.backends == Backends::VulkanOnly,
            r.debugging == debug,
    {
        InstancePlan { backends: Backends::VulkanOnly, debugging: debug }
    }

    /// The adapter and the device of a context: fast ones in hardware, of any surface.
    pub fn device_setup() -> (r: DeviceSetup)
        ensures
            r == (DeviceSetup {
                high_performance: true,
                fallback: false,
                for_surface: false,
                adapter_formats: false,
                limits: DeviceLimits::Downlevel,
            }),
    {
        DeviceSetup {
            high_performance: true,
            fallback: false,
            for_surface: false,
            adapter_formats: false,
            limits: DeviceLimits::Downlevel,
        }
    }

    /// What a context comes to: there has to be an adapter, and its device must not
    /// fail. `device_fault` is why the device was refused, if it was.
    pub fn new(adapter_found: bool, device_fault: Option<String>) -> (r: Result<
        VulkanContext,
        RenderError,
    >)
        ensures
            match r {
                Ok(_) => adapter_found && device_fault is None,
                Err(RenderError::NoAdapter) => !adapter_found,
                Err(RenderError::RequestDevice(reason)) => adapter_found && device_fault == Some(
                    reason,
                ),
                Err(_) => false,
            },
            r is Ok <==> adapter_found && device_fault is None,
    {
        if !adapter_found {
            return Err(RenderError::NoAdapter);
        }
        match device_fault {
            Some(reason) => Err(RenderError::RequestDevice(reason)),
            None => Ok(VulkanContext),
        }
    }
}

/// The settings of a surface.
#[derive(Clone, Copy, Debug, PartialEq, Eq, Structural)]
pub struct RenderSurface {
    pub config: SurfaceSettings,
}

impl RenderSurface {
    /// The settings of a surface that offers formats: the first in the sRGB curve, or
    /// the first of all; the size and the timing of the configuration.
    pub fn new(formats: &[TextureFormat], config: &RenderConfig) -> (r: RenderSurface)
        requires
            formats@.len() > 0,
        ensures
            r.config == (SurfaceSettings {
                format: FormatWish::Curved.chosen(formats@),
                width: config.physical_size.0,
                height: config.physical_size.1,
                present_mode: if config.vsync {
                    PresentMode::AutoVsync
                } else {
                    PresentMode::AutoNoVsync
                },
                alpha_mode: AlphaMode::First,
                max_frame_latency: 2,
            }),
            formats@.contains(r.config.format),
            r.config.present_mode is AutoVsync <==> config.vsync,
    {
        proof {
            the_choice_is_offered(FormatWish::Curved, formats@);
        }
        RenderSurface {
            config: SurfaceSettings {
                format: FormatWish::Curved.choose_format(formats),
                width: config.physical_size.0,
                height: config.physical_size.1,
                present_mode: if config.vsync {
                    PresentMode::AutoVsync
                } else {
                    PresentMode::AutoNoVsync
                },
                alpha_mode: AlphaMode::First,
                max_frame_latency: 2,
            },
        }
    }

    /// The surface takes a new size. Its depth texture has to be made again.
    pub fn reconfigure(&mut self, new_size: (u32, u32))
        ensures
            final(self).config == (SurfaceSettings {
                width: new_size.0,
                height: new_size.1,
                ..old(self).config
            }),
    {
        self.config.width = new_size.0;
        self.config.height = new_size.1;
    }

    /// The depth texture of a surface.
    pub open spec fn depth(self) -> TexturePlan {
        TexturePlan {
            width: self.config.width,
            height: self.config.height,
            format: TextureFormat::Depth32Float,
            usage: TextureUse {
                attachment: true,
                binding: true,
                storage: false,
                copy_src: false,
                copy_dst: false,
            },
        }
    }

    /// The depth texture of a surface: as large as the surface.
    pub fn create_depth(&self) -> (r: TexturePlan)
        ensures
            r == self.depth(),
    {
        TexturePlan {
            width: self.config.width,
            height: self.config.height,
            format: TextureFormat::Depth32Float,
            usage: TextureUse {
                attachment: true,
                binding: true,
                storage: false,
                copy_src: false,
                copy_dst: false,
            },
        }
    }

    /// What to do about the next frame. A surface that is lost or outdated is set up
    /// again once; what comes of the second try stands.
    pub open spec fn frame_action(event: FrameEvent, retried: bool) -> FrameAction {
        if event.has_frame() {
            FrameAction::Draw
        } else if event.mendable() && !retried {
            FrameAction::Reconfigure
        } else {
            FrameAction::Fail
        }
    }

    /// What to do about the next frame.
    pub fn acquire_frame(event: FrameEvent, retried: bool) -> (r: FrameAction)
        ensures
            r == RenderSurface::frame_action(event, retried),
    {
        match event {
            FrameEvent::Ready => FrameAction::Draw,
            FrameEvent::Suboptimal => FrameAction::Draw,
            FrameEvent::Lost => if retried {
                FrameAction::Fail
            } else {
                FrameAction::Reconfigure
            },
            FrameEvent::Outdated => if retried {
                FrameAction::Fail
            } else {
                FrameAction::Reconfigure
            },
            FrameEvent::Timeout => FrameAction::Fail,
            FrameEvent::Occluded => FrameAction::Fail,
            FrameEvent::Refused => FrameAction::Fail,
        }
    }
}

/// A surface is set up again at most once for a frame: whatever comes of the second
/// try ends it.
pub proof fn a_frame_is_retried_once(event: FrameEvent)
    ensures
        RenderSurface::frame_action(event, true) != FrameAction::Reconfigure,
        RenderSurface::frame_action(event, true) == FrameAction::Draw <==> event.has_frame(),
{
}

/// A new size changes nothing else, and the depth texture follows it.
pub proof fn the_depth_follows_the_size(
    before: RenderSurface,
    after: RenderSurface,
    size: (u32, u32),
)
    requires
        after.config == (SurfaceSettings { width: size.0, height: size.1, ..before.config }),
    ensures
        after.depth() == (TexturePlan { width: size.0, height: size.1, ..before.depth() }),
        after.config.format == before.config.format,
{
}

/// Bytes of a vertex.
pub const VERTEX_SIZE: u64 = 16;

/// The buffers that every frame uses again.
#[derive(Clone, Copy, Debug, PartialEq, Eq, Structural)]
pub struct BufferPool {
    pub stroke_points: BufferPlan,
    pub stroke_indices: BufferPlan,
    pub uniform_frame: BufferPlan,
    pub uniform_ink: BufferPlan,
}

impl BufferPool {
    /// The most vertices of a stroke.
    pub const MAX_STROKE_POINTS: u64 = 16_384;

    /// The most indices of a stroke.
    pub const MAX_INDICES: u64 = 65_536;

    /// Bytes of a uniform buffer.
    pub const UNIFORM_SIZE: u64 = 256;

    /// The buffers: room for the largest stroke, and for the uniforms.
    pub open spec fn standard() -> BufferPool {
        BufferPool {
            stroke_points: BufferPlan { size: 262_144, role: BufferRole::Vertex },
            stroke_indices: BufferPlan { size: 262_144, role: BufferRole::Index },
            uniform_frame: BufferPlan { size: BufferPool::UNIFORM_SIZE, role: BufferRole::Uniform },
            uniform_ink: BufferPlan { size: BufferPool::UNIFORM_SIZE, role: BufferRole::Uniform },
        }
    }

    /// The buffers: room for the largest stroke, and for the uniforms.
    pub fn new() -> (r: BufferPool)
        ensures
            r == BufferPool::standard(),
            r.stroke_points.size == BufferPool::MAX_STROKE_POINTS * VERTEX_SIZE,
            r.stroke_indices.size == BufferPool::MAX_INDICES * 4,
    {
        BufferPool {
            stroke_points: BufferPlan {
                size: BufferPool::MAX_STROKE_POINTS * VERTEX_SIZE,
                role: BufferRole::Vertex,
            },
            stroke_indices: BufferPlan { size: BufferPool::MAX_INDICES * 4, role: BufferRole::Index },
            uniform_frame: BufferPlan { size: BufferPool::UNIFORM_SIZE, role: BufferRole::Uniform },
            uniform_ink: BufferPlan { size: BufferPool::UNIFORM_SIZE, role: BufferRole::Uniform },
        }
    }
}

/// The pooled buffers hold the ribbon along any stroke of up to 4097 points.
pub proof fn the_pool_holds_a_stroke<F: Fn(Op, u64, u64) -> u64>(
    unit: FloatUnit<F>,
    points: Seq<StrokePoint>,
    mesh: InkMesh,
    vertex_bytes: Seq<u8>,
    index_bytes: Seq<u8>,
)
    requires
        is_ribbon(unit, points, mesh),
        points.len() <= 4097,
        is_image(vertex_words(mesh.vertices@), vertex_bytes),
        is_image(mesh.indices@, index_bytes),
    ensures
        vertex_bytes.len() <= BufferPool::standard().stroke_points.size,
        index_bytes.len() <= BufferPool::standard().stroke_indices.size,
{
}

/// The uniforms of a frame.
#[derive(Clone, Copy, Debug, PartialEq)]
pub struct FrameUniforms {
    /// The view, column by column.
    pub view_proj: [[Single; 4]; 4],
    /// Width and height of the view, in pixels.
    pub viewport: [Single; 2],
    /// Seconds.
    pub time_secs: Single,
    pub _pad1: Single,
}

impl FrameUniforms {
    /// The words of the uniforms, in the order of their fields.
    pub open spec fn words(self) -> Seq<u32> {
        Seq::new(
            20,
            |k: int|
                if k < 16 {
                    self.view_proj[k / 4][k % 4].bits
                } else if k < 18 {
                    self.viewport[k - 16].bits
                } else if k == 18 {
                    self.time_secs.bits
                } else {
                    self._pad1.bits
                },
        )
    }

    /// The bytes of the uniforms, as a uniform buffer takes them.
    pub fn to_bytes(&self) -> (r: Vec<u8>)
        ensures
            is_image(self.words(), r@),
            r@.len() == 80,
    {
        let mut words: Vec<u32> = Vec::new();
        let mut k: usize = 0;
        while k < 16
            invariant
                k <= 16,
                words@ == self.words().take(k as int),
            decreases 16 - k,
        {
            words.push(self.view_proj[k / 4][k % 4].bits);
            assert(self.words().take(k + 1) == self.words().take(k as int).push(
                self.view_proj[k as int / 4][k as int % 4].bits,
            ));
            k += 1;
        }
        words.push(self.viewport[0].bits);
        words.push(self.viewport[1].bits);
        words.push(self.time_secs.bits);
        words.push(self._pad1.bits);
        assert(words@ == self.words());
        vstd::slice::slice_to_vec(words_as_bytes(words.as_slice()))
    }
}

/// The uniforms of the ink.
#[derive(Clone, Copy, Debug, PartialEq)]
pub struct InkUniforms {
    pub ink_color: [Single; 4],
    pub wetness: Single,
    pub diffusion: Single,
    pub roughness: Single,
    pub _pad2: Single,
}

impl InkUniforms {
    /// The words of the uniforms, in the order of their fields.
    pub open spec fn words(self) -> Seq<u32> {
        seq![
            self.ink_color[0].bits,
            self.ink_color[1].bits,
            self.ink_color[2].bits,
            self.ink_color[3].bits,
            self.wetness.bits,
            self.diffusion.bits,
            self.roughness.bits,
            self._pad2.bits,
        ]
    }

    /// The bytes of the uniforms, as a uniform buffer takes them.
    pub fn to_bytes(&self) -> (r: Vec<u8>)
        ensures
            is_image(self.words(), r@),
            r@.len() == 32,
    {
        let words: [u32; 8] = [
            self.ink_color[0].bits,
            self.ink_color[1].bits,
            self.ink_color[2].bits,
            self.ink_color[3].bits,
            self.wetness.bits,
            self.diffusion.bits,
            self.roughness.bits,
            self._pad2.bits,
        ];
        assert(words@ == self.words());
        vstd::slice::slice_to_vec(words_as_bytes(words.as_slice()))
    }
}

/// Both kinds of uniforms fit into their buffers.
pub proof fn uniforms_fit(
    frame: FrameUniforms,
    ink: InkUniforms,
    frame_bytes: Seq<u8>,
    ink_bytes: Seq<u8>,
)
    requires
        is_image(frame.words(), frame_bytes),
        is_image(ink.words(), ink_bytes),
    ensures
        frame_bytes.len() <= BufferPool::standard().uniform_frame.size,
        ink_bytes.len() <= BufferPool::standard().uniform_ink.size,
        frame_bytes.len() % 16 == 0,
        ink_bytes.len() % 16 == 0,
{
}

/// One attribute of a vertex: so many single-precision numbers, from an offset on.
#[derive(Clone, Copy, Debug, PartialEq, Eq, Structural)]
pub struct AttributePlan {
    pub floats: u32,
    /// Bytes.
    pub offset: u64,
    pub shader_location: u32,
}

/// A factor of the blending.
#[derive(Clone, Copy, Debug, PartialEq, Eq, Structural)]
pub enum BlendFactor {
    One,
    SrcAlpha,
    OneMinusSrcAlpha,
}

/// How what is drawn and what is there are added up.
#[derive(Clone, Copy, Debug, PartialEq, Eq, Structural)]
pub struct BlendPlan {
    pub src: BlendFactor,
    pub dst: BlendFactor,
}

/// How ink is drawn: triangles from both sides over what is there, nearest first.
pub struct InkPipeline {
    pub topology: Topology,
    /// Whether triangles that face away are left out.
    pub culls: bool,
    /// Whether what is drawn leaves its depth.
    pub depth_written: bool,
    /// Which depths pass.
    pub depth_compare: Compare,
    pub bindings: Vec<BindingPlan>,
    /// Bytes from one vertex to the next.
    pub array_stride: u64,
    pub attributes: Vec<AttributePlan>,
    /// What is drawn into.
    pub target: TextureFormat,
    pub color: BlendPlan,
    pub alpha: BlendPlan,
    pub depth: TextureFormat,
}

/// The bindings of the ink shaders: both uniforms, both textures and their sampler.
pub open spec fn ink_bindings() -> Seq<BindingPlan> {
    let fragment = |binding: u32, kind: BindingKind|
        BindingPlan { binding, vertex: false, fragment: true, compute: false, kind };
    seq![
        BindingPlan {
            binding: 0,
            vertex: true,
            fragment: true,
            compute: false,
            kind: BindingKind::Uniform,
        },
        fragment(1, BindingKind::Uniform),
        fragment(2, BindingKind::Texture),
        fragment(3, BindingKind::Texture),
        fragment(4, BindingKind::Sampler),
    ]
}

/// The attributes of a vertex: position, pressure and time.
pub open spec fn vertex_attributes() -> Seq<AttributePlan> {
    seq![
        AttributePlan { floats: 2, offset: 0, shader_location: 0 },
        AttributePlan { floats: 1, offset: 8, shader_location: 1 },
        AttributePlan { floats: 1, offset: 12, shader_location: 2 },
    ]
}

impl InkPipeline {
    /// How ink is drawn into a surface of a format.
    pub fn new(surface_format: TextureFormat) -> (r: InkPipeline)
        ensures
            r.topology == Topology::TriangleList,
            !r.culls,
            r.depth_written,
            r.depth_compare == Compare::Less,
            r.bindings@ == ink_bindings(),
            r.array_stride == VERTEX_SIZE,
            r.attributes@ == vertex_attributes(),
            r.target == surface_format,
            r.color == (BlendPlan {
                src: BlendFactor::SrcAlpha,
                dst: BlendFactor::OneMinusSrcAlpha,
            }),
            r.alpha == (BlendPlan { src: BlendFactor::One, dst: BlendFactor::OneMinusSrcAlpha }),
            r.depth == TextureFormat::Depth32Float,
    {
        let mut bindings: Vec<BindingPlan> = Vec::new();
        bindings.push(
            BindingPlan {
                binding: 0,
                vertex: true,
                fragment: true,
                compute: false,
                kind: BindingKind::Uniform,
            },
        );
        bindings.push(fragment_binding(1, BindingKind::Uniform));
        bindings.push(fragment_binding(2, BindingKind::Texture));
        bindings.push(fragment_binding(3, BindingKind::Texture));
        bindings.push(fragment_binding(4, BindingKind::Sampler));
        let mut attributes: Vec<AttributePlan> = Vec::new();
        attributes.push(AttributePlan { floats: 2, offset: 0, shader_location: 0 });
        attributes.push(AttributePlan { floats: 1, offset: 8, shader_location: 1 });
        attributes.push(AttributePlan { floats: 1, offset: 12, shader_location: 2 });
        assert(bindings@ == ink_bindings());
        InkPipeline {
            topology: Topology::TriangleList,
            culls: false,
            depth_written: true,
            depth_compare: Compare::Less,
            bindings,
            array_stride: VERTEX_SIZE,
            attributes,
            target: surface_format,
            color: BlendPlan { src: BlendFactor::SrcAlpha, dst: BlendFactor::OneMinusSrcAlpha },
            alpha: BlendPlan { src: BlendFactor::One, dst: BlendFactor::OneMinusSrcAlpha },
            depth: TextureFormat::Depth32Float,
        }
    }
}

/// A binding that only the fragment shader sees.
fn fragment_binding(binding: u32, kind: BindingKind) -> (r: BindingPlan)
    ensures
        r == (BindingPlan { binding, vertex: false, fragment: true, compute: false, kind }),
{
    BindingPlan { binding, vertex: false, fragment: true, compute: false, kind }
}

/// The bindings are numbered from zero without a gap.
pub proof fn ink_bindings_are_numbered(i: int)
    requires
        0 <= i < ink_bindings().len(),
    ensures
        ink_bindings()[i].binding == i,
        !ink_bindings()[i].compute,
{
}

/// The attributes cover a vertex without a gap or an overlap: each starts where the
/// one before ends, and the last ends where the next vertex starts.
pub proof fn attributes_cover_a_vertex(i: int)
    requires
        0 <= i < vertex_attributes().len(),
    ensures
        vertex_attributes()[0].offset == 0,
        vertex_attributes()[i].shader_location == i,
        vertex_attributes()[i].offset + 4 * vertex_attributes()[i].floats == if i + 1
            < vertex_attributes().len() {
            vertex_attributes()[i + 1].offset as int
        } else {
            VERTEX_SIZE as int
        },
{
}

/// The pipeline reads vertices as the mesh writes them: the first word of attribute
/// `i` of vertex `v` stands in the bytes of the mesh at the stride and offset of the
/// pipeline.
pub proof fn the_pipeline_reads_what_the_mesh_writes(vertices: Seq<InkVertex>, v: int)
    requires
        0 <= v < vertices.len(),
    ensures
        ({
            let words = vertex_words(vertices);
            let at = |i: int| (VERTEX_SIZE * v + vertex_attributes()[i].offset) / 4;
            &&& words[at(0)] == vertices[v].pos_mm[0].bits
            &&& words[at(0) + 1] == vertices[v].pos_mm[1].bits
            &&& words[at(1)] == vertices[v].pressure.bits
            &&& words[at(2)] == vertices[v].timestamp_secs.bits
            &&& words.len() * 4 == VERTEX_SIZE * vertices.len()
        }),
{
}

/// A texture that is filled from memory, four bytes a pixel, row by row.
#[derive(Clone, Copy, Debug, PartialEq, Eq)]
pub struct UploadPlan<'a> {
    pub texture: TexturePlan,
    /// What the texture is filled with.
    pub bytes: &'a [u8],
    pub bytes_per_row: u32,
    pub rows_per_image: u32,
}

impl<'a> UploadPlan<'a> {
    /// Whether this is the upload of a picture of a format and a size.
    pub open spec fn uploads(
        self,
        bytes: Seq<u8>,
        format: TextureFormat,
        width: u32,
        height: u32,
    ) -> bool {
        &&& self.texture == (TexturePlan {
            width,
            height,
            format,
            usage: TextureUse {
                attachment: false,
                binding: true,
                storage: false,
                copy_src: false,
                copy_dst: true,
            },
        })
        &&& self.bytes@ == bytes
        &&& self.bytes_per_row == width * 4
        &&& self.rows_per_image == height
    }
}

/// The upload of a picture.
fn upload<'a>(bytes: &'a [u8], format: TextureFormat, width: u32, height: u32) -> (r: UploadPlan<
    'a,
>)
    requires
        width * 4 <= u32::MAX,
    ensures
        r.uploads(bytes@, format, width, height),
{
    UploadPlan {
        texture: TexturePlan {
            width,
            height,
            format,
            usage: TextureUse {
                attachment: false,
                binding: true,
                storage: false,
                copy_src: false,
                copy_dst: true,
            },
        },
        bytes,
        bytes_per_row: width * 4,
        rows_per_image: height,
    }
}

/// The uploads of a paper, and the sampler that reads them.
#[derive(Clone, Copy, Debug, PartialEq, Eq)]
pub struct PaperUpload<'a> {
    pub paper: UploadPlan<'a>,
    pub normal: UploadPlan<'a>,
    pub sampler: SamplerPlan,
}

/// The uploads of a paper: its colors in the sRGB curve, its normals linear. The
/// sampler repeats the paper in both directions and blends between texels.
pub fn upload_paper_textures<'a>(
    paper_rgba: &'a [u8],
    normal_rgba: &'a [u8],
    width: u32,
    height: u32,
) -> (r: PaperUpload<'a>)
    requires
        width * 4 <= u32::MAX,
    ensures
        r.paper.uploads(paper_rgba@, TextureFormat::Rgba8UnormSrgb, width, height),
        r.normal.uploads(normal_rgba@, TextureFormat::Rgba8Unorm, width, height),
        r.sampler == (SamplerPlan {
            address_u: AddressMode::Repeat,
            address_v: AddressMode::Repeat,
            mag_filter: FilterMode::Linear,
            min_filter: FilterMode::Linear,
            mipmap_filter: FilterMode::Linear,
        }),
{
    PaperUpload {
        paper: upload(paper_rgba, TextureFormat::Rgba8UnormSrgb, width, height),
        normal: upload(normal_rgba, TextureFormat::Rgba8Unorm, width, height),
        sampler: SamplerPlan {
            address_u: AddressMode::Repeat,
            address_v: AddressMode::Repeat,
            mag_filter: FilterMode::Linear,
            min_filter: FilterMode::Linear,
            mipmap_filter: FilterMode::Linear,
        },
    }
}

/// The uploads of a generated paper take exactly the bytes that it has.
pub proof fn uploads_take_the_whole_paper<'a, F: Fn(Op, u64, u64) -> u64>(
    unit: FloatUnit<F>,
    params: PaperParams,
    paper: PaperTexture,
    color: UploadPlan<'a>,
    normal: UploadPlan<'a>,
)
    requires
        is_paper(unit, params, paper),
        color.uploads(
            paper.diffuse_rgba@,
            TextureFormat::Rgba8UnormSrgb,
            paper.width,
            paper.height,
        ),
        normal.uploads(
            paper.normal_rgba@,
            TextureFormat::Rgba8Unorm,
            paper.width,
            paper.height,
        ),
    ensures
        color.bytes_per_row * color.rows_per_image == color.bytes@.len(),
        normal.bytes_per_row * normal.rows_per_image == normal.bytes@.len(),
{
    a_paper_is_full_and_opaque(unit, params, paper);
    assert((paper.width * 4) * paper.height == paper.width * paper.height * 4)
        by (nonlinear_arith);
}

/// How a frame starts: the surface is cleared to a color and the depth to the
/// farthest. Both are kept when the frame ends.
#[derive(Clone, Copy, Debug, PartialEq)]
pub struct FrameEncoder {
    pub clear_color: [Double; 4],
    pub clear_depth: Single,
    /// Whether the colors are kept when the frame ends.
    pub store_color: bool,
    /// Whether the depths are kept when the frame ends.
    pub store_depth: bool,
}

impl FrameEncoder {
    /// How a frame starts.
    pub fn begin_ink_pass(clear_color: [Double; 4]) -> (r: FrameEncoder)
        ensures
            r.clear_color == clear_color,
            r.clear_depth == single(ONE),
            r.store_color,
            r.store_depth,
    {
        FrameEncoder {
            clear_color,
            clear_depth: single(ONE),
            store_color: true,
            store_depth: true,
        }
    }
}

/// A frame that is there is drawn into. A surface that is lost or outdated is set up
/// again, but not a second time; a timeout, a hidden window and a refusal end the frame.
pub proof fn frames_are_drawn_mended_or_given_up(event: FrameEvent, retried: bool)
    ensures
        ({
            let action = RenderSurface::frame_action(event, retried);
            match event {
                FrameEvent::Ready => action is Draw,
                FrameEvent::Suboptimal => action is Draw,
                FrameEvent::Lost => if retried {
                    action is Fail
                } else {
                    action is Reconfigure
                },
                FrameEvent::Outdated => if retried {
                    action is Fail
                } else {
                    action is Reconfigure
                },
                FrameEvent::Timeout => action is Fail,
                FrameEvent::Occluded => action is Fail,
                FrameEvent::Refused => action is Fail,
            }
        }),
{
}

/// Uniforms with the same words are the same: every field has its words.
pub proof fn uniforms_are_told_apart(
    a: FrameUniforms,
    b: FrameUniforms,
    c: InkUniforms,
    d: InkUniforms,
)
    ensures
        a.words() == b.words() ==> {
            &&& forall|i: int, j: int|
                0 <= i < 4 && 0 <= j < 4 ==> #[trigger] a.view_proj[i][j] == b.view_proj[i][j]
            &&& a.viewport[0] == b.viewport[0]
            &&& a.viewport[1] == b.viewport[1]
            &&& a.time_secs == b.time_secs
        },
        c.words() == d.words() ==> {
            &&& forall|i: int| 0 <= i < 4 ==> #[trigger] c.ink_color[i] == d.ink_color[i]
            &&& c.wetness == d.wetness
            &&& c.diffusion == d.diffusion
            &&& c.roughness == d.roughness
        },
{
    if a.words() == b.words() {
        assert forall|i: int, j: int| 0 <= i < 4 && 0 <= j < 4 implies #[trigger] a.view_proj[i][j]
            == b.view_proj[i][j] by {
            let k = 4 * i + j;
            assert(k / 4 == i && k % 4 == j);
            assert(a.words()[k] == a.view_proj[i][j].bits);
            assert(b.words()[k] == b.view_proj[i][j].bits);
        }
        assert(a.words()[16] == b.words()[16]);
        assert(a.words()[17] == b.words()[17]);
        assert(a.words()[18] == b.words()[18]);
    }
    if c.words() == d.words() {
        assert forall|i: int| 0 <= i < 4 implies #[trigger] c.ink_color[i] == d.ink_color[i] by {
            assert(c.words()[i] == c.ink_color[i].bits);
            assert(d.words()[i] == d.ink_color[i].bits);
        }
        assert(c.words()[4] == d.words()[4]);
        assert(c.words()[5] == d.words()[5]);
        assert(c.words()[6] == d.words()[6]);
    }
}

/// The view comes first, column by column, then the size of the view, then the time; the
/// color of the ink comes first, then how wet it is, how it spreads and how rough it is.
pub proof fn uniforms_stand_in_order(frame: FrameUniforms, ink: InkUniforms, column: int, row: int)
    requires
        0 <= column < 4,
        0 <= row < 4,
    ensures
        frame.words().len() == 20,
        frame.words()[4 * column + row] == frame.view_proj[column][row].bits,
        frame.words()[16] == frame.viewport[0].bits,
        frame.words()[17] == frame.viewport[1].bits,
        frame.words()[18] == frame.time_secs.bits,
        ink.words().len() == 8,
        ink.words()[row] == ink.ink_color[row].bits,
        ink.words()[4] == ink.wetness.bits,
        ink.words()[5] == ink.diffusion.bits,
        ink.words()[6] == ink.roughness.bits,
{
    let k = 4 * column + row;
    assert(k / 4 == column && k % 4 == row);
}

/// The errors in words: what failed, and then the reason where there is one.
pub proof fn render_errors_in_words(reason: String)
    ensures
        RenderError::NoAdapter.words() == "no Vulkan adapter found"@,
        RenderError::RequestDevice(reason).words() == "device request failed: "@ + reason@,
        RenderError::CreateSurface(reason).words() == "surface creation failed: "@ + reason@,
        RenderError::Surface(reason).words() == "surface lost or timeout: "@ + reason@,
        RenderError::ShaderCompile(reason).words() == "shader compilation failed: "@ + reason@,
        RenderError::InvalidMesh.words() == "invalid mesh"@,
        RenderError::Io(reason).words() == "IO error: "@ + reason@,
{
}

/// The ink shaders are given two uniform buffers, of which both stages see the first, two
/// textures and one sampler, which only the fragments see.
pub proof fn ink_shaders_get_what_they_read()
    ensures
        ink_bindings().len() == 5,
        ink_bindings()[0].kind is Uniform,
        ink_bindings()[1].kind is Uniform,
        ink_bindings()[2].kind is Texture,
        ink_bindings()[3].kind is Texture,
        ink_bindings()[4].kind is Sampler,
        forall|i: int|
            0 <= i < 5 ==> (#[trigger] ink_bindings()[i]).fragment && (ink_bindings()[i].vertex
                <==> i == 0),
{
}

/// The depth texture is as large as its surface; it is drawn into and read, and never
/// copied. A texture that is filled from memory is copied to and read, and never drawn
/// into; its rows follow each other without a gap.
pub proof fn textures_serve_their_use<'a>(
    surface: RenderSurface,
    plan: UploadPlan<'a>,
    bytes: Seq<u8>,
    format: TextureFormat,
    width: u32,
    height: u32,
)
    requires
        plan.uploads(bytes, format, width, height),
    ensures
        surface.depth().width == surface.config.width,
        surface.depth().height == surface.config.height,
        surface.depth().format is Depth32Float,
        surface.depth().usage.attachment && surface.depth().usage.binding,
        !surface.depth().usage.copy_src && !surface.depth().usage.copy_dst,
        plan.texture.usage.copy_dst && plan.texture.usage.binding,
        !plan.texture.usage.attachment && !plan.texture.usage.storage,
        plan.texture.width == width && plan.texture.height == height,
        plan.texture.format == format,
        plan.bytes@ == bytes,
        plan.bytes_per_row == 4 * plan.texture.width,
        plan.rows_per_image == plan.texture.height,
{
}

} // verus!
