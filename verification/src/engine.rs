//! The paper engine: five compute passes that lay a paper out on the graphics
//! device, one layer after the other.

use crate::gpu::{
    AlphaMode, Backends, BindingKind, BindingPlan, BufferPlan, BufferRole, DeviceLimits,
    DeviceSetup, FormatWish, FrameAction, FrameEvent, PresentMode, SurfaceSettings, TextureFormat,
    TexturePlan, TextureUse,
};
use crate::number::Single;
use crate::words::{is_image, words_as_bytes};
use vstd::prelude::*;

verus! {

/// What can go wrong with a frame.
#[derive(Debug)]
pub enum RenderError {
    /// There is no frame; why.
    Surface(String),
}

/// What a paper looks like, as the shaders take it. Eleven words.
#[derive(Clone, Copy, Debug, PartialEq)]
pub struct PaperParams {
    pub width: u32,
    pub height: u32,
    pub seed: u32,
    pub grain_intensity: Single,
    pub fiber_density: Single,
    pub water_stain_count: u32,
    pub aging_yellow: Single,
    pub fiber_direction: Single,
    pub roughness: Single,
    pub _pad: [Single; 2],
}

impl PaperParams {
    /// The words of the parameters, in the order of their fields.
    pub open spec fn words(self) -> Seq<u32> {
        seq![
            self.width,
            self.height,
            self.seed,
            self.grain_intensity.bits,
            self.fiber_density.bits,
            self.water_stain_count,
            self.aging_yellow.bits,
            self.fiber_direction.bits,
            self.roughness.bits,
            self._pad[0].bits,
            self._pad[1].bits,
        ]
    }

    /// The bytes of the parameters, as the uniform buffer takes them.
    pub fn to_bytes(&self) -> (r: Vec<u8>)
        ensures
            is_image(self.words(), r@),
            r@.len() == PARAMS_SIZE,
    {
        let words: [u32; 11] = [
            self.width,
            self.height,
            self.seed,
            self.grain_intensity.bits,
            self.fiber_density.bits,
            self.water_stain_count,
            self.aging_yellow.bits,
            self.fiber_direction.bits,
            self.roughness.bits,
            self._pad[0].bits,
            self._pad[1].bits,
        ];
        assert(words@ == self.words());
        vstd::slice::slice_to_vec(words_as_bytes(words.as_slice()))
    }
}

/// Bytes of the parameters.
pub const PARAMS_SIZE: u64 = 44;

/// Words of the noise table.
pub const NOISE_WORDS: usize = 256;

/// Bytes of the noise table.
pub const NOISE_SIZE: u64 = 1024;

/// Pixels along a side of a workgroup.
pub const GROUP_SIDE: u32 = 8;

/// Multiplier of the noise generator.
pub const NOISE_FACTOR: u64 = 747_796_405;

/// Increment of the noise generator.
pub const NOISE_STEP: u64 = 2_891_336_453;

/// A layer of a paper. Each is the work of one compute pass.
#[derive(Clone, Copy, Debug, PartialEq, Eq, Structural)]
pub enum Layer {
    Base,
    Grain,
    Fiber,
    Water,
    Composite,
}

impl Layer {
    /// The layers in the order in which they are laid.
    pub open spec fn order() -> Seq<Layer> {
        seq![Layer::Base, Layer::Grain, Layer::Fiber, Layer::Water, Layer::Composite]
    }

    /// The place of a layer in the order.
    pub open spec fn place(self) -> int {
        match self {
            Layer::Base => 0,
            Layer::Grain => 1,
            Layer::Fiber => 2,
            Layer::Water => 3,
            Layer::Composite => 4,
        }
    }

    /// The layers in the order in which they are laid.
    pub fn all() -> (r: [Layer; 5])
        ensures
            r@ == Layer::order(),
    {
        let layers = [Layer::Base, Layer::Grain, Layer::Fiber, Layer::Water, Layer::Composite];
        assert(layers@ == Layer::order());
        layers
    }

    /// Where the shader of a layer starts.
    pub open spec fn entry(self) -> Seq<char> {
        match self {
            Layer::Base => "paper_base"@,
            Layer::Grain => "grain"@,
            Layer::Fiber => "fiber"@,
            Layer::Water => "water"@,
            Layer::Composite => "composite"@,
        }
    }

    /// Where the shader of a layer starts.
    pub fn entry_point(self) -> (r: &'static str)
        ensures
            r@ == self.entry(),
    {
        match self {
            Layer::Base => "paper_base",
            Layer::Grain => "grain",
            Layer::Fiber => "fiber",
            Layer::Water => "water",
            Layer::Composite => "composite",
        }
    }

    /// The texture of a layer: half-precision numbers that later layers read, and
    /// bytes that are copied to the screen for the last one.
    pub open spec fn texture(self, width: u32, height: u32) -> TexturePlan {
        TexturePlan {
            width,
            height,
            format: self.texels(),
            usage: TextureUse {
                attachment: false,
                binding: true,
                storage: true,
                copy_src: self == Layer::Composite,
                copy_dst: false,
            },
        }
    }

    /// How the texels of a layer are stored.
    pub open spec fn texels(self) -> TextureFormat {
        if self == Layer::Composite {
            TextureFormat::Rgba8Unorm
        } else {
            TextureFormat::Rgba16Float
        }
    }

    /// The texture of a layer.
    pub fn plan_texture(self, width: u32, height: u32) -> (r: TexturePlan)
        ensures
            r == self.texture(width, height),
    {
        let last = self == Layer::Composite;
        TexturePlan {
            width,
            height,
            format: if last {
                TextureFormat::Rgba8Unorm
            } else {
                TextureFormat::Rgba16Float
            },
            usage: TextureUse {
                attachment: false,
                binding: true,
                storage: true,
                copy_src: last,
                copy_dst: false,
            },
        }
    }
}

/// A binding that the compute shaders see.
pub open spec fn compute_binding(binding: u32, kind: BindingKind) -> BindingPlan {
    BindingPlan { binding, vertex: false, fragment: false, compute: true, kind }
}

/// The bindings of the compute shaders: the parameters, the noise table, and the
/// texture of each layer.
pub open spec fn paper_bindings() -> Seq<BindingPlan> {
    seq![
        compute_binding(0, BindingKind::Uniform),
        compute_binding(1, BindingKind::ReadOnlyStorage),
        compute_binding(2, BindingKind::StorageTexture(TextureFormat::Rgba16Float)),
        compute_binding(3, BindingKind::StorageTexture(TextureFormat::Rgba16Float)),
        compute_binding(4, BindingKind::StorageTexture(TextureFormat::Rgba16Float)),
        compute_binding(5, BindingKind::StorageTexture(TextureFormat::Rgba16Float)),
        compute_binding(6, BindingKind::StorageTexture(TextureFormat::Rgba8Unorm)),
    ]
}

/// What stands behind a binding.
#[derive(Clone, Copy, Debug, PartialEq, Eq, Structural)]
pub enum Resource {
    /// The buffer of the parameters.
    Params,
    /// The buffer of the noise table.
    Noise,
    /// The texture of a layer.
    Texture(Layer),
}

/// What stands behind the bindings of the compute shaders, in their order.
pub open spec fn paper_resources() -> Seq<Resource> {
    seq![
        Resource::Params,
        Resource::Noise,
        Resource::Texture(Layer::Base),
        Resource::Texture(Layer::Grain),
        Resource::Texture(Layer::Fiber),
        Resource::Texture(Layer::Water),
        Resource::Texture(Layer::Composite),
    ]
}

/// Behind each binding stands what it is made for.
pub proof fn resources_fit_their_bindings(i: int)
    requires
        0 <= i < paper_resources().len(),
    ensures
        paper_bindings().len() == paper_resources().len(),
        paper_bindings()[i].kind == match paper_resources()[i] {
            Resource::Params => BindingKind::Uniform,
            Resource::Noise => BindingKind::ReadOnlyStorage,
            Resource::Texture(layer) => BindingKind::StorageTexture(layer.texels()),
        },
{
}

/// The state of the noise generator after so many steps.
pub open spec fn noise_state(seed: u64, steps: nat) -> u64
    decreases steps,
{
    if steps == 0 {
        seed
    } else {
        ((noise_state(seed, (steps - 1) as nat) * NOISE_FACTOR + NOISE_STEP)
            % 0x1_0000_0000_0000_0000) as u64
    }
}

/// A word of the noise table: the upper half of the state after one more step.
pub open spec fn noise_word(seed: u64, i: int) -> u32 {
    (noise_state(seed, (i + 1) as nat) as int / 0x1_0000_0000) as u32
}

/// The noise table that grows from a seed.
pub open spec fn noise_table(seed: u64) -> Seq<u32> {
    Seq::new(NOISE_WORDS as nat, |i: int| noise_word(seed, i))
}

/// How many workgroups cover so many pixels.
pub open spec fn groups(pixels: u32) -> u32 {
    ((pixels + 7) / 8) as u32
}

/// What a paper is made with: the layers in the order of their passes, the bytes of
/// the two buffers and the workgroups of every pass.
pub struct PaperPass {
    pub layers: [Layer; 5],
    pub params: Vec<u8>,
    pub noise: Vec<u8>,
    pub groups_x: u32,
    pub groups_y: u32,
}

/// The paper engine, as far as it is decided without a device.
pub struct PaperEngine {
    pub config: SurfaceSettings,
    pub params_buffer: BufferPlan,
    pub noise_buffer: BufferPlan,
    pub bindings: Vec<BindingPlan>,
    /// What stands behind the bindings.
    pub resources: Vec<Resource>,
    pub textures: Vec<TexturePlan>,
}

/// The texture that is copied to a frame, and how much of it.
#[derive(Clone, Copy, Debug, PartialEq, Eq, Structural)]
pub struct BlitPlan {
    pub source: Layer,
    pub width: u32,
    pub height: u32,
}

impl PaperEngine {
    /// The graphics interfaces that are tried: Vulkan and nothing else.
    pub fn backends() -> (r: Backends)
        ensures
            r == Backends::VulkanOnly,
    {
        Backends::VulkanOnly
    }

    /// The adapter and the device of an engine: fast ones in hardware that can show the
    /// surface and write the textures of the layers.
    pub fn device_setup() -> (r: DeviceSetup)
        ensures
            r == (DeviceSetup {
                high_performance: true,
                fallback: false,
                for_surface: true,
                adapter_formats: true,
                limits: DeviceLimits::Full,
            }),
    {
        DeviceSetup {
            high_performance: true,
            fallback: false,
            for_surface: true,
            adapter_formats: true,
            limits: DeviceLimits::Full,
        }
    }

    /// An engine for a surface that offers formats, of a size in pixels.
    pub fn new(formats: &[TextureFormat], width: u32, height: u32) -> (r: PaperEngine)
        requires
            formats@.len() > 0,
        ensures
            r.config == (SurfaceSettings {
                format: FormatWish::PlainBytes.chosen(formats@),
                width,
                height,
                present_mode: PresentMode::Fifo,
                alpha_mode: AlphaMode::Auto,
                max_frame_latency: 2,
            }),
            r.params_buffer == (BufferPlan { size: PARAMS_SIZE, role: BufferRole::Uniform }),
            r.noise_buffer == (BufferPlan { size: NOISE_SIZE, role: BufferRole::Storage }),
            r.bindings@ == paper_bindings(),
            r.resources@ == paper_resources(),
            r.textures@ == Seq::new(5, |i: int| Layer::order()[i].texture(width, height)),
    {
        let mut bindings: Vec<BindingPlan> = Vec::new();
        bindings.push(Self::bind(0, BindingKind::Uniform));
        bindings.push(Self::bind(1, BindingKind::ReadOnlyStorage));
        let mut resources: Vec<Resource> = Vec::new();
        resources.push(Resource::Params);
        resources.push(Resource::Noise);
        let layers = Layer::all();
        let mut textures: Vec<TexturePlan> = Vec::new();
        let mut i: usize = 0;
        while i < 5
            invariant
                i <= 5,
                layers@ == Layer::order(),
                bindings@ == paper_bindings().take(i + 2),
                resources@ == paper_resources().take(i + 2),
                textures@ == Seq::new(i as nat, |k: int| Layer::order()[k].texture(width, height)),
            decreases 5 - i,
        {
            let texture = layers[i].plan_texture(width, height);
            let binding = Self::bind(2 + i as u32, BindingKind::StorageTexture(texture.format));
            bindings.push(binding);
            resources.push(Resource::Texture(layers[i]));
            textures.push(texture);
            assert(paper_bindings()[i + 2] == binding);
            assert(paper_bindings().take(i + 3) == paper_bindings().take(i + 2).push(binding));
            assert(paper_resources()[i + 2] == Resource::Texture(layers[i as int]));
            assert(paper_resources().take(i + 3) == paper_resources().take(i + 2).push(
                Resource::Texture(layers[i as int]),
            ));
            i += 1;
        }
        assert(paper_bindings().take(7) == paper_bindings());
        assert(paper_resources().take(7) == paper_resources());
        PaperEngine {
            config: SurfaceSettings {
                format: FormatWish::PlainBytes.choose_format(formats),
                width,
                height,
                present_mode: PresentMode::Fifo,
                alpha_mode: AlphaMode::Auto,
                max_frame_latency: 2,
            },
            params_buffer: BufferPlan { size: PARAMS_SIZE, role: BufferRole::Uniform },
            noise_buffer: BufferPlan { size: NOISE_SIZE, role: BufferRole::Storage },
            bindings,
            resources,
            textures,
        }
    }

    /// What a frame shows: the last layer, as far as the surface reaches.
    pub fn blit(&self) -> (r: BlitPlan)
        ensures
            r == (BlitPlan {
                source: Layer::Composite,
                width: self.config.width,
                height: self.config.height,
            }),
    {
        BlitPlan {
            source: Layer::Composite,
            width: self.config.width,
            height: self.config.height,
        }
    }

    /// A binding that the compute shaders see.
    fn bind(binding: u32, kind: BindingKind) -> (r: BindingPlan)
        ensures
            r == compute_binding(binding, kind),
    {
        BindingPlan { binding, vertex: false, fragment: false, compute: true, kind }
    }

    /// The noise table that grows from a seed.
    pub fn generate_noise_seed(seed: u64) -> (r: Vec<u32>)
        ensures
            r@ == noise_table(seed),
    {
        let mut state: u64 = seed;
        let mut words: Vec<u32> = Vec::new();
        while words.len() < NOISE_WORDS
            invariant
                words@.len() <= NOISE_WORDS,
                state == noise_state(seed, words@.len()),
                words@ == Seq::new(words@.len(), |i: int| noise_word(seed, i)),
            decreases NOISE_WORDS - words@.len(),
        {
            let ghost before = state;
            let product = state.wrapping_mul(NOISE_FACTOR);
            state = product.wrapping_add(NOISE_STEP);
            proof {
                steps_wrap(before);
                assert(state == noise_state(seed, words@.len() + 1));
                assert((state >> 32) == state / 0x1_0000_0000) by (bit_vector);
            }
            let word = (state >> 32) as u32;
            assert(word == noise_word(seed, words@.len() as int));
            words.push(word);
        }
        words
    }

    /// How many workgroups cover so many pixels.
    pub fn workgroups(pixels: u32) -> (r: u32)
        requires
            pixels <= u32::MAX - 7,
        ensures
            r == groups(pixels),
            pixels <= r * 8 < pixels + 8,
    {
        (pixels + 7) / 8
    }

    /// What a paper is made with. The noise table grows from `noise_seed`.
    pub fn generate(params: &PaperParams, noise_seed: u64) -> (r: PaperPass)
        requires
            params.width <= u32::MAX - 7,
            params.height <= u32::MAX - 7,
        ensures
            r.layers@ == Layer::order(),
            is_image(params.words(), r.params@),
            is_image(noise_table(noise_seed), r.noise@),
            r.groups_x == groups(params.width),
            r.groups_y == groups(params.height),
    {
        let table = Self::generate_noise_seed(noise_seed);
        PaperPass {
            layers: Layer::all(),
            params: params.to_bytes(),
            noise: vstd::slice::slice_to_vec(words_as_bytes(table.as_slice())),
            groups_x: Self::workgroups(params.width),
            groups_y: Self::workgroups(params.height),
        }
    }

    /// What to do about the next frame: a surface that is lost or outdated is set up
    /// again, as often as it takes.
    pub open spec fn frame_action(event: FrameEvent) -> FrameAction {
        if event.has_frame() {
            FrameAction::Draw
        } else if event.mendable() {
            FrameAction::Reconfigure
        } else {
            FrameAction::Fail
        }
    }

    /// What to do about the next frame.
    pub fn render(event: FrameEvent) -> (r: FrameAction)
        ensures
            r == PaperEngine::frame_action(event),
    {
        match event {
            FrameEvent::Ready => FrameAction::Draw,
            FrameEvent::Suboptimal => FrameAction::Draw,
            FrameEvent::Lost => FrameAction::Reconfigure,
            FrameEvent::Outdated => FrameAction::Reconfigure,
            FrameEvent::Timeout => FrameAction::Fail,
            FrameEvent::Occluded => FrameAction::Fail,
            FrameEvent::Refused => FrameAction::Fail,
        }
    }

    /// The error of a frame that is not there; `reason` is what came instead.
    pub fn frame_error(reason: &str) -> (r: RenderError)
        ensures
            r matches RenderError::Surface(message) && message@
                == "Failed to acquire surface texture: "@ + reason@,
    {
        let mut message = "Failed to acquire surface texture: ".to_string();
        message.append(reason);
        RenderError::Surface(message)
    }
}

/// A wrapping step of the noise generator is a step modulo the size of a word.
proof fn steps_wrap(state: u64)
    ensures
        state.wrapping_mul(NOISE_FACTOR).wrapping_add(NOISE_STEP) == ((state * NOISE_FACTOR
            + NOISE_STEP) % 0x1_0000_0000_0000_0000) as u64,
{
}

/// The bindings are numbered from zero without a gap, and each layer has the binding
/// after the two buffers at its place in the order, in the format of its texture.
pub proof fn layers_are_bound_in_order(layer: Layer, width: u32, height: u32)
    ensures
        Layer::order()[layer.place()] == layer,
        paper_bindings()[layer.place() + 2] == compute_binding(
            (layer.place() + 2) as u32,
            BindingKind::StorageTexture(layer.texture(width, height).format),
        ),
        layer.texture(width, height).usage.storage,
        forall|i: int|
            0 <= i < paper_bindings().len() ==> (#[trigger] paper_bindings()[i]).binding == i,
{
}

/// Both buffers are as large as what is written to them.
pub proof fn buffers_hold_their_contents(
    params: PaperParams,
    seed: u64,
    params_bytes: Seq<u8>,
    noise_bytes: Seq<u8>,
)
    requires
        is_image(params.words(), params_bytes),
        is_image(noise_table(seed), noise_bytes),
    ensures
        params_bytes.len() == PARAMS_SIZE,
        noise_bytes.len() == NOISE_SIZE,
{
}

/// The workgroups cover all pixels, and no group is idle.
pub proof fn groups_cover_the_pixels(pixels: u32)
    requires
        pixels <= u32::MAX - 7,
    ensures
        groups(pixels) * GROUP_SIDE >= pixels,
        groups(pixels) > 0 ==> (groups(pixels) - 1) * GROUP_SIDE < pixels,
{
}

/// What the last layer leaves can be copied to the screen, where the surface offers
/// bytes of color: both are four bytes a pixel, of one size.
pub proof fn the_composite_can_be_shown(
    formats: Seq<TextureFormat>,
    width: u32,
    height: u32,
)
    requires
        formats.len() > 0,
        exists|i: int| 0 <= i < formats.len() && (#[trigger] formats[i]).plain_bytes(),
    ensures
        FormatWish::PlainBytes.chosen(formats).plain_bytes(),
        Layer::Composite.texture(width, height).format.plain_bytes(),
        Layer::Composite.texture(width, height).usage.copy_src,
        Layer::Composite.texture(width, height).width == width,
        Layer::Composite.texture(width, height).height == height,
{
    let i = choose|i: int| 0 <= i < formats.len() && (#[trigger] formats[i]).plain_bytes();
    assert(FormatWish::PlainBytes.likes(formats[i]));
    crate::gpu::the_choice_is_offered(FormatWish::PlainBytes, formats);
}

/// The noise generator takes one step from word to word: a table that grows from the
/// state after a step is the table that grows from the state before, without its first
/// word. Each word is the upper half of its state.
pub proof fn noise_goes_on(seed: u64, next: u64, i: int)
    requires
        next == (seed * 747_796_405 + 2_891_336_453) % 0x1_0000_0000_0000_0000,
        0 <= i < 255,
    ensures
        noise_table(seed).len() == 256,
        noise_table(seed)[0] == next / 0x1_0000_0000,
        noise_table(seed)[i + 1] == noise_table(next)[i],
{
    assert(noise_state(seed, 1) == next) by {
        reveal_with_fuel(noise_state, 2);
    }
    states_go_on(seed, next, (i + 1) as nat);
}

/// A step first or a step last leads to the same state.
proof fn states_go_on(seed: u64, next: u64, steps: nat)
    requires
        next == noise_state(seed, 1),
    ensures
        noise_state(seed, steps + 1) == noise_state(next, steps),
    decreases steps,
{
    if steps > 0 {
        states_go_on(seed, next, (steps - 1) as nat);
    }
}

/// A frame that is there is drawn into. A surface that is lost or outdated is set up
/// again; a timeout, a hidden window and a refusal end the frame.
pub proof fn frames_are_drawn_mended_or_given_up(event: FrameEvent)
    ensures
        ({
            let action = PaperEngine::frame_action(event);
            match event {
                FrameEvent::Ready => action is Draw,
                FrameEvent::Suboptimal => action is Draw,
                FrameEvent::Lost => action is Reconfigure,
                FrameEvent::Outdated => action is Reconfigure,
                FrameEvent::Timeout => action is Fail,
                FrameEvent::Occluded => action is Fail,
                FrameEvent::Refused => action is Fail,
            }
        }),
{
}

/// The base is laid first, the composite last, each layer once, and each by the shader of
/// its own name. Only what the composite leaves is copied away, in bytes.
pub proof fn layers_end_in_the_composite(a: Layer, b: Layer, width: u32, height: u32)
    ensures
        Layer::order().len() == 5,
        Layer::order()[0] == Layer::Base,
        Layer::order()[4] == Layer::Composite,
        Layer::order().no_duplicates(),
        a.texture(width, height).width == width,
        a.texture(width, height).height == height,
        a.texture(width, height).usage.copy_src <==> a is Composite,
        a.texture(width, height).format == TextureFormat::Rgba8Unorm <==> a is Composite,
        a.texture(width, height).format == TextureFormat::Rgba16Float <==> a !is Composite,
        a.texture(width, height).usage.binding,
        a.entry() == b.entry() ==> a == b,
{
    reveal_strlit("paper_base");
    reveal_strlit("grain");
    reveal_strlit("fiber");
    reveal_strlit("water");
    reveal_strlit("composite");
    assert("paper_base"@.len() == 10 && "composite"@.len() == 9);
    assert("grain"@.len() == 5 && "fiber"@.len() == 5 && "water"@.len() == 5);
    assert("grain"@[0] == 'g' && "fiber"@[0] == 'f' && "water"@[0] == 'w');
}

/// Parameters with the same words are the same, and the words stand in the order of the
/// fields.
pub proof fn parameters_stand_in_order(params: PaperParams)
    ensures
        params.words().len() == 11,
        params.words()[0] == params.width,
        params.words()[1] == params.height,
        params.words()[2] == params.seed,
        params.words()[3] == params.grain_intensity.bits,
        params.words()[4] == params.fiber_density.bits,
        params.words()[5] == params.water_stain_count,
        params.words()[6] == params.aging_yellow.bits,
        params.words()[7] == params.fiber_direction.bits,
        params.words()[8] == params.roughness.bits,
{
}

} // verus!
