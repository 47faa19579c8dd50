//! What the graphics device is asked for, in plain values.

use vstd::prelude::*;

verus! {

/// How texels are stored.
#[derive(Clone, Copy, Debug, PartialEq, Eq, Structural)]
pub enum TextureFormat {
    /// Four bytes, linear.
    Rgba8Unorm,
    /// Four bytes, in the sRGB curve.
    Rgba8UnormSrgb,
    /// Four half-precision numbers.
    Rgba16Float,
    /// One single-precision depth.
    Depth32Float,
    /// Another format: its place in the list that a surface offers, and whether it
    /// is in the sRGB curve.
    Other { place: u32, srgb: bool },
}

impl TextureFormat {
    /// Whether the format is in the sRGB curve.
    pub open spec fn curved(self) -> bool {
        match self {
            TextureFormat::Rgba8UnormSrgb => true,
            TextureFormat::Other { srgb, .. } => srgb,
            _ => false,
        }
    }

    /// Whether the format is in the sRGB curve.
    pub fn is_srgb(self) -> (r: bool)
        ensures
            r == self.curved(),
    {
        match self {
            TextureFormat::Rgba8UnormSrgb => true,
            TextureFormat::Other { srgb, .. } => srgb,
            TextureFormat::Rgba8Unorm => false,
            TextureFormat::Rgba16Float => false,
            TextureFormat::Depth32Float => false,
        }
    }

    /// Whether the format is four bytes of color, in either curve.
    pub open spec fn plain_bytes(self) -> bool {
        self == TextureFormat::Rgba8Unorm || self == TextureFormat::Rgba8UnormSrgb
    }
}

/// Which formats are liked best.
#[derive(Clone, Copy, Debug, PartialEq, Eq, Structural)]
pub enum FormatWish {
    /// Those in the sRGB curve.
    Curved,
    /// Those of four bytes of color, in either curve.
    PlainBytes,
}

impl FormatWish {
    /// Whether a format is liked.
    pub open spec fn likes(self, format: TextureFormat) -> bool {
        match self {
            FormatWish::Curved => format.curved(),
            FormatWish::PlainBytes => format.plain_bytes(),
        }
    }

    /// The first format that is liked, if there is one.
    pub open spec fn first(self, formats: Seq<TextureFormat>) -> Option<TextureFormat>
        decreases formats.len(),
    {
        if formats.len() == 0 {
            None
        } else if self.likes(formats[0]) {
            Some(formats[0])
        } else {
            self.first(formats.skip(1))
        }
    }

    /// The first format that is liked, or the first of all.
    pub open spec fn chosen(self, formats: Seq<TextureFormat>) -> TextureFormat {
        match self.first(formats) {
            Some(format) => format,
            None => formats[0],
        }
    }

    /// Whether a format is liked.
    fn accepts(self, format: TextureFormat) -> (r: bool)
        ensures
            r == self.likes(format),
    {
        match self {
            FormatWish::Curved => format.is_srgb(),
            FormatWish::PlainBytes => format == TextureFormat::Rgba8Unorm || format
                == TextureFormat::Rgba8UnormSrgb,
        }
    }

    /// The first format that is liked, or the first of all.
    pub fn choose_format(self, formats: &[TextureFormat]) -> (r: TextureFormat)
        requires
            formats@.len() > 0,
        ensures
            r == self.chosen(formats@),
    {
        let mut i: usize = 0;
        assert(formats@.skip(0) == formats@);
        while i < formats.len()
            invariant
                i <= formats@.len(),
                self.first(formats@) == self.first(formats@.skip(i as int)),
            decreases formats@.len() - i,
        {
            assert(formats@.skip(i as int).skip(1) == formats@.skip(i + 1));
            if self.accepts(formats[i]) {
                return formats[i];
            }
            i += 1;
        }
        formats[0]
    }
}

/// The chosen format is one that is offered, and one that is liked if any is.
pub proof fn the_choice_is_offered(wish: FormatWish, formats: Seq<TextureFormat>)
    requires
        formats.len() > 0,
    ensures
        formats.contains(wish.chosen(formats)),
        (exists|i: int| 0 <= i < formats.len() && wish.likes(#[trigger] formats[i])) ==> wish.likes(
            wish.chosen(formats),
        ),
{
    the_first_is_found(wish, formats);
    assert(formats.contains(formats[0]));
}

/// The first format that is liked is offered and liked, and it is there if any is.
proof fn the_first_is_found(wish: FormatWish, formats: Seq<TextureFormat>)
    ensures
        wish.first(formats) matches Some(format) ==> formats.contains(format) && wish.likes(format),
        (exists|i: int| 0 <= i < formats.len() && wish.likes(#[trigger] formats[i]))
            ==> wish.first(formats) is Some,
    decreases formats.len(),
{
    if formats.len() > 0 {
        let rest = formats.skip(1);
        the_first_is_found(wish, rest);
        if let Some(format) = wish.first(rest) {
            let k = choose|k: int| 0 <= k < rest.len() && rest[k] == format;
            assert(formats[k + 1] == format);
        }
        if exists|i: int| 0 <= i < formats.len() && wish.likes(#[trigger] formats[i]) {
            let i = choose|i: int| 0 <= i < formats.len() && wish.likes(#[trigger] formats[i]);
            if i > 0 {
                assert(rest[i - 1] == formats[i]);
            }
        }
        assert(formats.contains(formats[0]));
    }
}

/// What a buffer is used for.
#[derive(Clone, Copy, Debug, PartialEq, Eq, Structural)]
pub enum BufferRole {
    /// Holds vertices.
    Vertex,
    /// Holds indices.
    Index,
    /// Holds uniforms.
    Uniform,
    /// Is read by a shader as storage.
    Storage,
}

/// A buffer that is asked for. Every one of them can be written to by a copy.
#[derive(Clone, Copy, Debug, PartialEq, Eq, Structural)]
pub struct BufferPlan {
    /// Bytes.
    pub size: u64,
    pub role: BufferRole,
}

/// What a texture is used for.
#[derive(Clone, Copy, Debug, PartialEq, Eq, Structural)]
pub struct TextureUse {
    /// Drawn into.
    pub attachment: bool,
    /// Read by a shader.
    pub binding: bool,
    /// Written by a shader.
    pub storage: bool,
    /// Copied from.
    pub copy_src: bool,
    /// Copied to.
    pub copy_dst: bool,
}

/// A flat texture with one level that is asked for.
#[derive(Clone, Copy, Debug, PartialEq, Eq, Structural)]
pub struct TexturePlan {
    pub width: u32,
    pub height: u32,
    pub format: TextureFormat,
    pub usage: TextureUse,
}

/// What is bound for a shader.
#[derive(Clone, Copy, Debug, PartialEq, Eq, Structural)]
pub enum BindingKind {
    /// A uniform buffer.
    Uniform,
    /// A storage buffer that is only read.
    ReadOnlyStorage,
    /// A flat texture that is only written.
    StorageTexture(TextureFormat),
    /// A flat texture that is sampled with filtering.
    Texture,
    /// A filtering sampler.
    Sampler,
}

/// One entry of a binding layout.
#[derive(Clone, Copy, Debug, PartialEq, Eq, Structural)]
pub struct BindingPlan {
    pub binding: u32,
    /// Seen by the vertex shader.
    pub vertex: bool,
    /// Seen by the fragment shader.
    pub fragment: bool,
    /// Seen by the compute shader.
    pub compute: bool,
    pub kind: BindingKind,
}

/// What vertices are put together to.
#[derive(Clone, Copy, Debug, PartialEq, Eq, Structural)]
pub enum Topology {
    /// Three by three to triangles.
    TriangleList,
    /// One by one to points.
    PointList,
}

/// Which of two depths passes.
#[derive(Clone, Copy, Debug, PartialEq, Eq, Structural)]
pub enum Compare {
    /// The nearer one.
    Less,
    /// Any.
    Always,
}

/// What a sampler reads beyond the edge of a texture.
#[derive(Clone, Copy, Debug, PartialEq, Eq, Structural)]
pub enum AddressMode {
    /// The edge.
    ClampToEdge,
    /// The texture once more.
    Repeat,
}

/// What a sampler reads between texels, or between levels.
#[derive(Clone, Copy, Debug, PartialEq, Eq, Structural)]
pub enum FilterMode {
    /// The nearest one.
    Nearest,
    /// A blend of those around.
    Linear,
}

/// A sampler that is asked for.
#[derive(Clone, Copy, Debug, PartialEq, Eq, Structural)]
pub struct SamplerPlan {
    pub address_u: AddressMode,
    pub address_v: AddressMode,
    pub mag_filter: FilterMode,
    pub min_filter: FilterMode,
    pub mipmap_filter: FilterMode,
}

/// Which graphics interfaces of the machine are tried.
#[derive(Clone, Copy, Debug, PartialEq, Eq, Structural)]
pub enum Backends {
    /// Vulkan and nothing else.
    VulkanOnly,
    /// Every one that is there.
    All,
}

/// An instance that is asked for.
#[derive(Clone, Copy, Debug, PartialEq, Eq, Structural)]
pub struct InstancePlan {
    pub backends: Backends,
    /// Whether the device is asked to check what it is told.
    pub debugging: bool,
}

/// The limits that a device is asked for.
#[derive(Clone, Copy, Debug, PartialEq, Eq, Structural)]
pub enum DeviceLimits {
    /// Those that every full device has.
    Full,
    /// Those that every device has, with the texture sizes of the adapter.
    Downlevel,
}

/// An adapter and its device that are asked for.
#[derive(Clone, Copy, Debug, PartialEq, Eq, Structural)]
pub struct DeviceSetup {
    /// Whether speed goes before saving power.
    pub high_performance: bool,
    /// Whether an adapter in software will do.
    pub fallback: bool,
    /// Whether the adapter has to be able to show the surface.
    pub for_surface: bool,
    /// Whether textures may be used in every way that the adapter can.
    pub adapter_formats: bool,
    pub limits: DeviceLimits,
}

/// When finished frames are shown.
#[derive(Clone, Copy, Debug, PartialEq, Eq, Structural)]
pub enum PresentMode {
    /// With the screen, as well as the surface can.
    AutoVsync,
    /// At once, as well as the surface can.
    AutoNoVsync,
    /// With the screen, one after the other.
    Fifo,
}

/// How the surface is blended with what is behind it.
#[derive(Clone, Copy, Debug, PartialEq, Eq, Structural)]
pub enum AlphaMode {
    /// As the surface likes.
    Auto,
    /// The first way that the surface offers.
    First,
}

/// How a surface is set up.
#[derive(Clone, Copy, Debug, PartialEq, Eq, Structural)]
pub struct SurfaceSettings {
    pub format: TextureFormat,
    pub width: u32,
    pub height: u32,
    pub present_mode: PresentMode,
    pub alpha_mode: AlphaMode,
    /// How many frames may wait.
    pub max_frame_latency: u32,
}

/// What came of asking a surface for its next frame.
#[derive(Clone, Copy, Debug, PartialEq, Eq, Structural)]
pub enum FrameEvent {
    /// A frame.
    Ready,
    /// A frame of a surface that should be set up again when there is time.
    Suboptimal,
    /// The surface is lost.
    Lost,
    /// The surface changed and has to be set up again.
    Outdated,
    /// There was no frame in time.
    Timeout,
    /// The window is hidden.
    Occluded,
    /// The device refused.
    Refused,
}

impl FrameEvent {
    /// Whether there is a frame.
    pub open spec fn has_frame(self) -> bool {
        self == FrameEvent::Ready || self == FrameEvent::Suboptimal
    }

    /// Whether setting the surface up again can help.
    pub open spec fn mendable(self) -> bool {
        self == FrameEvent::Lost || self == FrameEvent::Outdated
    }
}

/// What to do about a frame.
#[derive(Clone, Copy, Debug, PartialEq, Eq, Structural)]
pub enum FrameAction {
    /// Draw into it.
    Draw,
    /// Set the surface up again and ask once more.
    Reconfigure,
    /// Give up.
    Fail,
}

/// The chosen format is the first one offered that is in the sRGB curve, or that has four
/// bytes of color, as the wish goes; where there is none it is the first of all.
pub proof fn the_choice_is_the_first(wish: FormatWish, formats: Seq<TextureFormat>, i: int)
    requires
        0 <= i < formats.len(),
        forall|k: int|
            0 <= k < i ==> match wish {
                FormatWish::Curved => !((#[trigger] formats[k]) == TextureFormat::Rgba8UnormSrgb || (
                formats[k] matches TextureFormat::Other { srgb, .. } && srgb)),
                FormatWish::PlainBytes => formats[k] != TextureFormat::Rgba8Unorm && formats[k]
                    != TextureFormat::Rgba8UnormSrgb,
            },
    ensures
        wish is Curved && (formats[i] == TextureFormat::Rgba8UnormSrgb || (
        formats[i] matches TextureFormat::Other { srgb, .. } && srgb)) ==> wish.chosen(formats)
            == formats[i],
        wish is PlainBytes && (formats[i] == TextureFormat::Rgba8Unorm || formats[i]
            == TextureFormat::Rgba8UnormSrgb) ==> wish.chosen(formats) == formats[i],
        i == formats.len() - 1 && !wish.likes(formats[i]) ==> wish.chosen(formats) == formats[0],
{
    assert forall|k: int| 0 <= k < i implies !wish.likes(#[trigger] formats[k]) by {}
    the_rest_decides(wish, formats, i);
}

/// Formats that are not liked are passed over.
proof fn the_rest_decides(wish: FormatWish, formats: Seq<TextureFormat>, i: int)
    requires
        0 <= i < formats.len(),
        forall|k: int| 0 <= k < i ==> !wish.likes(#[trigger] formats[k]),
    ensures
        wish.likes(formats[i]) ==> wish.first(formats) == Some(formats[i]),
        i == formats.len() - 1 && !wish.likes(formats[i]) ==> wish.first(formats) is None,
    decreases formats.len(),
{
    if i > 0 {
        let rest = formats.skip(1);
        assert forall|k: int| 0 <= k < i - 1 implies !wish.likes(#[trigger] rest[k]) by {
            assert(rest[k] == formats[k + 1]);
        }
        assert(!wish.likes(formats[0]));
        the_rest_decides(wish, rest, i - 1);
        assert(rest[i - 1] == formats[i]);
    } else if formats.len() == 1 {
        reveal_with_fuel(FormatWish::first, 2);
        assert(formats.skip(1).len() == 0);
    }
}

/// There is a frame where it is ready or no longer the best, and setting the surface up
/// again helps where it is lost or outdated. Nothing helps a timeout, a hidden window or a
/// refusal.
pub proof fn frames_come_and_go(event: FrameEvent)
    ensures
        event is Ready || event is Suboptimal ==> event.has_frame() && !event.mendable(),
        event is Lost || event is Outdated ==> event.mendable() && !event.has_frame(),
        event is Timeout || event is Occluded || event is Refused ==> !event.has_frame()
            && !event.mendable(),
{
}

} // verus!
