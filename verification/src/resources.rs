//! The resources that the passes work on: their formats, how they are bound,
//! and which texture, buffer or sampler stands behind each name.

use crate::format_profile::FormatProfile;
use crate::frame::{DoubleBuffered, FrameKind};
use crate::info::FsrDispatchInfo;
use crate::texture::{
    BindGroupLayoutEntry,
    BindingType,
    BufferUsages,
    SamplerBindingType,
    StorageTextureAccess,
    TextureFormat,
    TextureUsages,
};
use vstd::prelude::*;
use vstd::string::StringExecFns;

verus! {

/// How a pass uses a resource.
#[derive(Debug, Clone, Copy, PartialEq, Eq, Structural)]
pub enum AccessType {
    /// The shader reads it.
    Srv,
    /// The shader writes it, or reads and writes it.
    Uav,
}

/// The resources that passes speak of.
#[derive(Debug, Clone, Copy, PartialEq, Eq, Structural)]
pub enum FsrResourceName {
    /// The caller's color buffer.
    InputColor,
    /// The caller's depth buffer.
    InputDepth,
    /// The caller's motion vectors.
    InputMotionVectors,
    /// The caller's exposure, or the default.
    InputExposure,
    /// The caller's reactive mask, or the default.
    InputReactiveMask,
    /// The caller's transparency and composition mask, or the default.
    InputTransparencyAndComposition,
    /// The caller's output.
    OutputColor,
    /// The caller's dilated depth.
    OutputDilatedDepth,
    /// The caller's dilated motion vectors.
    OutputDilatedMotionVectors,
    /// The caller's reconstructed previous depth.
    OutputReconstructedPreviousDepth,
    /// The uniform data of all passes.
    Constants,
    /// Current frame's accumulation (write target).
    AccumulationCurrent,
    /// Previous frame's accumulation (read source).
    AccumulationPrevious,
    /// Current frame's luma.
    Luma,
    /// Previous frame's luma.
    PreviousLuma,
    /// Temporal instability of the luma.
    LumaInstability,
    /// Estimated shading changes.
    ShadingChange,
    /// Pixels locked in this frame.
    NewLocks,
    /// Current frame's internal upscaled color (write target for Accumulate,
    /// read source for RCAS and DebugView).
    InternalUpscaledCurrent,
    /// Previous frame's internal upscaled color (read source for Accumulate).
    InternalUpscaledPrevious,
    /// The mip chain of the single-pass downsampler.
    SpdMips,
    /// Farthest depth.
    FarthestDepth,
    /// Farthest depth at half resolution.
    FarthestDepthMip1,
    /// Current frame's luma history (write target).
    LumaHistoryCurrent,
    /// Previous frame's luma history (read source).
    LumaHistoryPrevious,
    /// The downsampler's counter of finished workgroups.
    SpdAtomicCount,
    /// Dilated reactive masks.
    DilatedReactiveMasks,
    /// The Lanczos lookup table.
    Lanczos2Lut,
    /// A mask in place of one the caller does not provide.
    DefaultReactivityMask,
    /// An exposure in place of one the caller does not provide.
    DefaultExposure,
    /// Per-frame metadata.
    FrameInfo,
    /// A sampler without filtering.
    SamplerPointClamp,
    /// A sampler with filtering.
    SamplerLinearClamp,
}

/// A range of mip levels of a texture.
#[derive(Debug, Clone, Copy, PartialEq, Eq, Structural)]
pub struct MipView {
    /// The first level.
    pub base_mip_level: u32,
    /// The number of levels.
    pub mip_level_count: u32,
}

/// One resource that a pass uses.
#[derive(Debug, Clone, Copy, PartialEq, Eq, Structural)]
pub struct ResourceAccess {
    /// The resource.
    pub name: FsrResourceName,
    /// What the pass does with it.
    pub access_type: AccessType,
    /// The mip levels to bind, where it is not the whole texture.
    pub desc: Option<MipView>,
}

impl FsrResourceName {
    /// The name as text.
    pub open spec fn name_text(self) -> Seq<char> {
        match self {
            FsrResourceName::InputColor => "InputColor"@,
            FsrResourceName::InputDepth => "InputDepth"@,
            FsrResourceName::InputMotionVectors => "InputMotionVectors"@,
            FsrResourceName::InputExposure => "InputExposure"@,
            FsrResourceName::InputReactiveMask => "InputReactiveMask"@,
            FsrResourceName::InputTransparencyAndComposition => "InputTransparencyAndComposition"@,
            FsrResourceName::OutputColor => "OutputColor"@,
            FsrResourceName::OutputDilatedDepth => "OutputDilatedDepth"@,
            FsrResourceName::OutputDilatedMotionVectors => "OutputDilatedMotionVectors"@,
            FsrResourceName::OutputReconstructedPreviousDepth => "OutputReconstructedPreviousDepth"@,
            FsrResourceName::Constants => "Constants"@,
            FsrResourceName::AccumulationCurrent => "AccumulationCurrent"@,
            FsrResourceName::AccumulationPrevious => "AccumulationPrevious"@,
            FsrResourceName::Luma => "Luma"@,
            FsrResourceName::PreviousLuma => "PreviousLuma"@,
            FsrResourceName::LumaInstability => "LumaInstability"@,
            FsrResourceName::ShadingChange => "ShadingChange"@,
            FsrResourceName::NewLocks => "NewLocks"@,
            FsrResourceName::InternalUpscaledCurrent => "InternalUpscaledCurrent"@,
            FsrResourceName::InternalUpscaledPrevious => "InternalUpscaledPrevious"@,
            FsrResourceName::SpdMips => "SpdMips"@,
            FsrResourceName::FarthestDepth => "FarthestDepth"@,
            FsrResourceName::FarthestDepthMip1 => "FarthestDepthMip1"@,
            FsrResourceName::LumaHistoryCurrent => "LumaHistoryCurrent"@,
            FsrResourceName::LumaHistoryPrevious => "LumaHistoryPrevious"@,
            FsrResourceName::SpdAtomicCount => "SpdAtomicCount"@,
            FsrResourceName::DilatedReactiveMasks => "DilatedReactiveMasks"@,
            FsrResourceName::Lanczos2Lut => "Lanczos2Lut"@,
            FsrResourceName::DefaultReactivityMask => "DefaultReactivityMask"@,
            FsrResourceName::DefaultExposure => "DefaultExposure"@,
            FsrResourceName::FrameInfo => "FrameInfo"@,
            FsrResourceName::SamplerPointClamp => "SamplerPointClamp"@,
            FsrResourceName::SamplerLinearClamp => "SamplerLinearClamp"@,
        }
    }

    /// Whether the caller provides the resource, as an input without a fixed format.
    pub open spec fn is_input(self) -> bool {
        match self {
            FsrResourceName::InputColor => true,
            FsrResourceName::InputDepth => true,
            FsrResourceName::InputMotionVectors => true,
            FsrResourceName::InputExposure => true,
            FsrResourceName::InputReactiveMask => true,
            FsrResourceName::InputTransparencyAndComposition => true,
            _ => false,
        }
    }

    /// Whether the resource is a buffer.
    pub open spec fn is_buffer(self) -> bool {
        match self {
            FsrResourceName::OutputReconstructedPreviousDepth => true,
            FsrResourceName::Constants => true,
            FsrResourceName::SpdAtomicCount => true,
            FsrResourceName::FrameInfo => true,
            _ => false,
        }
    }

    /// Whether the resource is a sampler.
    pub open spec fn is_sampler(self) -> bool {
        self == FsrResourceName::SamplerPointClamp || self == FsrResourceName::SamplerLinearClamp
    }

    /// Whether the resource is a texture whose format the upscaler decides.
    pub open spec fn has_format(self) -> bool {
        !self.is_input() && !self.is_buffer() && !self.is_sampler()
    }

    /// The format of the texture, where it has one that the upscaler decides.
    ///
    /// Baseline WebGPU cannot bind narrow formats as storage, and can read and write none but
    /// single 32-bit channels. So on `Core` the formats that are linearly sampled widen to four
    /// channels, which keeps hardware filtering, and the others take 32-bit channels. The
    /// downsampler's mips widen on `Tier2` as well, where two 16-bit channels cannot be read and
    /// written.
    pub open spec fn texture_format(self, profile: FormatProfile) -> TextureFormat {
        let core = profile == FormatProfile::Core;
        match self {
            FsrResourceName::OutputColor => TextureFormat::Rgba16Float,
            FsrResourceName::OutputDilatedDepth => TextureFormat::R32Float,
            FsrResourceName::OutputDilatedMotionVectors => if core {
                TextureFormat::Rg32Float
            } else {
                TextureFormat::Rg16Float
            },
            FsrResourceName::AccumulationCurrent
            | FsrResourceName::AccumulationPrevious
            | FsrResourceName::ShadingChange => if core {
                TextureFormat::Rgba8Unorm
            } else {
                TextureFormat::R8Unorm
            },
            FsrResourceName::Luma
            | FsrResourceName::PreviousLuma
            | FsrResourceName::LumaInstability
            | FsrResourceName::FarthestDepth
            | FsrResourceName::FarthestDepthMip1 => if core {
                TextureFormat::Rgba16Float
            } else {
                TextureFormat::R16Float
            },
            FsrResourceName::NewLocks => if core {
                TextureFormat::R32Float
            } else {
                TextureFormat::R8Unorm
            },
            FsrResourceName::InternalUpscaledCurrent
            | FsrResourceName::InternalUpscaledPrevious
            | FsrResourceName::LumaHistoryCurrent
            | FsrResourceName::LumaHistoryPrevious => TextureFormat::Rgba16Float,
            FsrResourceName::SpdMips => if profile == FormatProfile::Native {
                TextureFormat::Rg16Float
            } else {
                TextureFormat::Rgba16Float
            },
            FsrResourceName::DilatedReactiveMasks => TextureFormat::Rgba8Unorm,
            FsrResourceName::Lanczos2Lut => TextureFormat::R16Snorm,
            FsrResourceName::DefaultReactivityMask => TextureFormat::R8Unorm,
            FsrResourceName::DefaultExposure => TextureFormat::Rg32Float,
            _ => arbitrary(),
        }
    }

    /// Whether shaders only ever store to the texture, where it is bound as storage.
    ///
    /// On `Core` the downsampler's mips cannot be read through the binding that writes them.
    pub open spec fn is_store_only(self, profile: FormatProfile) -> bool {
        match self {
            FsrResourceName::InternalUpscaledCurrent
            | FsrResourceName::OutputColor
            | FsrResourceName::OutputDilatedDepth
            | FsrResourceName::OutputDilatedMotionVectors
            | FsrResourceName::DilatedReactiveMasks
            | FsrResourceName::AccumulationCurrent
            | FsrResourceName::Luma
            | FsrResourceName::LumaInstability
            | FsrResourceName::FarthestDepth
            | FsrResourceName::ShadingChange
            | FsrResourceName::FarthestDepthMip1
            | FsrResourceName::LumaHistoryCurrent => true,
            FsrResourceName::SpdMips => profile == FormatProfile::Core,
            _ => false,
        }
    }

    /// Whether the texture is sampled without filtering only.
    ///
    /// Depth always is. On `Core` so are the textures that take 32-bit channels there, so that
    /// they do not require filterable 32-bit floats.
    pub open spec fn is_unfilterable(self, profile: FormatProfile) -> bool {
        ||| self == FsrResourceName::InputDepth
        ||| profile == FormatProfile::Core && (self == FsrResourceName::NewLocks || self
            == FsrResourceName::OutputDilatedMotionVectors)
    }

    /// Whether the resource can be bound with this access. Inputs and uniform data are only read.
    pub open spec fn can_bind(self, access_type: AccessType) -> bool {
        access_type == AccessType::Uav ==> !self.is_input() && self != FsrResourceName::Constants
    }

    /// What a shader finds where the resource is bound.
    pub open spec fn binding_type(
        self,
        access_type: AccessType,
        profile: FormatProfile,
    ) -> BindingType {
        if self == FsrResourceName::Constants {
            BindingType::UniformBuffer
        } else if self == FsrResourceName::FrameInfo {
            // Read-only when sampled, read-write when produced.
            BindingType::StorageBuffer { read_only: access_type == AccessType::Srv }
        } else if self.is_buffer() {
            BindingType::StorageBuffer { read_only: false }
        } else if self == FsrResourceName::SamplerPointClamp {
            BindingType::Sampler(SamplerBindingType::NonFiltering)
        } else if self == FsrResourceName::SamplerLinearClamp {
            BindingType::Sampler(SamplerBindingType::Filtering)
        } else if access_type == AccessType::Uav {
            BindingType::StorageTexture {
                access: if self.is_store_only(profile) {
                    StorageTextureAccess::WriteOnly
                } else {
                    StorageTextureAccess::ReadWrite
                },
                format: self.texture_format(profile),
            }
        } else {
            BindingType::Texture { filterable: !self.is_unfilterable(profile) }
        }
    }

    /// The name as text.
    pub fn name(self) -> (result: &'static str)
        ensures
            result@ == self.name_text(),
    {
        match self {
            FsrResourceName::InputColor => "InputColor",
            FsrResourceName::InputDepth => "InputDepth",
            FsrResourceName::InputMotionVectors => "InputMotionVectors",
            FsrResourceName::InputExposure => "InputExposure",
            FsrResourceName::InputReactiveMask => "InputReactiveMask",
            FsrResourceName::InputTransparencyAndComposition => "InputTransparencyAndComposition",
            FsrResourceName::OutputColor => "OutputColor",
            FsrResourceName::OutputDilatedDepth => "OutputDilatedDepth",
            FsrResourceName::OutputDilatedMotionVectors => "OutputDilatedMotionVectors",
            FsrResourceName::OutputReconstructedPreviousDepth => "OutputReconstructedPreviousDepth",
            FsrResourceName::Constants => "Constants",
            FsrResourceName::AccumulationCurrent => "AccumulationCurrent",
            FsrResourceName::AccumulationPrevious => "AccumulationPrevious",
            FsrResourceName::Luma => "Luma",
            FsrResourceName::PreviousLuma => "PreviousLuma",
            FsrResourceName::LumaInstability => "LumaInstability",
            FsrResourceName::ShadingChange => "ShadingChange",
            FsrResourceName::NewLocks => "NewLocks",
            FsrResourceName::InternalUpscaledCurrent => "InternalUpscaledCurrent",
            FsrResourceName::InternalUpscaledPrevious => "InternalUpscaledPrevious",
            FsrResourceName::SpdMips => "SpdMips",
            FsrResourceName::FarthestDepth => "FarthestDepth",
            FsrResourceName::FarthestDepthMip1 => "FarthestDepthMip1",
            FsrResourceName::LumaHistoryCurrent => "LumaHistoryCurrent",
            FsrResourceName::LumaHistoryPrevious => "LumaHistoryPrevious",
            FsrResourceName::SpdAtomicCount => "SpdAtomicCount",
            FsrResourceName::DilatedReactiveMasks => "DilatedReactiveMasks",
            FsrResourceName::Lanczos2Lut => "Lanczos2Lut",
            FsrResourceName::DefaultReactivityMask => "DefaultReactivityMask",
            FsrResourceName::DefaultExposure => "DefaultExposure",
            FsrResourceName::FrameInfo => "FrameInfo",
            FsrResourceName::SamplerPointClamp => "SamplerPointClamp",
            FsrResourceName::SamplerLinearClamp => "SamplerLinearClamp",
        }
    }

    /// The format of the texture.
    pub fn format(&self, profile: FormatProfile) -> (result: TextureFormat)
        requires
            self.has_format(),
        ensures
            result == self.texture_format(profile),
    {
        let core: bool = profile == FormatProfile::Core;
        match *self {
            FsrResourceName::OutputColor
            | FsrResourceName::InternalUpscaledCurrent
            | FsrResourceName::InternalUpscaledPrevious
            | FsrResourceName::LumaHistoryCurrent
            | FsrResourceName::LumaHistoryPrevious => TextureFormat::Rgba16Float,
            FsrResourceName::OutputDilatedDepth => TextureFormat::R32Float,
            FsrResourceName::OutputDilatedMotionVectors => if core {
                TextureFormat::Rg32Float
            } else {
                TextureFormat::Rg16Float
            },
            FsrResourceName::AccumulationCurrent
            | FsrResourceName::AccumulationPrevious
            | FsrResourceName::ShadingChange => if core {
                TextureFormat::Rgba8Unorm
            } else {
                TextureFormat::R8Unorm
            },
            FsrResourceName::Luma
            | FsrResourceName::PreviousLuma
            | FsrResourceName::LumaInstability
            | FsrResourceName::FarthestDepth
            | FsrResourceName::FarthestDepthMip1 => if core {
                TextureFormat::Rgba16Float
            } else {
                TextureFormat::R16Float
            },
            FsrResourceName::NewLocks => if core {
                TextureFormat::R32Float
            } else {
                TextureFormat::R8Unorm
            },
            FsrResourceName::SpdMips => if profile == FormatProfile::Native {
                TextureFormat::Rg16Float
            } else {
                TextureFormat::Rgba16Float
            },
            FsrResourceName::DilatedReactiveMasks => TextureFormat::Rgba8Unorm,
            FsrResourceName::Lanczos2Lut => TextureFormat::R16Snorm,
            FsrResourceName::DefaultReactivityMask => TextureFormat::R8Unorm,
            // The default exposure; nothing else is left that has a format
            _ => TextureFormat::Rg32Float,
        }
    }

    /// How a shader accesses the texture, where it is bound as storage.
    fn storage_access(self, profile: FormatProfile) -> (result: StorageTextureAccess)
        ensures
            result == (if self.is_store_only(profile) {
                StorageTextureAccess::WriteOnly
            } else {
                StorageTextureAccess::ReadWrite
            }),
    {
        match self {
            FsrResourceName::InternalUpscaledCurrent
            | FsrResourceName::OutputColor
            | FsrResourceName::OutputDilatedDepth
            | FsrResourceName::OutputDilatedMotionVectors
            | FsrResourceName::DilatedReactiveMasks
            | FsrResourceName::AccumulationCurrent
            | FsrResourceName::Luma
            | FsrResourceName::LumaInstability
            | FsrResourceName::FarthestDepth
            | FsrResourceName::ShadingChange
            | FsrResourceName::FarthestDepthMip1
            | FsrResourceName::LumaHistoryCurrent => StorageTextureAccess::WriteOnly,
            FsrResourceName::SpdMips => if profile == FormatProfile::Core {
                StorageTextureAccess::WriteOnly
            } else {
                StorageTextureAccess::ReadWrite
            },
            _ => StorageTextureAccess::ReadWrite,
        }
    }

    /// The layout entry that binds the resource at `binding`.
    pub fn to_bgl_entry(
        self,
        binding: u32,
        access_type: AccessType,
        profile: FormatProfile,
    ) -> (result: BindGroupLayoutEntry)
        requires
            self.can_bind(access_type),
        ensures
            result.binding == binding,
            result.ty == self.binding_type(access_type, profile),
    {
        let ty: BindingType = match self {
            FsrResourceName::Constants => BindingType::UniformBuffer,
            FsrResourceName::OutputReconstructedPreviousDepth
            | FsrResourceName::SpdAtomicCount => BindingType::StorageBuffer { read_only: false },
            FsrResourceName::FrameInfo => BindingType::StorageBuffer {
                read_only: access_type == AccessType::Srv,
            },
            FsrResourceName::SamplerPointClamp => BindingType::Sampler(
                SamplerBindingType::NonFiltering,
            ),
            FsrResourceName::SamplerLinearClamp => BindingType::Sampler(
                SamplerBindingType::Filtering,
            ),
            _ => match access_type {
                AccessType::Uav => BindingType::StorageTexture {
                    access: self.storage_access(profile),
                    format: self.format(profile),
                },
                AccessType::Srv => {
                    let unfilterable: bool = self == FsrResourceName::InputDepth || (profile
                        == FormatProfile::Core && (self == FsrResourceName::NewLocks || self
                        == FsrResourceName::OutputDilatedMotionVectors));
                    BindingType::Texture { filterable: !unfilterable }
                },
            },
        };
        BindGroupLayoutEntry { binding, ty }
    }
}

/// The size of the uniform data of all passes, in bytes.
pub const CONSTANTS_SIZE: u64 = 240;

/// The number of entries of the Lanczos lookup table.
pub const LUT_WIDTH: u32 = 128;

/// A texture to create: two-dimensional, one layer, one sample per pixel.
#[derive(Debug, Clone, Copy)]
pub struct TextureDescriptor {
    /// What it is called in graphics debuggers.
    pub label: &'static str,
    /// Width in pixels.
    pub width: u32,
    /// Height in pixels.
    pub height: u32,
    /// Number of mip levels.
    pub mip_level_count: u32,
    /// Format of a pixel.
    pub format: TextureFormat,
    /// What it is used for, as bits of [`TextureUsages`].
    pub usage: u32,
}

impl TextureDescriptor {
    /// Whether this describes a texture with the given properties.
    pub open spec fn describes(
        self,
        label: Seq<char>,
        size: (int, int),
        mip_level_count: nat,
        format: TextureFormat,
        usage: u32,
    ) -> bool {
        &&& self.label@ == label
        &&& self.width == size.0
        &&& self.height == size.1
        &&& self.mip_level_count == mip_level_count
        &&& self.format == format
        &&& self.usage == usage
    }
}

/// A buffer to create, filled with zeros.
#[derive(Debug, Clone, Copy)]
pub struct BufferDescriptor {
    /// What it is called in graphics debuggers.
    pub label: &'static str,
    /// Size in bytes.
    pub size: u64,
    /// What it is used for, as bits of [`BufferUsages`].
    pub usage: u32,
}

impl BufferDescriptor {
    /// Whether this describes a buffer with the given properties.
    pub open spec fn describes(self, label: Seq<char>, size: int, usage: u32) -> bool {
        &&& self.label@ == label
        &&& self.size == size
        &&& self.usage == usage
    }
}

/// A sampler to create, which clamps coordinates to the edge.
#[derive(Debug, Clone, Copy)]
pub struct SamplerDescriptor {
    /// What it is called in graphics debuggers.
    pub label: &'static str,
    /// Whether it interpolates between pixels and between mip levels.
    pub linear: bool,
}

/// The number of binary digits of `n`.
pub open spec fn bit_length(n: nat) -> nat
    decreases n,
{
    if n == 0 {
        0
    } else {
        1 + bit_length(n / 2)
    }
}

/// The length of the mip chain of a two-dimensional texture: one level for every binary digit of
/// its larger side.
pub open spec fn mip_levels(width: u32, height: u32) -> nat {
    bit_length(
        if width > height {
            width as nat
        } else {
            height as nat
        },
    )
}

/// `wgpu::Extent3d::max_mips` for a two-dimensional texture of one layer: 32 less the leading
/// zeros of the larger side, which is the number of that side's binary digits.
#[verifier::external_body]
pub(crate) fn max_mips(width: u32, height: u32) -> (result: u32)
    ensures
        result == mip_levels(width, height),
        result <= 32,
{
    wgpu::Extent3d { width, height, depth_or_array_layers: 1 }.max_mips(wgpu::TextureDimension::D2)
}

/// The usages of a texture that is cleared, stored to and sampled.
pub open spec fn full_usage() -> u32 {
    TextureUsages::RENDER_ATTACHMENT | TextureUsages::STORAGE_BINDING
        | TextureUsages::TEXTURE_BINDING
}

/// Everything a view owns: textures (`T`), buffers (`B`) and samplers (`S`).
pub struct FsrResources<T, B, S> {
    /// The uniform data of all passes.
    pub constant_buffer: B,
    /// Accumulation.
    pub accumulation: DoubleBuffered<T>,
    /// Luma.
    pub luma: DoubleBuffered<T>,
    /// Farthest depth first, luma instability later.
    pub intermediate_fp16x1: T,
    /// Shading changes.
    pub shading_change: T,
    /// New locks.
    pub new_locks: T,
    /// Internal upscaled color.
    pub internal_upscaled: DoubleBuffered<T>,
    /// The downsampler's mip chain.
    pub spd_mips: T,
    /// Farthest depth at half resolution.
    pub farthest_depth_mip1: T,
    /// Luma history.
    pub luma_history: DoubleBuffered<T>,
    /// The downsampler's counter.
    pub spd_atomic_counter: B,
    /// Dilated reactive masks.
    pub dilated_reactive_masks: T,
    /// The Lanczos lookup table.
    pub lanczos2_lut: T,
    /// A mask in place of one the caller does not provide.
    pub default_reactivity_mask: T,
    /// An exposure in place of one the caller does not provide.
    pub default_exposure: T,
    /// Per-frame metadata: four floats.
    pub frame_info: B,
    /// A sampler without filtering.
    pub sampler_point_clamp: S,
    /// A sampler with filtering.
    pub sampler_linear_clamp: S,
}

/// A texture at the given size that is cleared, stored to and sampled.
fn full_texture(label: &'static str, size: [u32; 2], format: TextureFormat) -> (result:
    TextureDescriptor)
    ensures
        result.describes(label@, (size[0] as int, size[1] as int), 1, format, full_usage()),
{
    TextureDescriptor {
        label,
        width: size[0],
        height: size[1],
        mip_level_count: 1,
        format,
        usage: TextureUsages::RENDER_ATTACHMENT | TextureUsages::STORAGE_BINDING
            | TextureUsages::TEXTURE_BINDING,
    }
}

/// A texture of a single row that is only sampled.
fn sampled_row(label: &'static str, width: u32, format: TextureFormat) -> (result:
    TextureDescriptor)
    ensures
        result.describes(
            label@,
            (width as int, 1),
            1,
            format,
            TextureUsages::TEXTURE_BINDING,
        ),
{
    TextureDescriptor {
        label,
        width,
        height: 1,
        mip_level_count: 1,
        format,
        usage: TextureUsages::TEXTURE_BINDING,
    }
}

impl FsrResources<TextureDescriptor, BufferDescriptor, SamplerDescriptor> {
    /// What to create for the given maximum resolutions.
    pub fn new(
        format_profile: FormatProfile,
        max_render_size: [u32; 2],
        max_upscale_size: [u32; 2],
    ) -> (result: Self)
        ensures
            result.render_sized(format_profile, max_render_size),
            result.half_sized(format_profile, max_render_size),
            result.upscale_sized(format_profile, max_upscale_size),
            result.fixed_sized(),
    {
        let half_render_size: [u32; 2] = [max_render_size[0] / 2, max_render_size[1] / 2];

        // Internal-texture formats are profile-dependent; route them through
        // `format` so they always match the bind-group-layout formats.
        let fmt_accumulation = FsrResourceName::AccumulationCurrent.format(format_profile);
        let fmt_luma = FsrResourceName::Luma.format(format_profile);
        let fmt_upscaled = FsrResourceName::InternalUpscaledCurrent.format(format_profile);
        let fmt_history = FsrResourceName::LumaHistoryCurrent.format(format_profile);

        FsrResources {
            constant_buffer: BufferDescriptor {
                label: "FSR3 Constants",
                size: CONSTANTS_SIZE,
                usage: BufferUsages::UNIFORM | BufferUsages::COPY_DST,
            },
            accumulation: DoubleBuffered::new(
                full_texture("FSR3 Accumulation (even)", max_render_size, fmt_accumulation),
                full_texture("FSR3 Accumulation (odd)", max_render_size, fmt_accumulation),
            ),
            luma: DoubleBuffered::new(
                full_texture("FSR3 Luma (even)", max_render_size, fmt_luma),
                full_texture("FSR3 Luma (odd)", max_render_size, fmt_luma),
            ),
            intermediate_fp16x1: full_texture(
                "FSR3 Intermediate FP16x1",
                max_render_size,
                fmt_luma,
            ),
            shading_change: full_texture(
                "FSR3 Shading Change",
                half_render_size,
                FsrResourceName::ShadingChange.format(format_profile),
            ),
            new_locks: TextureDescriptor {
                label: "FSR3 New Locks",
                width: max_upscale_size[0],
                height: max_upscale_size[1],
                mip_level_count: 1,
                format: FsrResourceName::NewLocks.format(format_profile),
                usage: TextureUsages::RENDER_ATTACHMENT | TextureUsages::STORAGE_BINDING,
            },
            internal_upscaled: DoubleBuffered::new(
                full_texture("FSR3 Internal Upscaled (even)", max_upscale_size, fmt_upscaled),
                full_texture("FSR3 Internal Upscaled (odd)", max_upscale_size, fmt_upscaled),
            ),
            spd_mips: TextureDescriptor {
                label: "FSR3 SPD Mips",
                width: half_render_size[0],
                height: half_render_size[1],
                mip_level_count: max_mips(half_render_size[0], half_render_size[1]),
                format: FsrResourceName::SpdMips.format(format_profile),
                usage: TextureUsages::STORAGE_BINDING | TextureUsages::TEXTURE_BINDING,
            },
            farthest_depth_mip1: TextureDescriptor {
                label: "FSR3 Farthest Depth Mip1",
                width: half_render_size[0],
                height: half_render_size[1],
                mip_level_count: 1,
                format: FsrResourceName::FarthestDepthMip1.format(format_profile),
                usage: TextureUsages::STORAGE_BINDING | TextureUsages::TEXTURE_BINDING,
            },
            luma_history: DoubleBuffered::new(
                full_texture("FSR3 Luma History (even)", max_render_size, fmt_history),
                full_texture("FSR3 Luma History (odd)", max_render_size, fmt_history),
            ),
            // This needs to be initialized to zero.
            spd_atomic_counter: BufferDescriptor {
                label: "FSR3 SPD Atomic Counter",
                size: 4,
                usage: BufferUsages::STORAGE | BufferUsages::COPY_DST,
            },
            dilated_reactive_masks: full_texture(
                "FSR3 Dilated Reactive Masks",
                max_render_size,
                FsrResourceName::DilatedReactiveMasks.format(format_profile),
            ),
            lanczos2_lut: sampled_row(
                "FSR3 Lanczos2 LUT",
                LUT_WIDTH,
                FsrResourceName::Lanczos2Lut.format(format_profile),
            ),
            // This needs to be initialized to zero.
            default_reactivity_mask: sampled_row(
                "FSR3 Default Reactivity Mask",
                1,
                FsrResourceName::DefaultReactivityMask.format(format_profile),
            ),
            default_exposure: sampled_row(
                "FSR3 Default Exposure",
                1,
                FsrResourceName::DefaultExposure.format(format_profile),
            ),
            // A storage buffer, so that the read-write access works on every
            // format profile.
            frame_info: BufferDescriptor {
                label: "FSR3 Frame Info",
                size: 16,
                usage: BufferUsages::STORAGE | BufferUsages::COPY_DST,
            },
            sampler_point_clamp: SamplerDescriptor {
                label: "FSR3 Sampler Point Clamp",
                linear: false,
            },
            sampler_linear_clamp: SamplerDescriptor {
                label: "FSR3 Sampler Linear Clamp",
                linear: true,
            },
        }
    }

    /// What stands at render resolution.
    pub open spec fn render_sized(self, profile: FormatProfile, max_render_size: [u32; 2]) -> bool {
        let size = (max_render_size[0] as int, max_render_size[1] as int);
        let accumulation = FsrResourceName::AccumulationCurrent.texture_format(profile);
        let luma = FsrResourceName::Luma.texture_format(profile);
        let history = FsrResourceName::LumaHistoryCurrent.texture_format(profile);
        let masks = FsrResourceName::DilatedReactiveMasks.texture_format(profile);
        &&& self.accumulation.current_on_even.describes(
            "FSR3 Accumulation (even)"@,
            size,
            1,
            accumulation,
            full_usage(),
        )
        &&& self.accumulation.current_on_odd.describes(
            "FSR3 Accumulation (odd)"@,
            size,
            1,
            accumulation,
            full_usage(),
        )
        &&& self.luma.current_on_even.describes("FSR3 Luma (even)"@, size, 1, luma, full_usage())
        &&& self.luma.current_on_odd.describes("FSR3 Luma (odd)"@, size, 1, luma, full_usage())
        &&& self.luma_history.current_on_even.describes(
            "FSR3 Luma History (even)"@,
            size,
            1,
            history,
            full_usage(),
        )
        &&& self.luma_history.current_on_odd.describes(
            "FSR3 Luma History (odd)"@,
            size,
            1,
            history,
            full_usage(),
        )
        &&& self.intermediate_fp16x1.describes(
            "FSR3 Intermediate FP16x1"@,
            size,
            1,
            luma,
            full_usage(),
        )
        &&& self.dilated_reactive_masks.describes(
            "FSR3 Dilated Reactive Masks"@,
            size,
            1,
            masks,
            full_usage(),
        )
    }

    /// What stands at half the render resolution.
    pub open spec fn half_sized(self, profile: FormatProfile, max_render_size: [u32; 2]) -> bool {
        let width = max_render_size[0] / 2;
        let height = max_render_size[1] / 2;
        let size = (width as int, height as int);
        let stored_and_sampled = TextureUsages::STORAGE_BINDING | TextureUsages::TEXTURE_BINDING;
        &&& self.shading_change.describes(
            "FSR3 Shading Change"@,
            size,
            1,
            FsrResourceName::ShadingChange.texture_format(profile),
            full_usage(),
        )
        &&& self.spd_mips.describes(
            "FSR3 SPD Mips"@,
            size,
            mip_levels(width, height),
            FsrResourceName::SpdMips.texture_format(profile),
            stored_and_sampled,
        )
        &&& self.farthest_depth_mip1.describes(
            "FSR3 Farthest Depth Mip1"@,
            size,
            1,
            FsrResourceName::FarthestDepthMip1.texture_format(profile),
            stored_and_sampled,
        )
    }

    /// What stands at upscale resolution.
    pub open spec fn upscale_sized(self, profile: FormatProfile, max_upscale_size: [u32; 2]) -> bool {
        let size = (max_upscale_size[0] as int, max_upscale_size[1] as int);
        let upscaled = FsrResourceName::InternalUpscaledCurrent.texture_format(profile);
        &&& self.internal_upscaled.current_on_even.describes(
            "FSR3 Internal Upscaled (even)"@,
            size,
            1,
            upscaled,
            full_usage(),
        )
        &&& self.internal_upscaled.current_on_odd.describes(
            "FSR3 Internal Upscaled (odd)"@,
            size,
            1,
            upscaled,
            full_usage(),
        )
        &&& self.new_locks.describes(
            "FSR3 New Locks"@,
            size,
            1,
            FsrResourceName::NewLocks.texture_format(profile),
            TextureUsages::RENDER_ATTACHMENT | TextureUsages::STORAGE_BINDING,
        )
    }

    /// What has the same size whatever the resolution.
    pub open spec fn fixed_sized(self) -> bool {
        let storage = BufferUsages::STORAGE | BufferUsages::COPY_DST;
        let sampled = TextureUsages::TEXTURE_BINDING;
        &&& self.constant_buffer.describes(
            "FSR3 Constants"@,
            CONSTANTS_SIZE as int,
            BufferUsages::UNIFORM | BufferUsages::COPY_DST,
        )
        &&& self.spd_atomic_counter.describes("FSR3 SPD Atomic Counter"@, 4, storage)
        &&& self.frame_info.describes("FSR3 Frame Info"@, 16, storage)
        &&& self.lanczos2_lut.describes(
            "FSR3 Lanczos2 LUT"@,
            (LUT_WIDTH as int, 1),
            1,
            TextureFormat::R16Snorm,
            sampled,
        )
        &&& self.default_reactivity_mask.describes(
            "FSR3 Default Reactivity Mask"@,
            (1, 1),
            1,
            TextureFormat::R8Unorm,
            sampled,
        )
        &&& self.default_exposure.describes(
            "FSR3 Default Exposure"@,
            (1, 1),
            1,
            TextureFormat::Rg32Float,
            sampled,
        )
        &&& self.sampler_point_clamp.label@ == "FSR3 Sampler Point Clamp"@
        &&& !self.sampler_point_clamp.linear
        &&& self.sampler_linear_clamp.label@ == "FSR3 Sampler Linear Clamp"@
        &&& self.sampler_linear_clamp.linear
    }
}

/// What stands behind a resource name in one frame.
pub enum BoundResource<'a, T, B, S> {
    /// A texture.
    Texture(&'a T),
    /// A buffer.
    Buffer(&'a B),
    /// A sampler.
    Sampler(&'a S),
}

/// A resource as a pass binds it.
pub struct ResourceView<'a, T, B, S> {
    /// The texture, buffer or sampler.
    pub resource: BoundResource<'a, T, B, S>,
    /// What the view of a texture is called in graphics debuggers; none where `mips` are given.
    pub label: Option<String>,
    /// The mip levels of a texture that are bound, where it is not all of them.
    pub mips: Option<MipView>,
}

impl<T, B, S> FsrResources<T, B, S> {
    /// Whether the two textures of every pair are different.
    pub open spec fn pairs_differ(self) -> bool {
        &&& self.accumulation.differs()
        &&& self.luma.differs()
        &&& self.internal_upscaled.differs()
        &&& self.luma_history.differs()
    }

    /// The texture, buffer or sampler behind `name` in a frame of the given kind.
    ///
    /// A mask or an exposure that the caller does not provide is replaced by a default.
    pub open spec fn lookup<'a>(
        &'a self,
        dispatch: &'a FsrDispatchInfo<T, B>,
        name: FsrResourceName,
        kind: FrameKind,
    ) -> BoundResource<'a, T, B, S> {
        match name {
            FsrResourceName::InputColor => BoundResource::Texture(&dispatch.color),
            FsrResourceName::InputDepth => BoundResource::Texture(&dispatch.depth),
            FsrResourceName::InputMotionVectors => BoundResource::Texture(&dispatch.motion_vectors),
            FsrResourceName::InputExposure => match dispatch.exposure {
                Some(exposure) => BoundResource::Texture(&exposure),
                None => BoundResource::Texture(&self.default_exposure),
            },
            FsrResourceName::InputReactiveMask => match dispatch.reactive_mask {
                Some(mask) => BoundResource::Texture(&mask),
                None => BoundResource::Texture(&self.default_reactivity_mask),
            },
            FsrResourceName::InputTransparencyAndComposition => match dispatch.transparency_and_composition {
                Some(mask) => BoundResource::Texture(&mask),
                None => BoundResource::Texture(&self.default_reactivity_mask),
            },
            FsrResourceName::OutputColor => BoundResource::Texture(&dispatch.output),
            FsrResourceName::OutputDilatedDepth => BoundResource::Texture(&dispatch.dilated_depth),
            FsrResourceName::OutputDilatedMotionVectors => BoundResource::Texture(
                &dispatch.dilated_motion_vectors,
            ),
            FsrResourceName::OutputReconstructedPreviousDepth => BoundResource::Buffer(
                &dispatch.reconstructed_previous_depth,
            ),
            FsrResourceName::Constants => BoundResource::Buffer(&self.constant_buffer),
            FsrResourceName::AccumulationCurrent => BoundResource::Texture(
                &self.accumulation.written(kind),
            ),
            FsrResourceName::AccumulationPrevious => BoundResource::Texture(
                &self.accumulation.read(kind),
            ),
            FsrResourceName::Luma => BoundResource::Texture(&self.luma.written(kind)),
            FsrResourceName::PreviousLuma => BoundResource::Texture(&self.luma.read(kind)),
            FsrResourceName::InternalUpscaledCurrent => BoundResource::Texture(
                &self.internal_upscaled.written(kind),
            ),
            FsrResourceName::InternalUpscaledPrevious => BoundResource::Texture(
                &self.internal_upscaled.read(kind),
            ),
            FsrResourceName::LumaHistoryCurrent => BoundResource::Texture(
                &self.luma_history.written(kind),
            ),
            FsrResourceName::LumaHistoryPrevious => BoundResource::Texture(
                &self.luma_history.read(kind),
            ),
            FsrResourceName::LumaInstability => BoundResource::Texture(&self.intermediate_fp16x1),
            FsrResourceName::FarthestDepth => BoundResource::Texture(&self.intermediate_fp16x1),
            FsrResourceName::ShadingChange => BoundResource::Texture(&self.shading_change),
            FsrResourceName::NewLocks => BoundResource::Texture(&self.new_locks),
            FsrResourceName::SpdMips => BoundResource::Texture(&self.spd_mips),
            FsrResourceName::FarthestDepthMip1 => BoundResource::Texture(&self.farthest_depth_mip1),
            FsrResourceName::SpdAtomicCount => BoundResource::Buffer(&self.spd_atomic_counter),
            FsrResourceName::DilatedReactiveMasks => BoundResource::Texture(
                &self.dilated_reactive_masks,
            ),
            FsrResourceName::Lanczos2Lut => BoundResource::Texture(&self.lanczos2_lut),
            FsrResourceName::DefaultReactivityMask => BoundResource::Texture(
                &self.default_reactivity_mask,
            ),
            FsrResourceName::DefaultExposure => BoundResource::Texture(&self.default_exposure),
            FsrResourceName::FrameInfo => BoundResource::Buffer(&self.frame_info),
            FsrResourceName::SamplerPointClamp => BoundResource::Sampler(&self.sampler_point_clamp),
            FsrResourceName::SamplerLinearClamp => BoundResource::Sampler(
                &self.sampler_linear_clamp,
            ),
        }
    }

    /// The texture, buffer or sampler behind `name` in a frame of the given kind.
    pub fn resource<'a>(
        &'a self,
        dispatch: &'a FsrDispatchInfo<T, B>,
        name: FsrResourceName,
        kind: FrameKind,
    ) -> (result: BoundResource<'a, T, B, S>)
        ensures
            result == self.lookup(dispatch, name, kind),
    {
        match name {
            // --- External (dispatch-provided) resources ---
            FsrResourceName::InputColor => BoundResource::Texture(&dispatch.color),
            FsrResourceName::InputDepth => BoundResource::Texture(&dispatch.depth),
            FsrResourceName::InputMotionVectors => BoundResource::Texture(&dispatch.motion_vectors),
            FsrResourceName::InputExposure => match &dispatch.exposure {
                Some(exposure) => BoundResource::Texture(exposure),
                None => BoundResource::Texture(&self.default_exposure),
            },
            FsrResourceName::InputReactiveMask => match &dispatch.reactive_mask {
                Some(mask) => BoundResource::Texture(mask),
                None => BoundResource::Texture(&self.default_reactivity_mask),
            },
            FsrResourceName::InputTransparencyAndComposition => match &dispatch.transparency_and_composition {
                Some(mask) => BoundResource::Texture(mask),
                // Note: We use the default reactivity mask here.
                None => BoundResource::Texture(&self.default_reactivity_mask),
            },
            FsrResourceName::OutputColor => BoundResource::Texture(&dispatch.output),
            FsrResourceName::OutputDilatedDepth => BoundResource::Texture(&dispatch.dilated_depth),
            FsrResourceName::OutputDilatedMotionVectors => BoundResource::Texture(
                &dispatch.dilated_motion_vectors,
            ),
            FsrResourceName::OutputReconstructedPreviousDepth => BoundResource::Buffer(
                &dispatch.reconstructed_previous_depth,
            ),
            // --- Uniform buffer ---
            FsrResourceName::Constants => BoundResource::Buffer(&self.constant_buffer),
            // --- Double-buffered resources (temporal side is in the name) ---
            FsrResourceName::AccumulationCurrent => BoundResource::Texture(
                self.accumulation.current(kind),
            ),
            FsrResourceName::AccumulationPrevious => BoundResource::Texture(
                self.accumulation.previous(kind),
            ),
            FsrResourceName::Luma => BoundResource::Texture(self.luma.current(kind)),
            FsrResourceName::PreviousLuma => BoundResource::Texture(self.luma.previous(kind)),
            FsrResourceName::InternalUpscaledCurrent => BoundResource::Texture(
                self.internal_upscaled.current(kind),
            ),
            FsrResourceName::InternalUpscaledPrevious => BoundResource::Texture(
                self.internal_upscaled.previous(kind),
            ),
            FsrResourceName::LumaHistoryCurrent => BoundResource::Texture(
                self.luma_history.current(kind),
            ),
            FsrResourceName::LumaHistoryPrevious => BoundResource::Texture(
                self.luma_history.previous(kind),
            ),
            // --- Single-instance internal resources ---
            FsrResourceName::LumaInstability => BoundResource::Texture(&self.intermediate_fp16x1),
            FsrResourceName::FarthestDepth => BoundResource::Texture(&self.intermediate_fp16x1),
            FsrResourceName::ShadingChange => BoundResource::Texture(&self.shading_change),
            FsrResourceName::NewLocks => BoundResource::Texture(&self.new_locks),
            FsrResourceName::SpdMips => BoundResource::Texture(&self.spd_mips),
            FsrResourceName::FarthestDepthMip1 => BoundResource::Texture(&self.farthest_depth_mip1),
            FsrResourceName::SpdAtomicCount => BoundResource::Buffer(&self.spd_atomic_counter),
            FsrResourceName::DilatedReactiveMasks => BoundResource::Texture(
                &self.dilated_reactive_masks,
            ),
            FsrResourceName::Lanczos2Lut => BoundResource::Texture(&self.lanczos2_lut),
            FsrResourceName::DefaultReactivityMask => BoundResource::Texture(
                &self.default_reactivity_mask,
            ),
            FsrResourceName::DefaultExposure => BoundResource::Texture(&self.default_exposure),
            FsrResourceName::FrameInfo => BoundResource::Buffer(&self.frame_info),
            // --- Samplers ---
            FsrResourceName::SamplerPointClamp => BoundResource::Sampler(&self.sampler_point_clamp),
            FsrResourceName::SamplerLinearClamp => BoundResource::Sampler(
                &self.sampler_linear_clamp,
            ),
        }
    }

    /// The resource that a pass accesses in a frame of the given kind, and how it is viewed.
    pub fn to_view<'a>(
        &'a self,
        dispatch: &'a FsrDispatchInfo<T, B>,
        access: ResourceAccess,
        kind: FrameKind,
    ) -> (result: ResourceView<'a, T, B, S>)
        ensures
            result.resource == self.lookup(dispatch, access.name, kind),
            result.mips == access.desc,
            access.desc is None ==> result.label is Some && result.label->0@
                == "FSR3 Resource View: "@ + access.name.name_text(),
            access.desc is Some ==> result.label is None,
    {
        let label: Option<String> = match access.desc {
            Some(_) => None,
            None => {
                let mut text = "FSR3 Resource View: ".to_owned();
                text.append(access.name.name());
                Some(text)
            },
        };
        ResourceView {
            resource: self.resource(dispatch, access.name, kind),
            label,
            mips: access.desc,
        }
    }
}

/// What a pass finds behind a name is what its layout declares: textures behind textures and
/// storage textures, buffers behind buffers, samplers behind samplers.
pub proof fn law_lookup_matches_binding<T, B, S>(
    resources: FsrResources<T, B, S>,
    dispatch: FsrDispatchInfo<T, B>,
    name: FsrResourceName,
    kind: FrameKind,
    access_type: AccessType,
    profile: FormatProfile,
)
    ensures
        match resources.lookup(&dispatch, name, kind) {
            BoundResource::Texture(_) => name.binding_type(access_type, profile) is Texture
                || name.binding_type(access_type, profile) is StorageTexture,
            BoundResource::Buffer(_) => name.binding_type(access_type, profile) is UniformBuffer
                || name.binding_type(access_type, profile) is StorageBuffer,
            BoundResource::Sampler(_) => name.binding_type(access_type, profile) is Sampler,
        },
{
}

/// Whether a name stands for something the caller provides.
pub open spec fn is_caller_provided(name: FsrResourceName) -> bool {
    ||| name.is_input()
    ||| name == FsrResourceName::OutputColor
    ||| name == FsrResourceName::OutputDilatedDepth
    ||| name == FsrResourceName::OutputDilatedMotionVectors
    ||| name == FsrResourceName::OutputReconstructedPreviousDepth
}

/// Every internal texture has the format that the layouts declare for it, at every profile and
/// in every frame.
pub proof fn law_created_formats_match_layouts(
    resources: FsrResources<TextureDescriptor, BufferDescriptor, SamplerDescriptor>,
    dispatch: FsrDispatchInfo<TextureDescriptor, BufferDescriptor>,
    profile: FormatProfile,
    max_render_size: [u32; 2],
    max_upscale_size: [u32; 2],
    name: FsrResourceName,
    kind: FrameKind,
)
    requires
        resources.render_sized(profile, max_render_size),
        resources.half_sized(profile, max_render_size),
        resources.upscale_sized(profile, max_upscale_size),
        resources.fixed_sized(),
        name.has_format(),
        !is_caller_provided(name),
    ensures
        resources.lookup(&dispatch, name, kind) is Texture,
        resources.lookup(&dispatch, name, kind)->Texture_0.format == name.texture_format(profile),
{
}

/// The formats asked of the caller are those that the layouts declare for the caller's outputs.
pub proof fn law_caller_formats_match_layouts(profile: FormatProfile)
    ensures
        crate::format_profile::FsrFormats::of(profile).output
            == FsrResourceName::OutputColor.texture_format(profile),
        crate::format_profile::FsrFormats::of(profile).dilated_depth
            == FsrResourceName::OutputDilatedDepth.texture_format(profile),
        crate::format_profile::FsrFormats::of(profile).dilated_motion_vectors
            == FsrResourceName::OutputDilatedMotionVectors.texture_format(profile),
{
}

/// The two textures of every pair that is created are different.
pub proof fn law_created_pairs_differ(
    resources: FsrResources<TextureDescriptor, BufferDescriptor, SamplerDescriptor>,
    profile: FormatProfile,
    max_render_size: [u32; 2],
    max_upscale_size: [u32; 2],
)
    requires
        resources.render_sized(profile, max_render_size),
        resources.upscale_sized(profile, max_upscale_size),
    ensures
        resources.pairs_differ(),
{
    reveal_strlit("FSR3 Accumulation (even)");
    reveal_strlit("FSR3 Accumulation (odd)");
    reveal_strlit("FSR3 Luma (even)");
    reveal_strlit("FSR3 Luma (odd)");
    reveal_strlit("FSR3 Internal Upscaled (even)");
    reveal_strlit("FSR3 Internal Upscaled (odd)");
    reveal_strlit("FSR3 Luma History (even)");
    reveal_strlit("FSR3 Luma History (odd)");
    assert("FSR3 Accumulation (even)"@.len() != "FSR3 Accumulation (odd)"@.len());
    assert("FSR3 Luma (even)"@.len() != "FSR3 Luma (odd)"@.len());
    assert("FSR3 Internal Upscaled (even)"@.len() != "FSR3 Internal Upscaled (odd)"@.len());
    assert("FSR3 Luma History (even)"@.len() != "FSR3 Luma History (odd)"@.len());
}

/// Behind every name that the caller provides for stands the caller's own resource of that name,
/// in every frame, and behind an optional one that is missing its default.
pub proof fn law_caller_resources<T, B, S>(
    resources: FsrResources<T, B, S>,
    dispatch: FsrDispatchInfo<T, B>,
    kind: FrameKind,
)
    ensures
        resources.lookup(&dispatch, FsrResourceName::InputColor, kind) == BoundResource::<
            T,
            B,
            S,
        >::Texture(&dispatch.color),
        resources.lookup(&dispatch, FsrResourceName::InputDepth, kind) == BoundResource::<
            T,
            B,
            S,
        >::Texture(&dispatch.depth),
        resources.lookup(&dispatch, FsrResourceName::InputMotionVectors, kind) == BoundResource::<
            T,
            B,
            S,
        >::Texture(&dispatch.motion_vectors),
        resources.lookup(&dispatch, FsrResourceName::OutputColor, kind) == BoundResource::<
            T,
            B,
            S,
        >::Texture(&dispatch.output),
        resources.lookup(&dispatch, FsrResourceName::OutputDilatedDepth, kind) == BoundResource::<
            T,
            B,
            S,
        >::Texture(&dispatch.dilated_depth),
        resources.lookup(&dispatch, FsrResourceName::OutputDilatedMotionVectors, kind)
            == BoundResource::<T, B, S>::Texture(&dispatch.dilated_motion_vectors),
        resources.lookup(&dispatch, FsrResourceName::OutputReconstructedPreviousDepth, kind)
            == BoundResource::<T, B, S>::Buffer(&dispatch.reconstructed_previous_depth),
        resources.lookup(&dispatch, FsrResourceName::InputExposure, kind) == BoundResource::<
            T,
            B,
            S,
        >::Texture(
            &(if dispatch.exposure is Some {
                dispatch.exposure->0
            } else {
                resources.default_exposure
            }),
        ),
        resources.lookup(&dispatch, FsrResourceName::InputReactiveMask, kind) == BoundResource::<
            T,
            B,
            S,
        >::Texture(
            &(if dispatch.reactive_mask is Some {
                dispatch.reactive_mask->0
            } else {
                resources.default_reactivity_mask
            }),
        ),
        resources.lookup(&dispatch, FsrResourceName::InputTransparencyAndComposition, kind)
            == BoundResource::<T, B, S>::Texture(
            &(if dispatch.transparency_and_composition is Some {
                dispatch.transparency_and_composition->0
            } else {
                resources.default_reactivity_mask
            }),
        ),
{
}

/// Behind every name of the view's own stands the same resource whatever the caller provides.
pub proof fn law_internal_resources<T, B, S>(
    resources: FsrResources<T, B, S>,
    a: FsrDispatchInfo<T, B>,
    b: FsrDispatchInfo<T, B>,
    name: FsrResourceName,
    kind: FrameKind,
)
    requires
        !is_caller_provided(name),
    ensures
        resources.lookup(&a, name, kind) == resources.lookup(&b, name, kind),
{
}

/// Behind the names of double-buffered textures stand, in an even frame, the even texture as the
/// current one and the odd texture as the previous one, and the other way round in an odd frame.
pub proof fn law_frames_alternate<T, B, S>(
    resources: FsrResources<T, B, S>,
    dispatch: FsrDispatchInfo<T, B>,
)
    ensures
        ({
            let even = |name: FsrResourceName|
                resources.lookup(&dispatch, name, FrameKind::Even)->Texture_0;
            let odd = |name: FsrResourceName|
                resources.lookup(&dispatch, name, FrameKind::Odd)->Texture_0;
            &&& *even(FsrResourceName::AccumulationCurrent) == resources.accumulation.current_on_even
            &&& *even(FsrResourceName::AccumulationPrevious) == resources.accumulation.current_on_odd
            &&& *even(FsrResourceName::Luma) == resources.luma.current_on_even
            &&& *even(FsrResourceName::PreviousLuma) == resources.luma.current_on_odd
            &&& *even(FsrResourceName::InternalUpscaledCurrent)
                == resources.internal_upscaled.current_on_even
            &&& *even(FsrResourceName::InternalUpscaledPrevious)
                == resources.internal_upscaled.current_on_odd
            &&& *even(FsrResourceName::LumaHistoryCurrent) == resources.luma_history.current_on_even
            &&& *even(FsrResourceName::LumaHistoryPrevious) == resources.luma_history.current_on_odd
            &&& odd(FsrResourceName::AccumulationCurrent) == even(
                FsrResourceName::AccumulationPrevious,
            )
            &&& odd(FsrResourceName::AccumulationPrevious) == even(
                FsrResourceName::AccumulationCurrent,
            )
            &&& odd(FsrResourceName::Luma) == even(FsrResourceName::PreviousLuma)
            &&& odd(FsrResourceName::PreviousLuma) == even(FsrResourceName::Luma)
            &&& odd(FsrResourceName::InternalUpscaledCurrent) == even(
                FsrResourceName::InternalUpscaledPrevious,
            )
            &&& odd(FsrResourceName::InternalUpscaledPrevious) == even(
                FsrResourceName::InternalUpscaledCurrent,
            )
            &&& odd(FsrResourceName::LumaHistoryCurrent) == even(
                FsrResourceName::LumaHistoryPrevious,
            )
            &&& odd(FsrResourceName::LumaHistoryPrevious) == even(
                FsrResourceName::LumaHistoryCurrent,
            )
        }),
{
}

/// Behind the names of the view's single resources stands each one's own.
pub proof fn law_single_resources<T, B, S>(
    resources: FsrResources<T, B, S>,
    dispatch: FsrDispatchInfo<T, B>,
    kind: FrameKind,
)
    ensures
        ({
            let texture = |name: FsrResourceName|
                *resources.lookup(&dispatch, name, kind)->Texture_0;
            let buffer = |name: FsrResourceName| *resources.lookup(&dispatch, name, kind)->Buffer_0;
            let sampler = |name: FsrResourceName|
                *resources.lookup(&dispatch, name, kind)->Sampler_0;
            &&& texture(FsrResourceName::LumaInstability) == resources.intermediate_fp16x1
            &&& texture(FsrResourceName::FarthestDepth) == resources.intermediate_fp16x1
            &&& texture(FsrResourceName::ShadingChange) == resources.shading_change
            &&& texture(FsrResourceName::NewLocks) == resources.new_locks
            &&& texture(FsrResourceName::SpdMips) == resources.spd_mips
            &&& texture(FsrResourceName::FarthestDepthMip1) == resources.farthest_depth_mip1
            &&& texture(FsrResourceName::DilatedReactiveMasks) == resources.dilated_reactive_masks
            &&& texture(FsrResourceName::Lanczos2Lut) == resources.lanczos2_lut
            &&& texture(FsrResourceName::DefaultReactivityMask) == resources.default_reactivity_mask
            &&& texture(FsrResourceName::DefaultExposure) == resources.default_exposure
            &&& buffer(FsrResourceName::Constants) == resources.constant_buffer
            &&& buffer(FsrResourceName::SpdAtomicCount) == resources.spd_atomic_counter
            &&& buffer(FsrResourceName::FrameInfo) == resources.frame_info
            &&& sampler(FsrResourceName::SamplerPointClamp) == resources.sampler_point_clamp
            &&& sampler(FsrResourceName::SamplerLinearClamp) == resources.sampler_linear_clamp
        }),
{
}

/// The textures of a caller and of a view that are always there.
pub open spec fn all_textures<T, B, S>(
    resources: FsrResources<T, B, S>,
    dispatch: FsrDispatchInfo<T, B>,
) -> Seq<T> {
    seq![
        dispatch.color,
        dispatch.depth,
        dispatch.motion_vectors,
        dispatch.output,
        dispatch.dilated_depth,
        dispatch.dilated_motion_vectors,
        resources.accumulation.current_on_even,
        resources.accumulation.current_on_odd,
        resources.luma.current_on_even,
        resources.luma.current_on_odd,
        resources.internal_upscaled.current_on_even,
        resources.internal_upscaled.current_on_odd,
        resources.luma_history.current_on_even,
        resources.luma_history.current_on_odd,
        resources.intermediate_fp16x1,
        resources.shading_change,
        resources.new_locks,
        resources.spd_mips,
        resources.farthest_depth_mip1,
        resources.dilated_reactive_masks,
        resources.lanczos2_lut,
        resources.default_reactivity_mask,
        resources.default_exposure,
    ]
}

/// The buffers of a caller and of a view.
pub open spec fn all_buffers<T, B, S>(
    resources: FsrResources<T, B, S>,
    dispatch: FsrDispatchInfo<T, B>,
) -> Seq<B> {
    seq![
        dispatch.reconstructed_previous_depth,
        resources.constant_buffer,
        resources.spd_atomic_counter,
        resources.frame_info,
    ]
}

/// Whether an optional texture is none of the given ones.
pub open spec fn is_apart<T>(texture: Option<T>, others: Seq<T>) -> bool {
    texture is Some ==> !others.contains(texture->0)
}

/// Whether the textures and buffers of a caller and of a view are all different. The optional
/// inputs may be the same as one another.
pub open spec fn all_differ<T, B, S>(
    resources: FsrResources<T, B, S>,
    dispatch: FsrDispatchInfo<T, B>,
) -> bool {
    let textures = all_textures(resources, dispatch);
    &&& textures.no_duplicates()
    &&& is_apart(dispatch.exposure, textures)
    &&& is_apart(dispatch.reactive_mask, textures)
    &&& is_apart(dispatch.transparency_and_composition, textures)
    &&& all_buffers(resources, dispatch).no_duplicates()
}

/// Where the texture behind a name stands among all textures.
spec fn texture_slot(name: FsrResourceName, kind: FrameKind) -> int {
    let even = kind == FrameKind::Even;
    match name {
        FsrResourceName::InputColor => 0,
        FsrResourceName::InputDepth => 1,
        FsrResourceName::InputMotionVectors => 2,
        FsrResourceName::OutputColor => 3,
        FsrResourceName::OutputDilatedDepth => 4,
        FsrResourceName::OutputDilatedMotionVectors => 5,
        FsrResourceName::AccumulationCurrent => if even {
            6
        } else {
            7
        },
        FsrResourceName::AccumulationPrevious => if even {
            7
        } else {
            6
        },
        FsrResourceName::Luma => if even {
            8
        } else {
            9
        },
        FsrResourceName::PreviousLuma => if even {
            9
        } else {
            8
        },
        FsrResourceName::InternalUpscaledCurrent => if even {
            10
        } else {
            11
        },
        FsrResourceName::InternalUpscaledPrevious => if even {
            11
        } else {
            10
        },
        FsrResourceName::LumaHistoryCurrent => if even {
            12
        } else {
            13
        },
        FsrResourceName::LumaHistoryPrevious => if even {
            13
        } else {
            12
        },
        FsrResourceName::LumaInstability => 14,
        FsrResourceName::FarthestDepth => 14,
        FsrResourceName::ShadingChange => 15,
        FsrResourceName::NewLocks => 16,
        FsrResourceName::SpdMips => 17,
        FsrResourceName::FarthestDepthMip1 => 18,
        FsrResourceName::DilatedReactiveMasks => 19,
        FsrResourceName::Lanczos2Lut => 20,
        FsrResourceName::DefaultReactivityMask => 21,
        FsrResourceName::DefaultExposure => 22,
        _ => -1,
    }
}

/// Where all textures and buffers are different, what is written under one name is not what
/// stands behind another, but for the two names of the intermediate texture.
pub proof fn law_names_do_not_alias<T, B, S>(
    resources: FsrResources<T, B, S>,
    dispatch: FsrDispatchInfo<T, B>,
    written: FsrResourceName,
    other: FsrResourceName,
    kind: FrameKind,
)
    requires
        all_differ(resources, dispatch),
        !written.is_input(),
        written.has_format() || written.is_buffer(),
        written != FsrResourceName::DefaultReactivityMask,
        written != FsrResourceName::DefaultExposure,
        written != other,
        !(written == FsrResourceName::LumaInstability && other == FsrResourceName::FarthestDepth),
        !(written == FsrResourceName::FarthestDepth && other == FsrResourceName::LumaInstability),
    ensures
        resources.lookup(&dispatch, written, kind) != resources.lookup(&dispatch, other, kind),
{
    let textures = all_textures(resources, dispatch);
    let buffers = all_buffers(resources, dispatch);
    if written.has_format() {
        let w = texture_slot(written, kind);
        assert(0 <= w < textures.len() && w != 21 && w != 22);
        assert(resources.lookup(&dispatch, written, kind) == BoundResource::<T, B, S>::Texture(
            &textures[w],
        ));
        assert(textures.contains(textures[w]));
        let o = texture_slot(other, kind);
        if o >= 0 {
            assert(resources.lookup(&dispatch, other, kind) == BoundResource::<T, B, S>::Texture(
                &textures[o],
            ));
            assert(w != o);
        } else {
            assert(textures[w] != textures[21]);
            assert(textures[w] != textures[22]);
        }
    } else if other.is_buffer() {
        assert(buffers[0] != buffers[1]);
        assert(buffers[0] != buffers[2]);
        assert(buffers[0] != buffers[3]);
        assert(buffers[1] != buffers[2]);
        assert(buffers[1] != buffers[3]);
        assert(buffers[2] != buffers[3]);
    }
}

/// The formats of the textures whose format the upscaler decides, by what they hold: colors and
/// luma history are wide at every profile, and what is narrow takes 32-bit or four channels on
/// `Core`.
pub proof fn law_texture_formats(name: FsrResourceName, profile: FormatProfile)
    requires
        name.has_format(),
    ensures
        ({
            let core = profile == FormatProfile::Core;
            let format = name.texture_format(profile);
            let color = name == FsrResourceName::OutputColor || name
                == FsrResourceName::InternalUpscaledCurrent || name
                == FsrResourceName::InternalUpscaledPrevious;
            let history = name == FsrResourceName::LumaHistoryCurrent || name
                == FsrResourceName::LumaHistoryPrevious;
            let accumulation = name == FsrResourceName::AccumulationCurrent || name
                == FsrResourceName::AccumulationPrevious;
            let luma = name == FsrResourceName::Luma || name == FsrResourceName::PreviousLuma || name
                == FsrResourceName::LumaInstability;
            let farthest = name == FsrResourceName::FarthestDepth || name
                == FsrResourceName::FarthestDepthMip1;
            let shading = name == FsrResourceName::ShadingChange;
            let mips = name == FsrResourceName::SpdMips;
            &&& format == TextureFormat::Rgba16Float <==> color || history || core && (luma
                || farthest) || mips && profile != FormatProfile::Native
            &&& format == TextureFormat::R16Float <==> !core && (luma || farthest)
            &&& format == TextureFormat::R8Unorm <==> !core && (accumulation || shading || name
                == FsrResourceName::NewLocks) || name == FsrResourceName::DefaultReactivityMask
            &&& format == TextureFormat::Rgba8Unorm <==> core && (accumulation || shading) || name
                == FsrResourceName::DilatedReactiveMasks
            &&& format == TextureFormat::R32Float <==> name == FsrResourceName::OutputDilatedDepth
                || core && name == FsrResourceName::NewLocks
            &&& format == TextureFormat::Rg32Float <==> name == FsrResourceName::DefaultExposure
                || core && name == FsrResourceName::OutputDilatedMotionVectors
            &&& format == TextureFormat::Rg16Float <==> !core && name
                == FsrResourceName::OutputDilatedMotionVectors || mips && profile
                == FormatProfile::Native
            &&& format == TextureFormat::R16Snorm <==> name == FsrResourceName::Lanczos2Lut
        }),
{
}

/// What a shader finds at a binding: textures that are sampled can be filtered, but for depth and
/// what takes 32-bit channels on `Core`; storage is only written, but for the locks and, except on
/// `Core`, the mip chain, which are read back.
pub proof fn law_binding_types(
    name: FsrResourceName,
    access_type: AccessType,
    profile: FormatProfile,
)
    requires
        name.can_bind(access_type),
    ensures
        match name.binding_type(access_type, profile) {
            BindingType::UniformBuffer => name == FsrResourceName::Constants,
            BindingType::StorageBuffer { read_only } => {
                &&& name == FsrResourceName::FrameInfo || name == FsrResourceName::SpdAtomicCount
                    || name == FsrResourceName::OutputReconstructedPreviousDepth
                &&& read_only <==> name == FsrResourceName::FrameInfo && access_type
                    == AccessType::Srv
            },
            BindingType::Sampler(SamplerBindingType::Filtering) => name
                == FsrResourceName::SamplerLinearClamp,
            BindingType::Sampler(SamplerBindingType::NonFiltering) => name
                == FsrResourceName::SamplerPointClamp,
            BindingType::Texture { filterable } => {
                &&& access_type == AccessType::Srv
                &&& name.has_format() || name.is_input()
                &&& !filterable <==> name == FsrResourceName::InputDepth || profile
                    == FormatProfile::Core && (name == FsrResourceName::NewLocks || name
                    == FsrResourceName::OutputDilatedMotionVectors)
            },
            BindingType::StorageTexture { access, format } => {
                &&& access_type == AccessType::Uav
                &&& name.has_format()
                &&& format == name.texture_format(profile)
                &&& name == FsrResourceName::NewLocks ==> access == StorageTextureAccess::ReadWrite
                &&& name == FsrResourceName::SpdMips ==> (access == StorageTextureAccess::WriteOnly
                    <==> profile == FormatProfile::Core)
                &&& name == FsrResourceName::OutputColor || name
                    == FsrResourceName::OutputDilatedDepth || name
                    == FsrResourceName::OutputDilatedMotionVectors || name
                    == FsrResourceName::DilatedReactiveMasks || name
                    == FsrResourceName::AccumulationCurrent || name == FsrResourceName::Luma || name
                    == FsrResourceName::LumaInstability || name == FsrResourceName::FarthestDepth
                    || name == FsrResourceName::FarthestDepthMip1 || name
                    == FsrResourceName::ShadingChange || name
                    == FsrResourceName::LumaHistoryCurrent || name
                    == FsrResourceName::InternalUpscaledCurrent ==> access
                    == StorageTextureAccess::WriteOnly
            },
        },
{
}

/// The sizes and usages of what is created: at render size, at half of it and at upscale size as
/// the passes need it, each to be cleared, stored to and sampled as the passes do.
pub proof fn law_created_textures(
    resources: FsrResources<TextureDescriptor, BufferDescriptor, SamplerDescriptor>,
    dispatch: FsrDispatchInfo<TextureDescriptor, BufferDescriptor>,
    profile: FormatProfile,
    max_render_size: [u32; 2],
    max_upscale_size: [u32; 2],
    name: FsrResourceName,
    kind: FrameKind,
)
    requires
        resources.render_sized(profile, max_render_size),
        resources.half_sized(profile, max_render_size),
        resources.upscale_sized(profile, max_upscale_size),
        resources.fixed_sized(),
        name.has_format(),
        !is_caller_provided(name),
    ensures
        ({
            let texture = *resources.lookup(&dispatch, name, kind)->Texture_0;
            let size = (texture.width as int, texture.height as int);
            let half = (max_render_size[0] as int / 2, max_render_size[1] as int / 2);
            let at_half = name == FsrResourceName::ShadingChange || name == FsrResourceName::SpdMips
                || name == FsrResourceName::FarthestDepthMip1;
            let at_upscale = name == FsrResourceName::NewLocks || name
                == FsrResourceName::InternalUpscaledCurrent || name
                == FsrResourceName::InternalUpscaledPrevious;
            let table = name == FsrResourceName::Lanczos2Lut;
            let default = name == FsrResourceName::DefaultReactivityMask || name
                == FsrResourceName::DefaultExposure;
            &&& size == (if at_half {
                half
            } else if at_upscale {
                (max_upscale_size[0] as int, max_upscale_size[1] as int)
            } else if table {
                (128int, 1int)
            } else if default {
                (1int, 1int)
            } else {
                (max_render_size[0] as int, max_render_size[1] as int)
            })
            // 4 to be sampled, 8 to be stored to, 16 to be cleared
            &&& texture.usage == (if table || default {
                4
            } else if name == FsrResourceName::SpdMips || name == FsrResourceName::FarthestDepthMip1 {
                4 + 8
            } else if name == FsrResourceName::NewLocks {
                8 + 16
            } else {
                4 + 8 + 16
            }) as u32
            &&& texture.mip_level_count == (if name == FsrResourceName::SpdMips {
                mip_levels(max_render_size[0] / 2, max_render_size[1] / 2)
            } else {
                1
            })
        }),
{
    assert((16u32 | 8u32 | 4u32) == 28u32) by (bit_vector);
    assert((8u32 | 4u32) == 12u32) by (bit_vector);
    assert((16u32 | 8u32) == 24u32) by (bit_vector);
}

/// The buffers that are created: the uniform data, which is copied to (8) and bound as such (64),
/// the downsampler's counter and the per-frame metadata, which are copied to and bound as storage
/// (128). One sampler filters and one does not.
pub proof fn law_created_buffers(
    resources: FsrResources<TextureDescriptor, BufferDescriptor, SamplerDescriptor>,
)
    requires
        resources.fixed_sized(),
    ensures
        resources.constant_buffer.size == 60 * 4,
        resources.constant_buffer.usage == 64 + 8,
        resources.spd_atomic_counter.size == 4,
        resources.spd_atomic_counter.usage == 128 + 8,
        resources.frame_info.size == 4 * 4,
        resources.frame_info.usage == 128 + 8,
        resources.sampler_linear_clamp.linear,
        !resources.sampler_point_clamp.linear,
{
    assert((64u32 | 8u32) == 72u32) by (bit_vector);
    assert((128u32 | 8u32) == 136u32) by (bit_vector);
}

} // verus!
