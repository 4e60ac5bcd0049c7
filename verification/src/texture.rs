//! Texture formats, usages and bindings, as far as the upscaler speaks of them.

use vstd::prelude::*;
use vstd::string::StringExecFns;

verus! {

/// The formats that a texture can have.
#[derive(Debug, Clone, Copy, PartialEq, Eq, Structural)]
pub enum TextureFormat {
    /// One 8-bit channel, [0, 1].
    R8Unorm,
    /// One 8-bit channel, [-1, 1].
    R8Snorm,
    /// One 8-bit channel, unsigned integers.
    R8Uint,
    /// One 8-bit channel, signed integers.
    R8Sint,
    /// One 16-bit channel, unsigned integers.
    R16Uint,
    /// One 16-bit channel, signed integers.
    R16Sint,
    /// One 16-bit channel, [0, 1].
    R16Unorm,
    /// One 16-bit channel, [-1, 1].
    R16Snorm,
    /// One 16-bit float channel.
    R16Float,
    /// Two 8-bit channels, [0, 1].
    Rg8Unorm,
    /// Two 8-bit channels, [-1, 1].
    Rg8Snorm,
    /// Two 8-bit channels, unsigned integers.
    Rg8Uint,
    /// Two 8-bit channels, signed integers.
    Rg8Sint,
    /// One 32-bit channel, unsigned integers.
    R32Uint,
    /// One 32-bit channel, signed integers.
    R32Sint,
    /// One 32-bit float channel.
    R32Float,
    /// Two 16-bit channels, unsigned integers.
    Rg16Uint,
    /// Two 16-bit channels, signed integers.
    Rg16Sint,
    /// Two 16-bit channels, [0, 1].
    Rg16Unorm,
    /// Two 16-bit channels, [-1, 1].
    Rg16Snorm,
    /// Two 16-bit float channels.
    Rg16Float,
    /// Four 8-bit channels, [0, 1].
    Rgba8Unorm,
    /// Four 8-bit channels, [0, 1], in sRGB.
    Rgba8UnormSrgb,
    /// Four 8-bit channels, [-1, 1].
    Rgba8Snorm,
    /// Four 8-bit channels, unsigned integers.
    Rgba8Uint,
    /// Four 8-bit channels, signed integers.
    Rgba8Sint,
    /// Four 8-bit channels, [0, 1], blue first.
    Bgra8Unorm,
    /// Four 8-bit channels, [0, 1], in sRGB, blue first.
    Bgra8UnormSrgb,
    /// Three 9-bit channels with a common 5-bit exponent.
    Rgb9e5Ufloat,
    /// Three 10-bit channels and one of 2 bits, unsigned integers.
    Rgb10a2Uint,
    /// Three 10-bit channels and one of 2 bits, [0, 1].
    Rgb10a2Unorm,
    /// Two 11-bit channels and one of 10 bits, unsigned floats.
    Rg11b10Ufloat,
    /// One 64-bit channel, unsigned integers.
    R64Uint,
    /// Two 32-bit channels, unsigned integers.
    Rg32Uint,
    /// Two 32-bit channels, signed integers.
    Rg32Sint,
    /// Two 32-bit float channels.
    Rg32Float,
    /// Four 16-bit channels, unsigned integers.
    Rgba16Uint,
    /// Four 16-bit channels, signed integers.
    Rgba16Sint,
    /// Four 16-bit channels, [0, 1].
    Rgba16Unorm,
    /// Four 16-bit channels, [-1, 1].
    Rgba16Snorm,
    /// Four 16-bit float channels.
    Rgba16Float,
    /// Four 32-bit channels, unsigned integers.
    Rgba32Uint,
    /// Four 32-bit channels, signed integers.
    Rgba32Sint,
    /// Four 32-bit channels, floats.
    Rgba32Float,
    /// 8-bit stencil.
    Stencil8,
    /// 16-bit depth, [0, 1].
    Depth16Unorm,
    /// Depth of at least 24 bits.
    Depth24Plus,
    /// Depth of at least 24 bits with 8-bit stencil.
    Depth24PlusStencil8,
    /// 32-bit float depth.
    Depth32Float,
    /// 32-bit float depth with 8-bit stencil.
    Depth32FloatStencil8,
    /// Video: 8-bit luma and chroma in two planes.
    NV12,
    /// Video: 10-bit luma and chroma in two planes.
    P010,
    /// BC1 compression, [0, 1] of Rgba.
    Bc1RgbaUnorm,
    /// BC1 compression, [0, 1], in sRGB of Rgba.
    Bc1RgbaUnormSrgb,
    /// BC2 compression, [0, 1] of Rgba.
    Bc2RgbaUnorm,
    /// BC2 compression, [0, 1], in sRGB of Rgba.
    Bc2RgbaUnormSrgb,
    /// BC3 compression, [0, 1] of Rgba.
    Bc3RgbaUnorm,
    /// BC3 compression, [0, 1], in sRGB of Rgba.
    Bc3RgbaUnormSrgb,
    /// BC4 compression, [0, 1] of R.
    Bc4RUnorm,
    /// BC4 compression, [-1, 1] of R.
    Bc4RSnorm,
    /// BC5 compression, [0, 1] of Rg.
    Bc5RgUnorm,
    /// BC5 compression, [-1, 1] of Rg.
    Bc5RgSnorm,
    /// BC6H compression, unsigned floats of Rgb.
    Bc6hRgbUfloat,
    /// BC6H compression, floats of Rgb.
    Bc6hRgbFloat,
    /// BC7 compression, [0, 1] of Rgba.
    Bc7RgbaUnorm,
    /// BC7 compression, [0, 1], in sRGB of Rgba.
    Bc7RgbaUnormSrgb,
    /// ETC2 compression, [0, 1] of Rgb8.
    Etc2Rgb8Unorm,
    /// ETC2 compression, [0, 1], in sRGB of Rgb8.
    Etc2Rgb8UnormSrgb,
    /// ETC2 compression, [0, 1] of Rgb8A1.
    Etc2Rgb8A1Unorm,
    /// ETC2 compression, [0, 1], in sRGB of Rgb8A1.
    Etc2Rgb8A1UnormSrgb,
    /// ETC2 compression, [0, 1] of Rgba8.
    Etc2Rgba8Unorm,
    /// ETC2 compression, [0, 1], in sRGB of Rgba8.
    Etc2Rgba8UnormSrgb,
    /// EAC compression, [0, 1] of R11.
    EacR11Unorm,
    /// EAC compression, [-1, 1] of R11.
    EacR11Snorm,
    /// EAC compression, [0, 1] of Rg11.
    EacRg11Unorm,
    /// EAC compression, [-1, 1] of Rg11.
    EacRg11Snorm,
    /// ASTC compression.
    Astc {
        /// Size of a block.
        block: AstcBlock,
        /// What a channel holds.
        channel: AstcChannel,
    },
}

/// The size of a block in ASTC compression.
#[derive(Debug, Clone, Copy, PartialEq, Eq, Structural)]
pub enum AstcBlock {
    /// 4 by 4 pixels.
    B4x4,
    /// 5 by 4 pixels.
    B5x4,
    /// 5 by 5 pixels.
    B5x5,
    /// 6 by 5 pixels.
    B6x5,
    /// 6 by 6 pixels.
    B6x6,
    /// 8 by 5 pixels.
    B8x5,
    /// 8 by 6 pixels.
    B8x6,
    /// 8 by 8 pixels.
    B8x8,
    /// 10 by 5 pixels.
    B10x5,
    /// 10 by 6 pixels.
    B10x6,
    /// 10 by 8 pixels.
    B10x8,
    /// 10 by 10 pixels.
    B10x10,
    /// 12 by 10 pixels.
    B12x10,
    /// 12 by 12 pixels.
    B12x12,
}

/// What a channel holds in ASTC compression.
#[derive(Debug, Clone, Copy, PartialEq, Eq, Structural)]
pub enum AstcChannel {
    /// [0, 1].
    Unorm,
    /// [0, 1], in sRGB.
    UnormSrgb,
    /// Floats.
    Hdr,
}

impl AstcBlock {
    /// The name as text.
    pub open spec fn name_text(self) -> Seq<char> {
        match self {
            AstcBlock::B4x4 => "B4x4"@,
            AstcBlock::B5x4 => "B5x4"@,
            AstcBlock::B5x5 => "B5x5"@,
            AstcBlock::B6x5 => "B6x5"@,
            AstcBlock::B6x6 => "B6x6"@,
            AstcBlock::B8x5 => "B8x5"@,
            AstcBlock::B8x6 => "B8x6"@,
            AstcBlock::B8x8 => "B8x8"@,
            AstcBlock::B10x5 => "B10x5"@,
            AstcBlock::B10x6 => "B10x6"@,
            AstcBlock::B10x8 => "B10x8"@,
            AstcBlock::B10x10 => "B10x10"@,
            AstcBlock::B12x10 => "B12x10"@,
            AstcBlock::B12x12 => "B12x12"@,
        }
    }

    /// The name as text.
    pub fn name(self) -> (result: &'static str)
        ensures
            result@ == self.name_text(),
    {
        match self {
            AstcBlock::B4x4 => "B4x4",
            AstcBlock::B5x4 => "B5x4",
            AstcBlock::B5x5 => "B5x5",
            AstcBlock::B6x5 => "B6x5",
            AstcBlock::B6x6 => "B6x6",
            AstcBlock::B8x5 => "B8x5",
            AstcBlock::B8x6 => "B8x6",
            AstcBlock::B8x8 => "B8x8",
            AstcBlock::B10x5 => "B10x5",
            AstcBlock::B10x6 => "B10x6",
            AstcBlock::B10x8 => "B10x8",
            AstcBlock::B10x10 => "B10x10",
            AstcBlock::B12x10 => "B12x10",
            AstcBlock::B12x12 => "B12x12",
        }
    }
}

impl AstcChannel {
    /// The name as text.
    pub open spec fn name_text(self) -> Seq<char> {
        match self {
            AstcChannel::Unorm => "Unorm"@,
            AstcChannel::UnormSrgb => "UnormSrgb"@,
            AstcChannel::Hdr => "Hdr"@,
        }
    }

    /// The name as text.
    pub fn name(self) -> (result: &'static str)
        ensures
            result@ == self.name_text(),
    {
        match self {
            AstcChannel::Unorm => "Unorm",
            AstcChannel::UnormSrgb => "UnormSrgb",
            AstcChannel::Hdr => "Hdr",
        }
    }
}

impl TextureFormat {
    /// The name of the format.
    pub open spec fn name_text(self) -> Seq<char> {
        match self {
            TextureFormat::R8Unorm => "R8Unorm"@,
            TextureFormat::R8Snorm => "R8Snorm"@,
            TextureFormat::R8Uint => "R8Uint"@,
            TextureFormat::R8Sint => "R8Sint"@,
            TextureFormat::R16Uint => "R16Uint"@,
            TextureFormat::R16Sint => "R16Sint"@,
            TextureFormat::R16Unorm => "R16Unorm"@,
            TextureFormat::R16Snorm => "R16Snorm"@,
            TextureFormat::R16Float => "R16Float"@,
            TextureFormat::Rg8Unorm => "Rg8Unorm"@,
            TextureFormat::Rg8Snorm => "Rg8Snorm"@,
            TextureFormat::Rg8Uint => "Rg8Uint"@,
            TextureFormat::Rg8Sint => "Rg8Sint"@,
            TextureFormat::R32Uint => "R32Uint"@,
            TextureFormat::R32Sint => "R32Sint"@,
            TextureFormat::R32Float => "R32Float"@,
            TextureFormat::Rg16Uint => "Rg16Uint"@,
            TextureFormat::Rg16Sint => "Rg16Sint"@,
            TextureFormat::Rg16Unorm => "Rg16Unorm"@,
            TextureFormat::Rg16Snorm => "Rg16Snorm"@,
            TextureFormat::Rg16Float => "Rg16Float"@,
            TextureFormat::Rgba8Unorm => "Rgba8Unorm"@,
            TextureFormat::Rgba8UnormSrgb => "Rgba8UnormSrgb"@,
            TextureFormat::Rgba8Snorm => "Rgba8Snorm"@,
            TextureFormat::Rgba8Uint => "Rgba8Uint"@,
            TextureFormat::Rgba8Sint => "Rgba8Sint"@,
            TextureFormat::Bgra8Unorm => "Bgra8Unorm"@,
            TextureFormat::Bgra8UnormSrgb => "Bgra8UnormSrgb"@,
            TextureFormat::Rgb9e5Ufloat => "Rgb9e5Ufloat"@,
            TextureFormat::Rgb10a2Uint => "Rgb10a2Uint"@,
            TextureFormat::Rgb10a2Unorm => "Rgb10a2Unorm"@,
            TextureFormat::Rg11b10Ufloat => "Rg11b10Ufloat"@,
            TextureFormat::R64Uint => "R64Uint"@,
            TextureFormat::Rg32Uint => "Rg32Uint"@,
            TextureFormat::Rg32Sint => "Rg32Sint"@,
            TextureFormat::Rg32Float => "Rg32Float"@,
            TextureFormat::Rgba16Uint => "Rgba16Uint"@,
            TextureFormat::Rgba16Sint => "Rgba16Sint"@,
            TextureFormat::Rgba16Unorm => "Rgba16Unorm"@,
            TextureFormat::Rgba16Snorm => "Rgba16Snorm"@,
            TextureFormat::Rgba16Float => "Rgba16Float"@,
            TextureFormat::Rgba32Uint => "Rgba32Uint"@,
            TextureFormat::Rgba32Sint => "Rgba32Sint"@,
            TextureFormat::Rgba32Float => "Rgba32Float"@,
            TextureFormat::Stencil8 => "Stencil8"@,
            TextureFormat::Depth16Unorm => "Depth16Unorm"@,
            TextureFormat::Depth24Plus => "Depth24Plus"@,
            TextureFormat::Depth24PlusStencil8 => "Depth24PlusStencil8"@,
            TextureFormat::Depth32Float => "Depth32Float"@,
            TextureFormat::Depth32FloatStencil8 => "Depth32FloatStencil8"@,
            TextureFormat::NV12 => "NV12"@,
            TextureFormat::P010 => "P010"@,
            TextureFormat::Bc1RgbaUnorm => "Bc1RgbaUnorm"@,
            TextureFormat::Bc1RgbaUnormSrgb => "Bc1RgbaUnormSrgb"@,
            TextureFormat::Bc2RgbaUnorm => "Bc2RgbaUnorm"@,
            TextureFormat::Bc2RgbaUnormSrgb => "Bc2RgbaUnormSrgb"@,
            TextureFormat::Bc3RgbaUnorm => "Bc3RgbaUnorm"@,
            TextureFormat::Bc3RgbaUnormSrgb => "Bc3RgbaUnormSrgb"@,
            TextureFormat::Bc4RUnorm => "Bc4RUnorm"@,
            TextureFormat::Bc4RSnorm => "Bc4RSnorm"@,
            TextureFormat::Bc5RgUnorm => "Bc5RgUnorm"@,
            TextureFormat::Bc5RgSnorm => "Bc5RgSnorm"@,
            TextureFormat::Bc6hRgbUfloat => "Bc6hRgbUfloat"@,
            TextureFormat::Bc6hRgbFloat => "Bc6hRgbFloat"@,
            TextureFormat::Bc7RgbaUnorm => "Bc7RgbaUnorm"@,
            TextureFormat::Bc7RgbaUnormSrgb => "Bc7RgbaUnormSrgb"@,
            TextureFormat::Etc2Rgb8Unorm => "Etc2Rgb8Unorm"@,
            TextureFormat::Etc2Rgb8UnormSrgb => "Etc2Rgb8UnormSrgb"@,
            TextureFormat::Etc2Rgb8A1Unorm => "Etc2Rgb8A1Unorm"@,
            TextureFormat::Etc2Rgb8A1UnormSrgb => "Etc2Rgb8A1UnormSrgb"@,
            TextureFormat::Etc2Rgba8Unorm => "Etc2Rgba8Unorm"@,
            TextureFormat::Etc2Rgba8UnormSrgb => "Etc2Rgba8UnormSrgb"@,
            TextureFormat::EacR11Unorm => "EacR11Unorm"@,
            TextureFormat::EacR11Snorm => "EacR11Snorm"@,
            TextureFormat::EacRg11Unorm => "EacRg11Unorm"@,
            TextureFormat::EacRg11Snorm => "EacRg11Snorm"@,
            TextureFormat::Astc { block, channel } => {
                "Astc { block: "@ + block.name_text() + ", channel: "@ + channel.name_text() + " }"@
            },
        }
    }

    /// The name of the format.
    pub fn name(self) -> (result: String)
        ensures
            result@ == self.name_text(),
    {
        let name = match self {
            TextureFormat::R8Unorm => "R8Unorm",
            TextureFormat::R8Snorm => "R8Snorm",
            TextureFormat::R8Uint => "R8Uint",
            TextureFormat::R8Sint => "R8Sint",
            TextureFormat::R16Uint => "R16Uint",
            TextureFormat::R16Sint => "R16Sint",
            TextureFormat::R16Unorm => "R16Unorm",
            TextureFormat::R16Snorm => "R16Snorm",
            TextureFormat::R16Float => "R16Float",
            TextureFormat::Rg8Unorm => "Rg8Unorm",
            TextureFormat::Rg8Snorm => "Rg8Snorm",
            TextureFormat::Rg8Uint => "Rg8Uint",
            TextureFormat::Rg8Sint => "Rg8Sint",
            TextureFormat::R32Uint => "R32Uint",
            TextureFormat::R32Sint => "R32Sint",
            TextureFormat::R32Float => "R32Float",
            TextureFormat::Rg16Uint => "Rg16Uint",
            TextureFormat::Rg16Sint => "Rg16Sint",
            TextureFormat::Rg16Unorm => "Rg16Unorm",
            TextureFormat::Rg16Snorm => "Rg16Snorm",
            TextureFormat::Rg16Float => "Rg16Float",
            TextureFormat::Rgba8Unorm => "Rgba8Unorm",
            TextureFormat::Rgba8UnormSrgb => "Rgba8UnormSrgb",
            TextureFormat::Rgba8Snorm => "Rgba8Snorm",
            TextureFormat::Rgba8Uint => "Rgba8Uint",
            TextureFormat::Rgba8Sint => "Rgba8Sint",
            TextureFormat::Bgra8Unorm => "Bgra8Unorm",
            TextureFormat::Bgra8UnormSrgb => "Bgra8UnormSrgb",
            TextureFormat::Rgb9e5Ufloat => "Rgb9e5Ufloat",
            TextureFormat::Rgb10a2Uint => "Rgb10a2Uint",
            TextureFormat::Rgb10a2Unorm => "Rgb10a2Unorm",
            TextureFormat::Rg11b10Ufloat => "Rg11b10Ufloat",
            TextureFormat::R64Uint => "R64Uint",
            TextureFormat::Rg32Uint => "Rg32Uint",
            TextureFormat::Rg32Sint => "Rg32Sint",
            TextureFormat::Rg32Float => "Rg32Float",
            TextureFormat::Rgba16Uint => "Rgba16Uint",
            TextureFormat::Rgba16Sint => "Rgba16Sint",
            TextureFormat::Rgba16Unorm => "Rgba16Unorm",
            TextureFormat::Rgba16Snorm => "Rgba16Snorm",
            TextureFormat::Rgba16Float => "Rgba16Float",
            TextureFormat::Rgba32Uint => "Rgba32Uint",
            TextureFormat::Rgba32Sint => "Rgba32Sint",
            TextureFormat::Rgba32Float => "Rgba32Float",
            TextureFormat::Stencil8 => "Stencil8",
            TextureFormat::Depth16Unorm => "Depth16Unorm",
            TextureFormat::Depth24Plus => "Depth24Plus",
            TextureFormat::Depth24PlusStencil8 => "Depth24PlusStencil8",
            TextureFormat::Depth32Float => "Depth32Float",
            TextureFormat::Depth32FloatStencil8 => "Depth32FloatStencil8",
            TextureFormat::NV12 => "NV12",
            TextureFormat::P010 => "P010",
            TextureFormat::Bc1RgbaUnorm => "Bc1RgbaUnorm",
            TextureFormat::Bc1RgbaUnormSrgb => "Bc1RgbaUnormSrgb",
            TextureFormat::Bc2RgbaUnorm => "Bc2RgbaUnorm",
            TextureFormat::Bc2RgbaUnormSrgb => "Bc2RgbaUnormSrgb",
            TextureFormat::Bc3RgbaUnorm => "Bc3RgbaUnorm",
            TextureFormat::Bc3RgbaUnormSrgb => "Bc3RgbaUnormSrgb",
            TextureFormat::Bc4RUnorm => "Bc4RUnorm",
            TextureFormat::Bc4RSnorm => "Bc4RSnorm",
            TextureFormat::Bc5RgUnorm => "Bc5RgUnorm",
            TextureFormat::Bc5RgSnorm => "Bc5RgSnorm",
            TextureFormat::Bc6hRgbUfloat => "Bc6hRgbUfloat",
            TextureFormat::Bc6hRgbFloat => "Bc6hRgbFloat",
            TextureFormat::Bc7RgbaUnorm => "Bc7RgbaUnorm",
            TextureFormat::Bc7RgbaUnormSrgb => "Bc7RgbaUnormSrgb",
            TextureFormat::Etc2Rgb8Unorm => "Etc2Rgb8Unorm",
            TextureFormat::Etc2Rgb8UnormSrgb => "Etc2Rgb8UnormSrgb",
            TextureFormat::Etc2Rgb8A1Unorm => "Etc2Rgb8A1Unorm",
            TextureFormat::Etc2Rgb8A1UnormSrgb => "Etc2Rgb8A1UnormSrgb",
            TextureFormat::Etc2Rgba8Unorm => "Etc2Rgba8Unorm",
            TextureFormat::Etc2Rgba8UnormSrgb => "Etc2Rgba8UnormSrgb",
            TextureFormat::EacR11Unorm => "EacR11Unorm",
            TextureFormat::EacR11Snorm => "EacR11Snorm",
            TextureFormat::EacRg11Unorm => "EacRg11Unorm",
            TextureFormat::EacRg11Snorm => "EacRg11Snorm",
            TextureFormat::Astc { block, channel } => {
                let mut text = "Astc { block: ".to_owned();
                text.append(block.name());
                text.append(", channel: ");
                text.append(channel.name());
                text.append(" }");
                return text;
            },
        };
        name.to_owned()
    }
}

/// What an adapter reports of a format, one bit each, in the positions of
/// `wgpu::TextureFormatFeatureFlags`.
pub struct FormatFlags;

impl FormatFlags {
    /// The format can be sampled with a filtering sampler.
    pub const FILTERABLE: u32 = 1;

    /// The format can be bound as a storage texture that shaders only write.
    pub const STORAGE_WRITE_ONLY: u32 = 128;

    /// The format can be bound as a storage texture that shaders read and write.
    pub const STORAGE_READ_WRITE: u32 = 256;
}

/// What a texture can be used for, one bit each, in the positions of `wgpu::TextureUsages`.
pub struct TextureUsages;

impl TextureUsages {
    /// The texture can be sampled.
    pub const TEXTURE_BINDING: u32 = 4;

    /// The texture can be bound as a storage texture.
    pub const STORAGE_BINDING: u32 = 8;

    /// The texture can be rendered to, and cleared.
    pub const RENDER_ATTACHMENT: u32 = 16;
}

/// What a buffer can be used for, one bit each, in the positions of `wgpu::BufferUsages`.
pub struct BufferUsages;

impl BufferUsages {
    /// The buffer can be copied to.
    pub const COPY_DST: u32 = 8;

    /// The buffer can be bound as uniform data.
    pub const UNIFORM: u32 = 64;

    /// The buffer can be bound as storage.
    pub const STORAGE: u32 = 128;
}

/// How a shader accesses a storage texture.
#[derive(Debug, Clone, Copy, PartialEq, Eq, Structural)]
pub enum StorageTextureAccess {
    /// The shader only stores.
    WriteOnly,
    /// The shader loads and stores.
    ReadWrite,
}

/// How a sampler reads the textures bound with it.
#[derive(Debug, Clone, Copy, PartialEq, Eq, Structural)]
pub enum SamplerBindingType {
    /// Without filtering.
    NonFiltering,
    /// With filtering.
    Filtering,
}

/// What a shader finds at a binding.
///
/// Textures are two-dimensional and not multisampled. Buffers have no dynamic offset and no
/// minimum size.
#[derive(Debug, Clone, Copy, PartialEq, Eq, Structural)]
pub enum BindingType {
    /// A uniform buffer.
    UniformBuffer,
    /// A storage buffer.
    StorageBuffer {
        /// Whether the shader only reads it.
        read_only: bool,
    },
    /// A sampler.
    Sampler(SamplerBindingType),
    /// A texture that is sampled as floats.
    Texture {
        /// Whether a filtering sampler may read it.
        filterable: bool,
    },
    /// A storage texture.
    StorageTexture {
        /// What the shader does with it.
        access: StorageTextureAccess,
        /// The format it is declared with.
        format: TextureFormat,
    },
}

/// One binding of a compute pass.
#[derive(Debug, Clone, Copy, PartialEq, Eq, Structural)]
pub struct BindGroupLayoutEntry {
    /// The binding's index.
    pub binding: u32,
    /// What is bound there.
    pub ty: BindingType,
}

/// Whether baseline WebGPU lets a format be bound as a storage texture with this access.
///
/// Reading and writing takes a single 32-bit channel. Writing alone takes 32-bit channels, or
/// four of them.
pub open spec fn baseline_storage(format: TextureFormat, access: StorageTextureAccess) -> bool {
    match access {
        StorageTextureAccess::ReadWrite => format == TextureFormat::R32Float,
        StorageTextureAccess::WriteOnly => {
            ||| format == TextureFormat::R32Float
            ||| format == TextureFormat::Rg32Float
            ||| format == TextureFormat::Rgba8Unorm
            ||| format == TextureFormat::Rgba16Float
        },
    }
}

} // verus!
