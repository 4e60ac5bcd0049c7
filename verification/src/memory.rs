//! How much memory a view takes.

use crate::format_profile::FormatProfile;
use crate::resources::{
    max_mips,
    mip_levels,
    BufferDescriptor,
    FsrResources,
    SamplerDescriptor,
    TextureDescriptor,
    CONSTANTS_SIZE,
};
use crate::texture::TextureFormat;
use vstd::arithmetic::div_mod::lemma_div_denominator;
use vstd::arithmetic::power2::{
    lemma2_to64,
    lemma_pow2_pos,
    lemma_pow2_strictly_increases,
    lemma_pow2_unfold,
    pow2,
};
use vstd::prelude::*;

verus! {

/// The size of the next mip level: half as large, but at least one pixel.
pub open spec fn next_mip(side: nat) -> nat {
    if side / 2 == 0 {
        1
    } else {
        side / 2
    }
}

/// The pixels of `levels` mip levels, from the given size on.
pub open spec fn mip_pixels(width: nat, height: nat, levels: nat) -> nat
    decreases levels,
{
    if levels == 0 {
        0
    } else {
        width * height + mip_pixels(next_mip(width), next_mip(height), (levels - 1) as nat)
    }
}

/// An estimate of the memory that a view of the given maximum sizes takes, in bytes.
pub open spec fn memory_estimate(max_render_size: [u32; 2], max_upscale_size: [u32; 2]) -> nat {
    let render_pixels = (max_render_size[0] * max_render_size[1]) as nat;
    let upscale_pixels = (max_upscale_size[0] * max_upscale_size[1]) as nat;
    let half_width = (max_render_size[0] / 2) as nat;
    let half_height = (max_render_size[1] / 2) as nat;
    let mips = mip_levels(max_render_size[0] / 2, max_render_size[1] / 2);
    // Two bytes of accumulation, four of luma, two of intermediate data, sixteen of luma history
    // and four of reactive masks
    28 * render_pixels
    // One byte of shading changes and two of depth
        + 3 * (half_width * half_height)
        + 4 * mip_pixels(half_width, half_height, mips)
    // One byte of locks and sixteen of color
        + 17 * upscale_pixels
    // Lookup table, default mask, default exposure, frame metadata and counter
        + 256 + 1 + 8 + 16 + 4 + CONSTANTS_SIZE as nat
}

/// The memory that a view of the given maximum sizes takes, in bytes, also where that is more
/// than 64 bits can tell.
fn memory_bytes(max_render_size: [u32; 2], max_upscale_size: [u32; 2]) -> (result: u128)
    ensures
        result == memory_estimate(max_render_size, max_upscale_size),
{
    let hrw: u32 = max_render_size[0] / 2;
    let hrh: u32 = max_render_size[1] / 2;
    proof {
        lemma_product_fits(max_render_size[0], max_render_size[1]);
        lemma_product_fits(max_upscale_size[0], max_upscale_size[1]);
        lemma_product_fits(hrw, hrh);
    }
    let render_pixels: u128 = max_render_size[0] as u128 * max_render_size[1] as u128;
    let upscale_pixels: u128 = max_upscale_size[0] as u128 * max_upscale_size[1] as u128;
    let half_render_pixels: u128 = hrw as u128 * hrh as u128;

    // Constant buffer
    let mut total: u128 = CONSTANTS_SIZE as u128;
    // accumulation: R8Unorm at render size, twice
    total = total + render_pixels * 2;
    // luma: R16Float at render size, twice
    total = total + render_pixels * 4;
    // intermediate_fp16x1: R16Float at render size
    total = total + render_pixels * 2;
    // luma_history: Rgba16Float at render size, twice
    total = total + render_pixels * 16;
    // dilated_reactive_masks: Rgba8Unorm at render size
    total = total + render_pixels * 4;
    // shading_change: R8Unorm at half render size
    total = total + half_render_pixels;
    // farthest_depth_mip1: R16Float at half render size
    total = total + half_render_pixels * 2;

    // spd_mips: Rg16Float with mip chain at half render size
    let mip_count: u32 = max_mips(hrw, hrh);
    let mut mip_w: u32 = hrw;
    let mut mip_h: u32 = hrh;
    let mut level: u32 = 0;
    let ghost after_mips = total + 4 * mip_pixels(hrw as nat, hrh as nat, mip_count as nat);
    while level < mip_count
        invariant
            level <= mip_count <= 32,
            total <= (64 + 4 * level) * 0x1_0000_0000_0000_0000,
            after_mips == total + 4 * mip_pixels(
                mip_w as nat,
                mip_h as nat,
                (mip_count - level) as nat,
            ),
        decreases mip_count - level,
    {
        proof {
            lemma_product_fits(mip_w, mip_h);
        }
        // Rg16Float takes 4 bytes
        total = total + mip_w as u128 * mip_h as u128 * 4;
        mip_w = if mip_w / 2 == 0 {
            1
        } else {
            mip_w / 2
        };
        mip_h = if mip_h / 2 == 0 {
            1
        } else {
            mip_h / 2
        };
        level = level + 1;
    }

    // new_locks: R8Unorm at upscale size
    total = total + upscale_pixels;
    // internal_upscaled: Rgba16Float at upscale size, twice
    total = total + upscale_pixels * 16;
    // lanczos2_lut: 128 entries, R16Snorm
    total = total + 256;
    // default_reactivity_mask: 1x1 R8Unorm
    total = total + 1;
    // default_exposure: 1x1 Rg32Float
    total = total + 8;
    // frame_info: four floats
    total = total + 16;
    // spd_atomic_counter
    total = total + 4;
    total
}

/// Whether the estimated memory usage can be told in 64 bits.
pub fn memory_fits(max_render_size: [u32; 2], max_upscale_size: [u32; 2]) -> (result: bool)
    ensures
        result == (memory_estimate(max_render_size, max_upscale_size) <= u64::MAX),
{
    memory_bytes(max_render_size, max_upscale_size) <= u64::MAX as u128
}

/// Estimated GPU memory usage for internal textures and buffers, in bytes.
pub fn estimate_memory(max_render_size: [u32; 2], max_upscale_size: [u32; 2]) -> (result: u64)
    requires
        memory_estimate(max_render_size, max_upscale_size) <= u64::MAX,
    ensures
        result == memory_estimate(max_render_size, max_upscale_size),
{
    memory_bytes(max_render_size, max_upscale_size) as u64
}

/// Products of two 32-bit numbers fit into 64 bits.
proof fn lemma_product_fits(a: u32, b: u32)
    ensures
        0 <= a * b <= 0xffff_ffff * 0xffff_ffff,
{
    assert(0 <= a * b <= 0xffff_ffff * 0xffff_ffff) by (nonlinear_arith)
        requires
            0 <= a <= 0xffff_ffff,
            0 <= b <= 0xffff_ffff,
    ;
}

/// The bytes of a pixel, for the formats that a view's textures have; 0 for all others.
pub open spec fn pixel_bytes(format: TextureFormat) -> nat {
    match format {
        TextureFormat::R8Unorm => 1,
        TextureFormat::R16Snorm | TextureFormat::R16Float => 2,
        TextureFormat::R32Float
        | TextureFormat::Rg16Float
        | TextureFormat::Rgba8Unorm
        | TextureFormat::Depth32Float => 4,
        TextureFormat::Rg32Float | TextureFormat::Rgba16Float => 8,
        _ => 0,
    }
}

impl TextureDescriptor {
    /// The bytes of all pixels of all mip levels.
    pub open spec fn bytes(self) -> nat {
        mip_pixels(self.width as nat, self.height as nat, self.mip_level_count as nat)
            * pixel_bytes(self.format)
    }
}

impl FsrResources<TextureDescriptor, BufferDescriptor, SamplerDescriptor> {
    /// The bytes of all pixels and all buffers.
    pub open spec fn bytes(self) -> nat {
        self.constant_buffer.size as nat + self.accumulation.current_on_even.bytes()
            + self.accumulation.current_on_odd.bytes() + self.luma.current_on_even.bytes()
            + self.luma.current_on_odd.bytes() + self.intermediate_fp16x1.bytes()
            + self.shading_change.bytes() + self.new_locks.bytes()
            + self.internal_upscaled.current_on_even.bytes()
            + self.internal_upscaled.current_on_odd.bytes() + self.spd_mips.bytes()
            + self.farthest_depth_mip1.bytes() + self.luma_history.current_on_even.bytes()
            + self.luma_history.current_on_odd.bytes() + self.spd_atomic_counter.size as nat
            + self.dilated_reactive_masks.bytes() + self.lanczos2_lut.bytes()
            + self.default_reactivity_mask.bytes() + self.default_exposure.bytes()
            + self.frame_info.size as nat
    }
}

/// A texture of one level, of `width * height` pixels.
proof fn lemma_flat(texture: TextureDescriptor)
    requires
        texture.mip_level_count == 1,
    ensures
        pixel_bytes(texture.format) == 1 ==> texture.bytes() == texture.width * texture.height,
        pixel_bytes(texture.format) == 2 ==> texture.bytes() == 2 * (texture.width
            * texture.height),
        pixel_bytes(texture.format) == 4 ==> texture.bytes() == 4 * (texture.width
            * texture.height),
        pixel_bytes(texture.format) == 8 ==> texture.bytes() == 8 * (texture.width
            * texture.height),
{
    lemma_product_fits(texture.width, texture.height);
    let width = next_mip(texture.width as nat);
    let height = next_mip(texture.height as nat);
    assert(mip_pixels(width, height, 0) == 0);
}

/// The estimate is a lower bound of what is allocated, and exact on a native device.
pub proof fn law_estimate_is_lower_bound(
    resources: FsrResources<TextureDescriptor, BufferDescriptor, SamplerDescriptor>,
    profile: FormatProfile,
    max_render_size: [u32; 2],
    max_upscale_size: [u32; 2],
)
    requires
        resources.render_sized(profile, max_render_size),
        resources.half_sized(profile, max_render_size),
        resources.upscale_sized(profile, max_upscale_size),
        resources.fixed_sized(),
    ensures
        memory_estimate(max_render_size, max_upscale_size) <= resources.bytes(),
        profile == FormatProfile::Native ==> memory_estimate(max_render_size, max_upscale_size)
            == resources.bytes(),
{
    lemma_flat(resources.accumulation.current_on_even);
    lemma_flat(resources.accumulation.current_on_odd);
    lemma_flat(resources.luma.current_on_even);
    lemma_flat(resources.luma.current_on_odd);
    lemma_flat(resources.intermediate_fp16x1);
    lemma_flat(resources.shading_change);
    lemma_flat(resources.new_locks);
    lemma_flat(resources.internal_upscaled.current_on_even);
    lemma_flat(resources.internal_upscaled.current_on_odd);
    lemma_flat(resources.farthest_depth_mip1);
    lemma_flat(resources.luma_history.current_on_even);
    lemma_flat(resources.luma_history.current_on_odd);
    lemma_flat(resources.dilated_reactive_masks);
    lemma_flat(resources.lanczos2_lut);
    lemma_flat(resources.default_reactivity_mask);
    lemma_flat(resources.default_exposure);
    lemma_product_fits(max_render_size[0], max_render_size[1]);
    lemma_product_fits(max_upscale_size[0], max_upscale_size[1]);
    lemma_product_fits(max_render_size[0] / 2, max_render_size[1] / 2);
    let mips = resources.spd_mips;
    let pixels = mip_pixels(mips.width as nat, mips.height as nat, mips.mip_level_count as nat);
    let size = pixel_bytes(mips.format);
    assert(pixels * size >= 4 * pixels && (size == 4 ==> pixels * size == 4 * pixels))
        by (nonlinear_arith)
        requires
            size >= 4,
    ;
}

/// A side of a mip level: the side of the first, halved as often as the level's number says, but
/// at least one pixel.
pub open spec fn mip_side(side: nat, level: nat) -> nat {
    if level == 0 {
        side
    } else if side / pow2(level) == 0 {
        1
    } else {
        side / pow2(level)
    }
}

/// The pixels of the first `levels` mip levels, level by level.
pub open spec fn level_pixels(width: nat, height: nat, levels: nat) -> nat
    decreases levels,
{
    if levels == 0 {
        0
    } else {
        level_pixels(width, height, (levels - 1) as nat) + mip_side(width, (levels - 1) as nat)
            * mip_side(height, (levels - 1) as nat)
    }
}

/// The pixels of a mip chain are those of all its levels.
pub proof fn law_mip_pixels(width: nat, height: nat, levels: nat)
    ensures
        mip_pixels(width, height, levels) == level_pixels(width, height, levels),
    decreases levels,
{
    if levels > 0 {
        let n = (levels - 1) as nat;
        law_mip_pixels(next_mip(width), next_mip(height), n);
        lemma_level_pixels_shift(width, height, n);
    }
}

/// Leaving out the first level halves all sides.
proof fn lemma_level_pixels_shift(width: nat, height: nat, n: nat)
    ensures
        level_pixels(width, height, n + 1) == width * height + level_pixels(
            next_mip(width),
            next_mip(height),
            n,
        ),
    decreases n,
{
    if n == 0 {
        assert(level_pixels(width, height, 0) == 0);
        assert(level_pixels(width, height, 1) == level_pixels(width, height, 0) + mip_side(width, 0)
            * mip_side(height, 0));
    } else {
        lemma_level_pixels_shift(width, height, (n - 1) as nat);
        lemma_next_side(width, (n - 1) as nat);
        lemma_next_side(height, (n - 1) as nat);
    }
}

/// A level of half the side is the next level.
proof fn lemma_next_side(side: nat, level: nat)
    ensures
        mip_side(next_mip(side), level) == mip_side(side, level + 1),
{
    let p = pow2(level) as int;
    lemma_pow2_unfold(level + 1);
    lemma_pow2_pos(level);
    lemma2_to64();
    lemma_div_denominator(side as int, 2, p);
    assert(side as int / (2 * p) == side as int / 2 / p);
    if level == 0 {
        assert(pow2(1) == 2);
    } else if side < 2 {
        assert(next_mip(side) == 1);
        lemma_pow2_strictly_increases(0, level);
        assert(1int / p == 0) by (nonlinear_arith)
            requires
                p > 1,
        ;
        assert(0int / p == 0) by (nonlinear_arith)
            requires
                p > 1,
        ;
    }
}

/// The bytes of a pixel are those of its channels.
pub proof fn law_pixel_bytes()
    ensures
        pixel_bytes(TextureFormat::R8Unorm) == 1 * 1,
        pixel_bytes(TextureFormat::R16Snorm) == 1 * 2,
        pixel_bytes(TextureFormat::R16Float) == 1 * 2,
        pixel_bytes(TextureFormat::R32Float) == 1 * 4,
        pixel_bytes(TextureFormat::Depth32Float) == 1 * 4,
        pixel_bytes(TextureFormat::Rg16Float) == 2 * 2,
        pixel_bytes(TextureFormat::Rg32Float) == 2 * 4,
        pixel_bytes(TextureFormat::Rgba8Unorm) == 4 * 1,
        pixel_bytes(TextureFormat::Rgba16Float) == 4 * 2,
{
}

} // verus!
