//! Work distribution of the single-pass downsampler.

use crate::constants::SpdConstants;
use crate::resources::bit_length;
use vstd::arithmetic::power2::{
    lemma2_to64,
    lemma_pow2_strictly_increases,
    lemma_pow2_unfold,
    pow2,
};
use vstd::prelude::*;

verus! {

/// The most mip levels that the downsampler generates in one pass.
pub const MAX_MIPS: u32 = 12;

/// Input rectangle specification for SPD downsampling.
#[derive(Debug, Clone, Copy, PartialEq, Eq, Structural)]
pub struct RectInput {
    /// First column.
    pub left: u32,
    /// First row.
    pub top: u32,
    /// Columns.
    pub width: u32,
    /// Rows.
    pub height: u32,
}

impl RectInput {
    /// Creates a new `RectInput` at origin (0, 0).
    pub fn new(width: u32, height: u32) -> (result: RectInput)
        ensures
            result == (RectInput { left: 0, top: 0, width, height }),
    {
        RectInput { left: 0, top: 0, width, height }
    }

    /// Creates a new `RectInput` with specified offset and dimensions.
    pub fn with_offset(left: u32, top: u32, width: u32, height: u32) -> (result: RectInput)
        ensures
            result == (RectInput { left, top, width, height }),
    {
        RectInput { left, top, width, height }
    }

    /// Whether the last row and column have an index, and the tiles can be counted.
    pub open spec fn is_valid(self) -> bool {
        &&& 1 <= self.left + self.width <= u32::MAX
        &&& 1 <= self.top + self.height <= u32::MAX
        &&& tile_count(self.left, self.width) * tile_count(self.top, self.height) <= u32::MAX
    }
}

/// The number of tiles, each 64 wide, from the one that holds `start` to the one that holds the
/// last of `len` positions after it.
pub open spec fn tile_count(start: u32, len: u32) -> int {
    (start + len - 1) / 64 + 1 - start / 64
}

/// The longer of two sides.
pub open spec fn longer(width: u32, height: u32) -> nat {
    if width > height {
        width as nat
    } else {
        height as nat
    }
}

/// How often the longer side can be halved before it is 1, up to the most that the downsampler
/// does.
pub open spec fn mip_count(width: u32, height: u32) -> int {
    let digits = bit_length(longer(width, height));
    if digits == 0 {
        0
    } else if digits - 1 > MAX_MIPS {
        MAX_MIPS as int
    } else {
        digits - 1
    }
}

/// The number of binary digits of `n`.
fn count_digits(n: u32) -> (result: u32)
    ensures
        result == bit_length(n as nat),
        result <= n,
    decreases n,
{
    if n == 0 {
        0
    } else {
        1 + count_digits(n / 2)
    }
}

impl SpdConstants {
    /// Calculates SPD constants for the given input rectangle.
    ///
    /// Computes dispatch thread group counts based on 64x64 tiles.
    /// Mip levels are capped at 12 as that's the max SPD supports.
    pub fn new(rect: RectInput) -> (result: SpdConstants)
        requires
            rect.is_valid(),
        ensures
            result.mips == mip_count(rect.width, rect.height),
            result.num_work_groups == tile_count(rect.left, rect.width) * tile_count(
                rect.top,
                rect.height,
            ),
            result.work_group_offset == [rect.left / 64, rect.top / 64],
            result.render_size == [rect.width, rect.height],
            result._padding == [0u32, 0u32],
    {
        // Offset of the first tile to downsample (each tile is 64x64)
        let work_group_offset_x: u32 = rect.left / 64;
        let work_group_offset_y: u32 = rect.top / 64;

        let end_index_x: u32 = (rect.left + rect.width - 1) / 64;
        let end_index_y: u32 = (rect.top + rect.height - 1) / 64;

        // Dispatch only the thread groups needed to cover the rect
        let dispatch_thread_group_count_x: u32 = end_index_x + 1 - work_group_offset_x;
        let dispatch_thread_group_count_y: u32 = end_index_y + 1 - work_group_offset_y;

        proof {
            assert(0 <= dispatch_thread_group_count_x * dispatch_thread_group_count_y)
                by (nonlinear_arith);
        }
        let num_work_groups: u32 = dispatch_thread_group_count_x * dispatch_thread_group_count_y;

        // Mip count based on largest dimension, capped at 12
        let resolution: u32 = if rect.width > rect.height {
            rect.width
        } else {
            rect.height
        };
        let digits: u32 = count_digits(resolution);
        let mips: u32 = if digits == 0 {
            0
        } else if digits - 1 > MAX_MIPS {
            MAX_MIPS
        } else {
            digits - 1
        };

        SpdConstants {
            mips,
            num_work_groups,
            work_group_offset: [work_group_offset_x, work_group_offset_y],
            render_size: [rect.width, rect.height],
            _padding: [0, 0],
        }
    }
}

/// The tiles cover every position, and there is none before the first position or after the
/// last.
pub proof fn law_tiles_cover(start: u32, len: u32)
    requires
        len > 0,
    ensures
        forall|p: int|
            start <= p < start + len ==> start / 64 <= #[trigger] (p / 64) < start / 64
                + tile_count(start, len),
        tile_count(start, len) >= 1,
        (start + len - 1) / 64 == start / 64 + tile_count(start, len) - 1,
{
}

/// From the origin there are as many tiles as the length divided by 64, rounded up: the work
/// groups that are dispatched.
pub proof fn law_tiles_at_origin(len: u32)
    requires
        len > 0,
    ensures
        tile_count(0, len) == (len + 63) / 64,
{
}

/// The longer side lies between `2^n` and `2^(n + 1)` where the downsampler generates `n` mip
/// levels, below the most that it generates.
pub proof fn law_mip_count(width: u32, height: u32)
    requires
        width > 0 || height > 0,
    ensures
        ({
            let side = longer(width, height);
            let n = mip_count(width, height);
            &&& 0 <= n <= MAX_MIPS
            &&& pow2(n as nat) <= side
            &&& n < MAX_MIPS ==> side < pow2((n + 1) as nat)
        }),
{
    let side = longer(width, height);
    lemma_bit_length(side);
    if mip_count(width, height) == MAX_MIPS && bit_length(side) - 1 > MAX_MIPS {
        lemma_pow2_strictly_increases(MAX_MIPS as nat, (bit_length(side) - 1) as nat);
    }
}

/// A number of `n` binary digits lies between the powers of two around it.
proof fn lemma_bit_length(n: nat)
    requires
        n > 0,
    ensures
        bit_length(n) > 0,
        pow2((bit_length(n) - 1) as nat) <= n,
        n < pow2(bit_length(n)),
    decreases n,
{
    lemma2_to64();
    if n > 1 {
        lemma_bit_length(n / 2);
        lemma_pow2_unfold(bit_length(n));
        lemma_pow2_unfold((bit_length(n) - 1) as nat);
    } else {
        assert(bit_length(0) == 0);
        assert(bit_length(1) == 1);
    }
}

} // verus!
