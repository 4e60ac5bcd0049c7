//! Option sets for a context and for a single dispatch.

use vstd::prelude::*;

verus! {

/// Whether every bit of `flag` is set in `bits`.
pub open spec fn bits_contain(bits: u32, flag: u32) -> bool {
    bits & flag == flag
}

/// Configuration options for the FSR context.
#[derive(Debug, Clone, Copy, PartialEq, Eq, Structural)]
pub struct FsrContextFlags {
    /// The union of the options that are set.
    pub bits: u32,
}

impl FsrContextFlags {
    /// A bit indicating if the input color data provided is using a high-dynamic range.
    pub const HIGH_DYNAMIC_RANGE: u32 = 1;

    /// A bit indicating if the motion vectors are rendered at display resolution.
    pub const DISPLAY_RESOLUTION_MOTION_VECTORS: u32 = 2;

    /// A bit indicating that the motion vectors have the jittering pattern applied to them.
    pub const MOTION_VECTORS_JITTER_CANCELLATION: u32 = 4;

    /// A bit indicating that the input depth buffer data provided is inverted [1..0].
    pub const DEPTH_INVERTED: u32 = 8;

    /// A bit indicating that the input depth buffer data provided is using an infinite far plane.
    pub const DEPTH_INFINITE: u32 = 16;

    /// A bit indicating if automatic exposure should be applied to input color data.
    pub const AUTO_EXPOSURE: u32 = 32;

    /// A bit indicating that the application uses dynamic resolution scaling.
    pub const DYNAMIC_RESOLUTION: u32 = 64;

    /// Whether every bit of `flag` is set.
    pub open spec fn has(self, flag: u32) -> bool {
        bits_contain(self.bits, flag)
    }

    /// No option at all.
    pub fn empty() -> (result: FsrContextFlags)
        ensures
            result.bits == 0,
    {
        FsrContextFlags { bits: 0 }
    }

    /// The options whose bits are set in `bits`, and any bits that no option has.
    pub fn from_bits_retain(bits: u32) -> (result: FsrContextFlags)
        ensures
            result.bits == bits,
    {
        FsrContextFlags { bits }
    }

    /// Whether every bit of `flag` is set.
    pub fn contains(self, flag: u32) -> (result: bool)
        ensures
            result == self.has(flag),
    {
        self.bits & flag == flag
    }

    /// These options, and those of `flag`.
    pub fn with(self, flag: u32) -> (result: FsrContextFlags)
        ensures
            result.bits == self.bits | flag,
    {
        FsrContextFlags { bits: self.bits | flag }
    }
}

/// Configuration options for a single FSR dispatch.
#[derive(Debug, Clone, Copy, PartialEq, Eq, Structural)]
pub struct FsrDispatchFlags {
    /// The union of the options that are set.
    pub bits: u32,
}

impl FsrDispatchFlags {
    /// A bit indicating that the interpolated output resource will contain debug views with
    /// relevant information.
    pub const DRAW_DEBUG_VIEW: u32 = 1;

    /// Whether every bit of `flag` is set.
    pub open spec fn has(self, flag: u32) -> bool {
        bits_contain(self.bits, flag)
    }

    /// No option at all.
    pub fn empty() -> (result: FsrDispatchFlags)
        ensures
            result.bits == 0,
    {
        FsrDispatchFlags { bits: 0 }
    }

    /// The options whose bits are set in `bits`, and any bits that no option has.
    pub fn from_bits_retain(bits: u32) -> (result: FsrDispatchFlags)
        ensures
            result.bits == bits,
    {
        FsrDispatchFlags { bits }
    }

    /// Whether every bit of `flag` is set.
    pub fn contains(self, flag: u32) -> (result: bool)
        ensures
            result == self.has(flag),
    {
        self.bits & flag == flag
    }
}

/// Adding one option sets it and leaves every other option as it was.
pub proof fn law_flag_with(flags: FsrContextFlags, flag: u32, other: u32)
    requires
        flag & other == 0,
    ensures
        bits_contain(flags.bits | flag, flag),
        bits_contain(flags.bits | flag, other) == flags.has(other),
{
    let bits = flags.bits;
    assert((bits | flag) & flag == flag) by (bit_vector);
    assert((bits | flag) & other == bits & other) by (bit_vector)
        requires
            flag & other == 0,
    ;
}

/// Every option of a context is one bit, and no two options share it: the first is bit 0, and
/// the last is bit 6.
pub proof fn law_context_options_are_bits(flags: FsrContextFlags)
    ensures
        flags.has(FsrContextFlags::HIGH_DYNAMIC_RANGE) <==> flags.bits % 2 == 1,
        flags.has(FsrContextFlags::DISPLAY_RESOLUTION_MOTION_VECTORS) <==> flags.bits / 2 % 2 == 1,
        flags.has(FsrContextFlags::MOTION_VECTORS_JITTER_CANCELLATION) <==> flags.bits / 4 % 2 == 1,
        flags.has(FsrContextFlags::DEPTH_INVERTED) <==> flags.bits / 8 % 2 == 1,
        flags.has(FsrContextFlags::DEPTH_INFINITE) <==> flags.bits / 16 % 2 == 1,
        flags.has(FsrContextFlags::AUTO_EXPOSURE) <==> flags.bits / 32 % 2 == 1,
        flags.has(FsrContextFlags::DYNAMIC_RESOLUTION) <==> flags.bits / 64 % 2 == 1,
{
    let bits = flags.bits;
    assert(bits & 1 == 1 <==> bits % 2 == 1) by (bit_vector);
    assert(bits & 2 == 2 <==> bits / 2 % 2 == 1) by (bit_vector);
    assert(bits & 4 == 4 <==> bits / 4 % 2 == 1) by (bit_vector);
    assert(bits & 8 == 8 <==> bits / 8 % 2 == 1) by (bit_vector);
    assert(bits & 16 == 16 <==> bits / 16 % 2 == 1) by (bit_vector);
    assert(bits & 32 == 32 <==> bits / 32 % 2 == 1) by (bit_vector);
    assert(bits & 64 == 64 <==> bits / 64 % 2 == 1) by (bit_vector);
}

/// The debug view is bit 0 of a dispatch's options.
pub proof fn law_debug_view_is_bit_0(flags: FsrDispatchFlags)
    ensures
        flags.has(FsrDispatchFlags::DRAW_DEBUG_VIEW) <==> flags.bits % 2 == 1,
{
    let bits = flags.bits;
    assert(bits & 1 == 1 <==> bits % 2 == 1) by (bit_vector);
}

} // verus!
