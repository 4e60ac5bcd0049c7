//! The upscaler context: options that hold for every view.

use crate::flags::{law_context_options_are_bits, FsrContextFlags};
use crate::format_profile::{AdapterFormats, Features, FormatProfile, FsrFormats};
use crate::pass::FsrPassKind;
use crate::view::{FsrView, FsrViewState};
use vstd::prelude::*;

verus! {

/// Configuration for creating an [`FsrContext`].
#[derive(Debug, Clone, Copy)]
pub struct FsrContextInfo {
    /// Configuration options for the FSR context.
    pub flags: FsrContextFlags,
    /// `None` picks the richest profile that the device supports; `Some` forces a profile, which
    /// the device must support.
    pub format_profile: Option<FormatProfile>,
}

/// The main FSR3 upscaler context.
///
/// Create one per set of feature flags with [`FsrContext::new`], then create
/// [`FsrView`]s for each resolution target via [`FsrContext::create_view`].
#[derive(Debug, Clone, Copy, PartialEq, Eq, Structural)]
pub struct FsrContext {
    /// Configuration options.
    pub flags: FsrContextFlags,
    /// The formats of all textures.
    pub format_profile: FormatProfile,
}

/// Which variant of the shaders a context runs.
#[derive(Debug, Clone, Copy, PartialEq, Eq, Structural)]
pub struct ShaderSelection {
    /// Color input has a high dynamic range.
    pub hdr_color_input: bool,
    /// Depth is inverted.
    pub inverted_depth: bool,
    /// Motion vectors are jittered.
    pub jittered_motion_vectors: bool,
    /// Motion vectors are at render resolution.
    pub low_resolution_motion_vectors: bool,
    /// The Lanczos filter is read from a lookup table.
    pub reproject_use_lanczos_type: bool,
    /// Half precision.
    pub half: bool,
    /// Waves of 64 lanes.
    pub wave64: bool,
    /// The formats of all textures.
    pub format_profile: FormatProfile,
}

impl FsrContext {
    /// Create a new FSR3 upscaler context for a device.
    ///
    /// Fails, with a description of what is missing, where a profile is forced that the device
    /// does not support.
    pub fn new(info: FsrContextInfo, device: Features, adapter: &AdapterFormats) -> (result: Result<
        FsrContext,
        String,
    >)
        ensures
            result matches Ok(context) ==> context.flags == info.flags,
            info.format_profile is None ==> result is Ok && result->Ok_0.format_profile
                == FormatProfile::richest(device, adapter.entries@),
            info.format_profile matches Some(profile) ==> {
                &&& result is Ok <==> profile.lack(device, adapter.entries@) is None
                &&& result matches Ok(context) ==> context.format_profile == profile
                &&& result matches Err(text) ==> text@ == profile.support_message(
                    device,
                    adapter.entries@,
                )
            },
    {
        match FormatProfile::resolve(info.format_profile, device, adapter) {
            Ok(format_profile) => Ok(FsrContext { flags: info.flags, format_profile }),
            Err(text) => Err(text),
        }
    }

    /// The profile the context was created with.
    pub fn format_profile(&self) -> (result: FormatProfile)
        ensures
            result == self.format_profile,
    {
        self.format_profile
    }

    /// The formats a caller must use for the textures it provides.
    pub fn formats(&self) -> (result: FsrFormats)
        ensures
            result == FsrFormats::of(self.format_profile),
    {
        self.format_profile.formats()
    }

    /// The variant of the shaders that the options ask for.
    pub open spec fn shader_selection(self) -> ShaderSelection {
        ShaderSelection {
            hdr_color_input: self.flags.has(FsrContextFlags::HIGH_DYNAMIC_RANGE),
            inverted_depth: self.flags.has(FsrContextFlags::DEPTH_INVERTED),
            jittered_motion_vectors: self.flags.has(
                FsrContextFlags::MOTION_VECTORS_JITTER_CANCELLATION,
            ),
            low_resolution_motion_vectors: !self.flags.has(
                FsrContextFlags::DISPLAY_RESOLUTION_MOTION_VECTORS,
            ),
            reproject_use_lanczos_type: false,
            half: false,
            wave64: false,
            format_profile: self.format_profile,
        }
    }

    /// The variant of the shaders that the options ask for.
    pub fn select_shaders(&self) -> (result: ShaderSelection)
        ensures
            result == self.shader_selection(),
            result.hdr_color_input <==> self.flags.bits % 2 == 1,
            result.low_resolution_motion_vectors <==> self.flags.bits / 2 % 2 == 0,
            result.jittered_motion_vectors <==> self.flags.bits / 4 % 2 == 1,
            result.inverted_depth <==> self.flags.bits / 8 % 2 == 1,
            result.format_profile == self.format_profile,
    {
        proof {
            law_context_options_are_bits(self.flags);
        }
        ShaderSelection {
            hdr_color_input: self.flags.contains(FsrContextFlags::HIGH_DYNAMIC_RANGE),
            inverted_depth: self.flags.contains(FsrContextFlags::DEPTH_INVERTED),
            jittered_motion_vectors: self.flags.contains(
                FsrContextFlags::MOTION_VECTORS_JITTER_CANCELLATION,
            ),
            low_resolution_motion_vectors: !self.flags.contains(
                FsrContextFlags::DISPLAY_RESOLUTION_MOTION_VECTORS,
            ),
            // LUT vs reference lanczos. LUT is used on GPUs with 32-64 wave lane range;
            // since this is not queried yet, default to reference (off).
            reproject_use_lanczos_type: false,
            half: false,
            wave64: false,
            format_profile: self.format_profile,
        }
    }

    /// The passes that a context compiles. Reactive masks are not generated.
    pub fn pass_kinds() -> (result: [FsrPassKind; 10])
        ensures
            result@.no_duplicates(),
            forall|kind: FsrPassKind|
                #[trigger] result@.contains(kind) <==> kind != FsrPassKind::GenerateReactive,
    {
        let kinds: [FsrPassKind; 10] = [
            FsrPassKind::PrepareInputs,
            FsrPassKind::PrepareReactivity,
            FsrPassKind::ShadingChange,
            FsrPassKind::Accumulate,
            FsrPassKind::AccumulateSharpen,
            FsrPassKind::Rcas,
            FsrPassKind::LumaPyramid,
            FsrPassKind::ShadingChangePyramid,
            FsrPassKind::LumaInstability,
            FsrPassKind::DebugView,
        ];
        proof {
            let s = kinds@;
            assert(s[0] == FsrPassKind::PrepareInputs);
            assert(s[1] == FsrPassKind::PrepareReactivity);
            assert(s[2] == FsrPassKind::ShadingChange);
            assert(s[3] == FsrPassKind::Accumulate);
            assert(s[4] == FsrPassKind::AccumulateSharpen);
            assert(s[5] == FsrPassKind::Rcas);
            assert(s[6] == FsrPassKind::LumaPyramid);
            assert(s[7] == FsrPassKind::ShadingChangePyramid);
            assert(s[8] == FsrPassKind::LumaInstability);
            assert(s[9] == FsrPassKind::DebugView);
        }
        kinds
    }

    /// State for a given maximum resolution pair.
    ///
    /// Multiple views can be created from the same context for multi-camera or split-screen
    /// rendering.
    pub fn create_view(&self, max_render_size: [u32; 2], max_upscale_size: [u32; 2]) -> (result:
        FsrView)
        ensures
            result@ == FsrViewState::fresh(
                self.format_profile,
                max_render_size,
                max_upscale_size,
            ),
            result@.first_execution,
            result@.format_profile == self.format_profile,
            result@.max_render_size == max_render_size,
            result@.max_upscale_size == max_upscale_size,
    {
        FsrView::new(self.format_profile, max_render_size, max_upscale_size)
    }
}

/// Each option of the shaders goes by one bit of the context's options, whatever the other bits:
/// color by bit 0, the resolution of motion vectors by bit 1, their jitter by bit 2, depth by
/// bit 3. What the device would have to be asked for stays off.
pub proof fn law_shaders_follow_bits(context: FsrContext)
    ensures
        ({
            let shaders = context.shader_selection();
            let bits = context.flags.bits;
            &&& shaders.hdr_color_input <==> bits % 2 == 1
            &&& shaders.low_resolution_motion_vectors <==> bits / 2 % 2 == 0
            &&& shaders.jittered_motion_vectors <==> bits / 4 % 2 == 1
            &&& shaders.inverted_depth <==> bits / 8 % 2 == 1
            &&& !shaders.reproject_use_lanczos_type
            &&& !shaders.half
            &&& !shaders.wave64
            &&& shaders.format_profile == context.format_profile
        }),
{
    law_context_options_are_bits(context.flags);
}

/// Setting one option of a context changes exactly the shader option that goes by it, and none
/// where no shader option does.
pub proof fn law_one_option_one_change(context: FsrContext, bit: u32)
    requires
        bit == 1 || bit == 2 || bit == 4 || bit == 8 || bit == 16 || bit == 32 || bit == 64,
    ensures
        ({
            let more = FsrContext {
                flags: FsrContextFlags { bits: context.flags.bits | bit },
                format_profile: context.format_profile,
            };
            let before = context.shader_selection();
            let after = more.shader_selection();
            after == if bit == 1 {
                ShaderSelection { hdr_color_input: true, ..before }
            } else if bit == 2 {
                ShaderSelection { low_resolution_motion_vectors: false, ..before }
            } else if bit == 4 {
                ShaderSelection { jittered_motion_vectors: true, ..before }
            } else if bit == 8 {
                ShaderSelection { inverted_depth: true, ..before }
            } else {
                before
            }
        }),
{
    let bits = context.flags.bits;
    assert(forall|k: u32, b: u32|
        (k == 1 || k == 2 || k == 4 || k == 8) && (b == 1 || b == 2 || b == 4 || b == 8 || b == 16
            || b == 32 || b == 64) ==> #[trigger] ((bits | b) & k) == (if b == k {
            k
        } else {
            bits & k
        })) by (bit_vector);
}

/// Contexts with the same option bits 0 to 3 and the same profile run the same shaders.
pub proof fn law_other_options_do_not_matter(a: FsrContext, b: FsrContext)
    requires
        a.flags.bits % 16 == b.flags.bits % 16,
        a.format_profile == b.format_profile,
    ensures
        a.shader_selection() == b.shader_selection(),
{
    law_shaders_follow_bits(a);
    law_shaders_follow_bits(b);
    let x = a.flags.bits;
    let y = b.flags.bits;
    assert(x % 16 == y % 16 ==> x % 2 == y % 2 && x / 2 % 2 == y / 2 % 2 && x / 4 % 2 == y / 4 % 2
        && x / 8 % 2 == y / 8 % 2) by (bit_vector);
}

} // verus!
