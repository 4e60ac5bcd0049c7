//! The state that one camera keeps from frame to frame.

use crate::constants::Constants;
use crate::float::{F32, ONE_BITS};
use crate::format_profile::FormatProfile;
use crate::frame::FrameKind;
use crate::memory::{estimate_memory, memory_estimate};
use crate::resources::{BufferDescriptor, FsrResources, SamplerDescriptor, TextureDescriptor};
use vstd::prelude::*;

verus! {

/// What a view keeps from frame to frame.
#[derive(Debug, Clone, Copy)]
pub struct FsrViewState {
    /// The formats of the textures that belong to the view.
    pub format_profile: FormatProfile,
    /// The uniform data of the last frame.
    pub constants: Constants,
    /// Largest render resolution.
    pub max_render_size: [u32; 2],
    /// Largest upscale resolution.
    pub max_upscale_size: [u32; 2],
    /// Whether no frame has been dispatched since the textures were allocated.
    pub first_execution: bool,
    /// Jitter of the last frame with jittered motion vectors.
    pub previous_jitter_offset: [F32; 2],
    /// Pre-exposure of the last frame.
    pub pre_exposure: F32,
    /// Pre-exposure of the frame before it.
    pub previous_frame_pre_exposure: F32,
    /// Which of the double-buffered textures the next frame writes.
    pub frame_kind: FrameKind,
    /// Length of the jitter sequence, as an integer.
    pub jitter_phase_count: u32,
    /// Frames since the history was reset, as an integer.
    pub frame_index: u32,
}

impl FsrViewState {
    /// A view that has not seen a frame.
    pub open spec fn fresh(
        format_profile: FormatProfile,
        max_render_size: [u32; 2],
        max_upscale_size: [u32; 2],
    ) -> FsrViewState {
        FsrViewState {
            format_profile,
            constants: Constants::initial(max_render_size, max_upscale_size),
            max_render_size,
            max_upscale_size,
            first_execution: true,
            previous_jitter_offset: [F32 { bits: 0 }, F32 { bits: 0 }],
            pre_exposure: F32 { bits: ONE_BITS },
            previous_frame_pre_exposure: F32 { bits: ONE_BITS },
            frame_kind: FrameKind::Even,
            jitter_phase_count: 0,
            frame_index: 0,
        }
    }

    /// Whether the uniform data agrees with the rest of the state.
    pub open spec fn wf(self) -> bool {
        &&& self.constants.fsr.max_render_size == self.max_render_size
        &&& self.constants.fsr.max_upscale_size == self.max_upscale_size
        &&& self.jitter_phase_count <= 0x8000_0000
        &&& self.constants.fsr.jitter_phase_count.is_integer(self.jitter_phase_count as nat)
        &&& self.frame_index <= 0x100_0000
        &&& self.constants.fsr.frame_index.is_integer(self.frame_index as nat)
    }

    /// The state of a view that has not seen a frame.
    pub fn new(
        format_profile: FormatProfile,
        max_render_size: [u32; 2],
        max_upscale_size: [u32; 2],
    ) -> (result: FsrViewState)
        ensures
            result == FsrViewState::fresh(format_profile, max_render_size, max_upscale_size),
            result.wf(),
    {
        let zero = F32::zero();
        let one = F32::one();
        proof {
            let unit = vstd::arithmetic::power2::pow2(149);
            assert(0nat * unit == 0) by (nonlinear_arith);
        }
        FsrViewState {
            format_profile,
            constants: Constants::new(max_render_size, max_upscale_size),
            max_render_size,
            max_upscale_size,
            first_execution: true,
            previous_jitter_offset: [zero, zero],
            pre_exposure: one,
            previous_frame_pre_exposure: one,
            frame_kind: FrameKind::Even,
            jitter_phase_count: 0,
            frame_index: 0,
        }
    }
}

/// Per-resolution, per-camera state for FSR3 upscaling.
///
/// Holds the temporal accumulation state. Call [`FsrView::resize`] to change the maximum render
/// or upscale resolution.
#[derive(Debug, Clone, Copy)]
pub struct FsrView {
    state: FsrViewState,
}

impl View for FsrView {
    type V = FsrViewState;

    closed spec fn view(&self) -> FsrViewState {
        self.state
    }
}

impl FsrView {
    #[verifier::type_invariant]
    spec fn is_consistent(self) -> bool {
        self.state.wf()
    }

    /// A view that has not seen a frame.
    pub fn new(
        format_profile: FormatProfile,
        max_render_size: [u32; 2],
        max_upscale_size: [u32; 2],
    ) -> (result: FsrView)
        ensures
            result@ == FsrViewState::fresh(format_profile, max_render_size, max_upscale_size),
            result@.first_execution,
            result@.format_profile == format_profile,
            result@.max_render_size == max_render_size,
            result@.max_upscale_size == max_upscale_size,
    {
        FsrView { state: FsrViewState::new(format_profile, max_render_size, max_upscale_size) }
    }

    /// What the view keeps.
    pub fn state(&self) -> (result: FsrViewState)
        ensures
            result == self@,
            result.wf(),
    {
        proof {
            use_type_invariant(self);
        }
        self.state
    }

    /// Keep something else.
    pub(crate) fn set_state(&mut self, state: FsrViewState)
        requires
            state.wf(),
        ensures
            final(self)@ == state,
    {
        self.state = state;
    }

    /// What to allocate for the view.
    pub fn resources(&self) -> (result: FsrResources<
        TextureDescriptor,
        BufferDescriptor,
        SamplerDescriptor,
    >)
        ensures
            result.render_sized(self@.format_profile, self@.max_render_size),
            result.half_sized(self@.format_profile, self@.max_render_size),
            result.upscale_sized(self@.format_profile, self@.max_upscale_size),
            result.fixed_sized(),
    {
        FsrResources::new(
            self.state.format_profile,
            self.state.max_render_size,
            self.state.max_upscale_size,
        )
    }

    /// Change the maximum resolutions.
    ///
    /// Resets all temporal history: the next dispatch will behave as the first frame.
    pub fn resize(&mut self, max_render_size: [u32; 2], max_upscale_size: [u32; 2])
        ensures
            final(self)@ == FsrViewState::fresh(
                old(self)@.format_profile,
                max_render_size,
                max_upscale_size,
            ),
            final(self)@.first_execution,
            final(self)@.frame_index == 0,
            final(self)@.jitter_phase_count == 0,
            final(self)@.format_profile == old(self)@.format_profile,
            final(self)@.max_render_size == max_render_size,
            final(self)@.max_upscale_size == max_upscale_size,
            final(self)@.constants.layout()[8] == max_render_size[0],
            final(self)@.constants.layout()[9] == max_render_size[1],
            final(self)@.constants.layout()[10] == max_upscale_size[0],
            final(self)@.constants.layout()[11] == max_upscale_size[1],
    {
        let fresh = FsrViewState::new(self.state.format_profile, max_render_size, max_upscale_size);
        self.state = fresh;
    }

    /// The maximum render resolution this view was allocated for.
    pub fn max_render_size(&self) -> (result: [u32; 2])
        ensures
            result == self@.max_render_size,
    {
        self.state.max_render_size
    }

    /// The maximum upscale resolution this view was allocated for.
    pub fn max_upscale_size(&self) -> (result: [u32; 2])
        ensures
            result == self@.max_upscale_size,
    {
        self.state.max_upscale_size
    }

    /// Estimated GPU memory usage for internal textures and buffers, in bytes.
    ///
    /// This is a lower-bound estimate based on texture formats and dimensions.
    /// Actual driver allocations may be larger due to alignment and padding.
    pub fn estimated_memory_usage(&self) -> (result: u64)
        requires
            memory_estimate(self@.max_render_size, self@.max_upscale_size) <= u64::MAX,
        ensures
            result == memory_estimate(self@.max_render_size, self@.max_upscale_size),
    {
        estimate_memory(self.state.max_render_size, self.state.max_upscale_size)
    }
}

} // verus!
