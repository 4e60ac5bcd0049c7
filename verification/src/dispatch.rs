//! One frame: what a dispatch checks, how it changes the view, and what it runs.

use crate::context::FsrContext;
use crate::constants::SpdConstants;
use crate::flags::{FsrContextFlags, FsrDispatchFlags};
use crate::float::{round_integer, rounded, F32, ONE_BITS};
use crate::format_profile::{FormatProfile, FsrFormats};
use crate::frame::FrameKind;
use crate::frame_laws::{
    comes_once_before_runs,
    is_quotient,
    law_constants_uploaded_once,
    law_motion_vector_scale,
    motion_vectors_rendered_at,
};
use crate::info::FsrDispatchInfo;
use crate::jitter::{get_jitter_phase_count, lemma_rounded_exact, phase_count};
use crate::pass::{FsrPassKind, PYRAMID_LEVELS};
use crate::rcas::{is_nearest_half, populate_rcas_constants};
use crate::resources::{AccessType, FsrResourceName};
use crate::spd::{mip_count, tile_count, RectInput};
use crate::validation::{
    check_dispatch,
    check_formats,
    dispatch_error,
    format_error,
    FsrDispatchError,
};
use crate::view::{FsrView, FsrViewState};
use vstd::prelude::*;

verus! {

/// The bit pattern of -1.0.
pub const MINUS_ONE_BITS: u32 = 0xbf80_0000;

/// The terms of a frame that take floating-point arithmetic to compute.
#[derive(Debug, Clone, Copy)]
pub struct FrameTerms {
    /// Coefficients that turn device depth into view-space depth.
    pub device_to_view_depth: [F32; 4],
    /// Tangent of half the horizontal field of view.
    pub tan_half_fov: F32,
    /// Pre-exposure of this frame over that of the last.
    pub pre_exposure_ratio: F32,
    /// Motion vector scale over the size that motion vectors are rendered at.
    pub motion_vector_scale: [F32; 2],
    /// The last frame's jitter less that of this frame, over the size that motion vectors are
    /// rendered at.
    pub jitter_cancellation: [F32; 2],
    /// The frame time in seconds.
    pub frame_seconds: F32,
    /// `2^(2 sharpness - 2)`.
    pub sharpness_linear: F32,
}

/// Which depth projection a camera has, and the planes that its coefficients depend on.
#[derive(Debug, Clone, Copy, PartialEq, Eq, Structural)]
pub enum DepthProjection {
    /// Both planes are at a finite distance.
    Finite {
        /// The plane at device depth 0.
        first: F32,
        /// The plane at device depth 1.
        last: F32,
    },
    /// The plane at device depth 1 is infinitely far.
    Infinite {
        /// The plane at device depth 0.
        first: F32,
    },
    /// The plane at device depth 0 is infinitely far.
    InvertedInfinite {
        /// The plane at device depth 1.
        last: F32,
    },
}

/// The depth projection of a camera with the given planes: the nearer plane is at device depth 0,
/// or at device depth 1 where depth is inverted.
pub open spec fn projection(
    flags: FsrContextFlags,
    camera_near: F32,
    camera_far: F32,
) -> DepthProjection {
    let nearer = camera_near.smaller(camera_far);
    let farther = camera_near.larger(camera_far);
    if flags.has(FsrContextFlags::DEPTH_INVERTED) {
        if flags.has(FsrContextFlags::DEPTH_INFINITE) {
            DepthProjection::InvertedInfinite { last: nearer }
        } else {
            DepthProjection::Finite { first: farther, last: nearer }
        }
    } else {
        if flags.has(FsrContextFlags::DEPTH_INFINITE) {
            DepthProjection::Infinite { first: nearer }
        } else {
            DepthProjection::Finite { first: nearer, last: farther }
        }
    }
}

/// A buffer to fill.
#[derive(Debug, Clone, Copy, PartialEq, Eq, Structural)]
pub enum ClearTarget {
    /// The caller's reconstructed depth.
    ReconstructedPreviousDepth,
    /// The downsampler's counter.
    SpdAtomicCounter,
}

/// One step of a frame.
#[derive(Debug, Clone, Copy, PartialEq, Eq)]
pub enum Command {
    /// Fill a texture with zeros.
    ClearTexture(FsrResourceName),
    /// Write the per-frame metadata.
    WriteFrameInfo([F32; 4]),
    /// Fill a buffer with repetitions of a value.
    ClearBuffer {
        /// The buffer.
        target: ClearTarget,
        /// The value.
        value: [u32; 4],
    },
    /// Copy the view's uniform data to the uniform buffer.
    UploadConstants,
    /// Run a compute pass.
    RunPass {
        /// The pass.
        kind: FsrPassKind,
        /// Workgroups in both directions.
        workgroups: [u32; 2],
    },
    /// Run the part of a pyramid's pass that writes one level of the mip chain from the level
    /// before it.
    RunLevel {
        /// The pass.
        kind: FsrPassKind,
        /// The level.
        level: u32,
        /// Workgroups in both directions.
        workgroups: [u32; 2],
    },
}

/// A frame to record.
#[derive(Debug)]
pub struct FramePlan {
    /// Which of the double-buffered textures the frame writes.
    pub frame_kind: FrameKind,
    /// The steps, in order.
    pub commands: Vec<Command>,
}

/// `n / d`, rounded up.
pub open spec fn ceil_div(n: int, d: int) -> int {
    (n + d - 1) / d
}

/// `size / d` in both directions, rounded up.
pub open spec fn workgroups(size: [u32; 2], d: int) -> [u32; 2] {
    [ceil_div(size[0] as int, d) as u32, ceil_div(size[1] as int, d) as u32]
}

/// Half of `size`, rounded down.
pub open spec fn halved(size: [u32; 2]) -> [u32; 2] {
    [(size[0] / 2) as u32, (size[1] / 2) as u32]
}

/// The two's complement reading of a bit pattern.
pub open spec fn as_signed(n: u32) -> int {
    if n < 0x8000_0000 {
        n as int
    } else {
        n - 0x1_0000_0000
    }
}

/// The length of the jitter sequence after a frame: that of the frame's sizes after a reset, and
/// otherwise at most one step closer to it.
pub open spec fn next_phase_count(current: nat, target: nat, reset: bool) -> nat {
    let seen = if current > i32::MAX {
        i32::MAX as nat
    } else {
        current
    };
    if reset || current == 0 {
        rounded(target)
    } else if target > seen {
        rounded(current + 1)
    } else if target < seen {
        rounded((current - 1) as nat)
    } else {
        current
    }
}

/// The frame index after a frame: it starts at 0 after a reset, and stops at 2^24, beyond which
/// single precision cannot count.
pub open spec fn next_frame_index(current: nat, reset: bool) -> nat {
    if reset {
        0
    } else if current < 0x100_0000 {
        current + 1
    } else {
        current
    }
}

/// What the motion vectors of a frame are rendered at.
pub open spec fn motion_vector_size<T, B>(
    flags: FsrContextFlags,
    info: FsrDispatchInfo<T, B>,
) -> [u32; 2] {
    if flags.has(FsrContextFlags::DISPLAY_RESOLUTION_MOTION_VECTORS) {
        info.upscale_size
    } else {
        info.render_size
    }
}

/// The steps before the passes.
pub open spec fn setup_commands(flags: FsrContextFlags, reset: bool) -> Seq<Command> {
    let depth = if flags.has(FsrContextFlags::DEPTH_INVERTED) {
        0u32
    } else {
        ONE_BITS
    };
    let history = if reset {
        seq![
            Command::ClearTexture(FsrResourceName::AccumulationPrevious),
            Command::ClearTexture(FsrResourceName::SpdMips),
            Command::WriteFrameInfo(
                [
                    F32 { bits: MINUS_ONE_BITS },
                    F32 { bits: ONE_BITS },
                    F32 { bits: 0 },
                    F32 { bits: 0 },
                ],
            ),
        ]
    } else {
        Seq::empty()
    };
    history + seq![
        Command::ClearBuffer {
            target: ClearTarget::ReconstructedPreviousDepth,
            value: [depth, depth, depth, depth],
        },
        Command::ClearBuffer { target: ClearTarget::SpdAtomicCounter, value: [0, 0, 0, 0] },
        Command::UploadConstants,
        Command::ClearTexture(FsrResourceName::SpdMips),
    ]
}

/// Half of a side of a mip level, which has at least one pixel.
pub open spec fn half_side(side: u32) -> u32 {
    if side < 2 {
        1
    } else {
        (side / 2) as u32
    }
}

/// The size of a level of the mip chain: each has half the size of the one before, and the first
/// has half the render size.
pub open spec fn level_size(render_size: [u32; 2], level: nat) -> [u32; 2]
    decreases level,
{
    let before = if level == 0 {
        render_size
    } else {
        level_size(render_size, (level - 1) as nat)
    };
    [half_side(before[0]), half_side(before[1])]
}

/// The part of a pyramid's pass that writes a level.
pub open spec fn level_command(kind: FsrPassKind, render_size: [u32; 2]) -> spec_fn(
    int,
) -> Command {
    |level: int|
        Command::RunLevel {
            kind,
            level: level as u32,
            workgroups: workgroups(level_size(render_size, level as nat), 8),
        }
}

/// How a pyramid is generated: in a single pass, or level by level where the profile cannot read
/// back what the pass wrote.
pub open spec fn pyramid_commands(
    kind: FsrPassKind,
    render_size: [u32; 2],
    profile: FormatProfile,
) -> Seq<Command> {
    if kind.runs_by_levels(profile) {
        Seq::new(PYRAMID_LEVELS as nat, level_command(kind, render_size))
    } else {
        seq![Command::RunPass { kind, workgroups: workgroups(render_size, 64) }]
    }
}

/// The passes up to accumulation.
pub open spec fn analysis_commands(render_size: [u32; 2], profile: FormatProfile) -> Seq<Command> {
    let source = workgroups(render_size, 8);
    seq![Command::RunPass { kind: FsrPassKind::PrepareInputs, workgroups: source }]
        + pyramid_commands(FsrPassKind::LumaPyramid, render_size, profile) + pyramid_commands(
        FsrPassKind::ShadingChangePyramid,
        render_size,
        profile,
    ) + seq![
        Command::RunPass {
            kind: FsrPassKind::ShadingChange,
            workgroups: workgroups(halved(render_size), 8),
        },
        Command::RunPass { kind: FsrPassKind::PrepareReactivity, workgroups: source },
        Command::RunPass { kind: FsrPassKind::LumaInstability, workgroups: source },
    ]
}

/// Accumulation and the passes after it.
pub open spec fn output_commands(
    upscale_size: [u32; 2],
    sharpen: bool,
    debug_view: bool,
) -> Seq<Command> {
    let target = workgroups(upscale_size, 8);
    let accumulate = if sharpen {
        seq![
            Command::RunPass { kind: FsrPassKind::AccumulateSharpen, workgroups: target },
            Command::RunPass {
                kind: FsrPassKind::Rcas,
                workgroups: workgroups(upscale_size, 16),
            },
        ]
    } else {
        seq![Command::RunPass { kind: FsrPassKind::Accumulate, workgroups: target }]
    };
    if debug_view {
        accumulate.push(Command::RunPass { kind: FsrPassKind::DebugView, workgroups: target })
    } else {
        accumulate
    }
}

impl FsrContext {
    /// What a dispatch is refused for.
    pub open spec fn rejection<T, B>(
        self,
        view: FsrViewState,
        info: FsrDispatchInfo<T, B>,
        formats: FsrFormats,
    ) -> Option<FsrDispatchError> {
        match dispatch_error(info, self.flags, view.max_render_size, view.max_upscale_size) {
            Some(error) => Some(error),
            None => format_error(FsrFormats::of(self.format_profile), formats),
        }
    }

    /// All steps of a frame.
    pub open spec fn frame_commands<T, B>(
        self,
        info: FsrDispatchInfo<T, B>,
        reset: bool,
    ) -> Seq<Command> {
        setup_commands(self.flags, reset) + analysis_commands(
            info.render_size,
            self.format_profile,
        ) + output_commands(
            info.upscale_size,
            info.enable_sharpening,
            info.flags.has(FsrDispatchFlags::DRAW_DEBUG_VIEW),
        )
    }

    /// How a frame changes the state of a view, apart from the uniform data.
    pub open spec fn advances_state<T, B>(
        self,
        before: FsrViewState,
        after: FsrViewState,
        info: FsrDispatchInfo<T, B>,
    ) -> bool {
        let reset = info.reset_history || before.first_execution;
        let target = phase_count(as_signed(info.render_size[0]), as_signed(info.upscale_size[0]));
        &&& after.format_profile == before.format_profile
        &&& after.max_render_size == before.max_render_size
        &&& after.max_upscale_size == before.max_upscale_size
        &&& !after.first_execution
        &&& after.previous_jitter_offset == (if self.flags.has(
            FsrContextFlags::MOTION_VECTORS_JITTER_CANCELLATION,
        ) {
            info.jitter_offset
        } else {
            before.previous_jitter_offset
        })
        &&& after.pre_exposure == info.pre_exposure
        &&& after.previous_frame_pre_exposure == before.pre_exposure
        &&& after.frame_kind == before.frame_kind.next()
        &&& after.jitter_phase_count == next_phase_count(
            before.jitter_phase_count as nat,
            target as nat,
            reset,
        )
        &&& after.frame_index == next_frame_index(before.frame_index as nat, reset)
    }

    /// How a frame changes the uniform data of a view. The integers among it are tied to the
    /// view's other state by [`FsrViewState::wf`].
    pub open spec fn advances_constants<T, B>(
        self,
        before: FsrViewState,
        after: FsrViewState,
        info: FsrDispatchInfo<T, B>,
        terms: FrameTerms,
    ) -> bool {
        let old_fsr = before.constants.fsr;
        let fsr = after.constants.fsr;
        let rcas = after.constants.rcas.rcas_config;
        let spd = after.constants.spd;
        &&& fsr.render_size == info.render_size
        &&& fsr.previous_frame_render_size == old_fsr.render_size
        &&& fsr.upscale_size == info.upscale_size
        &&& fsr.previous_frame_upscale_size == old_fsr.upscale_size
        &&& fsr.device_to_view_depth == terms.device_to_view_depth
        &&& fsr.jitter_offset == info.jitter_offset
        &&& fsr.previous_frame_jitter_offset == old_fsr.jitter_offset
        &&& fsr.motion_vector_scale == terms.motion_vector_scale
        &&& forall|i: int|
            0 <= i < 2 ==> (#[trigger] fsr.downscale_factor[i]).is_ratio(
                info.render_size[i] as nat,
                info.upscale_size[i] as nat,
            )
        &&& fsr.motion_vector_jitter_cancellation == (if self.flags.has(
            FsrContextFlags::MOTION_VECTORS_JITTER_CANCELLATION,
        ) {
            terms.jitter_cancellation
        } else {
            old_fsr.motion_vector_jitter_cancellation
        })
        &&& fsr.tan_half_fov == terms.tan_half_fov
        &&& fsr.delta_time == terms.frame_seconds.limited(F32 { bits: 0 }, F32 { bits: ONE_BITS })
        &&& fsr.delta_pre_exposure == (if (F32 { bits: 0 }).is_less(before.pre_exposure) {
            terms.pre_exposure_ratio
        } else {
            F32 { bits: ONE_BITS }
        })
        &&& fsr.view_space_to_meters_factor == info.view_space_to_meters_factor
        &&& fsr.velocity_factor == old_fsr.velocity_factor
        &&& fsr.reactiveness_scale == old_fsr.reactiveness_scale
        &&& fsr.shading_change_scale == old_fsr.shading_change_scale
        &&& fsr.accumulation_added_per_frame == old_fsr.accumulation_added_per_frame
        &&& fsr.min_disocclusion_accumulation == old_fsr.min_disocclusion_accumulation
        &&& fsr._padding == old_fsr._padding
        &&& after.constants.generate_auto_reactive == before.constants.generate_auto_reactive
        &&& after.constants.generate_reactive == before.constants.generate_reactive
        &&& rcas[0] == terms.sharpness_linear.bits
        &&& is_nearest_half(terms.sharpness_linear, (rcas[1] % 0x1_0000) as u16)
        &&& is_nearest_half(terms.sharpness_linear, (rcas[1] / 0x1_0000) as u16)
        &&& rcas[2] == 0 && rcas[3] == 0
        &&& spd.mips == mip_count(info.render_size[0], info.render_size[1])
        &&& spd.num_work_groups == tile_count(0, info.render_size[0]) * tile_count(
            0,
            info.render_size[1],
        )
        &&& spd.work_group_offset == [0u32, 0u32]
        &&& spd.render_size == info.render_size
        &&& spd._padding == [0u32, 0u32]
    }

    /// Validate dispatch parameters for correctness.
    pub fn check<T, B>(
        &self,
        view: &FsrView,
        info: &FsrDispatchInfo<T, B>,
        formats: FsrFormats,
    ) -> (result: Result<(), FsrDispatchError>)
        ensures
            match self.rejection(view@, *info, formats) {
                Some(error) => result == Err::<(), FsrDispatchError>(error),
                None => result is Ok,
            },
    {
        check_dispatch(info, self.flags, view.max_render_size(), view.max_upscale_size())?;
        check_formats(self.formats(), formats)
    }

    /// What the motion vectors of a frame are rendered at.
    pub fn motion_vectors_target_size<T, B>(&self, info: &FsrDispatchInfo<T, B>) -> (result: [u32;
        2])
        ensures
            result == motion_vector_size(self.flags, *info),
    {
        if self.flags.contains(FsrContextFlags::DISPLAY_RESOLUTION_MOTION_VECTORS) {
            info.upscale_size
        } else {
            info.render_size
        }
    }

    /// The depth projection of a camera with the given planes.
    pub fn depth_projection(&self, camera_near: F32, camera_far: F32) -> (result: DepthProjection)
        ensures
            ({
                let nearer = camera_near.smaller(camera_far);
                let farther = camera_near.larger(camera_far);
                let infinite = self.flags.has(FsrContextFlags::DEPTH_INFINITE);
                result == if self.flags.has(FsrContextFlags::DEPTH_INVERTED) {
                    if infinite {
                        DepthProjection::InvertedInfinite { last: nearer }
                    } else {
                        DepthProjection::Finite { first: farther, last: nearer }
                    }
                } else {
                    if infinite {
                        DepthProjection::Infinite { first: nearer }
                    } else {
                        DepthProjection::Finite { first: nearer, last: farther }
                    }
                }
            }),
            result == projection(self.flags, camera_near, camera_far),
    {
        let nearer = camera_near.min(camera_far);
        let farther = camera_near.max(camera_far);
        let infinite: bool = self.flags.contains(FsrContextFlags::DEPTH_INFINITE);
        if self.flags.contains(FsrContextFlags::DEPTH_INVERTED) {
            if infinite {
                DepthProjection::InvertedInfinite { last: nearer }
            } else {
                DepthProjection::Finite { first: farther, last: nearer }
            }
        } else {
            if infinite {
                DepthProjection::Infinite { first: nearer }
            } else {
                DepthProjection::Finite { first: nearer, last: farther }
            }
        }
    }

    /// Plan the FSR3 upscaling passes of one frame.
    ///
    /// Validates the parameters, updates the view's state, and lists what to record. Where the
    /// parameters are refused, the view stays as it is.
    pub fn dispatch<T, B>(
        &self,
        view: &mut FsrView,
        info: &FsrDispatchInfo<T, B>,
        formats: FsrFormats,
        terms: &FrameTerms,
    ) -> (result: Result<FramePlan, FsrDispatchError>)
        requires
            self.rejection(old(view)@, *info, formats) is None ==> tile_count(
                0,
                info.render_size[0],
            ) * tile_count(0, info.render_size[1]) <= u32::MAX,
        ensures
            match self.rejection(old(view)@, *info, formats) {
                Some(error) => {
                    &&& result == Err::<FramePlan, FsrDispatchError>(error)
                    &&& *final(view) == *old(view)
                },
                None => {
                    &&& result is Ok
                    &&& result->Ok_0.frame_kind == old(view)@.frame_kind
                    &&& result->Ok_0.frame_kind != final(view)@.frame_kind
                    &&& result->Ok_0.commands@ == self.frame_commands(
                        *info,
                        info.reset_history || old(view)@.first_execution,
                    )
                    &&& final(view)@.wf()
                    &&& self.advances_state(old(view)@, final(view)@, *info)
                    &&& self.advances_constants(old(view)@, final(view)@, *info, *terms)
                    // The passes find this frame's uniform data
                    &&& comes_once_before_runs(result->Ok_0.commands@, Command::UploadConstants)
                    // The passes find the scale of motion vectors over the size that these are
                    // rendered at
                    &&& forall|i: int|
                        0 <= i < 2 && is_quotient(
                            terms.motion_vector_scale[i],
                            #[trigger] info.motion_vector_scale[i],
                            motion_vectors_rendered_at(self.flags.bits, *info)[i],
                        ) ==> {
                            &&& is_quotient(
                                final(view)@.constants.fsr.motion_vector_scale[i],
                                info.motion_vector_scale[i],
                                motion_vectors_rendered_at(self.flags.bits, *info)[i],
                            )
                            &&& is_quotient(
                                F32 { bits: final(view)@.constants.layout()[20 + i] },
                                info.motion_vector_scale[i],
                                motion_vectors_rendered_at(self.flags.bits, *info)[i],
                            )
                        }
                },
            },
    {
        match self.check(view, info, formats) {
            Ok(()) => {},
            Err(error) => {
                return Err(error);
            },
        }
        let mut state = view.state();
        let reset: bool = info.reset_history || state.first_execution;
        let frame_kind = state.frame_kind;
        self.update_constants(&mut state, info, terms);
        self.update_state(&mut state, info, reset);
        view.set_state(state);
        proof {
            law_constants_uploaded_once(*self, *info, reset);
            assert forall|i: int|
                0 <= i < 2 && is_quotient(
                    terms.motion_vector_scale[i],
                    #[trigger] info.motion_vector_scale[i],
                    motion_vectors_rendered_at(self.flags.bits, *info)[i],
                ) implies is_quotient(
                F32 { bits: view@.constants.layout()[20 + i] },
                info.motion_vector_scale[i],
                motion_vectors_rendered_at(self.flags.bits, *info)[i],
            ) by {
                law_motion_vector_scale(*self, old(view)@, view@, *info, *terms, i);
            }
        }
        let mut commands: Vec<Command> = self.setup(reset);
        self.push_analysis(&mut commands, info.render_size);
        push_output(
            &mut commands,
            info.upscale_size,
            info.enable_sharpening,
            info.flags.contains(FsrDispatchFlags::DRAW_DEBUG_VIEW),
        );
        Ok(FramePlan { frame_kind, commands })
    }

    /// Take over the uniform data of a frame, apart from the jitter sequence and the frame index.
    fn update_constants<T, B>(
        &self,
        view: &mut FsrViewState,
        info: &FsrDispatchInfo<T, B>,
        terms: &FrameTerms,
    )
        requires
            old(view).wf(),
            info.render_size[0] > 0,
            info.render_size[1] > 0,
            info.upscale_size[0] > 0,
            info.upscale_size[1] > 0,
            tile_count(0, info.render_size[0]) * tile_count(0, info.render_size[1]) <= u32::MAX,
        ensures
            final(view).wf(),
            self.advances_constants(*old(view), *final(view), *info, *terms),
            final(view).format_profile == old(view).format_profile,
            final(view).max_render_size == old(view).max_render_size,
            final(view).max_upscale_size == old(view).max_upscale_size,
            final(view).first_execution == old(view).first_execution,
            final(view).previous_jitter_offset == old(view).previous_jitter_offset,
            final(view).pre_exposure == old(view).pre_exposure,
            final(view).previous_frame_pre_exposure == old(view).previous_frame_pre_exposure,
            final(view).frame_kind == old(view).frame_kind,
            final(view).jitter_phase_count == old(view).jitter_phase_count,
            final(view).frame_index == old(view).frame_index,
    {
        let zero = F32::zero();
        let one = F32::one();
        let mut fsr = view.constants.fsr;

        fsr.previous_frame_jitter_offset = fsr.jitter_offset;
        fsr.previous_frame_upscale_size = fsr.upscale_size;
        fsr.previous_frame_render_size = fsr.render_size;

        fsr.jitter_offset = info.jitter_offset;
        fsr.upscale_size = info.upscale_size;
        fsr.render_size = info.render_size;
        fsr.downscale_factor = [
            F32::ratio(info.render_size[0], info.upscale_size[0]),
            F32::ratio(info.render_size[1], info.upscale_size[1]),
        ];

        fsr.tan_half_fov = terms.tan_half_fov;
        fsr.view_space_to_meters_factor = info.view_space_to_meters_factor;
        fsr.device_to_view_depth = terms.device_to_view_depth;

        fsr.delta_pre_exposure = if zero.lt(view.pre_exposure) {
            terms.pre_exposure_ratio
        } else {
            one
        };

        fsr.motion_vector_scale = terms.motion_vector_scale;
        if self.flags.contains(FsrContextFlags::MOTION_VECTORS_JITTER_CANCELLATION) {
            fsr.motion_vector_jitter_cancellation = terms.jitter_cancellation;
        }

        fsr.delta_time = terms.frame_seconds.clamped(zero, one);

        view.constants.fsr = fsr;
        view.constants.spd = SpdConstants::new(
            RectInput::new(info.render_size[0], info.render_size[1]),
        );
        view.constants.rcas = populate_rcas_constants(terms.sharpness_linear);
        proof {
            assert(view.constants.spd.render_size =~= info.render_size);
            assert(view.constants.spd.work_group_offset =~= [0u32, 0u32]);
        }
    }

    /// Go on to the next frame.
    fn update_state<T, B>(&self, view: &mut FsrViewState, info: &FsrDispatchInfo<T, B>, reset: bool)
        requires
            old(view).wf(),
            reset == (info.reset_history || old(view).first_execution),
        ensures
            final(view).wf(),
            self.advances_state(*old(view), *final(view), *info),
            final(view).constants.generate_auto_reactive
                == old(view).constants.generate_auto_reactive,
            final(view).constants.generate_reactive == old(view).constants.generate_reactive,
            final(view).constants.rcas == old(view).constants.rcas,
            final(view).constants.spd == old(view).constants.spd,
            final(view).constants.fsr.same_frame_data(old(view).constants.fsr),
    {
        view.first_execution = false;
        view.previous_frame_pre_exposure = view.pre_exposure;
        view.pre_exposure = info.pre_exposure;
        if self.flags.contains(FsrContextFlags::MOTION_VECTORS_JITTER_CANCELLATION) {
            view.previous_jitter_offset = info.jitter_offset;
        }
        let target: u32 = get_jitter_phase_count(
            signed(info.render_size[0]),
            signed(info.upscale_size[0]),
        ) as u32;
        let (count, number) = step_phase_count(
            view.jitter_phase_count,
            view.constants.fsr.jitter_phase_count,
            target,
            reset,
        );
        view.jitter_phase_count = count;
        view.constants.fsr.jitter_phase_count = number;

        let frame_index: u32 = if reset {
            0
        } else if view.frame_index < 0x100_0000 {
            view.frame_index + 1
        } else {
            view.frame_index
        };
        proof {
            lemma_rounded_exact(frame_index as nat);
        }
        view.frame_index = frame_index;
        view.constants.fsr.frame_index = F32::from_u32(frame_index);
        view.frame_kind.advance();
    }

    /// The steps before the passes.
    fn setup(&self, reset: bool) -> (result: Vec<Command>)
        ensures
            result@ == setup_commands(self.flags, reset),
    {
        let mut commands: Vec<Command> = Vec::new();
        if reset {
            // The accumulation that is read is cleared, not the one that is written.
            commands.push(Command::ClearTexture(FsrResourceName::AccumulationPrevious));
            commands.push(Command::ClearTexture(FsrResourceName::SpdMips));
            commands.push(
                Command::WriteFrameInfo(
                    [F32::from_bits(MINUS_ONE_BITS), F32::one(), F32::zero(), F32::zero()],
                ),
            );
        }
        // Clear reconstructed depth for max depth store.
        let depth: u32 = if self.flags.contains(FsrContextFlags::DEPTH_INVERTED) {
            0
        } else {
            ONE_BITS
        };
        commands.push(
            Command::ClearBuffer {
                target: ClearTarget::ReconstructedPreviousDepth,
                value: [depth, depth, depth, depth],
            },
        );
        commands.push(
            Command::ClearBuffer { target: ClearTarget::SpdAtomicCounter, value: [0, 0, 0, 0] },
        );
        commands.push(Command::UploadConstants);
        commands.push(Command::ClearTexture(FsrResourceName::SpdMips));
        proof {
            assert(commands@ =~= setup_commands(self.flags, reset));
        }
        commands
    }
}

impl FsrContext {
    /// The passes up to accumulation.
    fn push_analysis(&self, commands: &mut Vec<Command>, render_size: [u32; 2])
        ensures
            final(commands)@ == old(commands)@ + analysis_commands(
                render_size,
                self.format_profile,
            ),
    {
        let profile = self.format_profile;
        let source: [u32; 2] = groups(render_size, 8);
        let half: [u32; 2] = [render_size[0] / 2, render_size[1] / 2];
        commands.push(Command::RunPass { kind: FsrPassKind::PrepareInputs, workgroups: source });
        push_pyramid(commands, FsrPassKind::LumaPyramid, render_size, profile);
        push_pyramid(commands, FsrPassKind::ShadingChangePyramid, render_size, profile);
        commands.push(
            Command::RunPass { kind: FsrPassKind::ShadingChange, workgroups: groups(half, 8) },
        );
        commands.push(Command::RunPass { kind: FsrPassKind::PrepareReactivity, workgroups: source });
        commands.push(Command::RunPass { kind: FsrPassKind::LumaInstability, workgroups: source });
        proof {
            assert(half == halved(render_size));
            assert(commands@ =~= old(commands)@ + analysis_commands(render_size, profile));
        }
    }
}

/// Generate a pyramid.
fn push_pyramid(
    commands: &mut Vec<Command>,
    kind: FsrPassKind,
    render_size: [u32; 2],
    profile: FormatProfile,
)
    ensures
        final(commands)@ == old(commands)@ + pyramid_commands(kind, render_size, profile),
{
    if !kind.by_levels(profile) {
        commands.push(Command::RunPass { kind, workgroups: groups(render_size, 64) });
        assert(commands@ =~= old(commands)@ + pyramid_commands(kind, render_size, profile));
        return;
    }
    let ghost all = pyramid_commands(kind, render_size, profile);
    let mut size: [u32; 2] = render_size;
    let mut level: u32 = 0;
    assert(commands@ =~= old(commands)@ + all.take(0));
    while level < PYRAMID_LEVELS
        invariant
            level <= PYRAMID_LEVELS,
            all == Seq::new(PYRAMID_LEVELS as nat, level_command(kind, render_size)),
            size == (if level == 0 {
                render_size
            } else {
                level_size(render_size, (level - 1) as nat)
            }),
            commands@ == old(commands)@ + all.take(level as int),
        decreases PYRAMID_LEVELS - level,
    {
        let next: [u32; 2] = [halve(size[0]), halve(size[1])];
        assert(next =~= level_size(render_size, level as nat));
        let ghost before = commands@;
        commands.push(Command::RunLevel { kind, level, workgroups: groups(next, 8) });
        proof {
            assert(all.take(level + 1) =~= all.take(level as int).push(all[level as int]));
            assert(commands@ =~= old(commands)@ + all.take(level + 1));
        }
        size = next;
        level = level + 1;
    }
    assert(all.take(level as int) =~= all);
}

/// Half of a side of a mip level.
fn halve(side: u32) -> (result: u32)
    ensures
        result == half_side(side),
{
    if side < 2 {
        1
    } else {
        side / 2
    }
}

/// Accumulation and the passes after it.
fn push_output(
    commands: &mut Vec<Command>,
    upscale_size: [u32; 2],
    sharpen: bool,
    debug_view: bool,
)
    ensures
        final(commands)@ == old(commands)@ + output_commands(upscale_size, sharpen, debug_view),
{
    let target: [u32; 2] = groups(upscale_size, 8);
    if sharpen {
        commands.push(
            Command::RunPass { kind: FsrPassKind::AccumulateSharpen, workgroups: target },
        );
        commands.push(
            Command::RunPass { kind: FsrPassKind::Rcas, workgroups: groups(upscale_size, 16) },
        );
    } else {
        commands.push(Command::RunPass { kind: FsrPassKind::Accumulate, workgroups: target });
    }
    if debug_view {
        commands.push(Command::RunPass { kind: FsrPassKind::DebugView, workgroups: target });
    }
    proof {
        assert(commands@ =~= old(commands)@ + output_commands(upscale_size, sharpen, debug_view));
    }
}

/// `size / d` in both directions, rounded up.
fn groups(size: [u32; 2], d: u32) -> (result: [u32; 2])
    requires
        d == 8 || d == 16 || d == 64,
    ensures
        result == workgroups(size, d as int),
{
    let x: u32 = size[0] / d + (if size[0] % d == 0 {
        0u32
    } else {
        1u32
    });
    let y: u32 = size[1] / d + (if size[1] % d == 0 {
        0u32
    } else {
        1u32
    });
    let result: [u32; 2] = [x, y];
    proof {
        assert(result@ =~= workgroups(size, d as int)@);
    }
    result
}

/// The two's complement reading of a bit pattern.
fn signed(n: u32) -> (result: i32)
    ensures
        result == as_signed(n),
{
    if n < 0x8000_0000 {
        n as i32
    } else {
        (n as i64 - 0x1_0000_0000) as i32
    }
}

/// The length of the jitter sequence after a frame, as an integer and in single precision.
fn step_phase_count(current: u32, number: F32, target: u32, reset: bool) -> (result: (u32, F32))
    requires
        current <= 0x8000_0000,
        number.is_integer(current as nat),
        target <= i32::MAX,
    ensures
        result.0 == next_phase_count(current as nat, target as nat, reset),
        result.0 <= 0x8000_0000,
        result.1.is_integer(result.0 as nat),
{
    let seen: u32 = if current > 0x7fff_ffff {
        0x7fff_ffff
    } else {
        current
    };
    if reset || current == 0 {
        (round_integer(target) as u32, F32::from_u32(target))
    } else if target > seen {
        (round_integer(current + 1) as u32, F32::from_u32(current + 1))
    } else if target < seen {
        (round_integer(current - 1) as u32, F32::from_u32(current - 1))
    } else {
        (current, number)
    }
}

/// The place of a pass in a frame.
pub open spec fn rank(kind: FsrPassKind) -> int {
    match kind {
        FsrPassKind::GenerateReactive => -1,
        FsrPassKind::PrepareInputs => 0,
        FsrPassKind::LumaPyramid => 1,
        FsrPassKind::ShadingChangePyramid => 2,
        FsrPassKind::ShadingChange => 3,
        FsrPassKind::PrepareReactivity => 4,
        FsrPassKind::LumaInstability => 5,
        FsrPassKind::Accumulate | FsrPassKind::AccumulateSharpen => 6,
        FsrPassKind::Rcas => 7,
        FsrPassKind::DebugView => 8,
    }
}

/// Whether a step runs a pass or a part of one.
pub open spec fn is_run(command: Command) -> bool {
    command is RunPass || command is RunLevel
}

/// The place of a step that runs a pass or a part of one.
pub open spec fn place(command: Command) -> int {
    match command {
        Command::RunPass { kind, .. } => 8 * rank(kind),
        Command::RunLevel { kind, level, .. } => 8 * rank(kind) + level,
        _ => -1,
    }
}

/// The places of the passes up to accumulation.
proof fn lemma_analysis_places(render_size: [u32; 2], profile: FormatProfile, i: int, j: int)
    requires
        0 <= i < j < analysis_commands(render_size, profile).len(),
    ensures
        ({
            let all = analysis_commands(render_size, profile);
            is_run(all[i]) && is_run(all[j]) && 0 <= place(all[i]) < place(all[j]) < 48
        }),
{
    let all = analysis_commands(render_size, profile);
    let luma = pyramid_commands(FsrPassKind::LumaPyramid, render_size, profile);
    let shading = pyramid_commands(FsrPassKind::ShadingChangePyramid, render_size, profile);
    let n = luma.len();
    assert(shading.len() == n);
    assert forall|k: int| 0 <= k < all.len() implies is_run(#[trigger] all[k]) && place(all[k]) == (
    if k == 0 {
        0
    } else if k <= n {
        8 + (k - 1)
    } else if k <= 2 * n {
        16 + (k - 1 - n)
    } else {
        24 + 8 * (k - 1 - 2 * n)
    }) by {
        if 1 <= k <= n {
            assert(all[k] == luma[k - 1]);
        } else if n < k <= 2 * n {
            assert(all[k] == shading[k - 1 - n]);
        }
    }
}

/// The passes of a frame, and the levels of a pyramid that is generated level by level, run in
/// the order of their places, after everything else, and none runs twice.
pub proof fn law_passes_in_order<T, B>(
    context: FsrContext,
    info: FsrDispatchInfo<T, B>,
    reset: bool,
    i: int,
    j: int,
)
    requires
        0 <= i < j < context.frame_commands(info, reset).len(),
        is_run(context.frame_commands(info, reset)[i]),
    ensures
        is_run(context.frame_commands(info, reset)[j]),
        place(context.frame_commands(info, reset)[i]) < place(
            context.frame_commands(info, reset)[j],
        ),
{
    let setup = setup_commands(context.flags, reset);
    let analysis = analysis_commands(info.render_size, context.format_profile);
    let output = output_commands(
        info.upscale_size,
        info.enable_sharpening,
        info.flags.has(FsrDispatchFlags::DRAW_DEBUG_VIEW),
    );
    let all = context.frame_commands(info, reset);
    let n = analysis.len();
    assert(forall|k: int| 0 <= k < setup.len() ==> !is_run(#[trigger] setup[k]));
    assert(all[i] == (if i < setup.len() {
        setup[i]
    } else if i < setup.len() + n {
        analysis[i - setup.len()]
    } else {
        output[i - setup.len() - n]
    }));
    assert(all[j] == (if j < setup.len() {
        setup[j]
    } else if j < setup.len() + n {
        analysis[j - setup.len()]
    } else {
        output[j - setup.len() - n]
    }));
    if i < setup.len() + n {
        let a = i - setup.len();
        if j < setup.len() + n {
            lemma_analysis_places(info.render_size, context.format_profile, a, j - setup.len());
        } else if a > 0 {
            lemma_analysis_places(info.render_size, context.format_profile, 0, a);
        } else {
            lemma_analysis_places(info.render_size, context.format_profile, 0, 1);
        }
    }
}

/// On `Core` every level of both pyramids is written by a step of its own, and no step generates
/// a pyramid at once.
pub proof fn law_core_pyramids_by_level<T, B>(
    context: FsrContext,
    info: FsrDispatchInfo<T, B>,
    reset: bool,
    kind: FsrPassKind,
    level: u32,
)
    requires
        context.format_profile == FormatProfile::Core,
        kind.is_pyramid(),
        level < PYRAMID_LEVELS,
    ensures
        context.frame_commands(info, reset).contains(
            level_command(kind, info.render_size)(level as int),
        ),
        forall|i: int|
            0 <= i < context.frame_commands(info, reset).len() ==> (#[trigger] context.frame_commands(
                info,
                reset,
            )[i] matches Command::RunPass { kind, .. } ==> !kind.is_pyramid()),
{
    let setup = setup_commands(context.flags, reset);
    let analysis = analysis_commands(info.render_size, context.format_profile);
    let all = context.frame_commands(info, reset);
    let luma = pyramid_commands(FsrPassKind::LumaPyramid, info.render_size, FormatProfile::Core);
    let shading = pyramid_commands(
        FsrPassKind::ShadingChangePyramid,
        info.render_size,
        FormatProfile::Core,
    );
    let at = if kind == FsrPassKind::LumaPyramid {
        1 + level
    } else {
        1 + luma.len() + level
    };
    if kind == FsrPassKind::LumaPyramid {
        assert(analysis[at] == luma[level as int]);
    } else {
        assert(analysis[at] == shading[level as int]);
    }
    assert(all[setup.len() + at] == analysis[at]);
    assert forall|i: int| 0 <= i < all.len() implies (#[trigger] all[i] matches Command::RunPass {
        kind,
        ..
    } ==> !kind.is_pyramid()) by {
        let n = analysis.len();
        if setup.len() <= i < setup.len() + n {
            let k = i - setup.len();
            assert(all[i] == analysis[k]);
            if 1 <= k <= luma.len() {
                assert(analysis[k] == luma[k - 1]);
            } else if luma.len() < k <= 2 * luma.len() {
                assert(analysis[k] == shading[k - 1 - luma.len()]);
            }
        } else if i < setup.len() {
            assert(all[i] == setup[i]);
        } else {
            let output = output_commands(
                info.upscale_size,
                info.enable_sharpening,
                info.flags.has(FsrDispatchFlags::DRAW_DEBUG_VIEW),
            );
            assert(all[i] == output[i - setup.len() - n]);
        }
    }
}

/// Whatever a pass reads, the passes that write it run before, at every profile. A level of a
/// pyramid that is generated level by level reads the level before it: see
/// [`crate::pass::law_level_from_level_before`].
pub proof fn law_reads_follow_writes(
    reader: FsrPassKind,
    writer: FsrPassKind,
    flags: FsrContextFlags,
    profile: FormatProfile,
    level: u32,
    i: int,
    j: int,
)
    requires
        !reader.runs_by_levels(profile),
        0 <= i < reader.profile_accesses(flags, profile, 0).len(),
        0 <= j < writer.profile_accesses(flags, profile, level).len(),
        reader.profile_accesses(flags, profile, 0)[i].access_type == AccessType::Srv,
        writer.profile_accesses(flags, profile, level)[j].access_type == AccessType::Uav,
        reader.profile_accesses(flags, profile, 0)[i].name == writer.profile_accesses(
            flags,
            profile,
            level,
        )[j].name,
    ensures
        rank(writer) < rank(reader),
{
}

/// A frame starts over after the view was created or resized, as after a discontinuous movement
/// of the camera: the history that it reads is cleared and counting starts anew.
pub proof fn law_first_frame_resets<T, B>(
    context: FsrContext,
    before: FsrViewState,
    after: FsrViewState,
    info: FsrDispatchInfo<T, B>,
)
    requires
        before.first_execution || info.reset_history,
        context.advances_state(before, after, info),
    ensures
        after.frame_index == 0,
        after.jitter_phase_count == rounded(
            phase_count(
                as_signed(info.render_size[0]),
                as_signed(info.upscale_size[0]),
            ) as nat,
        ),
        context.frame_commands(info, info.reset_history || before.first_execution)[0]
            == Command::ClearTexture(FsrResourceName::AccumulationPrevious),
        !after.first_execution,
{
}

/// The data of the frame before is that of the dispatch before.
pub proof fn law_previous_frame_data<T, B>(
    context: FsrContext,
    before: FsrViewState,
    between: FsrViewState,
    after: FsrViewState,
    first: FsrDispatchInfo<T, B>,
    second: FsrDispatchInfo<T, B>,
    first_terms: FrameTerms,
    second_terms: FrameTerms,
)
    requires
        context.advances_constants(before, between, first, first_terms),
        context.advances_constants(between, after, second, second_terms),
    ensures
        after.constants.fsr.previous_frame_render_size == first.render_size,
        after.constants.fsr.previous_frame_upscale_size == first.upscale_size,
        after.constants.fsr.previous_frame_jitter_offset == first.jitter_offset,
{
}

/// The length of the jitter sequence changes by at most one a frame, toward the length that the
/// frame's sizes ask for. Lengths beyond 2^24 are left out unless they are to stay: single
/// precision has no odd numbers there.
pub proof fn law_phase_count_steps(current: nat, target: nat)
    requires
        current > 0,
        target <= i32::MAX,
        current < 0x100_0000 || current == 0x100_0000 && target <= current || target == current,
    ensures
        next_phase_count(current, target, false) == (if target > current {
            current + 1int
        } else if target < current {
            current - 1
        } else {
            current as int
        }),
{
    if target > current {
        lemma_rounded_exact(current + 1);
    } else if target < current {
        lemma_rounded_exact((current - 1) as nat);
    }
}

/// With sharpening, the sharpening pass follows accumulation and writes the output; without it,
/// accumulation is the last pass but for the debug view.
pub proof fn law_sharpening(upscale_size: [u32; 2], sharpen: bool)
    ensures
        ({
            let passes = output_commands(upscale_size, sharpen, false);
            let last = passes.last()->RunPass_kind;
            &&& last == (if sharpen {
                FsrPassKind::Rcas
            } else {
                FsrPassKind::Accumulate
            })
            &&& sharpen ==> passes[0]->RunPass_kind == FsrPassKind::AccumulateSharpen
            &&& passes.len() == (if sharpen {
                2int
            } else {
                1int
            })
        }),
{
}

} // verus!
