//! The uniform data of the compute passes.

use crate::float::{F32, ONE_BITS};
use crate::resources::CONSTANTS_SIZE;
use vstd::prelude::*;

verus! {

/// The bit pattern of 1/3 in single precision.
pub const ONE_THIRD_BITS: u32 = 0x3eaa_aaab;

/// The bit pattern of -1/3 in single precision.
pub const MINUS_ONE_THIRD_BITS: u32 = 0xbeaa_aaab;

/// The uniform data of all passes.
#[derive(Debug, Clone, Copy)]
pub struct Constants {
    /// What every pass of the upscaler reads.
    pub fsr: FsrConstants,
    /// For the generation of reactive masks.
    pub generate_auto_reactive: GenerateAutoReactiveConstants,
    /// For the sharpening pass.
    pub rcas: RcasConstants,
    /// For the generation of reactive masks.
    pub generate_reactive: GenerateReactiveConstants,
    /// For the downsampling passes.
    pub spd: SpdConstants,
}

/// What every pass of the upscaler reads.
#[derive(Debug, Clone, Copy)]
pub struct FsrConstants {
    /// Render resolution of this frame.
    pub render_size: [u32; 2],
    /// Render resolution of the frame before.
    pub previous_frame_render_size: [u32; 2],
    /// Upscale resolution of this frame.
    pub upscale_size: [u32; 2],
    /// Upscale resolution of the frame before.
    pub previous_frame_upscale_size: [u32; 2],
    /// Largest render resolution.
    pub max_render_size: [u32; 2],
    /// Largest upscale resolution.
    pub max_upscale_size: [u32; 2],
    /// Coefficients that turn device depth into view-space depth.
    pub device_to_view_depth: [F32; 4],
    /// Jitter of this frame.
    pub jitter_offset: [F32; 2],
    /// Jitter of the frame before.
    pub previous_frame_jitter_offset: [F32; 2],
    /// Scale of the motion vectors, over the size they are rendered at.
    pub motion_vector_scale: [F32; 2],
    /// Render resolution over upscale resolution.
    pub downscale_factor: [F32; 2],
    /// What takes the jitter out of the motion vectors.
    pub motion_vector_jitter_cancellation: [F32; 2],
    /// Tangent of half the horizontal field of view.
    pub tan_half_fov: F32,
    /// Length of the jitter sequence.
    pub jitter_phase_count: F32,
    /// Time since the frame before, in seconds.
    pub delta_time: F32,
    /// Pre-exposure of this frame over that of the frame before.
    pub delta_pre_exposure: F32,
    /// Metres per unit of view space.
    pub view_space_to_meters_factor: F32,
    /// Frames since the history was reset.
    pub frame_index: F32,
    /// Weight of velocity.
    pub velocity_factor: F32,
    /// Weight of reactiveness.
    pub reactiveness_scale: F32,
    /// Weight of shading changes.
    pub shading_change_scale: F32,
    /// What each frame adds to the accumulation.
    pub accumulation_added_per_frame: F32,
    /// Lower bound of the accumulation after a disocclusion.
    pub min_disocclusion_accumulation: F32,
    /// Fills the structure up to a multiple of sixteen bytes.
    pub _padding: [u32; 3],
}

/// For the generation of reactive masks.
#[derive(Debug, Clone, Copy)]
pub struct GenerateAutoReactiveConstants {
    /// Threshold of transparency and composition.
    pub tc_threshold: F32,
    /// Scale of transparency and composition.
    pub tc_scale: F32,
    /// Scale of the reactive mask.
    pub reactive_scale: F32,
    /// Upper bound of the reactive mask.
    pub reactive_max: F32,
}

/// For the sharpening pass.
#[derive(Debug, Clone, Copy)]
pub struct RcasConstants {
    /// Linear sharpness, in single and in packed half precision.
    pub rcas_config: [u32; 4],
}

/// For the generation of reactive masks.
#[derive(Debug, Clone, Copy)]
pub struct GenerateReactiveConstants {
    /// Scale.
    pub gen_reactive_scale: F32,
    /// Threshold.
    pub gen_reactive_threshold: F32,
    /// Value above the threshold.
    pub gen_reactive_binary_value: F32,
    /// Flags.
    pub gen_reactive_flags: u32,
}

/// For the downsampling passes.
#[derive(Debug, Clone, Copy)]
pub struct SpdConstants {
    /// Mip levels to generate.
    pub mips: u32,
    /// Work groups of one dispatch.
    pub num_work_groups: u32,
    /// The first tile.
    pub work_group_offset: [u32; 2],
    /// Size of the downsampled rectangle.
    pub render_size: [u32; 2],
    /// Fills the structure up to a multiple of sixteen bytes.
    pub _padding: [u32; 2],
}

impl FsrConstants {
    /// The data of a view of the given sizes that has not seen a frame.
    pub open spec fn initial(max_render_size: [u32; 2], max_upscale_size: [u32; 2]) -> FsrConstants {
        let zero = F32 { bits: 0 };
        let one = F32 { bits: ONE_BITS };
        FsrConstants {
            render_size: [0, 0],
            previous_frame_render_size: [0, 0],
            upscale_size: [0, 0],
            previous_frame_upscale_size: [0, 0],
            max_render_size,
            max_upscale_size,
            device_to_view_depth: [zero, zero, zero, zero],
            jitter_offset: [zero, zero],
            previous_frame_jitter_offset: [zero, zero],
            motion_vector_scale: [zero, zero],
            downscale_factor: [zero, zero],
            motion_vector_jitter_cancellation: [zero, zero],
            tan_half_fov: zero,
            jitter_phase_count: zero,
            delta_time: zero,
            delta_pre_exposure: zero,
            view_space_to_meters_factor: zero,
            frame_index: zero,
            velocity_factor: one,
            reactiveness_scale: one,
            shading_change_scale: one,
            accumulation_added_per_frame: F32 { bits: ONE_THIRD_BITS },
            min_disocclusion_accumulation: F32 { bits: MINUS_ONE_THIRD_BITS },
            _padding: [0, 0, 0],
        }
    }

    /// Whether all but the length of the jitter sequence and the frame index is the same.
    pub open spec fn same_frame_data(self, other: FsrConstants) -> bool {
        self == (FsrConstants {
            jitter_phase_count: self.jitter_phase_count,
            frame_index: self.frame_index,
            ..other
        })
    }

    /// The structure in memory, in words of four bytes.
    pub open spec fn layout(self) -> Seq<u32> {
        seq![
            self.render_size[0],
            self.render_size[1],
            self.previous_frame_render_size[0],
            self.previous_frame_render_size[1],
            self.upscale_size[0],
            self.upscale_size[1],
            self.previous_frame_upscale_size[0],
            self.previous_frame_upscale_size[1],
            self.max_render_size[0],
            self.max_render_size[1],
            self.max_upscale_size[0],
            self.max_upscale_size[1],
            self.device_to_view_depth[0].bits,
            self.device_to_view_depth[1].bits,
            self.device_to_view_depth[2].bits,
            self.device_to_view_depth[3].bits,
            self.jitter_offset[0].bits,
            self.jitter_offset[1].bits,
            self.previous_frame_jitter_offset[0].bits,
            self.previous_frame_jitter_offset[1].bits,
            self.motion_vector_scale[0].bits,
            self.motion_vector_scale[1].bits,
            self.downscale_factor[0].bits,
            self.downscale_factor[1].bits,
            self.motion_vector_jitter_cancellation[0].bits,
            self.motion_vector_jitter_cancellation[1].bits,
            self.tan_half_fov.bits,
            self.jitter_phase_count.bits,
            self.delta_time.bits,
            self.delta_pre_exposure.bits,
            self.view_space_to_meters_factor.bits,
            self.frame_index.bits,
            self.velocity_factor.bits,
            self.reactiveness_scale.bits,
            self.shading_change_scale.bits,
            self.accumulation_added_per_frame.bits,
            self.min_disocclusion_accumulation.bits,
            self._padding[0],
            self._padding[1],
            self._padding[2],
        ]
    }
}

impl Constants {
    /// The data of a view of the given sizes that has not seen a frame.
    pub open spec fn initial(max_render_size: [u32; 2], max_upscale_size: [u32; 2]) -> Constants {
        let zero = F32 { bits: 0 };
        Constants {
            fsr: FsrConstants::initial(max_render_size, max_upscale_size),
            generate_auto_reactive: GenerateAutoReactiveConstants {
                tc_threshold: zero,
                tc_scale: zero,
                reactive_scale: zero,
                reactive_max: zero,
            },
            rcas: RcasConstants { rcas_config: [0, 0, 0, 0] },
            generate_reactive: GenerateReactiveConstants {
                gen_reactive_scale: zero,
                gen_reactive_threshold: zero,
                gen_reactive_binary_value: zero,
                gen_reactive_flags: 0,
            },
            spd: SpdConstants {
                mips: 0,
                num_work_groups: 0,
                work_group_offset: [0, 0],
                render_size: [0, 0],
                _padding: [0, 0],
            },
        }
    }

    /// The structure in memory, in words of four bytes.
    pub open spec fn layout(self) -> Seq<u32> {
        self.fsr.layout() + seq![
            self.generate_auto_reactive.tc_threshold.bits,
            self.generate_auto_reactive.tc_scale.bits,
            self.generate_auto_reactive.reactive_scale.bits,
            self.generate_auto_reactive.reactive_max.bits,
            self.rcas.rcas_config[0],
            self.rcas.rcas_config[1],
            self.rcas.rcas_config[2],
            self.rcas.rcas_config[3],
            self.generate_reactive.gen_reactive_scale.bits,
            self.generate_reactive.gen_reactive_threshold.bits,
            self.generate_reactive.gen_reactive_binary_value.bits,
            self.generate_reactive.gen_reactive_flags,
            self.spd.mips,
            self.spd.num_work_groups,
            self.spd.work_group_offset[0],
            self.spd.work_group_offset[1],
            self.spd.render_size[0],
            self.spd.render_size[1],
            self.spd._padding[0],
            self.spd._padding[1],
        ]
    }

    /// The data of a view of the given sizes that has not seen a frame.
    pub fn new(max_render_size: [u32; 2], max_upscale_size: [u32; 2]) -> (result: Constants)
        ensures
            result == Constants::initial(max_render_size, max_upscale_size),
    {
        let zero = F32::zero();
        let one = F32::one();
        Constants {
            fsr: FsrConstants {
                render_size: [0, 0],
                previous_frame_render_size: [0, 0],
                upscale_size: [0, 0],
                previous_frame_upscale_size: [0, 0],
                max_render_size,
                max_upscale_size,
                device_to_view_depth: [zero, zero, zero, zero],
                jitter_offset: [zero, zero],
                previous_frame_jitter_offset: [zero, zero],
                motion_vector_scale: [zero, zero],
                downscale_factor: [zero, zero],
                motion_vector_jitter_cancellation: [zero, zero],
                tan_half_fov: zero,
                jitter_phase_count: zero,
                delta_time: zero,
                delta_pre_exposure: zero,
                view_space_to_meters_factor: zero,
                frame_index: zero,
                velocity_factor: one,
                reactiveness_scale: one,
                shading_change_scale: one,
                accumulation_added_per_frame: F32::from_bits(ONE_THIRD_BITS),
                min_disocclusion_accumulation: F32::from_bits(MINUS_ONE_THIRD_BITS),
                _padding: [0, 0, 0],
            },
            generate_auto_reactive: GenerateAutoReactiveConstants {
                tc_threshold: zero,
                tc_scale: zero,
                reactive_scale: zero,
                reactive_max: zero,
            },
            rcas: RcasConstants { rcas_config: [0, 0, 0, 0] },
            generate_reactive: GenerateReactiveConstants {
                gen_reactive_scale: zero,
                gen_reactive_threshold: zero,
                gen_reactive_binary_value: zero,
                gen_reactive_flags: 0,
            },
            spd: SpdConstants {
                mips: 0,
                num_work_groups: 0,
                work_group_offset: [0, 0],
                render_size: [0, 0],
                _padding: [0, 0],
            },
        }
    }

    /// The structure as the passes read it from the uniform buffer, in words of four bytes.
    pub fn words(&self) -> (result: [u32; 60])
        ensures
            result@ == self.layout(),
    {
        let fsr = &self.fsr;
        let auto_reactive = &self.generate_auto_reactive;
        let reactive = &self.generate_reactive;
        [
            fsr.render_size[0],
            fsr.render_size[1],
            fsr.previous_frame_render_size[0],
            fsr.previous_frame_render_size[1],
            fsr.upscale_size[0],
            fsr.upscale_size[1],
            fsr.previous_frame_upscale_size[0],
            fsr.previous_frame_upscale_size[1],
            fsr.max_render_size[0],
            fsr.max_render_size[1],
            fsr.max_upscale_size[0],
            fsr.max_upscale_size[1],
            fsr.device_to_view_depth[0].bits,
            fsr.device_to_view_depth[1].bits,
            fsr.device_to_view_depth[2].bits,
            fsr.device_to_view_depth[3].bits,
            fsr.jitter_offset[0].bits,
            fsr.jitter_offset[1].bits,
            fsr.previous_frame_jitter_offset[0].bits,
            fsr.previous_frame_jitter_offset[1].bits,
            fsr.motion_vector_scale[0].bits,
            fsr.motion_vector_scale[1].bits,
            fsr.downscale_factor[0].bits,
            fsr.downscale_factor[1].bits,
            fsr.motion_vector_jitter_cancellation[0].bits,
            fsr.motion_vector_jitter_cancellation[1].bits,
            fsr.tan_half_fov.bits,
            fsr.jitter_phase_count.bits,
            fsr.delta_time.bits,
            fsr.delta_pre_exposure.bits,
            fsr.view_space_to_meters_factor.bits,
            fsr.frame_index.bits,
            fsr.velocity_factor.bits,
            fsr.reactiveness_scale.bits,
            fsr.shading_change_scale.bits,
            fsr.accumulation_added_per_frame.bits,
            fsr.min_disocclusion_accumulation.bits,
            fsr._padding[0],
            fsr._padding[1],
            fsr._padding[2],
            auto_reactive.tc_threshold.bits,
            auto_reactive.tc_scale.bits,
            auto_reactive.reactive_scale.bits,
            auto_reactive.reactive_max.bits,
            self.rcas.rcas_config[0],
            self.rcas.rcas_config[1],
            self.rcas.rcas_config[2],
            self.rcas.rcas_config[3],
            reactive.gen_reactive_scale.bits,
            reactive.gen_reactive_threshold.bits,
            reactive.gen_reactive_binary_value.bits,
            reactive.gen_reactive_flags,
            self.spd.mips,
            self.spd.num_work_groups,
            self.spd.work_group_offset[0],
            self.spd.work_group_offset[1],
            self.spd.render_size[0],
            self.spd.render_size[1],
            self.spd._padding[0],
            self.spd._padding[1],
        ]
    }
}

/// The structure fills the uniform buffer exactly.
pub proof fn law_layout_fills_buffer(constants: Constants)
    ensures
        4 * constants.layout().len() == CONSTANTS_SIZE,
{
}

/// Where each part of the uniform data stands in the buffer, as the shaders declare it.
pub proof fn law_layout_positions(constants: Constants)
    ensures
        ({
            let words = constants.layout();
            let fsr = constants.fsr;
            let pair = |at: int, value: [u32; 2]| words[at] == value[0] && words[at + 1] == value[1];
            let float_pair = |at: int, value: [F32; 2]|
                words[at] == value[0].bits && words[at + 1] == value[1].bits;
            &&& pair(0, fsr.render_size)
            &&& pair(2, fsr.previous_frame_render_size)
            &&& pair(4, fsr.upscale_size)
            &&& pair(6, fsr.previous_frame_upscale_size)
            &&& pair(8, fsr.max_render_size)
            &&& pair(10, fsr.max_upscale_size)
            &&& words[12] == fsr.device_to_view_depth[0].bits
            &&& words[13] == fsr.device_to_view_depth[1].bits
            &&& words[14] == fsr.device_to_view_depth[2].bits
            &&& words[15] == fsr.device_to_view_depth[3].bits
            &&& float_pair(16, fsr.jitter_offset)
            &&& float_pair(18, fsr.previous_frame_jitter_offset)
            &&& float_pair(20, fsr.motion_vector_scale)
            &&& float_pair(22, fsr.downscale_factor)
            &&& float_pair(24, fsr.motion_vector_jitter_cancellation)
            &&& words[26] == fsr.tan_half_fov.bits
            &&& words[27] == fsr.jitter_phase_count.bits
            &&& words[28] == fsr.delta_time.bits
            &&& words[29] == fsr.delta_pre_exposure.bits
            &&& words[30] == fsr.view_space_to_meters_factor.bits
            &&& words[31] == fsr.frame_index.bits
            &&& words[32] == fsr.velocity_factor.bits
            &&& words[33] == fsr.reactiveness_scale.bits
            &&& words[34] == fsr.shading_change_scale.bits
            &&& words[35] == fsr.accumulation_added_per_frame.bits
            &&& words[36] == fsr.min_disocclusion_accumulation.bits
            // Each structure starts at a multiple of sixteen bytes
            &&& words[40] == constants.generate_auto_reactive.tc_threshold.bits
            &&& words[41] == constants.generate_auto_reactive.tc_scale.bits
            &&& words[42] == constants.generate_auto_reactive.reactive_scale.bits
            &&& words[43] == constants.generate_auto_reactive.reactive_max.bits
            &&& words[44] == constants.rcas.rcas_config[0]
            &&& words[45] == constants.rcas.rcas_config[1]
            &&& words[46] == constants.rcas.rcas_config[2]
            &&& words[47] == constants.rcas.rcas_config[3]
            &&& words[48] == constants.generate_reactive.gen_reactive_scale.bits
            &&& words[49] == constants.generate_reactive.gen_reactive_threshold.bits
            &&& words[50] == constants.generate_reactive.gen_reactive_binary_value.bits
            &&& words[51] == constants.generate_reactive.gen_reactive_flags
            &&& words[52] == constants.spd.mips
            &&& words[53] == constants.spd.num_work_groups
            &&& pair(54, constants.spd.work_group_offset)
            &&& pair(56, constants.spd.render_size)
        }),
{
}

} // verus!
