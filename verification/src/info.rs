//! What a caller hands to a dispatch.

use crate::flags::FsrDispatchFlags;
use crate::float::F32;
use vstd::prelude::*;

verus! {

/// Per-frame dispatch parameters for the FSR3 upscaler.
///
/// Contains all textures (`T`), buffers (`B`), camera parameters, and settings needed
/// for a single upscaling frame. See the field documentation for format and
/// size requirements.
pub struct FsrDispatchInfo<T, B> {
    /// The color buffer for the current frame (at render resolution).
    pub color: T,
    /// 32bit depth values for the current frame (at render resolution).
    pub depth: T,
    /// 2-dimensional motion vectors (at render resolution unless they are marked as being at
    /// display resolution).
    pub motion_vectors: T,
    /// An optional 1x1 exposure value.
    pub exposure: Option<T>,
    /// An optional alpha value of reactive objects in the scene.
    pub reactive_mask: Option<T>,
    /// An optional alpha value of special objects in the scene.
    pub transparency_and_composition: Option<T>,
    /// Dilated depth at render resolution, with storage and texture usage. Shared with following
    /// effects.
    pub dilated_depth: T,
    /// Dilated motion vectors at render resolution, with storage and texture usage. Shared with
    /// following effects.
    pub dilated_motion_vectors: T,
    /// A buffer of `render_width * render_height * 4` bytes, with storage and copy usage. Used to
    /// emit reconstructed previous nearest depth and share with following effects.
    pub reconstructed_previous_depth: B,
    /// The output color buffer for the current frame (at presentation resolution).
    pub output: T,
    /// The subpixel jitter offset applied to the camera.
    pub jitter_offset: [F32; 2],
    /// The scale factor to apply to motion vectors.
    pub motion_vector_scale: [F32; 2],
    /// The resolution that was used for rendering the input resources.
    pub render_size: [u32; 2],
    /// The resolution that the upscaler will output.
    pub upscale_size: [u32; 2],
    /// Enable an additional sharpening pass.
    pub enable_sharpening: bool,
    /// The sharpness value between 0 and 1, where 0 is no additional sharpness and 1 is maximum
    /// additional sharpness.
    pub sharpness: F32,
    /// The time elapsed since the last frame (expressed in milliseconds).
    pub frame_time_delta: F32,
    /// The pre exposure value (must be greater than 0).
    pub pre_exposure: F32,
    /// Whether the camera has moved discontinuously.
    pub reset_history: bool,
    /// The distance to the near plane of the camera.
    pub camera_near: F32,
    /// The distance to the far plane of the camera.
    pub camera_far: F32,
    /// The camera angle field of view in the vertical direction (expressed in radians).
    pub camera_fov_y: F32,
    /// The scale factor to convert view space units to meters.
    pub view_space_to_meters_factor: F32,
    /// Options for this dispatch.
    pub flags: FsrDispatchFlags,
}

} // verus!
