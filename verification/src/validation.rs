//! Validation for FSR dispatch parameters.
//!
//! All checks are run before any GPU work is recorded, so a validation
//! failure will never leave the command encoder in a partially-recorded state.

use crate::flags::{law_context_options_are_bits, FsrContextFlags};
use crate::float::{lemma_key_orders, rounded, F32, INFINITY_BITS, MAX_BITS, ONE_BITS};
use crate::format_profile::FsrFormats;
use crate::info::FsrDispatchInfo;
use crate::texture::TextureFormat;
use vstd::arithmetic::power2::pow2;
use vstd::prelude::*;

verus! {

/// The bit pattern of 0.075, below which a depth plane may cause depth separation artifacts.
pub const NEAREST_PLANE_BITS: u32 = 0x3d99_999a;

/// The bit pattern of pi.
pub const PI_BITS: u32 = 0x4049_0fdb;

/// The textures that a caller provides in a format that the profile decides.
#[derive(Debug, Clone, Copy, PartialEq, Eq, Structural)]
pub enum CallerTexture {
    /// `color`
    Color,
    /// `depth`
    Depth,
    /// `motion_vectors`
    MotionVectors,
    /// `output`
    Output,
    /// `dilated_depth`
    DilatedDepth,
    /// `dilated_motion_vectors`
    DilatedMotionVectors,
}

/// Errors that can occur during FSR dispatch validation.
#[derive(Debug, Clone, Copy, PartialEq, Eq, Structural)]
#[non_exhaustive]
pub enum FsrDispatchError {
    /// Exposure resource provided, but the `AUTO_EXPOSURE` flag is set.
    ExposureWithAutoExposureFlag,
    /// The jitter offset is outside the expected range [-1.0, 1.0].
    JitterOffsetOutOfRange {
        /// Horizontal offset.
        x: F32,
        /// Vertical offset.
        y: F32,
    },
    /// The motion vector scale is greater than the size it scales against.
    MotionVectorScaleTooLarge {
        /// Horizontal scale.
        x: F32,
        /// Vertical scale.
        y: F32,
        /// Largest horizontal scale.
        max_width: u32,
        /// Largest vertical scale.
        max_height: u32,
    },
    /// The motion vector scale contains a zero.
    MotionVectorScaleZero {
        /// Horizontal scale.
        x: F32,
        /// Vertical scale.
        y: F32,
    },
    /// The render size is greater than the view's maximum.
    RenderSizeTooLarge {
        /// Width.
        width: u32,
        /// Height.
        height: u32,
        /// Largest width.
        max_width: u32,
        /// Largest height.
        max_height: u32,
    },
    /// The render size contains a zero dimension.
    RenderSizeZero {
        /// Width.
        width: u32,
        /// Height.
        height: u32,
    },
    /// The upscale size is greater than the view's maximum.
    UpscaleSizeTooLarge {
        /// Width.
        width: u32,
        /// Height.
        height: u32,
        /// Largest width.
        max_width: u32,
        /// Largest height.
        max_height: u32,
    },
    /// The upscale size contains a zero dimension.
    UpscaleSizeZero {
        /// Width.
        width: u32,
        /// Height.
        height: u32,
    },
    /// The sharpness is outside the expected range [0.0, 1.0].
    SharpnessOutOfRange(F32),
    /// The frame time delta is less than 1.0 milliseconds.
    FrameTimeDeltaTooLow(F32),
    /// The pre-exposure is not greater than 0.0.
    PreExposureNotPositive(F32),
    /// Depth is inverted, but the near plane is nearer than the far plane.
    InvertedDepthNearLessThanFar {
        /// Near plane.
        camera_near: F32,
        /// Far plane.
        camera_far: F32,
    },
    /// Depth is inverted and infinite, but the near plane is not at the largest number.
    InvertedInfiniteDepthNearNotMax {
        /// Near plane.
        camera_near: F32,
    },
    /// Depth is inverted, but the far plane is very near.
    InvertedDepthFarTooLow {
        /// Far plane.
        camera_far: F32,
    },
    /// Depth is not inverted, but the near plane is farther than the far plane.
    NormalDepthNearGreaterThanFar {
        /// Near plane.
        camera_near: F32,
        /// Far plane.
        camera_far: F32,
    },
    /// Depth is infinite, but the far plane is not at the largest number.
    InfiniteDepthFarNotMax {
        /// Far plane.
        camera_far: F32,
    },
    /// The near plane is very near.
    CameraNearTooLow {
        /// Near plane.
        camera_near: F32,
    },
    /// The vertical field of view is not greater than 0.0.
    CameraFovTooLow(F32),
    /// The vertical field of view is greater than 180 degrees.
    CameraFovTooHigh(F32),
    /// A texture has another format than the context's profile asks for.
    TextureFormatMismatch {
        /// The texture.
        texture: CallerTexture,
        /// The format it should have.
        expected: TextureFormat,
        /// The format it has.
        actual: TextureFormat,
    },
}

/// Whether `x` is a number greater than the integer `n`, once that is rounded to single
/// precision.
pub open spec fn exceeds(x: F32, n: u32) -> bool {
    !x.is_nan() && rounded(n as nat) * pow2(149) < x.value()
}

/// Whether `x` lies outside [-1.0, 1.0].
pub open spec fn leaves_unit(x: F32) -> bool {
    (F32 { bits: ONE_BITS }).is_less(x.without_sign())
}

/// Whether `x` stands for an infinite distance: the largest finite number, or infinity.
pub open spec fn is_infinite_plane(x: F32) -> bool {
    x.is_same_number(F32 { bits: MAX_BITS }) || x.is_same_number(F32 { bits: INFINITY_BITS })
}

/// Whether `size` has a side longer than that of `max`.
pub open spec fn outgrows(size: [u32; 2], max: [u32; 2]) -> bool {
    size[0] > max[0] || size[1] > max[1]
}

/// What motion vector scales are held against: display-resolution motion vectors are scaled
/// against the upscale size.
pub open spec fn motion_vector_limit(
    flags: FsrContextFlags,
    max_render_size: [u32; 2],
    max_upscale_size: [u32; 2],
) -> [u32; 2] {
    if flags.has(FsrContextFlags::DISPLAY_RESOLUTION_MOTION_VECTORS) {
        max_upscale_size
    } else {
        max_render_size
    }
}

/// What is wrong with a dispatch's exposure, jitter and motion vectors.
pub open spec fn input_error<T, B>(
    info: FsrDispatchInfo<T, B>,
    flags: FsrContextFlags,
    limit: [u32; 2],
) -> Option<FsrDispatchError> {
    let jitter = info.jitter_offset;
    let scale = info.motion_vector_scale;
    let zero = F32 { bits: 0 };
    if info.exposure is Some && flags.has(FsrContextFlags::AUTO_EXPOSURE) {
        Some(FsrDispatchError::ExposureWithAutoExposureFlag)
    } else if leaves_unit(jitter[0]) || leaves_unit(jitter[1]) {
        Some(FsrDispatchError::JitterOffsetOutOfRange { x: jitter[0], y: jitter[1] })
    } else if exceeds(scale[0], limit[0]) || exceeds(scale[1], limit[1]) {
        Some(
            FsrDispatchError::MotionVectorScaleTooLarge {
                x: scale[0],
                y: scale[1],
                max_width: limit[0],
                max_height: limit[1],
            },
        )
    } else if scale[0].is_same_number(zero) || scale[1].is_same_number(zero) {
        Some(FsrDispatchError::MotionVectorScaleZero { x: scale[0], y: scale[1] })
    } else {
        None
    }
}

/// What is wrong with a dispatch's sizes.
pub open spec fn size_error(
    render_size: [u32; 2],
    upscale_size: [u32; 2],
    max_render_size: [u32; 2],
    max_upscale_size: [u32; 2],
) -> Option<FsrDispatchError> {
    if outgrows(render_size, max_render_size) {
        Some(
            FsrDispatchError::RenderSizeTooLarge {
                width: render_size[0],
                height: render_size[1],
                max_width: max_render_size[0],
                max_height: max_render_size[1],
            },
        )
    } else if render_size[0] == 0 || render_size[1] == 0 {
        Some(FsrDispatchError::RenderSizeZero { width: render_size[0], height: render_size[1] })
    } else if outgrows(upscale_size, max_upscale_size) {
        Some(
            FsrDispatchError::UpscaleSizeTooLarge {
                width: upscale_size[0],
                height: upscale_size[1],
                max_width: max_upscale_size[0],
                max_height: max_upscale_size[1],
            },
        )
    } else if upscale_size[0] == 0 || upscale_size[1] == 0 {
        Some(FsrDispatchError::UpscaleSizeZero { width: upscale_size[0], height: upscale_size[1] })
    } else {
        None
    }
}

/// What is wrong with a dispatch's sharpness, frame time and exposure.
pub open spec fn setting_error<T, B>(info: FsrDispatchInfo<T, B>) -> Option<FsrDispatchError> {
    let zero = F32 { bits: 0 };
    let one = F32 { bits: ONE_BITS };
    if info.sharpness.is_less(zero) || one.is_less(info.sharpness) {
        Some(FsrDispatchError::SharpnessOutOfRange(info.sharpness))
    } else if info.frame_time_delta.is_less(one) {
        Some(FsrDispatchError::FrameTimeDeltaTooLow(info.frame_time_delta))
    } else if info.pre_exposure.is_at_most(zero) {
        Some(FsrDispatchError::PreExposureNotPositive(info.pre_exposure))
    } else {
        None
    }
}

/// What is wrong with a dispatch's depth planes.
pub open spec fn depth_error(
    flags: FsrContextFlags,
    camera_near: F32,
    camera_far: F32,
) -> Option<FsrDispatchError> {
    let infinite = flags.has(FsrContextFlags::DEPTH_INFINITE);
    let nearest = F32 { bits: NEAREST_PLANE_BITS };
    if flags.has(FsrContextFlags::DEPTH_INVERTED) {
        if camera_near.is_less(camera_far) {
            Some(FsrDispatchError::InvertedDepthNearLessThanFar { camera_near, camera_far })
        } else if infinite && !is_infinite_plane(camera_near) {
            Some(FsrDispatchError::InvertedInfiniteDepthNearNotMax { camera_near })
        } else if camera_far.is_less(nearest) {
            Some(FsrDispatchError::InvertedDepthFarTooLow { camera_far })
        } else {
            None
        }
    } else {
        if camera_far.is_less(camera_near) {
            Some(FsrDispatchError::NormalDepthNearGreaterThanFar { camera_near, camera_far })
        } else if infinite && !is_infinite_plane(camera_far) {
            Some(FsrDispatchError::InfiniteDepthFarNotMax { camera_far })
        } else if camera_near.is_less(nearest) {
            Some(FsrDispatchError::CameraNearTooLow { camera_near })
        } else {
            None
        }
    }
}

/// What is wrong with a dispatch's field of view.
pub open spec fn fov_error(camera_fov_y: F32) -> Option<FsrDispatchError> {
    if camera_fov_y.is_at_most(F32 { bits: 0 }) {
        Some(FsrDispatchError::CameraFovTooLow(camera_fov_y))
    } else if (F32 { bits: PI_BITS }).is_less(camera_fov_y) {
        Some(FsrDispatchError::CameraFovTooHigh(camera_fov_y))
    } else {
        None
    }
}

/// The first thing that is wrong with a dispatch's parameters.
pub open spec fn dispatch_error<T, B>(
    info: FsrDispatchInfo<T, B>,
    flags: FsrContextFlags,
    max_render_size: [u32; 2],
    max_upscale_size: [u32; 2],
) -> Option<FsrDispatchError> {
    let limit = motion_vector_limit(flags, max_render_size, max_upscale_size);
    match input_error(info, flags, limit) {
        Some(error) => Some(error),
        None => match size_error(
            info.render_size,
            info.upscale_size,
            max_render_size,
            max_upscale_size,
        ) {
            Some(error) => Some(error),
            None => match setting_error(info) {
                Some(error) => Some(error),
                None => match depth_error(flags, info.camera_near, info.camera_far) {
                    Some(error) => Some(error),
                    None => fov_error(info.camera_fov_y),
                },
            },
        },
    }
}

/// The outcome of a validation that found `error`.
pub open spec fn outcome(error: Option<FsrDispatchError>) -> Result<(), FsrDispatchError> {
    match error {
        Some(error) => Err(error),
        None => Ok(()),
    }
}

/// Whether the value lies outside [-1.0, 1.0].
fn outside_unit(x: F32) -> (result: bool)
    ensures
        result == leaves_unit(x),
{
    F32::one().lt(x.abs())
}

/// Whether the value is a number greater than `n`, once that is rounded to single precision.
fn greater_than_integer(x: F32, n: u32) -> (result: bool)
    ensures
        result == exceeds(x, n),
{
    F32::from_u32(n).lt(x)
}

/// Whether the value stands for an infinite distance.
fn infinite_plane(x: F32) -> (result: bool)
    ensures
        result == is_infinite_plane(x),
{
    x.same_number(F32::from_bits(MAX_BITS)) || x.same_number(F32::from_bits(INFINITY_BITS))
}

/// Validate dispatch parameters for correctness.
///
/// This performs comprehensive validation of all dispatch parameters to ensure they are
/// within expected ranges and consistent with the context configuration.
pub fn check_dispatch<T, B>(
    info: &FsrDispatchInfo<T, B>,
    flags: FsrContextFlags,
    max_render_size: [u32; 2],
    max_upscale_size: [u32; 2],
) -> (result: Result<(), FsrDispatchError>)
    ensures
        result == outcome(dispatch_error(*info, flags, max_render_size, max_upscale_size)),
        match result {
            Ok(()) => forall|k: int|
                0 <= k < 19 ==> !#[trigger] fault(
                    *info,
                    flags.bits,
                    max_render_size,
                    max_upscale_size,
                    k,
                ),
            Err(error) => {
                &&& fault(*info, flags.bits, max_render_size, max_upscale_size, fault_number(error))
                &&& forall|k: int|
                    0 <= k < fault_number(error) ==> !#[trigger] fault(
                        *info,
                        flags.bits,
                        max_render_size,
                        max_upscale_size,
                        k,
                    )
            },
        },
{
    proof {
        law_first_fault(*info, flags, max_render_size, max_upscale_size);
    }
    let zero = F32::zero();
    let one = F32::one();

    // Check exposure configuration
    if info.exposure.is_some() && flags.contains(FsrContextFlags::AUTO_EXPOSURE) {
        return Err(FsrDispatchError::ExposureWithAutoExposureFlag);
    }

    // Check jitter offset range
    let jitter = info.jitter_offset;
    if outside_unit(jitter[0]) || outside_unit(jitter[1]) {
        return Err(FsrDispatchError::JitterOffsetOutOfRange { x: jitter[0], y: jitter[1] });
    }

    // Check motion vector scale
    let limit: [u32; 2] = if flags.contains(FsrContextFlags::DISPLAY_RESOLUTION_MOTION_VECTORS) {
        max_upscale_size
    } else {
        max_render_size
    };
    let scale = info.motion_vector_scale;
    if greater_than_integer(scale[0], limit[0]) || greater_than_integer(scale[1], limit[1]) {
        return Err(
            FsrDispatchError::MotionVectorScaleTooLarge {
                x: scale[0],
                y: scale[1],
                max_width: limit[0],
                max_height: limit[1],
            },
        );
    }
    if scale[0].same_number(zero) || scale[1].same_number(zero) {
        return Err(FsrDispatchError::MotionVectorScaleZero { x: scale[0], y: scale[1] });
    }

    // Check render size
    let render_size = info.render_size;
    if render_size[0] > max_render_size[0] || render_size[1] > max_render_size[1] {
        return Err(
            FsrDispatchError::RenderSizeTooLarge {
                width: render_size[0],
                height: render_size[1],
                max_width: max_render_size[0],
                max_height: max_render_size[1],
            },
        );
    }
    if render_size[0] == 0 || render_size[1] == 0 {
        return Err(
            FsrDispatchError::RenderSizeZero { width: render_size[0], height: render_size[1] },
        );
    }

    // Check upscale size
    let upscale_size = info.upscale_size;
    if upscale_size[0] > max_upscale_size[0] || upscale_size[1] > max_upscale_size[1] {
        return Err(
            FsrDispatchError::UpscaleSizeTooLarge {
                width: upscale_size[0],
                height: upscale_size[1],
                max_width: max_upscale_size[0],
                max_height: max_upscale_size[1],
            },
        );
    }
    if upscale_size[0] == 0 || upscale_size[1] == 0 {
        return Err(
            FsrDispatchError::UpscaleSizeZero { width: upscale_size[0], height: upscale_size[1] },
        );
    }

    // Check sharpness range
    if info.sharpness.lt(zero) || one.lt(info.sharpness) {
        return Err(FsrDispatchError::SharpnessOutOfRange(info.sharpness));
    }

    // Check frame time delta
    if info.frame_time_delta.lt(one) {
        return Err(FsrDispatchError::FrameTimeDeltaTooLow(info.frame_time_delta));
    }

    // Check pre-exposure
    if info.pre_exposure.le(zero) {
        return Err(FsrDispatchError::PreExposureNotPositive(info.pre_exposure));
    }

    // Check depth configuration
    let camera_near = info.camera_near;
    let camera_far = info.camera_far;
    let infinite_depth: bool = flags.contains(FsrContextFlags::DEPTH_INFINITE);
    let nearest = F32::from_bits(NEAREST_PLANE_BITS);
    if flags.contains(FsrContextFlags::DEPTH_INVERTED) {
        if camera_near.lt(camera_far) {
            return Err(FsrDispatchError::InvertedDepthNearLessThanFar { camera_near, camera_far });
        }
        if infinite_depth && !infinite_plane(camera_near) {
            return Err(FsrDispatchError::InvertedInfiniteDepthNearNotMax { camera_near });
        }
        if camera_far.lt(nearest) {
            return Err(FsrDispatchError::InvertedDepthFarTooLow { camera_far });
        }
    } else {
        if camera_far.lt(camera_near) {
            return Err(
                FsrDispatchError::NormalDepthNearGreaterThanFar { camera_near, camera_far },
            );
        }
        if infinite_depth && !infinite_plane(camera_far) {
            return Err(FsrDispatchError::InfiniteDepthFarNotMax { camera_far });
        }
        if camera_near.lt(nearest) {
            return Err(FsrDispatchError::CameraNearTooLow { camera_near });
        }
    }

    // Check camera FOV
    if info.camera_fov_y.le(zero) {
        return Err(FsrDispatchError::CameraFovTooLow(info.camera_fov_y));
    }
    if F32::from_bits(PI_BITS).lt(info.camera_fov_y) {
        return Err(FsrDispatchError::CameraFovTooHigh(info.camera_fov_y));
    }

    Ok(())
}

/// The error for one texture, where its format is not the expected one.
pub open spec fn texture_mismatch(
    texture: CallerTexture,
    expected: TextureFormat,
    actual: TextureFormat,
) -> Option<FsrDispatchError> {
    if expected == actual {
        None
    } else {
        Some(FsrDispatchError::TextureFormatMismatch { texture, expected, actual })
    }
}

/// The first texture whose format is not the expected one.
pub open spec fn format_error(expected: FsrFormats, actual: FsrFormats) -> Option<
    FsrDispatchError,
> {
    if expected.color != actual.color {
        texture_mismatch(CallerTexture::Color, expected.color, actual.color)
    } else if expected.depth != actual.depth {
        texture_mismatch(CallerTexture::Depth, expected.depth, actual.depth)
    } else if expected.motion_vectors != actual.motion_vectors {
        texture_mismatch(
            CallerTexture::MotionVectors,
            expected.motion_vectors,
            actual.motion_vectors,
        )
    } else if expected.output != actual.output {
        texture_mismatch(CallerTexture::Output, expected.output, actual.output)
    } else if expected.dilated_depth != actual.dilated_depth {
        texture_mismatch(
            CallerTexture::DilatedDepth,
            expected.dilated_depth,
            actual.dilated_depth,
        )
    } else {
        texture_mismatch(
            CallerTexture::DilatedMotionVectors,
            expected.dilated_motion_vectors,
            actual.dilated_motion_vectors,
        )
    }
}

/// Check that one texture has the expected format.
fn check_texture(texture: CallerTexture, expected: TextureFormat, actual: TextureFormat) -> (result:
    Result<(), FsrDispatchError>)
    ensures
        result == outcome(texture_mismatch(texture, expected, actual)),
{
    if expected == actual {
        Ok(())
    } else {
        Err(FsrDispatchError::TextureFormatMismatch { texture, expected, actual })
    }
}

/// Check that every texture the caller provides has the format that the context's profile asks
/// for.
pub fn check_formats(expected: FsrFormats, actual: FsrFormats) -> (result: Result<
    (),
    FsrDispatchError,
>)
    ensures
        result == outcome(format_error(expected, actual)),
        result is Ok <==> expected == actual,
{
    check_texture(CallerTexture::Color, expected.color, actual.color)?;
    check_texture(CallerTexture::Depth, expected.depth, actual.depth)?;
    check_texture(CallerTexture::MotionVectors, expected.motion_vectors, actual.motion_vectors)?;
    check_texture(CallerTexture::Output, expected.output, actual.output)?;
    check_texture(CallerTexture::DilatedDepth, expected.dilated_depth, actual.dilated_depth)?;
    check_texture(
        CallerTexture::DilatedMotionVectors,
        expected.dilated_motion_vectors,
        actual.dilated_motion_vectors,
    )
}

/// The sizes of a dispatch that passes are positive and within the view's maxima.
pub proof fn law_accepted_sizes<T, B>(
    info: FsrDispatchInfo<T, B>,
    flags: FsrContextFlags,
    max_render_size: [u32; 2],
    max_upscale_size: [u32; 2],
)
    requires
        dispatch_error(info, flags, max_render_size, max_upscale_size) is None,
    ensures
        forall|i: int|
            0 <= i < 2 ==> {
                &&& 0 < #[trigger] info.render_size[i] <= max_render_size[i]
                &&& 0 < #[trigger] info.upscale_size[i] <= max_upscale_size[i]
            },
{
}

/// Whether a dispatch passes does not depend on its textures, but for whether there is an
/// exposure.
pub proof fn law_textures_do_not_matter<T, B>(
    a: FsrDispatchInfo<T, B>,
    b: FsrDispatchInfo<T, B>,
    flags: FsrContextFlags,
    max_render_size: [u32; 2],
    max_upscale_size: [u32; 2],
)
    requires
        a.exposure is Some == b.exposure is Some,
        a.jitter_offset == b.jitter_offset,
        a.motion_vector_scale == b.motion_vector_scale,
        a.render_size == b.render_size,
        a.upscale_size == b.upscale_size,
        a.sharpness == b.sharpness,
        a.frame_time_delta == b.frame_time_delta,
        a.pre_exposure == b.pre_exposure,
        a.camera_near == b.camera_near,
        a.camera_far == b.camera_far,
        a.camera_fov_y == b.camera_fov_y,
    ensures
        dispatch_error(a, flags, max_render_size, max_upscale_size) == dispatch_error(
            b,
            flags,
            max_render_size,
            max_upscale_size,
        ),
{
}

/// An exposure texture together with automatic exposure is always refused, and before anything
/// else.
pub proof fn law_exposure_conflict<T, B>(
    info: FsrDispatchInfo<T, B>,
    flags: FsrContextFlags,
    max_render_size: [u32; 2],
    max_upscale_size: [u32; 2],
)
    requires
        info.exposure is Some,
        flags.has(FsrContextFlags::AUTO_EXPOSURE),
    ensures
        dispatch_error(info, flags, max_render_size, max_upscale_size) == Some(
            FsrDispatchError::ExposureWithAutoExposureFlag,
        ),
{
}

/// Whether a bit pattern stands for no number.
pub open spec fn bits_nan(bits: u32) -> bool {
    bits % 0x8000_0000 > 0x7f80_0000
}

/// A bit pattern as a signed integer, which orders bit patterns as the numbers they stand for.
pub open spec fn bits_key(bits: u32) -> int {
    if bits >= 0x8000_0000 {
        0x8000_0000 - bits
    } else {
        bits as int
    }
}

/// Whether one bit pattern stands for a smaller number than another.
pub open spec fn bits_less(a: u32, b: u32) -> bool {
    !bits_nan(a) && !bits_nan(b) && bits_key(a) < bits_key(b)
}

/// Whether a bit pattern stands for a number below `low` or above `high`, which are bit patterns
/// of positive numbers or zero.
pub open spec fn bits_outside(bits: u32, low: int, high: int) -> bool {
    !bits_nan(bits) && (bits_key(bits) < low || bits_key(bits) > high)
}

/// What can be wrong with a dispatch, by number: exposure with automatic exposure; jitter beyond
/// one pixel; motion vectors scaled beyond their size, or to nothing; render or upscale sizes too
/// large or empty; sharpness outside 0 to 1; less than a millisecond; no exposure; planes in the
/// wrong order, not infinitely far, or too near; a field of view of nothing or beyond half a turn.
pub open spec fn fault<T, B>(
    info: FsrDispatchInfo<T, B>,
    flags: u32,
    max_render_size: [u32; 2],
    max_upscale_size: [u32; 2],
    number: int,
) -> bool {
    let inverted = flags / 8 % 2 == 1;
    let infinite = flags / 16 % 2 == 1;
    let near = info.camera_near.bits;
    let far = info.camera_far.bits;
    if number == 0 {
        info.exposure is Some && flags / 32 % 2 == 1
    } else if number == 1 {
        exists|d: int|
            0 <= d < 2 && bits_outside(
                (#[trigger] info.jitter_offset[d]).bits % 0x8000_0000,
                0,
                0x3f80_0000,
            )
    } else if number == 2 {
        exists|d: int|
            0 <= d < 2 && {
                let size = if flags / 2 % 2 == 1 {
                    max_upscale_size[d]
                } else {
                    max_render_size[d]
                };
                !bits_nan(info.motion_vector_scale[d].bits) && rounded(size as nat) * pow2(149) < (
                #[trigger] info.motion_vector_scale[d]).value()
            }
    } else if number == 3 {
        exists|d: int|
            0 <= d < 2 && (#[trigger] info.motion_vector_scale[d]).bits % 0x8000_0000 == 0
    } else if number == 4 {
        exists|d: int| 0 <= d < 2 && #[trigger] info.render_size[d] > max_render_size[d]
    } else if number == 5 {
        exists|d: int| 0 <= d < 2 && #[trigger] info.render_size[d] == 0
    } else if number == 6 {
        exists|d: int| 0 <= d < 2 && #[trigger] info.upscale_size[d] > max_upscale_size[d]
    } else if number == 7 {
        exists|d: int| 0 <= d < 2 && #[trigger] info.upscale_size[d] == 0
    } else if number == 8 {
        bits_outside(info.sharpness.bits, 0, 0x3f80_0000)
    } else if number == 9 {
        bits_outside(info.frame_time_delta.bits, 0x3f80_0000, 0x7f80_0000)
    } else if number == 10 {
        bits_outside(info.pre_exposure.bits, 1, 0x7f80_0000)
    } else if number == 11 {
        inverted && bits_less(near, far)
    } else if number == 12 {
        inverted && infinite && near != 0x7f7f_ffff && near != 0x7f80_0000
    } else if number == 13 {
        inverted && bits_outside(far, 0x3d99_999a, 0x7f80_0000)
    } else if number == 14 {
        !inverted && bits_less(far, near)
    } else if number == 15 {
        !inverted && infinite && far != 0x7f7f_ffff && far != 0x7f80_0000
    } else if number == 16 {
        !inverted && bits_outside(near, 0x3d99_999a, 0x7f80_0000)
    } else if number == 17 {
        bits_outside(info.camera_fov_y.bits, 1, 0x7f80_0000)
    } else if number == 18 {
        bits_outside(info.camera_fov_y.bits, -0x7f80_0000, 0x4049_0fdb)
    } else {
        false
    }
}

/// The number of what an error reports.
pub open spec fn fault_number(error: FsrDispatchError) -> int {
    match error {
        FsrDispatchError::ExposureWithAutoExposureFlag => 0,
        FsrDispatchError::JitterOffsetOutOfRange { .. } => 1,
        FsrDispatchError::MotionVectorScaleTooLarge { .. } => 2,
        FsrDispatchError::MotionVectorScaleZero { .. } => 3,
        FsrDispatchError::RenderSizeTooLarge { .. } => 4,
        FsrDispatchError::RenderSizeZero { .. } => 5,
        FsrDispatchError::UpscaleSizeTooLarge { .. } => 6,
        FsrDispatchError::UpscaleSizeZero { .. } => 7,
        FsrDispatchError::SharpnessOutOfRange(_) => 8,
        FsrDispatchError::FrameTimeDeltaTooLow(_) => 9,
        FsrDispatchError::PreExposureNotPositive(_) => 10,
        FsrDispatchError::InvertedDepthNearLessThanFar { .. } => 11,
        FsrDispatchError::InvertedInfiniteDepthNearNotMax { .. } => 12,
        FsrDispatchError::InvertedDepthFarTooLow { .. } => 13,
        FsrDispatchError::NormalDepthNearGreaterThanFar { .. } => 14,
        FsrDispatchError::InfiniteDepthFarNotMax { .. } => 15,
        FsrDispatchError::CameraNearTooLow { .. } => 16,
        FsrDispatchError::CameraFovTooLow(_) => 17,
        FsrDispatchError::CameraFovTooHigh(_) => 18,
        FsrDispatchError::TextureFormatMismatch { .. } => 19,
    }
}

/// The comparisons of numbers, over their bit patterns.
pub proof fn lemma_bits_compare(x: F32, y: F32)
    ensures
        x.is_nan() == bits_nan(x.bits),
        x.is_less(y) == bits_less(x.bits, y.bits),
        x.is_at_most(y) == (!bits_nan(x.bits) && !bits_nan(y.bits) && bits_key(x.bits) <= bits_key(
            y.bits,
        )),
        x.is_same_number(y) == (!bits_nan(x.bits) && !bits_nan(y.bits) && bits_key(x.bits)
            == bits_key(y.bits)),
{
    lemma_key_orders(x, y);
    lemma_key_orders(y, x);
}

/// Whether an error is that of the first fault from one number on, before another.
spec fn reports_first<T, B>(
    error: Option<FsrDispatchError>,
    info: FsrDispatchInfo<T, B>,
    flags: u32,
    max_render_size: [u32; 2],
    max_upscale_size: [u32; 2],
    low: int,
    high: int,
) -> bool {
    match error {
        Some(error) => {
            &&& low <= fault_number(error) < high
            &&& fault(info, flags, max_render_size, max_upscale_size, fault_number(error))
            &&& forall|k: int|
                low <= k < fault_number(error) ==> !#[trigger] fault(
                    info,
                    flags,
                    max_render_size,
                    max_upscale_size,
                    k,
                )
        },
        None => forall|k: int|
            low <= k < high ==> !#[trigger] fault(info, flags, max_render_size, max_upscale_size, k),
    }
}

/// The faults of a dispatch's exposure, jitter and motion vector scale.
proof fn lemma_input_faults<T, B>(
    info: FsrDispatchInfo<T, B>,
    flags: FsrContextFlags,
    max_render_size: [u32; 2],
    max_upscale_size: [u32; 2],
)
    ensures
        reports_first(
            input_error(info, flags, motion_vector_limit(flags, max_render_size, max_upscale_size)),
            info,
            flags.bits,
            max_render_size,
            max_upscale_size,
            0,
            4,
        ),
{
    law_context_options_are_bits(flags);
    let jitter = info.jitter_offset;
    let scale = info.motion_vector_scale;
    lemma_bits_compare(F32 { bits: ONE_BITS }, jitter[0].without_sign());
    lemma_bits_compare(F32 { bits: ONE_BITS }, jitter[1].without_sign());
    lemma_bits_compare(scale[0], F32 { bits: 0 });
    lemma_bits_compare(scale[1], F32 { bits: 0 });
    assert(fault(info, flags.bits, max_render_size, max_upscale_size, 1) == (leaves_unit(jitter[0])
        || leaves_unit(jitter[1])));
    assert(fault(info, flags.bits, max_render_size, max_upscale_size, 3) == (
    scale[0].is_same_number(F32 { bits: 0 }) || scale[1].is_same_number(F32 { bits: 0 })));
    let limit = motion_vector_limit(flags, max_render_size, max_upscale_size);
    assert(fault(info, flags.bits, max_render_size, max_upscale_size, 2) == (exceeds(
        scale[0],
        limit[0],
    ) || exceeds(scale[1], limit[1])));
}

/// The faults of a dispatch's sizes.
proof fn lemma_size_faults<T, B>(
    info: FsrDispatchInfo<T, B>,
    flags: FsrContextFlags,
    max_render_size: [u32; 2],
    max_upscale_size: [u32; 2],
)
    ensures
        reports_first(
            size_error(info.render_size, info.upscale_size, max_render_size, max_upscale_size),
            info,
            flags.bits,
            max_render_size,
            max_upscale_size,
            4,
            8,
        ),
{
    let render = info.render_size;
    let upscale = info.upscale_size;
    assert(fault(info, flags.bits, max_render_size, max_upscale_size, 4) == (render[0]
        > max_render_size[0] || render[1] > max_render_size[1]));
    assert(fault(info, flags.bits, max_render_size, max_upscale_size, 5) == (render[0] == 0
        || render[1] == 0));
    assert(fault(info, flags.bits, max_render_size, max_upscale_size, 6) == (upscale[0]
        > max_upscale_size[0] || upscale[1] > max_upscale_size[1]));
    assert(fault(info, flags.bits, max_render_size, max_upscale_size, 7) == (upscale[0] == 0
        || upscale[1] == 0));
}

/// The faults of a dispatch's sharpness, frame time and exposure.
proof fn lemma_setting_faults<T, B>(
    info: FsrDispatchInfo<T, B>,
    flags: FsrContextFlags,
    max_render_size: [u32; 2],
    max_upscale_size: [u32; 2],
)
    ensures
        reports_first(
            setting_error(info),
            info,
            flags.bits,
            max_render_size,
            max_upscale_size,
            8,
            11,
        ),
{
    lemma_bits_compare(info.sharpness, F32 { bits: 0 });
    lemma_bits_compare(F32 { bits: ONE_BITS }, info.sharpness);
    lemma_bits_compare(info.frame_time_delta, F32 { bits: ONE_BITS });
    lemma_bits_compare(info.pre_exposure, F32 { bits: 0 });
}

/// The faults of a dispatch's depth planes.
proof fn lemma_depth_faults<T, B>(
    info: FsrDispatchInfo<T, B>,
    flags: FsrContextFlags,
    max_render_size: [u32; 2],
    max_upscale_size: [u32; 2],
)
    ensures
        reports_first(
            depth_error(flags, info.camera_near, info.camera_far),
            info,
            flags.bits,
            max_render_size,
            max_upscale_size,
            11,
            17,
        ),
{
    law_context_options_are_bits(flags);
    let near = info.camera_near;
    let far = info.camera_far;
    lemma_bits_compare(near, far);
    lemma_bits_compare(far, near);
    lemma_bits_compare(near, F32 { bits: MAX_BITS });
    lemma_bits_compare(near, F32 { bits: INFINITY_BITS });
    lemma_bits_compare(far, F32 { bits: MAX_BITS });
    lemma_bits_compare(far, F32 { bits: INFINITY_BITS });
    lemma_bits_compare(near, F32 { bits: NEAREST_PLANE_BITS });
    lemma_bits_compare(far, F32 { bits: NEAREST_PLANE_BITS });
}

/// The faults of a dispatch's field of view.
proof fn lemma_fov_faults<T, B>(
    info: FsrDispatchInfo<T, B>,
    flags: FsrContextFlags,
    max_render_size: [u32; 2],
    max_upscale_size: [u32; 2],
)
    ensures
        reports_first(
            fov_error(info.camera_fov_y),
            info,
            flags.bits,
            max_render_size,
            max_upscale_size,
            17,
            19,
        ),
{
    lemma_bits_compare(info.camera_fov_y, F32 { bits: 0 });
    lemma_bits_compare(F32 { bits: PI_BITS }, info.camera_fov_y);
}

/// A dispatch is refused for the first thing that is wrong with it, and accepted where nothing
/// is: every test holds over the bit patterns of the parameters.
pub proof fn law_first_fault<T, B>(
    info: FsrDispatchInfo<T, B>,
    flags: FsrContextFlags,
    max_render_size: [u32; 2],
    max_upscale_size: [u32; 2],
)
    ensures
        match dispatch_error(info, flags, max_render_size, max_upscale_size) {
            Some(error) => {
                &&& 0 <= fault_number(error) < 19
                &&& fault(info, flags.bits, max_render_size, max_upscale_size, fault_number(error))
                &&& forall|k: int|
                    0 <= k < fault_number(error) ==> !#[trigger] fault(
                        info,
                        flags.bits,
                        max_render_size,
                        max_upscale_size,
                        k,
                    )
            },
            None => forall|k: int|
                0 <= k < 19 ==> !#[trigger] fault(
                    info,
                    flags.bits,
                    max_render_size,
                    max_upscale_size,
                    k,
                ),
        },
{
    lemma_input_faults(info, flags, max_render_size, max_upscale_size);
    lemma_size_faults(info, flags, max_render_size, max_upscale_size);
    lemma_setting_faults(info, flags, max_render_size, max_upscale_size);
    lemma_depth_faults(info, flags, max_render_size, max_upscale_size);
    lemma_fov_faults(info, flags, max_render_size, max_upscale_size);
}

/// An error tells what was given, and what it is held against.
pub proof fn law_errors_tell_what_was_given<T, B>(
    info: FsrDispatchInfo<T, B>,
    flags: FsrContextFlags,
    max_render_size: [u32; 2],
    max_upscale_size: [u32; 2],
)
    requires
        dispatch_error(info, flags, max_render_size, max_upscale_size) is Some,
    ensures
        match dispatch_error(info, flags, max_render_size, max_upscale_size)->0 {
            FsrDispatchError::JitterOffsetOutOfRange { x, y } => [x, y] == info.jitter_offset,
            FsrDispatchError::MotionVectorScaleTooLarge { x, y, max_width, max_height } => {
                &&& [x, y] == info.motion_vector_scale
                &&& [max_width, max_height] == if flags.bits / 2 % 2 == 1 {
                    max_upscale_size
                } else {
                    max_render_size
                }
            },
            FsrDispatchError::MotionVectorScaleZero { x, y } => [x, y] == info.motion_vector_scale,
            FsrDispatchError::RenderSizeTooLarge { width, height, max_width, max_height } => {
                &&& [width, height] == info.render_size
                &&& [max_width, max_height] == max_render_size
            },
            FsrDispatchError::RenderSizeZero { width, height } => [width, height]
                == info.render_size,
            FsrDispatchError::UpscaleSizeTooLarge { width, height, max_width, max_height } => {
                &&& [width, height] == info.upscale_size
                &&& [max_width, max_height] == max_upscale_size
            },
            FsrDispatchError::UpscaleSizeZero { width, height } => [width, height]
                == info.upscale_size,
            FsrDispatchError::SharpnessOutOfRange(x) => x == info.sharpness,
            FsrDispatchError::FrameTimeDeltaTooLow(x) => x == info.frame_time_delta,
            FsrDispatchError::PreExposureNotPositive(x) => x == info.pre_exposure,
            FsrDispatchError::InvertedDepthNearLessThanFar { camera_near, camera_far } => camera_near
                == info.camera_near && camera_far == info.camera_far,
            FsrDispatchError::InvertedInfiniteDepthNearNotMax { camera_near } => camera_near
                == info.camera_near,
            FsrDispatchError::InvertedDepthFarTooLow { camera_far } => camera_far
                == info.camera_far,
            FsrDispatchError::NormalDepthNearGreaterThanFar { camera_near, camera_far } => camera_near
                == info.camera_near && camera_far == info.camera_far,
            FsrDispatchError::InfiniteDepthFarNotMax { camera_far } => camera_far
                == info.camera_far,
            FsrDispatchError::CameraNearTooLow { camera_near } => camera_near == info.camera_near,
            FsrDispatchError::CameraFovTooLow(x) => x == info.camera_fov_y,
            FsrDispatchError::CameraFovTooHigh(x) => x == info.camera_fov_y,
            _ => true,
        },
{
    law_context_options_are_bits(flags);
    let jitter = info.jitter_offset;
    let scale = info.motion_vector_scale;
    let render = info.render_size;
    let upscale = info.upscale_size;
    assert([jitter[0], jitter[1]] =~= jitter);
    assert([scale[0], scale[1]] =~= scale);
    assert([render[0], render[1]] =~= render);
    assert([upscale[0], upscale[1]] =~= upscale);
    assert([max_render_size[0], max_render_size[1]] =~= max_render_size);
    assert([max_upscale_size[0], max_upscale_size[1]] =~= max_upscale_size);
}

/// With infinite depth the plane that is infinitely far is the largest number or infinity: a
/// dispatch whose other plane is no nearer than 0.075 and not infinite, and that has no other
/// fault, is accepted with either, and refused with any other bit pattern there. That plane is the
/// near one where depth is inverted, and the far one otherwise.
pub proof fn law_infinite_plane_patterns<T, B>(
    info: FsrDispatchInfo<T, B>,
    flags: FsrContextFlags,
    max_render_size: [u32; 2],
    max_upscale_size: [u32; 2],
)
    requires
        flags.bits / 16 % 2 == 1,
        forall|k: int|
            0 <= k < 11 || 17 <= k < 19 ==> !#[trigger] fault(
                info,
                flags.bits,
                max_render_size,
                max_upscale_size,
                k,
            ),
        flags.bits / 8 % 2 == 1 ==> 0x3d99_999a <= info.camera_far.bits <= 0x7f7f_ffff,
        flags.bits / 8 % 2 == 0 ==> 0x3d99_999a <= info.camera_near.bits <= 0x7f7f_ffff,
    ensures
        flags.bits / 8 % 2 == 1 ==> (dispatch_error(
            info,
            flags,
            max_render_size,
            max_upscale_size,
        ) is None <==> info.camera_near.bits == 0x7f7f_ffff || info.camera_near.bits
            == 0x7f80_0000),
        flags.bits / 8 % 2 == 0 ==> (dispatch_error(
            info,
            flags,
            max_render_size,
            max_upscale_size,
        ) is None <==> info.camera_far.bits == 0x7f7f_ffff || info.camera_far.bits == 0x7f80_0000),
{
    law_first_fault(info, flags, max_render_size, max_upscale_size);
    let error = dispatch_error(info, flags, max_render_size, max_upscale_size);
    if error is None {
        assert(!fault(info, flags.bits, max_render_size, max_upscale_size, 12));
        assert(!fault(info, flags.bits, max_render_size, max_upscale_size, 15));
    } else {
        assert(11 <= fault_number(error->0) < 17);
    }
}

/// Of two dispatches that differ only in the plane that is infinitely far, where one is accepted,
/// so is the other if that plane is the largest number or infinity, and not otherwise.
pub proof fn law_infinite_planes<T, B>(
    a: FsrDispatchInfo<T, B>,
    b: FsrDispatchInfo<T, B>,
    flags: FsrContextFlags,
    max_render_size: [u32; 2],
    max_upscale_size: [u32; 2],
)
    requires
        flags.bits / 16 % 2 == 1,
        dispatch_error(a, flags, max_render_size, max_upscale_size) is None,
        flags.bits / 8 % 2 == 1 ==> a.camera_far.bits != 0x7f80_0000 && b == (FsrDispatchInfo {
            camera_near: b.camera_near,
            ..a
        }),
        flags.bits / 8 % 2 == 0 ==> a.camera_near.bits != 0x7f80_0000 && b == (FsrDispatchInfo {
            camera_far: b.camera_far,
            ..a
        }),
    ensures
        ({
            let plane = if flags.bits / 8 % 2 == 1 {
                b.camera_near.bits
            } else {
                b.camera_far.bits
            };
            dispatch_error(b, flags, max_render_size, max_upscale_size) is None <==> plane
                == 0x7f7f_ffff || plane == 0x7f80_0000
        }),
{
    law_first_fault(a, flags, max_render_size, max_upscale_size);
    law_first_fault(b, flags, max_render_size, max_upscale_size);
    assert forall|k: int| 0 <= k < 11 || k == 17 || k == 18 implies fault(
        b,
        flags.bits,
        max_render_size,
        max_upscale_size,
        k,
    ) == #[trigger] fault(a, flags.bits, max_render_size, max_upscale_size, k) by {}
    if flags.bits / 8 % 2 == 1 {
        assert(!fault(a, flags.bits, max_render_size, max_upscale_size, 13));
    } else {
        assert(!fault(a, flags.bits, max_render_size, max_upscale_size, 16));
    }
    let error = dispatch_error(b, flags, max_render_size, max_upscale_size);
    if error is None {
        assert(!fault(b, flags.bits, max_render_size, max_upscale_size, 12));
        assert(!fault(b, flags.bits, max_render_size, max_upscale_size, 15));
    } else {
        let k = fault_number(error->0);
        assert(fault(a, flags.bits, max_render_size, max_upscale_size, k) ==> false);
        assert(11 <= k < 17);
    }
}

} // verus!
