use wgpu_ffx::flags::{FsrContextFlags, FsrDispatchFlags};
use wgpu_ffx::float::F32;
use wgpu_ffx::format_profile::FormatProfile;
use wgpu_ffx::info::FsrDispatchInfo;
use wgpu_ffx::texture::TextureFormat;
use wgpu_ffx::validation::{check_dispatch, check_formats, CallerTexture, FsrDispatchError};

type Info = FsrDispatchInfo<u32, u32>;

fn bits(x: f32) -> F32 {
    F32::from_bits(x.to_bits())
}

fn valid() -> Info {
    FsrDispatchInfo {
        color: 1,
        depth: 2,
        motion_vectors: 3,
        exposure: None,
        reactive_mask: None,
        transparency_and_composition: None,
        dilated_depth: 4,
        dilated_motion_vectors: 5,
        reconstructed_previous_depth: 6,
        output: 7,
        jitter_offset: [bits(0.5), bits(0.5)],
        motion_vector_scale: [bits(1.0), bits(1.0)],
        render_size: [640, 360],
        upscale_size: [1280, 720],
        enable_sharpening: false,
        sharpness: bits(0.5),
        frame_time_delta: bits(16.6),
        pre_exposure: bits(1.0),
        reset_history: false,
        camera_near: bits(0.1),
        camera_far: bits(1000.0),
        camera_fov_y: bits(std::f32::consts::FRAC_PI_3),
        view_space_to_meters_factor: bits(1.0),
        flags: FsrDispatchFlags::empty(),
    }
}

fn check(info: &Info, flags: u32) -> Result<(), FsrDispatchError> {
    check_dispatch(
        info,
        FsrContextFlags::from_bits_retain(flags),
        [640, 360],
        [1280, 720],
    )
}

#[test]
fn valid_parameters_pass() {
    assert_eq!(check(&valid(), 0), Ok(()));
    assert_eq!(check(&valid(), FsrContextFlags::AUTO_EXPOSURE), Ok(()));
}

#[test]
fn exposure_with_auto_exposure() {
    let mut info = valid();
    info.exposure = Some(9);
    assert_eq!(check(&info, 0), Ok(()));
    assert_eq!(
        check(&info, FsrContextFlags::AUTO_EXPOSURE),
        Err(FsrDispatchError::ExposureWithAutoExposureFlag)
    );
}

#[test]
fn jitter_out_of_range() {
    let mut info = valid();
    info.jitter_offset = [bits(1.0), bits(-1.0)];
    assert_eq!(check(&info, 0), Ok(()));
    info.jitter_offset = [bits(0.0), bits(-1.0000001)];
    assert_eq!(
        check(&info, 0),
        Err(FsrDispatchError::JitterOffsetOutOfRange {
            x: bits(0.0),
            y: bits(-1.0000001),
        })
    );
}

#[test]
fn motion_vector_scale_limits() {
    let mut info = valid();
    info.motion_vector_scale = [bits(640.0), bits(360.0)];
    assert_eq!(check(&info, 0), Ok(()));
    info.motion_vector_scale = [bits(641.0), bits(1.0)];
    assert_eq!(
        check(&info, 0),
        Err(FsrDispatchError::MotionVectorScaleTooLarge {
            x: bits(641.0),
            y: bits(1.0),
            max_width: 640,
            max_height: 360,
        })
    );
    // Display-resolution motion vectors are scaled against the upscale size.
    let display = FsrContextFlags::DISPLAY_RESOLUTION_MOTION_VECTORS;
    assert_eq!(check(&info, display), Ok(()));
    info.motion_vector_scale = [bits(1.0), bits(721.0)];
    assert_eq!(
        check(&info, display),
        Err(FsrDispatchError::MotionVectorScaleTooLarge {
            x: bits(1.0),
            y: bits(721.0),
            max_width: 1280,
            max_height: 720,
        })
    );
    info.motion_vector_scale = [bits(-0.0), bits(1.0)];
    assert_eq!(
        check(&info, 0),
        Err(FsrDispatchError::MotionVectorScaleZero {
            x: bits(-0.0),
            y: bits(1.0),
        })
    );
}

#[test]
fn sizes_are_checked() {
    let mut info = valid();
    info.render_size = [641, 360];
    assert_eq!(
        check(&info, 0),
        Err(FsrDispatchError::RenderSizeTooLarge {
            width: 641,
            height: 360,
            max_width: 640,
            max_height: 360,
        })
    );
    info.render_size = [640, 0];
    assert_eq!(
        check(&info, 0),
        Err(FsrDispatchError::RenderSizeZero {
            width: 640,
            height: 0,
        })
    );
    let mut info = valid();
    info.upscale_size = [1280, 721];
    assert_eq!(
        check(&info, 0),
        Err(FsrDispatchError::UpscaleSizeTooLarge {
            width: 1280,
            height: 721,
            max_width: 1280,
            max_height: 720,
        })
    );
    info.upscale_size = [0, 720];
    assert_eq!(
        check(&info, 0),
        Err(FsrDispatchError::UpscaleSizeZero {
            width: 0,
            height: 720,
        })
    );
}

#[test]
fn settings_are_checked() {
    let mut info = valid();
    info.sharpness = bits(1.5);
    assert_eq!(
        check(&info, 0),
        Err(FsrDispatchError::SharpnessOutOfRange(bits(1.5)))
    );
    info.sharpness = bits(-0.1);
    assert_eq!(
        check(&info, 0),
        Err(FsrDispatchError::SharpnessOutOfRange(bits(-0.1)))
    );
    let mut info = valid();
    info.frame_time_delta = bits(0.99);
    assert_eq!(
        check(&info, 0),
        Err(FsrDispatchError::FrameTimeDeltaTooLow(bits(0.99)))
    );
    let mut info = valid();
    info.pre_exposure = bits(0.0);
    assert_eq!(
        check(&info, 0),
        Err(FsrDispatchError::PreExposureNotPositive(bits(0.0)))
    );
}

#[test]
fn depth_planes_are_checked() {
    let mut info = valid();
    info.camera_near = bits(2000.0);
    assert_eq!(
        check(&info, 0),
        Err(FsrDispatchError::NormalDepthNearGreaterThanFar {
            camera_near: bits(2000.0),
            camera_far: bits(1000.0),
        })
    );
    let infinite = FsrContextFlags::DEPTH_INFINITE;
    assert_eq!(
        check(&valid(), infinite),
        Err(FsrDispatchError::InfiniteDepthFarNotMax {
            camera_far: bits(1000.0),
        })
    );
    let mut info = valid();
    info.camera_far = bits(f32::MAX);
    assert_eq!(check(&info, infinite), Ok(()));
    info.camera_far = bits(f32::INFINITY);
    assert_eq!(check(&info, infinite), Ok(()));
    let mut info = valid();
    info.camera_near = bits(0.07);
    assert_eq!(
        check(&info, 0),
        Err(FsrDispatchError::CameraNearTooLow {
            camera_near: bits(0.07),
        })
    );
    info.camera_near = bits(0.075);
    assert_eq!(check(&info, 0), Ok(()));
}

#[test]
fn inverted_depth_planes_are_checked() {
    let inverted = FsrContextFlags::DEPTH_INVERTED;
    assert_eq!(
        check(&valid(), inverted),
        Err(FsrDispatchError::InvertedDepthNearLessThanFar {
            camera_near: bits(0.1),
            camera_far: bits(1000.0),
        })
    );
    let mut info = valid();
    info.camera_near = bits(1000.0);
    info.camera_far = bits(0.1);
    assert_eq!(check(&info, inverted), Ok(()));
    assert_eq!(
        check(&info, inverted | FsrContextFlags::DEPTH_INFINITE),
        Err(FsrDispatchError::InvertedInfiniteDepthNearNotMax {
            camera_near: bits(1000.0),
        })
    );
    info.camera_near = bits(f32::INFINITY);
    assert_eq!(check(&info, inverted | FsrContextFlags::DEPTH_INFINITE), Ok(()));
    info.camera_far = bits(0.05);
    assert_eq!(
        check(&info, inverted),
        Err(FsrDispatchError::InvertedDepthFarTooLow {
            camera_far: bits(0.05),
        })
    );
}

#[test]
fn field_of_view_is_checked() {
    let mut info = valid();
    info.camera_fov_y = bits(0.0);
    assert_eq!(
        check(&info, 0),
        Err(FsrDispatchError::CameraFovTooLow(bits(0.0)))
    );
    info.camera_fov_y = bits(std::f32::consts::PI);
    assert_eq!(check(&info, 0), Ok(()));
    info.camera_fov_y = bits(3.2);
    assert_eq!(
        check(&info, 0),
        Err(FsrDispatchError::CameraFovTooHigh(bits(3.2)))
    );
}

#[test]
fn not_a_number_is_never_out_of_range() {
    // Comparisons with what is not a number are false.
    let mut info = valid();
    info.sharpness = bits(f32::NAN);
    info.frame_time_delta = bits(f32::NAN);
    info.pre_exposure = bits(f32::NAN);
    info.camera_fov_y = bits(f32::NAN);
    info.camera_near = bits(f32::NAN);
    assert_eq!(check(&info, 0), Ok(()));
}

#[test]
fn earlier_checks_come_first() {
    let mut info = valid();
    info.jitter_offset = [bits(2.0), bits(0.0)];
    info.render_size = [0, 0];
    info.camera_fov_y = bits(9.0);
    assert!(matches!(
        check(&info, 0),
        Err(FsrDispatchError::JitterOffsetOutOfRange { .. })
    ));
}

#[test]
fn texture_formats_are_checked() {
    let expected = FormatProfile::Core.formats();
    assert_eq!(check_formats(expected, expected), Ok(()));
    assert_eq!(
        check_formats(expected, FormatProfile::Native.formats()),
        Err(FsrDispatchError::TextureFormatMismatch {
            texture: CallerTexture::DilatedMotionVectors,
            expected: TextureFormat::Rg32Float,
            actual: TextureFormat::Rg16Float,
        })
    );
    let mut actual = expected;
    actual.color = TextureFormat::Rgba8Unorm;
    actual.output = TextureFormat::Rgba8Unorm;
    assert_eq!(
        check_formats(expected, actual),
        Err(FsrDispatchError::TextureFormatMismatch {
            texture: CallerTexture::Color,
            expected: TextureFormat::Rgba16Float,
            actual: TextureFormat::Rgba8Unorm,
        })
    );
}
