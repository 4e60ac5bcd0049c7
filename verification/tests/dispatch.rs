use wgpu_ffx::context::{FsrContext, FsrContextInfo};
use wgpu_ffx::dispatch::{ClearTarget, Command, DepthProjection, FramePlan, FrameTerms};
use wgpu_ffx::flags::{FsrContextFlags, FsrDispatchFlags};
use wgpu_ffx::float::F32;
use wgpu_ffx::format_profile::{
    AdapterFormats, Features, FormatProfile, FsrFormats, TextureFormatFeatures,
};
use wgpu_ffx::frame::FrameKind;
use wgpu_ffx::info::FsrDispatchInfo;
use wgpu_ffx::pass::FsrPassKind;
use wgpu_ffx::resources::FsrResourceName;
use wgpu_ffx::texture::{FormatFlags, TextureFormat, TextureUsages};
use wgpu_ffx::validation::FsrDispatchError;
use wgpu_ffx::view::FsrView;

fn bits(x: f32) -> F32 {
    F32::from_bits(x.to_bits())
}

fn context(flags: u32) -> FsrContext {
    let info = FsrContextInfo {
        flags: FsrContextFlags::from_bits_retain(flags),
        format_profile: None,
    };
    let device = Features {
        texture_adapter_specific_format_features: false,
    };
    let adapter = AdapterFormats {
        entries: Vec::new(),
    };
    FsrContext::new(info, device, &adapter).unwrap()
}

/// A context on a device that can do everything.
fn native_context(flags: u32) -> FsrContext {
    let info = FsrContextInfo {
        flags: FsrContextFlags::from_bits_retain(flags),
        format_profile: None,
    };
    let device = Features {
        texture_adapter_specific_format_features: true,
    };
    let features = TextureFormatFeatures {
        allowed_usages: TextureUsages::TEXTURE_BINDING | TextureUsages::STORAGE_BINDING,
        flags: FormatFlags::FILTERABLE
            | FormatFlags::STORAGE_WRITE_ONLY
            | FormatFlags::STORAGE_READ_WRITE,
    };
    let adapter = AdapterFormats {
        entries: vec![
            (TextureFormat::R8Unorm, features),
            (TextureFormat::R16Float, features),
            (TextureFormat::Rg16Float, features),
            (TextureFormat::Rgba16Float, features),
        ],
    };
    FsrContext::new(info, device, &adapter).unwrap()
}

fn info() -> FsrDispatchInfo<u32, u32> {
    FsrDispatchInfo {
        color: 1,
        depth: 2,
        motion_vectors: 3,
        exposure: None,
        reactive_mask: None,
        transparency_and_composition: None,
        dilated_depth: 4,
        dilated_motion_vectors: 5,
        reconstructed_previous_depth: 6,
        output: 7,
        jitter_offset: [bits(0.25), bits(-0.5)],
        motion_vector_scale: [bits(1.0), bits(1.0)],
        render_size: [641, 360],
        upscale_size: [1280, 720],
        enable_sharpening: false,
        sharpness: bits(0.5),
        frame_time_delta: bits(16.6),
        pre_exposure: bits(2.0),
        reset_history: false,
        camera_near: bits(0.1),
        camera_far: bits(1000.0),
        camera_fov_y: bits(1.0),
        view_space_to_meters_factor: bits(1.5),
        flags: FsrDispatchFlags::empty(),
    }
}

fn terms() -> FrameTerms {
    FrameTerms {
        device_to_view_depth: [bits(1.0), bits(2.0), bits(3.0), bits(4.0)],
        tan_half_fov: bits(0.7),
        pre_exposure_ratio: bits(2.0),
        motion_vector_scale: [bits(0.1), bits(0.2)],
        jitter_cancellation: [bits(0.3), bits(0.4)],
        frame_seconds: bits(16.6 * 0.001),
        sharpness_linear: bits(0.5),
    }
}

fn dispatch(
    context: &FsrContext,
    view: &mut FsrView,
    info: &FsrDispatchInfo<u32, u32>,
) -> Result<FramePlan, FsrDispatchError> {
    context.dispatch(view, info, context.formats(), &terms())
}

fn passes(plan: &FramePlan) -> Vec<(FsrPassKind, [u32; 2])> {
    let mut list = Vec::new();
    for command in &plan.commands {
        if let Command::RunPass { kind, workgroups } = command {
            list.push((*kind, *workgroups));
        }
    }
    list
}

#[test]
fn context_takes_the_richest_profile() {
    assert_eq!(context(0).format_profile(), FormatProfile::Core);
    let forced = FsrContextInfo {
        flags: FsrContextFlags::empty(),
        format_profile: Some(FormatProfile::Native),
    };
    let device = Features {
        texture_adapter_specific_format_features: false,
    };
    let adapter = AdapterFormats {
        entries: Vec::new(),
    };
    assert!(FsrContext::new(forced, device, &adapter).is_err());
}

#[test]
fn shaders_follow_the_flags() {
    let selection = context(0).select_shaders();
    assert!(!selection.hdr_color_input);
    assert!(!selection.inverted_depth);
    assert!(!selection.jittered_motion_vectors);
    assert!(selection.low_resolution_motion_vectors);
    assert!(!selection.reproject_use_lanczos_type && !selection.half && !selection.wave64);
    assert_eq!(selection.format_profile, FormatProfile::Core);

    let selection = context(1 + 2 + 4 + 8).select_shaders();
    assert!(selection.hdr_color_input);
    assert!(selection.inverted_depth);
    assert!(selection.jittered_motion_vectors);
    assert!(!selection.low_resolution_motion_vectors);
}

#[test]
fn context_compiles_all_passes_but_one() {
    let kinds = FsrContext::pass_kinds();
    assert_eq!(kinds.len(), 10);
    assert!(!kinds.contains(&FsrPassKind::GenerateReactive));
    assert!(kinds.contains(&FsrPassKind::Rcas));
}

#[test]
fn fsr_smoke() {
    let context = native_context(0);
    assert_eq!(context.format_profile(), FormatProfile::Native);
    let view = context.create_view([1920, 1080], [3840, 2160]);
    assert_eq!(view.max_render_size(), [1920, 1080]);
    assert_eq!(view.max_upscale_size(), [3840, 2160]);
    assert!(view.state().first_execution);
}

#[test]
fn fsr_dispatch_smoke() {
    let render_size = [640u32, 360u32];
    let upscale_size = [1280u32, 720u32];
    let context = native_context(FsrContextFlags::HIGH_DYNAMIC_RANGE);
    let mut view = context.create_view(render_size, upscale_size);
    let formats = FsrFormats {
        color: TextureFormat::Rgba16Float,
        depth: TextureFormat::Depth32Float,
        motion_vectors: TextureFormat::Rg16Float,
        output: TextureFormat::Rgba16Float,
        dilated_depth: TextureFormat::R32Float,
        dilated_motion_vectors: TextureFormat::Rg16Float,
    };
    for frame in 0..2 {
        let dispatch_info = FsrDispatchInfo {
            color: "test_color",
            depth: "test_depth",
            motion_vectors: "test_motion_vectors",
            exposure: None,
            reactive_mask: None,
            transparency_and_composition: None,
            dilated_depth: "test_dilated_depth",
            dilated_motion_vectors: "test_dilated_motion_vectors",
            reconstructed_previous_depth: "test_reconstructed_previous_depth",
            output: "test_output",
            jitter_offset: [bits(0.5), bits(0.5)],
            motion_vector_scale: [bits(1.0), bits(1.0)],
            render_size,
            upscale_size,
            enable_sharpening: false,
            sharpness: bits(0.5),
            frame_time_delta: bits(16.6), // ~60fps in milliseconds
            pre_exposure: bits(1.0),
            reset_history: false,
            camera_near: bits(0.1),
            camera_far: bits(1000.0),
            camera_fov_y: bits(std::f32::consts::FRAC_PI_3), // 60 degrees vertical FOV
            view_space_to_meters_factor: bits(1.0),
            flags: FsrDispatchFlags::empty(),
        };
        let plan = context
            .dispatch(&mut view, &dispatch_info, formats, &terms())
            .expect("FSR dispatch failed");
        assert_eq!(passes(&plan).len(), 7);
        assert_eq!(view.state().frame_index, frame);
    }
}

#[test]
fn core_pyramids_run_level_by_level() {
    let context = context(0);
    assert_eq!(context.format_profile(), FormatProfile::Core);
    let mut view = context.create_view([1280, 720], [1280, 720]);
    let plan = dispatch(&context, &mut view, &info()).unwrap();
    let levels: Vec<(FsrPassKind, u32, [u32; 2])> = plan
        .commands
        .iter()
        .filter_map(|command| match command {
            Command::RunLevel {
                kind,
                level,
                workgroups,
            } => Some((*kind, *level, *workgroups)),
            _ => None,
        })
        .collect();
    // 320 by 180, 160 by 90, 80 by 45, 40 by 22, 20 by 11, 10 by 5
    let sizes = [[40, 23], [20, 12], [10, 6], [5, 3], [3, 2], [2, 1]];
    let mut expected = Vec::new();
    for kind in [FsrPassKind::LumaPyramid, FsrPassKind::ShadingChangePyramid] {
        for level in 0..6 {
            expected.push((kind, level, sizes[level as usize]));
        }
    }
    assert_eq!(levels, expected);
    let others: Vec<FsrPassKind> = passes(&plan).iter().map(|pass| pass.0).collect();
    assert_eq!(
        others,
        [
            FsrPassKind::PrepareInputs,
            FsrPassKind::ShadingChange,
            FsrPassKind::PrepareReactivity,
            FsrPassKind::LumaInstability,
            FsrPassKind::Accumulate,
        ]
    );
    // Both pyramids lie between the first pass and the one that reads them
    assert_eq!(plan.commands.len(), 7 + 5 + 12);
    assert!(matches!(
        plan.commands[8],
        Command::RunLevel { level: 0, .. }
    ));
    assert!(matches!(
        plan.commands[20],
        Command::RunPass {
            kind: FsrPassKind::ShadingChange,
            ..
        }
    ));
}

#[test]
fn first_frame_starts_over() {
    let context = native_context(0);
    let mut view = context.create_view([1280, 720], [1280, 720]);
    let plan = dispatch(&context, &mut view, &info()).unwrap();
    assert_eq!(plan.frame_kind, FrameKind::Even);
    let one = 1.0f32.to_bits();
    assert_eq!(
        plan.commands[..7],
        [
            Command::ClearTexture(FsrResourceName::AccumulationPrevious),
            Command::ClearTexture(FsrResourceName::SpdMips),
            Command::WriteFrameInfo([bits(-1.0), bits(1.0), bits(0.0), bits(0.0)]),
            Command::ClearBuffer {
                target: ClearTarget::ReconstructedPreviousDepth,
                value: [one, one, one, one],
            },
            Command::ClearBuffer {
                target: ClearTarget::SpdAtomicCounter,
                value: [0, 0, 0, 0],
            },
            Command::UploadConstants,
            Command::ClearTexture(FsrResourceName::SpdMips),
        ]
    );
    assert_eq!(
        passes(&plan),
        vec![
            (FsrPassKind::PrepareInputs, [81, 45]),
            (FsrPassKind::LumaPyramid, [11, 6]),
            (FsrPassKind::ShadingChangePyramid, [11, 6]),
            (FsrPassKind::ShadingChange, [40, 23]),
            (FsrPassKind::PrepareReactivity, [81, 45]),
            (FsrPassKind::LumaInstability, [81, 45]),
            (FsrPassKind::Accumulate, [160, 90]),
        ]
    );
    assert_eq!(plan.commands.len(), 14);

    let fsr = view.state().constants.fsr;
    assert_eq!(fsr.render_size, [641, 360]);
    assert_eq!(fsr.previous_frame_render_size, [0, 0]);
    assert_eq!(fsr.upscale_size, [1280, 720]);
    assert_eq!(fsr.max_render_size, [1280, 720]);
    assert_eq!(fsr.downscale_factor[0].bits, (641.0f32 / 1280.0).to_bits());
    assert_eq!(fsr.downscale_factor[1].bits, 0.5f32.to_bits());
    assert_eq!(fsr.jitter_offset, [bits(0.25), bits(-0.5)]);
    assert_eq!(fsr.device_to_view_depth, terms().device_to_view_depth);
    assert_eq!(fsr.tan_half_fov, bits(0.7));
    assert_eq!(fsr.delta_pre_exposure, bits(2.0));
    assert_eq!(fsr.delta_time, bits(16.6 * 0.001));
    assert_eq!(fsr.frame_index, bits(0.0));
    assert_eq!(fsr.view_space_to_meters_factor, bits(1.5));
    // 8 * (1280 / 641)^2 = 31.9
    assert_eq!(fsr.jitter_phase_count, bits(31.0));
    assert_eq!(fsr.accumulation_added_per_frame, bits(1.0 / 3.0));
    assert_eq!(fsr.min_disocclusion_accumulation, bits(-1.0 / 3.0));
    // Jitter is not cancelled unless asked for.
    assert_eq!(fsr.motion_vector_jitter_cancellation, [bits(0.0), bits(0.0)]);
    assert_eq!(view.state().constants.rcas.rcas_config, [0x3f00_0000, 0x3800_3800, 0, 0]);
    assert_eq!(view.state().constants.spd.num_work_groups, 11 * 6);
    assert_eq!(view.state().constants.spd.mips, 9);
    assert!(!view.state().first_execution);
    assert_eq!(view.state().frame_kind, FrameKind::Odd);
}

#[test]
fn second_frame_keeps_its_history() {
    let context = context(FsrContextFlags::DEPTH_INVERTED);
    let mut view = context.create_view([1280, 720], [1280, 720]);
    let mut frame = info();
    frame.camera_near = bits(1000.0);
    frame.camera_far = bits(0.1);
    dispatch(&context, &mut view, &frame).unwrap();
    frame.render_size = [1280, 720];
    frame.jitter_offset = [bits(0.0), bits(0.125)];
    let plan = dispatch(&context, &mut view, &frame).unwrap();
    assert_eq!(plan.frame_kind, FrameKind::Odd);
    assert_eq!(
        plan.commands[0],
        Command::ClearBuffer {
            target: ClearTarget::ReconstructedPreviousDepth,
            value: [0, 0, 0, 0],
        }
    );
    let fsr = view.state().constants.fsr;
    assert_eq!(fsr.previous_frame_render_size, [641, 360]);
    assert_eq!(fsr.previous_frame_upscale_size, [1280, 720]);
    assert_eq!(fsr.previous_frame_jitter_offset, [bits(0.25), bits(-0.5)]);
    assert_eq!(fsr.frame_index, bits(1.0));
    // One step from 31 toward 8
    assert_eq!(fsr.jitter_phase_count, bits(30.0));
    assert_eq!(view.state().jitter_phase_count, 30);
    assert_eq!(view.state().previous_frame_pre_exposure, bits(2.0));
    assert_eq!(view.state().frame_kind, FrameKind::Even);

    frame.render_size = [320, 180];
    dispatch(&context, &mut view, &frame).unwrap();
    // One step from 30 toward 128
    assert_eq!(view.state().constants.fsr.jitter_phase_count, bits(31.0));

    frame.reset_history = true;
    let plan = dispatch(&context, &mut view, &frame).unwrap();
    assert_eq!(
        plan.commands[0],
        Command::ClearTexture(FsrResourceName::AccumulationPrevious)
    );
    assert_eq!(view.state().constants.fsr.jitter_phase_count, bits(128.0));
    assert_eq!(view.state().constants.fsr.frame_index, bits(0.0));
}

#[test]
fn sharpening_and_debug_view() {
    let context = native_context(0);
    let mut view = context.create_view([1280, 720], [1280, 720]);
    let mut frame = info();
    frame.enable_sharpening = true;
    frame.flags = FsrDispatchFlags::from_bits_retain(FsrDispatchFlags::DRAW_DEBUG_VIEW);
    let plan = dispatch(&context, &mut view, &frame).unwrap();
    assert_eq!(
        passes(&plan)[6..],
        [
            (FsrPassKind::AccumulateSharpen, [160, 90]),
            (FsrPassKind::Rcas, [80, 45]),
            (FsrPassKind::DebugView, [160, 90]),
        ]
    );
}

#[test]
fn jitter_cancellation_is_taken_over() {
    let context = context(FsrContextFlags::MOTION_VECTORS_JITTER_CANCELLATION);
    let mut view = context.create_view([1280, 720], [1280, 720]);
    dispatch(&context, &mut view, &info()).unwrap();
    assert_eq!(
        view.state().constants.fsr.motion_vector_jitter_cancellation,
        [bits(0.3), bits(0.4)]
    );
    assert_eq!(view.state().previous_jitter_offset, [bits(0.25), bits(-0.5)]);
}

#[test]
fn refused_dispatch_leaves_the_view() {
    let context = context(0);
    let mut view = context.create_view([640, 360], [1280, 720]);
    let before = format!("{view:?}");
    assert!(matches!(
        dispatch(&context, &mut view, &info()),
        Err(FsrDispatchError::RenderSizeTooLarge { width: 641, .. })
    ));
    assert_eq!(format!("{view:?}"), before);

    let mut frame = info();
    frame.render_size = [640, 360];
    let mut formats = context.formats();
    formats.dilated_motion_vectors = TextureFormat::Rg16Float;
    assert!(matches!(
        context.dispatch(&mut view, &frame, formats, &terms()),
        Err(FsrDispatchError::TextureFormatMismatch { .. })
    ));
    assert_eq!(format!("{view:?}"), before);
}

#[test]
fn resized_view_is_a_new_view() {
    let context = context(0);
    let mut view = context.create_view([1280, 720], [1280, 720]);
    dispatch(&context, &mut view, &info()).unwrap();
    view.resize([1920, 1080], [3840, 2160]);
    let fresh = context.create_view([1920, 1080], [3840, 2160]);
    assert_eq!(format!("{view:?}"), format!("{fresh:?}"));
    assert_eq!(view.max_render_size(), [1920, 1080]);
    assert_eq!(view.max_upscale_size(), [3840, 2160]);
}

#[test]
fn frame_time_is_limited_to_a_second() {
    let context = context(0);
    let mut view = context.create_view([1280, 720], [1280, 720]);
    let mut frame_terms = terms();
    frame_terms.frame_seconds = bits(2.5);
    context
        .dispatch(&mut view, &info(), context.formats(), &frame_terms)
        .unwrap();
    assert_eq!(view.state().constants.fsr.delta_time, bits(1.0));
}

#[test]
fn depth_projections() {
    let near = bits(0.1);
    let far = bits(1000.0);
    assert_eq!(
        context(0).depth_projection(near, far),
        DepthProjection::Finite {
            first: near,
            last: far,
        }
    );
    assert_eq!(
        context(FsrContextFlags::DEPTH_INFINITE).depth_projection(near, far),
        DepthProjection::Infinite { first: near }
    );
    assert_eq!(
        context(FsrContextFlags::DEPTH_INVERTED).depth_projection(far, near),
        DepthProjection::Finite {
            first: far,
            last: near,
        }
    );
    assert_eq!(
        context(FsrContextFlags::DEPTH_INVERTED | FsrContextFlags::DEPTH_INFINITE)
            .depth_projection(bits(f32::INFINITY), near),
        DepthProjection::InvertedInfinite { last: near }
    );
}

#[test]
fn motion_vectors_are_at_one_of_two_sizes() {
    assert_eq!(context(0).motion_vectors_target_size(&info()), [641, 360]);
    assert_eq!(
        context(FsrContextFlags::DISPLAY_RESOLUTION_MOTION_VECTORS)
            .motion_vectors_target_size(&info()),
        [1280, 720]
    );
}

#[test]
fn constants_fill_the_uniform_buffer() {
    let context = context(0);
    let mut view = context.create_view([1280, 720], [1280, 720]);
    dispatch(&context, &mut view, &info()).unwrap();
    let words = view.state().constants.words();
    assert_eq!(words.len() * 4, 240);
    assert_eq!(words[0], 641);
    assert_eq!(words[4..6], [1280, 720]);
    assert_eq!(words[12], 1.0f32.to_bits());
    assert_eq!(words[16], 0.25f32.to_bits());
    assert_eq!(words[31], 0.0f32.to_bits());
    assert_eq!(words[35], (1.0f32 / 3.0).to_bits());
    assert_eq!(words[44], 0.5f32.to_bits());
    assert_eq!(words[52..60], [9, 66, 0, 0, 641, 360, 0, 0]);
}
