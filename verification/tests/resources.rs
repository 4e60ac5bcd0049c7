use wgpu_ffx::context::FsrContext;
use wgpu_ffx::flags::{FsrContextFlags, FsrDispatchFlags};
use wgpu_ffx::float::F32;
use wgpu_ffx::format_profile::FormatProfile;
use wgpu_ffx::frame::{DoubleBuffered, FrameKind};
use wgpu_ffx::info::FsrDispatchInfo;
use wgpu_ffx::pass::{FsrPassKind, Shaders};
use wgpu_ffx::resources::{
    AccessType, BoundResource, FsrResourceName, FsrResources, MipView, ResourceAccess,
};
use wgpu_ffx::texture::{
    BindGroupLayoutEntry, BindingType, SamplerBindingType, StorageTextureAccess, TextureFormat,
};
use wgpu_ffx::memory::memory_fits;
use wgpu_ffx::view::FsrView;

fn dispatch_info() -> FsrDispatchInfo<&'static str, &'static str> {
    let one = F32::one();
    FsrDispatchInfo {
        color: "color",
        depth: "depth",
        motion_vectors: "motion vectors",
        exposure: None,
        reactive_mask: Some("mask"),
        transparency_and_composition: None,
        dilated_depth: "dilated depth",
        dilated_motion_vectors: "dilated motion vectors",
        reconstructed_previous_depth: "reconstructed depth",
        output: "output",
        jitter_offset: [one, one],
        motion_vector_scale: [one, one],
        render_size: [1, 1],
        upscale_size: [1, 1],
        enable_sharpening: false,
        sharpness: one,
        frame_time_delta: one,
        pre_exposure: one,
        reset_history: false,
        camera_near: one,
        camera_far: one,
        camera_fov_y: one,
        view_space_to_meters_factor: one,
        flags: FsrDispatchFlags::empty(),
    }
}

fn named_resources() -> FsrResources<&'static str, &'static str, &'static str> {
    FsrResources {
        constant_buffer: "constants",
        accumulation: DoubleBuffered::new("accumulation even", "accumulation odd"),
        luma: DoubleBuffered::new("luma even", "luma odd"),
        intermediate_fp16x1: "intermediate",
        shading_change: "shading change",
        new_locks: "new locks",
        internal_upscaled: DoubleBuffered::new("upscaled even", "upscaled odd"),
        spd_mips: "mips",
        farthest_depth_mip1: "farthest depth",
        luma_history: DoubleBuffered::new("history even", "history odd"),
        spd_atomic_counter: "counter",
        dilated_reactive_masks: "masks",
        lanczos2_lut: "lut",
        default_reactivity_mask: "default mask",
        default_exposure: "default exposure",
        frame_info: "frame info",
        sampler_point_clamp: "point",
        sampler_linear_clamp: "linear",
    }
}

fn texture<'a>(
    resources: &'a FsrResources<&'static str, &'static str, &'static str>,
    info: &'a FsrDispatchInfo<&'static str, &'static str>,
    name: FsrResourceName,
    kind: FrameKind,
) -> &'static str {
    match resources.resource(info, name, kind) {
        BoundResource::Texture(texture) => texture,
        BoundResource::Buffer(buffer) => buffer,
        BoundResource::Sampler(sampler) => sampler,
    }
}

#[test]
fn frames_alternate() {
    let mut kind = FrameKind::default();
    assert_eq!(kind, FrameKind::Even);
    kind.advance();
    assert_eq!(kind, FrameKind::Odd);
    kind.advance();
    assert_eq!(kind, FrameKind::Even);

    let pair = DoubleBuffered::new(1, 2);
    assert_eq!(*pair.current(FrameKind::Even), 1);
    assert_eq!(*pair.previous(FrameKind::Even), 2);
    assert_eq!(*pair.current(FrameKind::Odd), 2);
    assert_eq!(*pair.previous(FrameKind::Odd), 1);
}

#[test]
fn names_stand_for_resources() {
    let resources = named_resources();
    let info = dispatch_info();
    let even = FrameKind::Even;
    let odd = FrameKind::Odd;
    assert_eq!(texture(&resources, &info, FsrResourceName::InputColor, even), "color");
    assert_eq!(
        texture(&resources, &info, FsrResourceName::InputExposure, even),
        "default exposure"
    );
    assert_eq!(texture(&resources, &info, FsrResourceName::InputReactiveMask, even), "mask");
    assert_eq!(
        texture(
            &resources,
            &info,
            FsrResourceName::InputTransparencyAndComposition,
            even
        ),
        "default mask"
    );
    assert_eq!(texture(&resources, &info, FsrResourceName::Luma, even), "luma even");
    assert_eq!(texture(&resources, &info, FsrResourceName::PreviousLuma, odd), "luma even");
    assert_eq!(
        texture(&resources, &info, FsrResourceName::AccumulationPrevious, even),
        "accumulation odd"
    );
    assert_eq!(texture(&resources, &info, FsrResourceName::FarthestDepth, odd), "intermediate");
    assert_eq!(texture(&resources, &info, FsrResourceName::LumaInstability, odd), "intermediate");
    assert_eq!(texture(&resources, &info, FsrResourceName::FrameInfo, odd), "frame info");
    assert_eq!(texture(&resources, &info, FsrResourceName::SamplerLinearClamp, odd), "linear");
}

#[test]
fn views_have_labels_or_mips() {
    let resources = named_resources();
    let info = dispatch_info();
    let whole = ResourceAccess {
        name: FsrResourceName::SpdMips,
        access_type: AccessType::Srv,
        desc: None,
    };
    let view = resources.to_view(&info, whole, FrameKind::Even);
    assert_eq!(view.label, Some("FSR3 Resource View: SpdMips".to_string()));
    assert!(view.mips.is_none());
    let level = ResourceAccess {
        name: FsrResourceName::SpdMips,
        access_type: AccessType::Uav,
        desc: Some(MipView {
            base_mip_level: 3,
            mip_level_count: 1,
        }),
    };
    let view = resources.to_view(&info, level, FrameKind::Even);
    assert_eq!(view.label, None);
    assert_eq!(view.mips.unwrap().base_mip_level, 3);
}

#[test]
fn resources_of_a_view() {
    let view = FsrView::new(FormatProfile::Native, [1920, 1080], [3840, 2160]);
    let plan = view.resources();
    assert_eq!(plan.constant_buffer.size, 240);
    assert_eq!(plan.accumulation.current_on_even.format, TextureFormat::R8Unorm);
    assert_eq!(plan.accumulation.current_on_even.width, 1920);
    assert_eq!(plan.spd_mips.width, 960);
    assert_eq!(plan.spd_mips.height, 540);
    assert_eq!(plan.spd_mips.mip_level_count, 10);
    assert_eq!(plan.spd_mips.format, TextureFormat::Rg16Float);
    assert_eq!(plan.new_locks.width, 3840);
    assert_eq!(plan.internal_upscaled.current_on_odd.height, 2160);
    assert_eq!(plan.lanczos2_lut.width, 128);
    assert_eq!(plan.frame_info.size, 16);

    let core = FsrView::new(FormatProfile::Core, [1920, 1080], [3840, 2160]).resources();
    assert_eq!(core.accumulation.current_on_even.format, TextureFormat::Rgba8Unorm);
    assert_eq!(core.new_locks.format, TextureFormat::R32Float);
    assert_eq!(core.spd_mips.format, TextureFormat::Rgba16Float);
}

#[test]
fn mip_counts_are_those_of_wgpu() {
    for (width, height) in [(2, 2), (4, 2), (640, 360), (1921, 1080), (7680, 4320)] {
        let plan = FsrView::new(FormatProfile::Core, [width, height], [width, height]).resources();
        let extent = wgpu::Extent3d {
            width: width / 2,
            height: height / 2,
            depth_or_array_layers: 1,
        };
        assert_eq!(
            plan.spd_mips.mip_level_count,
            extent.max_mips(wgpu::TextureDimension::D2)
        );
    }
}

#[test]
fn storage_formats_depend_on_the_profile() {
    assert_eq!(
        FsrResourceName::NewLocks.to_bgl_entry(2, AccessType::Uav, FormatProfile::Core),
        BindGroupLayoutEntry {
            binding: 2,
            ty: BindingType::StorageTexture {
                access: StorageTextureAccess::ReadWrite,
                format: TextureFormat::R32Float,
            },
        }
    );
    assert_eq!(
        FsrResourceName::SpdMips
            .to_bgl_entry(0, AccessType::Uav, FormatProfile::Core)
            .ty,
        BindingType::StorageTexture {
            access: StorageTextureAccess::WriteOnly,
            format: TextureFormat::Rgba16Float,
        }
    );
    assert_eq!(
        FsrResourceName::OutputDilatedMotionVectors
            .to_bgl_entry(0, AccessType::Srv, FormatProfile::Core)
            .ty,
        BindingType::Texture { filterable: false }
    );
    assert_eq!(
        FsrResourceName::SamplerPointClamp
            .to_bgl_entry(0, AccessType::Srv, FormatProfile::Native)
            .ty,
        BindingType::Sampler(SamplerBindingType::NonFiltering)
    );
    assert_eq!(
        FsrResourceName::Constants
            .to_bgl_entry(0, AccessType::Srv, FormatProfile::Native)
            .ty,
        BindingType::UniformBuffer
    );
}

#[test]
fn passes_bind_what_their_layout_declares() {
    let resources = named_resources();
    let info = dispatch_info();
    let flags = FsrContextFlags::empty();
    for (kind, profile, level) in FsrContext::pass_kinds().into_iter().flat_map(|kind| {
        [
            (kind, FormatProfile::Native, 0),
            (kind, FormatProfile::Core, 0),
            (kind, FormatProfile::Core, 3),
        ]
    }) {
        let layout = kind.layout(flags, profile);
        let bindings = kind.bindings(&resources, &info, flags, profile, level, FrameKind::Even);
        assert_eq!(layout.len(), bindings.len());
        assert_eq!(
            layout.len(),
            kind.profile_resources(flags, profile, level).len()
        );
        for (entry, view) in layout.iter().zip(&bindings) {
            let fits = match entry.ty {
                BindingType::UniformBuffer | BindingType::StorageBuffer { .. } => {
                    matches!(view.resource, BoundResource::Buffer(_))
                }
                BindingType::Sampler(_) => matches!(view.resource, BoundResource::Sampler(_)),
                _ => matches!(view.resource, BoundResource::Texture(_)),
            };
            assert!(fits, "{kind:?} {entry:?}");
        }
    }
}

#[test]
fn pass_labels() {
    assert_eq!(FsrPassKind::Rcas.label(), "FSR3 RCAS");
    assert_eq!(
        FsrPassKind::LumaPyramid.bind_group_layout_label(),
        "FSR3 Luma Pyramid Bind Group Layout"
    );
    assert_eq!(
        FsrPassKind::LumaPyramid.pipeline_layout_label(),
        "FSR3 Luma Pyramid Pipeline Layout"
    );
    assert_eq!(
        FsrPassKind::DebugView.bind_group_label(),
        "FSR3 Debug View Bind Group"
    );
}

#[test]
fn passes_run_their_own_shader() {
    let shaders = Shaders {
        accumulate: &[1],
        accumulate_sharpen: &[2],
        debug_view: &[3],
        luma_instability: &[4],
        luma_pyramid: &[5],
        prepare_inputs: &[6],
        prepare_reactivity: &[7],
        rcas: &[8],
        shading_change: &[9],
        shading_change_pyramid: &[10],
    };
    assert_eq!(FsrPassKind::Accumulate.shader(&shaders), &[1]);
    assert_eq!(FsrPassKind::AccumulateSharpen.shader(&shaders), &[2]);
    assert_eq!(FsrPassKind::Rcas.shader(&shaders), &[8]);
    assert_eq!(FsrPassKind::ShadingChangePyramid.shader(&shaders), &[10]);
}

#[test]
fn memory_estimate_at_1080p_to_4k() {
    let view = FsrView::new(FormatProfile::Native, [1920, 1080], [3840, 2160]);
    let render: u64 = 1920 * 1080;
    let upscale: u64 = 3840 * 2160;
    let half: u64 = 960 * 540;
    let mut mips: u64 = 0;
    let mut w: u64 = 960;
    let mut h: u64 = 540;
    for _ in 0..10 {
        mips += w * h * 4;
        w = (w / 2).max(1);
        h = (h / 2).max(1);
    }
    assert_eq!(
        view.estimated_memory_usage(),
        240 + render * 28 + half * 3 + mips + upscale * 17 + 256 + 1 + 8 + 16 + 4
    );
}

#[test]
fn debug_view_shows_the_current_frame() {
    let list: Vec<(FsrResourceName, AccessType)> = FsrPassKind::DebugView
        .resources(FsrContextFlags::empty())
        .iter()
        .map(|access| (access.name, access.access_type))
        .collect();
    assert_eq!(
        list,
        vec![
            (FsrResourceName::DilatedReactiveMasks, AccessType::Srv),
            (FsrResourceName::OutputDilatedMotionVectors, AccessType::Srv),
            (FsrResourceName::OutputDilatedDepth, AccessType::Srv),
            (FsrResourceName::InternalUpscaledCurrent, AccessType::Srv),
            (FsrResourceName::InputExposure, AccessType::Srv),
            (FsrResourceName::OutputColor, AccessType::Uav),
            (FsrResourceName::Constants, AccessType::Srv),
            (FsrResourceName::SamplerPointClamp, AccessType::Srv),
            (FsrResourceName::SamplerLinearClamp, AccessType::Srv),
        ]
    );
}

#[test]
fn levels_are_made_from_the_level_before() {
    let flags = FsrContextFlags::empty();
    for kind in [FsrPassKind::LumaPyramid, FsrPassKind::ShadingChangePyramid] {
        for level in 0..6u32 {
            let mips: Vec<(AccessType, u32)> = kind
                .profile_resources(flags, FormatProfile::Core, level)
                .iter()
                .filter(|access| access.name == FsrResourceName::SpdMips)
                .map(|access| (access.access_type, access.desc.unwrap().base_mip_level))
                .collect();
            if level == 0 {
                assert_eq!(mips, [(AccessType::Uav, 0)]);
            } else {
                assert_eq!(
                    mips,
                    [(AccessType::Srv, level - 1), (AccessType::Uav, level)]
                );
            }
        }
        let at_once = kind.profile_resources(flags, FormatProfile::Tier2, 0);
        assert_eq!(at_once, kind.resources(flags));
        assert!(kind.by_levels(FormatProfile::Core));
        assert!(!kind.by_levels(FormatProfile::Native));
    }
}

#[test]
fn history_is_not_overwritten() {
    let resources = named_resources();
    let info = dispatch_info();
    let pairs = [
        (
            FsrResourceName::AccumulationCurrent,
            FsrResourceName::AccumulationPrevious,
        ),
        (FsrResourceName::Luma, FsrResourceName::PreviousLuma),
        (
            FsrResourceName::InternalUpscaledCurrent,
            FsrResourceName::InternalUpscaledPrevious,
        ),
        (
            FsrResourceName::LumaHistoryCurrent,
            FsrResourceName::LumaHistoryPrevious,
        ),
    ];
    let texture = |name: FsrResourceName, kind: FrameKind| match resources.resource(&info, name, kind)
    {
        BoundResource::Texture(texture) => *texture,
        _ => panic!("not a texture"),
    };
    for (current, previous) in pairs {
        for (kind, next) in [
            (FrameKind::Even, FrameKind::Odd),
            (FrameKind::Odd, FrameKind::Even),
        ] {
            assert_ne!(texture(previous, kind), texture(current, kind));
            assert_eq!(texture(previous, next), texture(current, kind));
        }
    }
}

#[test]
fn memory_of_enormous_views() {
    assert!(memory_fits([1920, 1080], [3840, 2160]));
    assert!(!memory_fits([u32::MAX, u32::MAX], [1, 1]));
    assert!(!memory_fits([1, 1], [u32::MAX, u32::MAX]));
    // One side more, and 17 bytes for each pixel no longer fit
    assert!(memory_fits([1, 1], [u32::MAX, 252_645_134]));
    assert!(!memory_fits([1, 1], [u32::MAX, 252_645_136]));
}
