//! The compute passes: what each is called, which shader it runs and which
//! resources it binds.

use crate::flags::{law_context_options_are_bits, FsrContextFlags};
use crate::format_profile::FormatProfile;
use crate::frame::FrameKind;
use crate::info::FsrDispatchInfo;
use crate::resources::{
    all_differ,
    law_names_do_not_alias,
    AccessType,
    FsrResourceName,
    FsrResources,
    MipView,
    ResourceAccess,
    ResourceView,
};
use crate::texture::{
    baseline_storage,
    BindGroupLayoutEntry,
    BindingType,
    FormatFlags,
    StorageTextureAccess,
    TextureFormat,
};
use vstd::prelude::*;
use vstd::string::StringExecFns;

verus! {

/// The passes of the upscaler.
#[derive(Debug, Clone, Copy, PartialEq, Eq, Structural)]
pub enum FsrPassKind {
    /// A pass which prepares game inputs for later passes
    PrepareInputs,
    /// A pass which generates the luminance mipmap chain for the current frame.
    LumaPyramid,
    /// A pass which generates the shading change detection mipmap chain for the current frame.
    ShadingChangePyramid,
    /// A pass which estimates shading changes for the current frame
    ShadingChange,
    /// A pass which prepares accumulation relevant information
    PrepareReactivity,
    /// A pass which estimates temporal instability of the luminance changes.
    LumaInstability,
    /// A pass which performs upscaling.
    Accumulate,
    /// A pass which performs upscaling, without writing to the output color target.
    /// Used when RCAS sharpening is enabled — RCAS writes the final output instead.
    AccumulateSharpen,
    /// A pass which performs sharpening.
    Rcas,
    /// A pass which draws some internal resources, for debugging purposes
    DebugView,
    /// An optional pass to generate a reactive mask.
    GenerateReactive,
}

/// The compiled shaders of one choice of options, one for each pass.
pub struct Shaders {
    /// For [`FsrPassKind::Accumulate`].
    pub accumulate: &'static [u8],
    /// For [`FsrPassKind::AccumulateSharpen`].
    pub accumulate_sharpen: &'static [u8],
    /// For [`FsrPassKind::DebugView`].
    pub debug_view: &'static [u8],
    /// For [`FsrPassKind::LumaInstability`].
    pub luma_instability: &'static [u8],
    /// For [`FsrPassKind::LumaPyramid`].
    pub luma_pyramid: &'static [u8],
    /// For [`FsrPassKind::PrepareInputs`].
    pub prepare_inputs: &'static [u8],
    /// For [`FsrPassKind::PrepareReactivity`].
    pub prepare_reactivity: &'static [u8],
    /// For [`FsrPassKind::Rcas`].
    pub rcas: &'static [u8],
    /// For [`FsrPassKind::ShadingChange`].
    pub shading_change: &'static [u8],
    /// For [`FsrPassKind::ShadingChangePyramid`].
    pub shading_change_pyramid: &'static [u8],
}

/// How many levels of the downsampler's mip chain a pyramid's pass writes.
pub const PYRAMID_LEVELS: u32 = 6;

/// A resource that is read.
pub open spec fn srv_spec(name: FsrResourceName) -> ResourceAccess {
    ResourceAccess { name, access_type: AccessType::Srv, desc: None }
}

/// A resource that is written.
pub open spec fn uav_spec(name: FsrResourceName) -> ResourceAccess {
    ResourceAccess { name, access_type: AccessType::Uav, desc: None }
}

/// One level of the downsampler's mip chain, which is written.
pub open spec fn mip_spec(level: u32) -> ResourceAccess {
    ResourceAccess {
        name: FsrResourceName::SpdMips,
        access_type: AccessType::Uav,
        desc: Some(MipView { base_mip_level: level, mip_level_count: 1 }),
    }
}

/// What a level of the downsampler's mip chain is made from, sampled: the level before it, or the
/// luma for the first.
pub open spec fn below_spec(level: u32) -> ResourceAccess {
    if level == 0 {
        srv_spec(FsrResourceName::Luma)
    } else {
        ResourceAccess {
            name: FsrResourceName::SpdMips,
            access_type: AccessType::Srv,
            desc: Some(MipView { base_mip_level: (level - 1) as u32, mip_level_count: 1 }),
        }
    }
}

/// A resource that is read.
fn srv(name: FsrResourceName) -> (result: ResourceAccess)
    ensures
        result == srv_spec(name),
{
    ResourceAccess { name, access_type: AccessType::Srv, desc: None }
}

/// A resource that is written.
fn uav(name: FsrResourceName) -> (result: ResourceAccess)
    ensures
        result == uav_spec(name),
{
    ResourceAccess { name, access_type: AccessType::Uav, desc: None }
}

/// One level of the downsampler's mip chain, which is written.
fn mip(level: u32) -> (result: ResourceAccess)
    ensures
        result == mip_spec(level),
{
    ResourceAccess {
        name: FsrResourceName::SpdMips,
        access_type: AccessType::Uav,
        desc: Some(MipView { base_mip_level: level, mip_level_count: 1 }),
    }
}

/// What a level of the downsampler's mip chain is made from.
fn below(level: u32) -> (result: ResourceAccess)
    ensures
        result == below_spec(level),
{
    if level == 0 {
        srv(FsrResourceName::Luma)
    } else {
        ResourceAccess {
            name: FsrResourceName::SpdMips,
            access_type: AccessType::Srv,
            desc: Some(MipView { base_mip_level: level - 1, mip_level_count: 1 }),
        }
    }
}

impl FsrPassKind {
    /// Whether the pass generates a mip chain.
    pub open spec fn is_pyramid(self) -> bool {
        self == FsrPassKind::LumaPyramid || self == FsrPassKind::ShadingChangePyramid
    }

    /// Whether the pass runs once for every level of the mip chain: on `Core` no storage texture
    /// of several channels can be read back.
    pub open spec fn runs_by_levels(self, profile: FormatProfile) -> bool {
        self.is_pyramid() && profile == FormatProfile::Core
    }

    /// The resources that one level of a pyramid works on: those of the pass, but of the mip chain
    /// only the level that is written, and what it is made from.
    pub open spec fn level_accesses(self, level: u32) -> Seq<ResourceAccess> {
        if self == FsrPassKind::LumaPyramid {
            seq![
                srv_spec(FsrResourceName::Luma),
                srv_spec(FsrResourceName::FarthestDepth),
                uav_spec(FsrResourceName::SpdAtomicCount),
                uav_spec(FsrResourceName::FrameInfo),
                below_spec(level),
                mip_spec(level),
                uav_spec(FsrResourceName::FarthestDepthMip1),
                srv_spec(FsrResourceName::Constants),
                srv_spec(FsrResourceName::SamplerPointClamp),
                srv_spec(FsrResourceName::SamplerLinearClamp),
            ]
        } else {
            seq![
                srv_spec(FsrResourceName::Luma),
                srv_spec(FsrResourceName::PreviousLuma),
                srv_spec(FsrResourceName::OutputDilatedMotionVectors),
                srv_spec(FsrResourceName::InputExposure),
                uav_spec(FsrResourceName::SpdAtomicCount),
                below_spec(level),
                mip_spec(level),
                srv_spec(FsrResourceName::Constants),
                srv_spec(FsrResourceName::SamplerPointClamp),
                srv_spec(FsrResourceName::SamplerLinearClamp),
            ]
        }
    }

    /// The resources that the pass binds at a profile, in the order of their bindings. The level
    /// only matters where the pass runs level by level.
    pub open spec fn profile_accesses(
        self,
        flags: FsrContextFlags,
        profile: FormatProfile,
        level: u32,
    ) -> Seq<ResourceAccess> {
        if self.runs_by_levels(profile) {
            self.level_accesses(level)
        } else {
            self.accesses(flags)
        }
    }

    /// What the pass is called.
    pub open spec fn label_text(self) -> Seq<char> {
        match self {
            FsrPassKind::PrepareInputs => "FSR3 Prepare Inputs"@,
            FsrPassKind::LumaPyramid => "FSR3 Luma Pyramid"@,
            FsrPassKind::ShadingChangePyramid => "FSR3 Shading Change Pyramid"@,
            FsrPassKind::ShadingChange => "FSR3 Shading Change"@,
            FsrPassKind::PrepareReactivity => "FSR3 Prepare Reactivity"@,
            FsrPassKind::LumaInstability => "FSR3 Luma Instability"@,
            FsrPassKind::Accumulate => "FSR3 Accumulate"@,
            FsrPassKind::AccumulateSharpen => "FSR3 Accumulate Sharpen"@,
            FsrPassKind::Rcas => "FSR3 RCAS"@,
            FsrPassKind::DebugView => "FSR3 Debug View"@,
            FsrPassKind::GenerateReactive => "FSR3 Generate Reactive"@,
        }
    }

    /// The resources that the pass works on, before the two samplers that every pass ends with.
    ///
    /// Motion vectors at display resolution are read from where the first pass has dilated them.
    pub open spec fn own_accesses(self, flags: FsrContextFlags) -> Seq<ResourceAccess> {
        let motion_vectors = if flags.has(FsrContextFlags::DISPLAY_RESOLUTION_MOTION_VECTORS) {
            FsrResourceName::OutputDilatedMotionVectors
        } else {
            FsrResourceName::InputMotionVectors
        };
        match self {
            FsrPassKind::Accumulate | FsrPassKind::AccumulateSharpen => seq![
                srv_spec(FsrResourceName::InputExposure),
                srv_spec(FsrResourceName::DilatedReactiveMasks),
                srv_spec(motion_vectors),
                srv_spec(FsrResourceName::InternalUpscaledPrevious),
                srv_spec(FsrResourceName::Lanczos2Lut),
                srv_spec(FsrResourceName::FarthestDepthMip1),
                srv_spec(FsrResourceName::Luma),
                srv_spec(FsrResourceName::LumaInstability),
                srv_spec(FsrResourceName::InputColor),
                uav_spec(FsrResourceName::InternalUpscaledCurrent),
                uav_spec(FsrResourceName::OutputColor),
                uav_spec(FsrResourceName::NewLocks),
                srv_spec(FsrResourceName::Constants),
            ],
            FsrPassKind::DebugView => seq![
                srv_spec(FsrResourceName::DilatedReactiveMasks),
                srv_spec(FsrResourceName::OutputDilatedMotionVectors),
                srv_spec(FsrResourceName::OutputDilatedDepth),
                srv_spec(FsrResourceName::InternalUpscaledCurrent),
                srv_spec(FsrResourceName::InputExposure),
                uav_spec(FsrResourceName::OutputColor),
                srv_spec(FsrResourceName::Constants),
            ],
            FsrPassKind::LumaInstability => seq![
                srv_spec(FsrResourceName::InputExposure),
                srv_spec(FsrResourceName::DilatedReactiveMasks),
                srv_spec(FsrResourceName::OutputDilatedMotionVectors),
                srv_spec(FsrResourceName::FrameInfo),
                srv_spec(FsrResourceName::LumaHistoryPrevious),
                srv_spec(FsrResourceName::FarthestDepthMip1),
                srv_spec(FsrResourceName::Luma),
                uav_spec(FsrResourceName::LumaHistoryCurrent),
                uav_spec(FsrResourceName::LumaInstability),
                srv_spec(FsrResourceName::Constants),
            ],
            FsrPassKind::LumaPyramid => seq![
                srv_spec(FsrResourceName::Luma),
                srv_spec(FsrResourceName::FarthestDepth),
                uav_spec(FsrResourceName::SpdAtomicCount),
                uav_spec(FsrResourceName::FrameInfo),
                mip_spec(0),
                mip_spec(1),
                mip_spec(2),
                mip_spec(3),
                mip_spec(4),
                mip_spec(5),
                uav_spec(FsrResourceName::FarthestDepthMip1),
                srv_spec(FsrResourceName::Constants),
            ],
            FsrPassKind::PrepareInputs => seq![
                srv_spec(FsrResourceName::InputMotionVectors),
                srv_spec(FsrResourceName::InputDepth),
                srv_spec(FsrResourceName::InputColor),
                uav_spec(FsrResourceName::OutputDilatedMotionVectors),
                uav_spec(FsrResourceName::OutputDilatedDepth),
                uav_spec(FsrResourceName::OutputReconstructedPreviousDepth),
                uav_spec(FsrResourceName::FarthestDepth),
                uav_spec(FsrResourceName::Luma),
                srv_spec(FsrResourceName::Constants),
            ],
            FsrPassKind::PrepareReactivity => seq![
                srv_spec(FsrResourceName::OutputReconstructedPreviousDepth),
                srv_spec(FsrResourceName::OutputDilatedMotionVectors),
                srv_spec(FsrResourceName::OutputDilatedDepth),
                srv_spec(FsrResourceName::InputReactiveMask),
                srv_spec(FsrResourceName::InputTransparencyAndComposition),
                srv_spec(FsrResourceName::AccumulationPrevious),
                srv_spec(FsrResourceName::ShadingChange),
                srv_spec(FsrResourceName::Luma),
                srv_spec(FsrResourceName::InputExposure),
                uav_spec(FsrResourceName::DilatedReactiveMasks),
                uav_spec(FsrResourceName::NewLocks),
                uav_spec(FsrResourceName::AccumulationCurrent),
                srv_spec(FsrResourceName::Constants),
            ],
            FsrPassKind::Rcas => seq![
                srv_spec(FsrResourceName::InputExposure),
                srv_spec(FsrResourceName::InternalUpscaledCurrent),
                uav_spec(FsrResourceName::OutputColor),
                srv_spec(FsrResourceName::Constants),
            ],
            FsrPassKind::ShadingChange => seq![
                srv_spec(FsrResourceName::SpdMips),
                uav_spec(FsrResourceName::ShadingChange),
                srv_spec(FsrResourceName::Constants),
            ],
            FsrPassKind::ShadingChangePyramid => seq![
                srv_spec(FsrResourceName::Luma),
                srv_spec(FsrResourceName::PreviousLuma),
                srv_spec(FsrResourceName::OutputDilatedMotionVectors),
                srv_spec(FsrResourceName::InputExposure),
                uav_spec(FsrResourceName::SpdAtomicCount),
                mip_spec(0),
                mip_spec(1),
                mip_spec(2),
                mip_spec(3),
                mip_spec(4),
                mip_spec(5),
                srv_spec(FsrResourceName::Constants),
            ],
            FsrPassKind::GenerateReactive => seq![],
        }
    }

    /// The resources that the pass binds, in the order of their bindings.
    pub open spec fn accesses(self, flags: FsrContextFlags) -> Seq<ResourceAccess> {
        self.own_accesses(flags).push(srv_spec(FsrResourceName::SamplerPointClamp)).push(
            srv_spec(FsrResourceName::SamplerLinearClamp),
        )
    }

    /// What the pass is called.
    pub fn label(&self) -> (result: &'static str)
        ensures
            result@ == self.label_text(),
    {
        match *self {
            FsrPassKind::PrepareInputs => "FSR3 Prepare Inputs",
            FsrPassKind::LumaPyramid => "FSR3 Luma Pyramid",
            FsrPassKind::ShadingChangePyramid => "FSR3 Shading Change Pyramid",
            FsrPassKind::ShadingChange => "FSR3 Shading Change",
            FsrPassKind::PrepareReactivity => "FSR3 Prepare Reactivity",
            FsrPassKind::LumaInstability => "FSR3 Luma Instability",
            FsrPassKind::Accumulate => "FSR3 Accumulate",
            FsrPassKind::AccumulateSharpen => "FSR3 Accumulate Sharpen",
            FsrPassKind::Rcas => "FSR3 RCAS",
            FsrPassKind::DebugView => "FSR3 Debug View",
            FsrPassKind::GenerateReactive => "FSR3 Generate Reactive",
        }
    }

    /// The pass's label, followed by `suffix`.
    fn label_with(&self, suffix: &str) -> (result: String)
        ensures
            result@ == self.label_text() + suffix@,
    {
        let mut text = self.label().to_owned();
        text.append(suffix);
        text
    }

    /// What the pass's bind group layout is called.
    pub fn bind_group_layout_label(&self) -> (result: String)
        ensures
            result@ == self.label_text() + " Bind Group Layout"@,
    {
        self.label_with(" Bind Group Layout")
    }

    /// What the pass's pipeline layout is called.
    pub fn pipeline_layout_label(&self) -> (result: String)
        ensures
            result@ == self.label_text() + " Pipeline Layout"@,
    {
        self.label_with(" Pipeline Layout")
    }

    /// What the pass's bind group is called.
    pub fn bind_group_label(&self) -> (result: String)
        ensures
            result@ == self.label_text() + " Bind Group"@,
    {
        self.label_with(" Bind Group")
    }

    /// The shader that the pass runs.
    pub open spec fn shader_bytes(self, shaders: Shaders) -> Seq<u8> {
        match self {
            FsrPassKind::PrepareInputs => shaders.prepare_inputs@,
            FsrPassKind::LumaPyramid => shaders.luma_pyramid@,
            FsrPassKind::ShadingChangePyramid => shaders.shading_change_pyramid@,
            FsrPassKind::ShadingChange => shaders.shading_change@,
            FsrPassKind::PrepareReactivity => shaders.prepare_reactivity@,
            FsrPassKind::LumaInstability => shaders.luma_instability@,
            FsrPassKind::Accumulate => shaders.accumulate@,
            FsrPassKind::AccumulateSharpen => shaders.accumulate_sharpen@,
            FsrPassKind::Rcas => shaders.rcas@,
            FsrPassKind::DebugView => shaders.debug_view@,
            FsrPassKind::GenerateReactive => seq![],
        }
    }

    /// The shader that the pass runs. There is none yet for the reactive mask.
    pub fn shader(&self, shaders: &Shaders) -> (result: &'static [u8])
        requires
            *self != FsrPassKind::GenerateReactive,
        ensures
            result@ == self.shader_bytes(*shaders),
    {
        match *self {
            FsrPassKind::PrepareInputs => shaders.prepare_inputs,
            FsrPassKind::LumaPyramid => shaders.luma_pyramid,
            FsrPassKind::ShadingChangePyramid => shaders.shading_change_pyramid,
            FsrPassKind::ShadingChange => shaders.shading_change,
            FsrPassKind::PrepareReactivity => shaders.prepare_reactivity,
            FsrPassKind::LumaInstability => shaders.luma_instability,
            FsrPassKind::Accumulate => shaders.accumulate,
            FsrPassKind::AccumulateSharpen => shaders.accumulate_sharpen,
            FsrPassKind::Rcas => shaders.rcas,
            _ => shaders.debug_view,
        }
    }

    /// The resources that the pass binds, in the order of their bindings. There are none yet for
    /// the reactive mask.
    pub fn resources(&self, flags: FsrContextFlags) -> (result: Vec<ResourceAccess>)
        requires
            *self != FsrPassKind::GenerateReactive,
        ensures
            result@ == self.accesses(flags),
    {
        let motion_vectors: FsrResourceName = if flags.contains(
            FsrContextFlags::DISPLAY_RESOLUTION_MOTION_VECTORS,
        ) {
            FsrResourceName::OutputDilatedMotionVectors
        } else {
            FsrResourceName::InputMotionVectors
        };
        let mut list: Vec<ResourceAccess> = match *self {
            FsrPassKind::Accumulate | FsrPassKind::AccumulateSharpen => vec![
                srv(FsrResourceName::InputExposure),
                srv(FsrResourceName::DilatedReactiveMasks),
                srv(motion_vectors),
                srv(FsrResourceName::InternalUpscaledPrevious),
                srv(FsrResourceName::Lanczos2Lut),
                srv(FsrResourceName::FarthestDepthMip1),
                srv(FsrResourceName::Luma),
                srv(FsrResourceName::LumaInstability),
                srv(FsrResourceName::InputColor),
                uav(FsrResourceName::InternalUpscaledCurrent),
                uav(FsrResourceName::OutputColor),
                uav(FsrResourceName::NewLocks),
                srv(FsrResourceName::Constants),
            ],
            FsrPassKind::DebugView => vec![
                srv(FsrResourceName::DilatedReactiveMasks),
                srv(FsrResourceName::OutputDilatedMotionVectors),
                srv(FsrResourceName::OutputDilatedDepth),
                srv(FsrResourceName::InternalUpscaledCurrent),
                srv(FsrResourceName::InputExposure),
                uav(FsrResourceName::OutputColor),
                srv(FsrResourceName::Constants),
            ],
            FsrPassKind::LumaInstability => vec![
                srv(FsrResourceName::InputExposure),
                srv(FsrResourceName::DilatedReactiveMasks),
                srv(FsrResourceName::OutputDilatedMotionVectors),
                srv(FsrResourceName::FrameInfo),
                srv(FsrResourceName::LumaHistoryPrevious),
                srv(FsrResourceName::FarthestDepthMip1),
                srv(FsrResourceName::Luma),
                uav(FsrResourceName::LumaHistoryCurrent),
                uav(FsrResourceName::LumaInstability),
                srv(FsrResourceName::Constants),
            ],
            FsrPassKind::LumaPyramid => vec![
                srv(FsrResourceName::Luma),
                srv(FsrResourceName::FarthestDepth),
                uav(FsrResourceName::SpdAtomicCount),
                uav(FsrResourceName::FrameInfo),
                mip(0),
                mip(1),
                mip(2),
                mip(3),
                mip(4),
                mip(5),
                uav(FsrResourceName::FarthestDepthMip1),
                srv(FsrResourceName::Constants),
            ],
            FsrPassKind::PrepareInputs => vec![
                srv(FsrResourceName::InputMotionVectors),
                srv(FsrResourceName::InputDepth),
                srv(FsrResourceName::InputColor),
                uav(FsrResourceName::OutputDilatedMotionVectors),
                uav(FsrResourceName::OutputDilatedDepth),
                uav(FsrResourceName::OutputReconstructedPreviousDepth),
                uav(FsrResourceName::FarthestDepth),
                uav(FsrResourceName::Luma),
                srv(FsrResourceName::Constants),
            ],
            FsrPassKind::PrepareReactivity => vec![
                srv(FsrResourceName::OutputReconstructedPreviousDepth),
                srv(FsrResourceName::OutputDilatedMotionVectors),
                srv(FsrResourceName::OutputDilatedDepth),
                srv(FsrResourceName::InputReactiveMask),
                srv(FsrResourceName::InputTransparencyAndComposition),
                srv(FsrResourceName::AccumulationPrevious),
                srv(FsrResourceName::ShadingChange),
                srv(FsrResourceName::Luma),
                srv(FsrResourceName::InputExposure),
                uav(FsrResourceName::DilatedReactiveMasks),
                uav(FsrResourceName::NewLocks),
                uav(FsrResourceName::AccumulationCurrent),
                srv(FsrResourceName::Constants),
            ],
            FsrPassKind::Rcas => vec![
                srv(FsrResourceName::InputExposure),
                srv(FsrResourceName::InternalUpscaledCurrent),
                uav(FsrResourceName::OutputColor),
                srv(FsrResourceName::Constants),
            ],
            FsrPassKind::ShadingChange => vec![
                srv(FsrResourceName::SpdMips),
                uav(FsrResourceName::ShadingChange),
                srv(FsrResourceName::Constants),
            ],
            _ => vec![
                srv(FsrResourceName::Luma),
                srv(FsrResourceName::PreviousLuma),
                srv(FsrResourceName::OutputDilatedMotionVectors),
                srv(FsrResourceName::InputExposure),
                uav(FsrResourceName::SpdAtomicCount),
                mip(0),
                mip(1),
                mip(2),
                mip(3),
                mip(4),
                mip(5),
                srv(FsrResourceName::Constants),
            ],
        };
        assert(list@ =~= self.own_accesses(flags));

        // All passes bind the samplers at the end
        list.push(srv(FsrResourceName::SamplerPointClamp));
        list.push(srv(FsrResourceName::SamplerLinearClamp));
        list
    }

    /// Whether the pass runs once for every level of the mip chain.
    pub fn by_levels(&self, profile: FormatProfile) -> (result: bool)
        ensures
            result == self.runs_by_levels(profile),
    {
        match *self {
            FsrPassKind::LumaPyramid | FsrPassKind::ShadingChangePyramid => profile
                == FormatProfile::Core,
            _ => false,
        }
    }

    /// The resources that one level of a pyramid works on.
    fn level_resources(&self, level: u32) -> (result: Vec<ResourceAccess>)
        ensures
            result@ == self.level_accesses(level),
    {
        let list: Vec<ResourceAccess> = if *self == FsrPassKind::LumaPyramid {
            vec![
                srv(FsrResourceName::Luma),
                srv(FsrResourceName::FarthestDepth),
                uav(FsrResourceName::SpdAtomicCount),
                uav(FsrResourceName::FrameInfo),
                below(level),
                mip(level),
                uav(FsrResourceName::FarthestDepthMip1),
                srv(FsrResourceName::Constants),
                srv(FsrResourceName::SamplerPointClamp),
                srv(FsrResourceName::SamplerLinearClamp),
            ]
        } else {
            vec![
                srv(FsrResourceName::Luma),
                srv(FsrResourceName::PreviousLuma),
                srv(FsrResourceName::OutputDilatedMotionVectors),
                srv(FsrResourceName::InputExposure),
                uav(FsrResourceName::SpdAtomicCount),
                below(level),
                mip(level),
                srv(FsrResourceName::Constants),
                srv(FsrResourceName::SamplerPointClamp),
                srv(FsrResourceName::SamplerLinearClamp),
            ]
        };
        assert(list@ =~= self.level_accesses(level));
        list
    }

    /// The resources that the pass binds at a profile, in the order of their bindings.
    pub fn profile_resources(
        &self,
        flags: FsrContextFlags,
        profile: FormatProfile,
        level: u32,
    ) -> (result: Vec<ResourceAccess>)
        requires
            *self != FsrPassKind::GenerateReactive,
        ensures
            result@ == self.profile_accesses(flags, profile, level),
    {
        if self.by_levels(profile) {
            self.level_resources(level)
        } else {
            self.resources(flags)
        }
    }

    /// The layout of the pass's bind group, which is the same for all levels.
    pub fn layout(&self, flags: FsrContextFlags, profile: FormatProfile) -> (result: Vec<
        BindGroupLayoutEntry,
    >)
        requires
            *self != FsrPassKind::GenerateReactive,
        ensures
            result@.len() == self.profile_accesses(flags, profile, 0).len(),
            forall|i: int|
                0 <= i < result@.len() ==> {
                    &&& (#[trigger] result@[i]).binding == i
                    &&& result@[i].ty == self.profile_accesses(flags, profile, 0)[i].name.binding_type(
                        self.profile_accesses(flags, profile, 0)[i].access_type,
                        profile,
                    )
                },
    {
        let list = self.profile_resources(flags, profile, 0);
        let mut entries: Vec<BindGroupLayoutEntry> = Vec::new();
        proof {
            law_accesses_can_bind(*self, flags, profile, 0);
        }
        let mut i: usize = 0;
        while i < list.len()
            invariant
                i <= list.len() <= 15,
                list@ == self.profile_accesses(flags, profile, 0),
                forall|j: int|
                    0 <= j < self.profile_accesses(flags, profile, 0).len() ==> (#[trigger] self.profile_accesses(
                        flags,
                        profile,
                        0,
                    )[j]).name.can_bind(self.profile_accesses(flags, profile, 0)[j].access_type),
                entries@.len() == i,
                forall|j: int|
                    0 <= j < i ==> {
                        &&& (#[trigger] entries@[j]).binding == j
                        &&& entries@[j].ty == self.profile_accesses(flags, profile, 0)[j].name.binding_type(
                            self.profile_accesses(flags, profile, 0)[j].access_type,
                            profile,
                        )
                    },
            decreases list.len() - i,
        {
            let access = list[i];
            assert(access == self.profile_accesses(flags, profile, 0)[i as int]);
            entries.push(access.name.to_bgl_entry(i as u32, access.access_type, profile));
            i = i + 1;
        }
        entries
    }

    /// What the pass binds in a frame of the given kind, in the order of the bindings.
    pub fn bindings<'a, T, B, S>(
        &self,
        resources: &'a FsrResources<T, B, S>,
        info: &'a FsrDispatchInfo<T, B>,
        flags: FsrContextFlags,
        profile: FormatProfile,
        level: u32,
        kind: FrameKind,
    ) -> (result: Vec<ResourceView<'a, T, B, S>>)
        requires
            *self != FsrPassKind::GenerateReactive,
        ensures
            result@.len() == self.profile_accesses(flags, profile, level).len(),
            forall|i: int|
                0 <= i < result@.len() ==> {
                    &&& (#[trigger] result@[i]).resource == resources.lookup(
                        info,
                        self.profile_accesses(flags, profile, level)[i].name,
                        kind,
                    )
                    &&& result@[i].mips == self.profile_accesses(flags, profile, level)[i].desc
                    &&& result@[i].mips is Some ==> result@[i].label is None
                    &&& result@[i].mips is None ==> result@[i].label is Some
                        && result@[i].label->0@ == "FSR3 Resource View: "@
                        + self.profile_accesses(flags, profile, level)[i].name.name_text()
                },
    {
        let list = self.profile_resources(flags, profile, level);
        let mut views: Vec<ResourceView<'a, T, B, S>> = Vec::new();
        let mut i: usize = 0;
        while i < list.len()
            invariant
                i <= list.len(),
                list@ == self.profile_accesses(flags, profile, level),
                views@.len() == i,
                forall|j: int|
                    0 <= j < i ==> {
                        &&& (#[trigger] views@[j]).resource == resources.lookup(
                            info,
                            self.profile_accesses(flags, profile, level)[j].name,
                            kind,
                        )
                        &&& views@[j].mips == self.profile_accesses(flags, profile, level)[j].desc
                        &&& views@[j].mips is Some ==> views@[j].label is None
                        &&& views@[j].mips is None ==> views@[j].label is Some
                            && views@[j].label->0@ == "FSR3 Resource View: "@
                            + self.profile_accesses(flags, profile, level)[j].name.name_text()
                    },
            decreases list.len() - i,
        {
            views.push(resources.to_view(info, list[i], kind));
            i = i + 1;
        }
        views
    }
}

/// Every pass binds each of its resources in a way that the resource allows, and none binds more
/// than fifteen.
pub proof fn law_accesses_can_bind(
    kind: FsrPassKind,
    flags: FsrContextFlags,
    profile: FormatProfile,
    level: u32,
)
    ensures
        kind.profile_accesses(flags, profile, level).len() <= 15,
        forall|i: int|
            0 <= i < kind.profile_accesses(flags, profile, level).len() ==> (
            #[trigger] kind.profile_accesses(flags, profile, level)[i]).name.can_bind(
                kind.profile_accesses(flags, profile, level)[i].access_type,
            ),
{
}

/// What a shader finds at the pass's binding `i`.
pub open spec fn pass_binding(
    kind: FsrPassKind,
    flags: FsrContextFlags,
    profile: FormatProfile,
    level: u32,
    i: int,
) -> BindingType {
    let access = kind.profile_accesses(flags, profile, level)[i];
    access.name.binding_type(access.access_type, profile)
}

/// All levels of a pyramid find the same at each binding.
pub proof fn law_levels_share_layout(
    kind: FsrPassKind,
    flags: FsrContextFlags,
    profile: FormatProfile,
    level: u32,
    i: int,
)
    requires
        0 <= i < kind.profile_accesses(flags, profile, 0).len(),
    ensures
        kind.profile_accesses(flags, profile, level).len() == kind.profile_accesses(
            flags,
            profile,
            0,
        ).len(),
        pass_binding(kind, flags, profile, level, i) == pass_binding(kind, flags, profile, 0, i),
{
}

/// Every level of a pyramid on `Core` samples the level before it and writes its own, and touches
/// no other level.
pub proof fn law_level_from_level_before(kind: FsrPassKind, flags: FsrContextFlags, level: u32)
    requires
        kind.is_pyramid(),
        0 < level < PYRAMID_LEVELS,
    ensures
        ({
            let list = kind.profile_accesses(flags, FormatProfile::Core, level);
            &&& list.contains(below_spec(level))
            &&& list.contains(mip_spec(level))
            &&& forall|i: int|
                0 <= i < list.len() && (#[trigger] list[i]).name == FsrResourceName::SpdMips
                    ==> list[i] == below_spec(level) || list[i] == mip_spec(level)
        }),
{
    let list = kind.profile_accesses(flags, FormatProfile::Core, level);
    if kind == FsrPassKind::LumaPyramid {
        assert(list[4] == below_spec(level));
        assert(list[5] == mip_spec(level));
    } else {
        assert(list[5] == below_spec(level));
        assert(list[6] == mip_spec(level));
    }
}

/// Every pass ends with its uniform data, the sampler without filtering and the sampler with
/// filtering, in this order.
pub proof fn law_common_bindings(
    kind: FsrPassKind,
    flags: FsrContextFlags,
    profile: FormatProfile,
    level: u32,
)
    requires
        kind != FsrPassKind::GenerateReactive,
    ensures
        ({
            let list = kind.profile_accesses(flags, profile, level);
            let n = list.len();
            &&& n >= 3
            &&& list[n - 3] == srv_spec(FsrResourceName::Constants)
            &&& list[n - 2] == srv_spec(FsrResourceName::SamplerPointClamp)
            &&& list[n - 1] == srv_spec(FsrResourceName::SamplerLinearClamp)
        }),
{
}

/// On `Core` every storage texture of every pass is bound in a format and with an access that
/// baseline WebGPU allows.
pub proof fn law_core_binds_baseline_storage(
    kind: FsrPassKind,
    flags: FsrContextFlags,
    level: u32,
    i: int,
)
    requires
        0 <= i < kind.profile_accesses(flags, FormatProfile::Core, level).len(),
    ensures
        pass_binding(kind, flags, FormatProfile::Core, level, i) matches BindingType::StorageTexture {
            access,
            format,
        } ==> baseline_storage(format, access),
{
}

/// The flag that an adapter reports of a format that can be bound with this access.
pub open spec fn access_flag(access: StorageTextureAccess) -> u32 {
    match access {
        StorageTextureAccess::WriteOnly => FormatFlags::STORAGE_WRITE_ONLY,
        StorageTextureAccess::ReadWrite => FormatFlags::STORAGE_READ_WRITE,
    }
}

/// Whether one of `requirements` asks for `flag` of `format`.
pub open spec fn is_required(
    requirements: Seq<(TextureFormat, u32)>,
    format: TextureFormat,
    flag: u32,
) -> bool {
    exists|j: int|
        0 <= j < requirements.len() && (#[trigger] requirements[j]).0 == format && requirements[j].1
            & flag == flag
}

/// Every storage texture of every pass is one that baseline WebGPU allows, or one whose format
/// and access are among the profile's requirements.
pub proof fn law_requirements_cover_storage(
    kind: FsrPassKind,
    flags: FsrContextFlags,
    profile: FormatProfile,
    level: u32,
    i: int,
)
    requires
        0 <= i < kind.profile_accesses(flags, profile, level).len(),
    ensures
        pass_binding(kind, flags, profile, level, i) matches BindingType::StorageTexture {
            access,
            format,
        }
            ==> baseline_storage(format, access) || is_required(
            profile.requirements(),
            format,
            access_flag(access),
        ),
{
    let list = profile.requirements();
    if profile != FormatProfile::Core {
        assert((1u32 | 128 | 256) & 128 == 128) by (bit_vector);
        assert((1u32 | 128 | 256) & 256 == 256) by (bit_vector);
        assert((1u32 | 128) & 128 == 128) by (bit_vector);
        assert((1u32 | 256) & 256 == 256) by (bit_vector);
        assert(128u32 & 128 == 128) by (bit_vector);
        assert(list[0].0 == TextureFormat::R8Unorm);
        assert(list[1].0 == TextureFormat::R16Float);
        assert(list[2].0 == TextureFormat::Rg16Float);
        assert(list[3].1 & 256 == 256);
    }
}

/// Outside `Native` no pass reads and writes a texture of two 16-bit channels.
pub proof fn law_no_rg16float_read_write(
    kind: FsrPassKind,
    flags: FsrContextFlags,
    profile: FormatProfile,
    level: u32,
    i: int,
)
    requires
        profile != FormatProfile::Native,
        0 <= i < kind.profile_accesses(flags, profile, level).len(),
    ensures
        pass_binding(kind, flags, profile, level, i) != (BindingType::StorageTexture {
            access: StorageTextureAccess::ReadWrite,
            format: TextureFormat::Rg16Float,
        }),
{
}

/// Whether two names stand for the same texture or buffer in one frame.
pub open spec fn same_resource(a: FsrResourceName, b: FsrResourceName) -> bool {
    ||| a == b
    ||| a == FsrResourceName::LumaInstability && b == FsrResourceName::FarthestDepth
    ||| a == FsrResourceName::FarthestDepth && b == FsrResourceName::LumaInstability
}

/// Whether two ranges of mip levels have a level in common. No range stands for all levels.
pub open spec fn mips_overlap(a: Option<MipView>, b: Option<MipView>) -> bool {
    match (a, b) {
        (Some(x), Some(y)) => {
            &&& x.base_mip_level < y.base_mip_level + y.mip_level_count
            &&& y.base_mip_level < x.base_mip_level + x.mip_level_count
        },
        _ => true,
    }
}

/// No pass, and no level of a pyramid, reads what it writes through another binding.
pub proof fn law_no_read_of_written(
    kind: FsrPassKind,
    flags: FsrContextFlags,
    profile: FormatProfile,
    level: u32,
    i: int,
    j: int,
)
    requires
        0 <= i < kind.profile_accesses(flags, profile, level).len(),
        0 <= j < kind.profile_accesses(flags, profile, level).len(),
        kind.profile_accesses(flags, profile, level)[i].access_type == AccessType::Uav,
        kind.profile_accesses(flags, profile, level)[j].access_type == AccessType::Srv,
    ensures
        ({
            let written = kind.profile_accesses(flags, profile, level)[i];
            let read = kind.profile_accesses(flags, profile, level)[j];
            !same_resource(written.name, read.name) || !mips_overlap(written.desc, read.desc)
        }),
{
}

/// Two bindings of one pass, one written and one read, never show the same part of one texture or
/// buffer, where the caller's and the view's are all different.
pub proof fn law_bindings_do_not_alias<T, B, S>(
    resources: FsrResources<T, B, S>,
    info: FsrDispatchInfo<T, B>,
    pass: FsrPassKind,
    flags: FsrContextFlags,
    profile: FormatProfile,
    level: u32,
    kind: FrameKind,
    i: int,
    j: int,
)
    requires
        all_differ(resources, info),
        0 <= i < pass.profile_accesses(flags, profile, level).len(),
        0 <= j < pass.profile_accesses(flags, profile, level).len(),
        pass.profile_accesses(flags, profile, level)[i].access_type == AccessType::Uav,
        pass.profile_accesses(flags, profile, level)[j].access_type == AccessType::Srv,
    ensures
        ({
            let written = pass.profile_accesses(flags, profile, level)[i];
            let read = pass.profile_accesses(flags, profile, level)[j];
            resources.lookup(&info, written.name, kind) == resources.lookup(&info, read.name, kind)
                ==> {
                &&& written.desc is Some && read.desc is Some
                &&& written.desc->0.mip_level_count == 1 && read.desc->0.mip_level_count == 1
                &&& written.desc->0.base_mip_level != read.desc->0.base_mip_level
            }
        }),
{
    let written = pass.profile_accesses(flags, profile, level)[i];
    let read = pass.profile_accesses(flags, profile, level)[j];
    law_no_read_of_written(pass, flags, profile, level, i, j);
    assert(!written.name.is_sampler() && written.name.can_bind(AccessType::Uav));
    assert(written.name != FsrResourceName::DefaultReactivityMask);
    assert(written.name != FsrResourceName::DefaultExposure);
    if written.name != read.name {
        assert(!same_resource(written.name, read.name));
        law_names_do_not_alias(resources, info, written.name, read.name, kind);
    }
}

/// The names of the double-buffered results: what the current frame writes, and what it reads of
/// the frame before.
pub open spec fn is_history(current: FsrResourceName, previous: FsrResourceName) -> bool {
    ||| current == FsrResourceName::AccumulationCurrent && previous
        == FsrResourceName::AccumulationPrevious
    ||| current == FsrResourceName::Luma && previous == FsrResourceName::PreviousLuma
    ||| current == FsrResourceName::InternalUpscaledCurrent && previous
        == FsrResourceName::InternalUpscaledPrevious
    ||| current == FsrResourceName::LumaHistoryCurrent && previous
        == FsrResourceName::LumaHistoryPrevious
}

/// Where the two textures of every pair are different, no frame reads the texture it writes, and
/// every second frame writes the same one.
pub proof fn law_history_is_not_overwritten<T, B, S>(
    resources: FsrResources<T, B, S>,
    this: FsrDispatchInfo<T, B>,
    later: FsrDispatchInfo<T, B>,
    current: FsrResourceName,
    previous: FsrResourceName,
    kind: FrameKind,
)
    requires
        resources.pairs_differ(),
        is_history(current, previous),
    ensures
        resources.lookup(&this, previous, kind) != resources.lookup(&this, current, kind),
        resources.lookup(&later, current, kind.next().next()) == resources.lookup(
            &this,
            current,
            kind,
        ),
        resources.lookup(&later, previous, kind.next()) == resources.lookup(&this, current, kind),
{
}

/// What a frame finds under the name of a previous result is what the frame before it wrote under
/// the name of the current one.
pub proof fn law_previous_is_last_current<T, B, S>(
    resources: FsrResources<T, B, S>,
    last: FsrDispatchInfo<T, B>,
    this: FsrDispatchInfo<T, B>,
    kind: FrameKind,
)
    ensures
        resources.lookup(&this, FsrResourceName::AccumulationPrevious, kind.next())
            == resources.lookup(&last, FsrResourceName::AccumulationCurrent, kind),
        resources.lookup(&this, FsrResourceName::PreviousLuma, kind.next()) == resources.lookup(
            &last,
            FsrResourceName::Luma,
            kind,
        ),
        resources.lookup(&this, FsrResourceName::InternalUpscaledPrevious, kind.next())
            == resources.lookup(&last, FsrResourceName::InternalUpscaledCurrent, kind),
        resources.lookup(&this, FsrResourceName::LumaHistoryPrevious, kind.next())
            == resources.lookup(&last, FsrResourceName::LumaHistoryCurrent, kind),
{
}

/// Whether a list of accesses starts with the whole of these resources, of which the first ones
/// are read and the others written.
pub open spec fn starts_with(
    list: Seq<ResourceAccess>,
    read: Seq<FsrResourceName>,
    written: Seq<FsrResourceName>,
) -> bool {
    &&& list.len() >= read.len() + written.len()
    &&& forall|i: int|
        0 <= i < read.len() ==> {
            &&& #[trigger] list[i].name == read[i]
            &&& list[i].access_type == AccessType::Srv
            &&& list[i].desc is None
        }
    &&& forall|i: int|
        read.len() <= i < read.len() + written.len() ==> {
            &&& #[trigger] list[i].name == written[i - read.len()]
            &&& list[i].access_type == AccessType::Uav
            &&& list[i].desc is None
        }
}

/// What the passes bind that do not generate a mip chain: first what the shader reads and then
/// what it writes, each at the place where the shader declares it, before the uniform data and the
/// samplers. Bit 1 of the context's options says that accumulation takes motion vectors from where
/// they were dilated.
pub proof fn law_pass_bindings(flags: FsrContextFlags, profile: FormatProfile, level: u32)
    ensures
        ({
            let list = |kind: FsrPassKind| kind.profile_accesses(flags, profile, level);
            let motion_vectors = if flags.bits / 2 % 2 == 1 {
                FsrResourceName::OutputDilatedMotionVectors
            } else {
                FsrResourceName::InputMotionVectors
            };
            let accumulate_reads = seq![
                FsrResourceName::InputExposure,
                FsrResourceName::DilatedReactiveMasks,
                motion_vectors,
                FsrResourceName::InternalUpscaledPrevious,
                FsrResourceName::Lanczos2Lut,
                FsrResourceName::FarthestDepthMip1,
                FsrResourceName::Luma,
                FsrResourceName::LumaInstability,
                FsrResourceName::InputColor,
            ];
            let accumulate_writes = seq![
                FsrResourceName::InternalUpscaledCurrent,
                FsrResourceName::OutputColor,
                FsrResourceName::NewLocks,
            ];
            &&& list(FsrPassKind::PrepareInputs).len() == 8 + 3
            &&& starts_with(
                list(FsrPassKind::PrepareInputs),
                seq![
                    FsrResourceName::InputMotionVectors,
                    FsrResourceName::InputDepth,
                    FsrResourceName::InputColor,
                ],
                seq![
                    FsrResourceName::OutputDilatedMotionVectors,
                    FsrResourceName::OutputDilatedDepth,
                    FsrResourceName::OutputReconstructedPreviousDepth,
                    FsrResourceName::FarthestDepth,
                    FsrResourceName::Luma,
                ],
            )
            &&& list(FsrPassKind::ShadingChange).len() == 2 + 3
            &&& starts_with(
                list(FsrPassKind::ShadingChange),
                seq![FsrResourceName::SpdMips],
                seq![FsrResourceName::ShadingChange],
            )
            &&& list(FsrPassKind::PrepareReactivity).len() == 12 + 3
            &&& starts_with(
                list(FsrPassKind::PrepareReactivity),
                seq![
                    FsrResourceName::OutputReconstructedPreviousDepth,
                    FsrResourceName::OutputDilatedMotionVectors,
                    FsrResourceName::OutputDilatedDepth,
                    FsrResourceName::InputReactiveMask,
                    FsrResourceName::InputTransparencyAndComposition,
                    FsrResourceName::AccumulationPrevious,
                    FsrResourceName::ShadingChange,
                    FsrResourceName::Luma,
                    FsrResourceName::InputExposure,
                ],
                seq![
                    FsrResourceName::DilatedReactiveMasks,
                    FsrResourceName::NewLocks,
                    FsrResourceName::AccumulationCurrent,
                ],
            )
            &&& list(FsrPassKind::LumaInstability).len() == 9 + 3
            &&& starts_with(
                list(FsrPassKind::LumaInstability),
                seq![
                    FsrResourceName::InputExposure,
                    FsrResourceName::DilatedReactiveMasks,
                    FsrResourceName::OutputDilatedMotionVectors,
                    FsrResourceName::FrameInfo,
                    FsrResourceName::LumaHistoryPrevious,
                    FsrResourceName::FarthestDepthMip1,
                    FsrResourceName::Luma,
                ],
                seq![FsrResourceName::LumaHistoryCurrent, FsrResourceName::LumaInstability],
            )
            &&& list(FsrPassKind::Accumulate).len() == 12 + 3
            &&& starts_with(list(FsrPassKind::Accumulate), accumulate_reads, accumulate_writes)
            &&& list(FsrPassKind::AccumulateSharpen).len() == 12 + 3
            &&& starts_with(
                list(FsrPassKind::AccumulateSharpen),
                accumulate_reads,
                accumulate_writes,
            )
            &&& list(FsrPassKind::Rcas).len() == 3 + 3
            &&& starts_with(
                list(FsrPassKind::Rcas),
                seq![FsrResourceName::InputExposure, FsrResourceName::InternalUpscaledCurrent],
                seq![FsrResourceName::OutputColor],
            )
            &&& list(FsrPassKind::DebugView).len() == 6 + 3
            &&& starts_with(
                list(FsrPassKind::DebugView),
                seq![
                    FsrResourceName::DilatedReactiveMasks,
                    FsrResourceName::OutputDilatedMotionVectors,
                    FsrResourceName::OutputDilatedDepth,
                    FsrResourceName::InternalUpscaledCurrent,
                    FsrResourceName::InputExposure,
                ],
                seq![FsrResourceName::OutputColor],
            )
        }),
{
    law_context_options_are_bits(flags);
}

/// Whether an access writes one level of the mip chain, and nothing else.
pub open spec fn writes_level(access: ResourceAccess, level: int) -> bool {
    &&& access.name == FsrResourceName::SpdMips
    &&& access.access_type == AccessType::Uav
    &&& access.desc is Some
    &&& access.desc->0.base_mip_level == level
    &&& access.desc->0.mip_level_count == 1
}

/// What the passes bind that generate a mip chain at once: what the shader reads, the counter, and
/// the six levels in order.
pub proof fn law_pyramid_bindings(flags: FsrContextFlags, profile: FormatProfile, level: u32)
    requires
        profile != FormatProfile::Core,
    ensures
        ({
            let luma = FsrPassKind::LumaPyramid.profile_accesses(flags, profile, level);
            let shading = FsrPassKind::ShadingChangePyramid.profile_accesses(flags, profile, level);
            &&& luma.len() == 4 + 6 + 1 + 3
            &&& starts_with(
                luma,
                seq![FsrResourceName::Luma, FsrResourceName::FarthestDepth],
                seq![FsrResourceName::SpdAtomicCount, FsrResourceName::FrameInfo],
            )
            &&& forall|k: int| 0 <= k < 6 ==> writes_level(#[trigger] luma[4 + k], k)
            &&& luma[10].name == FsrResourceName::FarthestDepthMip1
            &&& luma[10].access_type == AccessType::Uav
            &&& luma[10].desc is None
            &&& shading.len() == 5 + 6 + 3
            &&& starts_with(
                shading,
                seq![
                    FsrResourceName::Luma,
                    FsrResourceName::PreviousLuma,
                    FsrResourceName::OutputDilatedMotionVectors,
                    FsrResourceName::InputExposure,
                ],
                seq![FsrResourceName::SpdAtomicCount],
            )
            &&& forall|k: int| 0 <= k < 6 ==> writes_level(#[trigger] shading[5 + k], k)
        }),
{
    let luma = FsrPassKind::LumaPyramid.profile_accesses(flags, profile, level);
    let shading = FsrPassKind::ShadingChangePyramid.profile_accesses(flags, profile, level);
    assert forall|k: int| 0 <= k < 6 implies writes_level(#[trigger] luma[4 + k], k) by {
        assert(k == 0 || k == 1 || k == 2 || k == 3 || k == 4 || k == 5);
    }
    assert forall|k: int| 0 <= k < 6 implies writes_level(#[trigger] shading[5 + k], k) by {
        assert(k == 0 || k == 1 || k == 2 || k == 3 || k == 4 || k == 5);
    }
}

/// What one level of a mip chain binds on `Core`: what the pass reads and counts with, what the
/// level is made from, and the level. The first level is made from the luma.
pub proof fn law_level_bindings(flags: FsrContextFlags, level: u32)
    ensures
        ({
            let core = FormatProfile::Core;
            let luma = FsrPassKind::LumaPyramid.profile_accesses(flags, core, level);
            let shading = FsrPassKind::ShadingChangePyramid.profile_accesses(flags, core, level);
            let made_from = |access: ResourceAccess|
                {
                    &&& access.access_type == AccessType::Srv
                    &&& level == 0 ==> access.name == FsrResourceName::Luma && access.desc is None
                    &&& level > 0 ==> {
                        &&& access.name == FsrResourceName::SpdMips
                        &&& access.desc is Some
                        &&& access.desc->0.base_mip_level == level - 1
                        &&& access.desc->0.mip_level_count == 1
                    }
                };
            &&& luma.len() == 4 + 2 + 1 + 3
            &&& starts_with(
                luma,
                seq![FsrResourceName::Luma, FsrResourceName::FarthestDepth],
                seq![FsrResourceName::SpdAtomicCount, FsrResourceName::FrameInfo],
            )
            &&& made_from(luma[4])
            &&& writes_level(luma[5], level as int)
            &&& luma[6].name == FsrResourceName::FarthestDepthMip1
            &&& luma[6].access_type == AccessType::Uav
            &&& luma[6].desc is None
            &&& shading.len() == 5 + 2 + 3
            &&& starts_with(
                shading,
                seq![
                    FsrResourceName::Luma,
                    FsrResourceName::PreviousLuma,
                    FsrResourceName::OutputDilatedMotionVectors,
                    FsrResourceName::InputExposure,
                ],
                seq![FsrResourceName::SpdAtomicCount],
            )
            &&& made_from(shading[5])
            &&& writes_level(shading[6], level as int)
        }),
{
}

/// Every pass runs the shader that was compiled for it.
pub proof fn law_own_shader(shaders: Shaders)
    ensures
        FsrPassKind::PrepareInputs.shader_bytes(shaders) == shaders.prepare_inputs@,
        FsrPassKind::LumaPyramid.shader_bytes(shaders) == shaders.luma_pyramid@,
        FsrPassKind::ShadingChangePyramid.shader_bytes(shaders) == shaders.shading_change_pyramid@,
        FsrPassKind::ShadingChange.shader_bytes(shaders) == shaders.shading_change@,
        FsrPassKind::PrepareReactivity.shader_bytes(shaders) == shaders.prepare_reactivity@,
        FsrPassKind::LumaInstability.shader_bytes(shaders) == shaders.luma_instability@,
        FsrPassKind::Accumulate.shader_bytes(shaders) == shaders.accumulate@,
        FsrPassKind::AccumulateSharpen.shader_bytes(shaders) == shaders.accumulate_sharpen@,
        FsrPassKind::Rcas.shader_bytes(shaders) == shaders.rcas@,
        FsrPassKind::DebugView.shader_bytes(shaders) == shaders.debug_view@,
{
}

/// Every label starts with what all labels start with, followed by the words of the pass's name.
pub proof fn law_pass_labels(kind: FsrPassKind)
    ensures
        kind.label_text().take(5) == "FSR3 "@,
        FsrPassKind::PrepareInputs.label_text().skip(5) == "Prepare Inputs"@,
        FsrPassKind::LumaPyramid.label_text().skip(5) == "Luma Pyramid"@,
        FsrPassKind::ShadingChangePyramid.label_text().skip(5) == "Shading Change Pyramid"@,
        FsrPassKind::ShadingChange.label_text().skip(5) == "Shading Change"@,
        FsrPassKind::PrepareReactivity.label_text().skip(5) == "Prepare Reactivity"@,
        FsrPassKind::LumaInstability.label_text().skip(5) == "Luma Instability"@,
        FsrPassKind::Accumulate.label_text().skip(5) == "Accumulate"@,
        FsrPassKind::AccumulateSharpen.label_text().skip(5) == "Accumulate Sharpen"@,
        FsrPassKind::Rcas.label_text().skip(5) == "RCAS"@,
        FsrPassKind::DebugView.label_text().skip(5) == "Debug View"@,
        FsrPassKind::GenerateReactive.label_text().skip(5) == "Generate Reactive"@,
{
    reveal_strlit("FSR3 ");
    reveal_strlit("FSR3 Prepare Inputs");
    reveal_strlit("Prepare Inputs");
    assert("FSR3 Prepare Inputs"@.take(5) =~= "FSR3 "@);
    assert("FSR3 Prepare Inputs"@.skip(5) =~= "Prepare Inputs"@);
    reveal_strlit("FSR3 Luma Pyramid");
    reveal_strlit("Luma Pyramid");
    assert("FSR3 Luma Pyramid"@.take(5) =~= "FSR3 "@);
    assert("FSR3 Luma Pyramid"@.skip(5) =~= "Luma Pyramid"@);
    reveal_strlit("FSR3 Shading Change Pyramid");
    reveal_strlit("Shading Change Pyramid");
    assert("FSR3 Shading Change Pyramid"@.take(5) =~= "FSR3 "@);
    assert("FSR3 Shading Change Pyramid"@.skip(5) =~= "Shading Change Pyramid"@);
    reveal_strlit("FSR3 Shading Change");
    reveal_strlit("Shading Change");
    assert("FSR3 Shading Change"@.take(5) =~= "FSR3 "@);
    assert("FSR3 Shading Change"@.skip(5) =~= "Shading Change"@);
    reveal_strlit("FSR3 Prepare Reactivity");
    reveal_strlit("Prepare Reactivity");
    assert("FSR3 Prepare Reactivity"@.take(5) =~= "FSR3 "@);
    assert("FSR3 Prepare Reactivity"@.skip(5) =~= "Prepare Reactivity"@);
    reveal_strlit("FSR3 Luma Instability");
    reveal_strlit("Luma Instability");
    assert("FSR3 Luma Instability"@.take(5) =~= "FSR3 "@);
    assert("FSR3 Luma Instability"@.skip(5) =~= "Luma Instability"@);
    reveal_strlit("FSR3 Accumulate");
    reveal_strlit("Accumulate");
    assert("FSR3 Accumulate"@.take(5) =~= "FSR3 "@);
    assert("FSR3 Accumulate"@.skip(5) =~= "Accumulate"@);
    reveal_strlit("FSR3 Accumulate Sharpen");
    reveal_strlit("Accumulate Sharpen");
    assert("FSR3 Accumulate Sharpen"@.take(5) =~= "FSR3 "@);
    assert("FSR3 Accumulate Sharpen"@.skip(5) =~= "Accumulate Sharpen"@);
    reveal_strlit("FSR3 RCAS");
    reveal_strlit("RCAS");
    assert("FSR3 RCAS"@.take(5) =~= "FSR3 "@);
    assert("FSR3 RCAS"@.skip(5) =~= "RCAS"@);
    reveal_strlit("FSR3 Debug View");
    reveal_strlit("Debug View");
    assert("FSR3 Debug View"@.take(5) =~= "FSR3 "@);
    assert("FSR3 Debug View"@.skip(5) =~= "Debug View"@);
    reveal_strlit("FSR3 Generate Reactive");
    reveal_strlit("Generate Reactive");
    assert("FSR3 Generate Reactive"@.take(5) =~= "FSR3 "@);
    assert("FSR3 Generate Reactive"@.skip(5) =~= "Generate Reactive"@);
}

} // verus!
