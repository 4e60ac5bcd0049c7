//! Storage-texture capability profiles and the caller-facing formats they
//! imply.
//!
//! WebGPU restricts which texture formats may be bound as storage textures, and
//! the restriction depends on the access mode and on optional device features.
//! A device is classified into a [`FormatProfile`] so the upscaler can select
//! formats (and matching shader variants) that the device actually supports.

use crate::texture::{FormatFlags, TextureFormat, TextureUsages};
use vstd::prelude::*;
use vstd::string::StringExecFns;

verus! {

/// The storage-texture capability level a device is driven at, from most
/// restrictive to least.
#[derive(Debug, Clone, Copy, PartialEq, Eq, Structural)]
pub enum FormatProfile {
    /// Baseline WebGPU (`core-features-and-limits`). Read-write storage is
    /// limited to the `r32{uint,sint,float}` formats, and 1-/2-channel formats
    /// narrower than 32 bits are unavailable as storage textures.
    Core,
    /// The `texture-formats-tier2` capability set. Wide formats gain
    /// read-write access; `rg16float` read-write remains unavailable.
    Tier2,
    /// Native desktop, with the adapter reporting every capability the
    /// upscaler uses, including `rg16float` read-write storage.
    Native,
}

/// The device features that the choice of a profile depends on.
#[derive(Debug, Clone, Copy, PartialEq, Eq, Structural)]
pub struct Features {
    /// `TEXTURE_ADAPTER_SPECIFIC_FORMAT_FEATURES`: storage bindings are
    /// validated against what the adapter reports of each format.
    pub texture_adapter_specific_format_features: bool,
}

/// What an adapter reports of one format.
#[derive(Debug, Clone, Copy, PartialEq, Eq, Structural)]
pub struct TextureFormatFeatures {
    /// The usages that textures of the format can have, as bits of [`TextureUsages`].
    pub allowed_usages: u32,
    /// What the format supports, as bits of [`FormatFlags`].
    pub flags: u32,
}

/// What an adapter reports, format by format. A format that is not listed supports nothing.
#[derive(Debug)]
pub struct AdapterFormats {
    /// The formats asked about, each with the adapter's report. Of two entries for one format
    /// the first counts.
    pub entries: Vec<(TextureFormat, TextureFormatFeatures)>,
}

/// A capability that a profile requires and that is not there.
#[derive(Debug, Clone, Copy, PartialEq, Eq, Structural)]
pub enum MissingCapability {
    /// The device lacks `TEXTURE_ADAPTER_SPECIFIC_FORMAT_FEATURES`.
    AdapterSpecificFormatFeatures,
    /// The adapter does not report these flags of a format.
    Flags {
        /// The format.
        format: TextureFormat,
        /// What it lacks, as bits of [`FormatFlags`].
        missing: u32,
    },
    /// The adapter does not allow these usages of a format.
    Usages {
        /// The format.
        format: TextureFormat,
        /// What it does not allow, as bits of [`TextureUsages`].
        missing: u32,
    },
}

/// The usages that every format of a profile's requirements needs.
pub open spec fn required_usages() -> u32 {
    TextureUsages::TEXTURE_BINDING | TextureUsages::STORAGE_BINDING
}

/// What `reported` lacks of a format for which `required_flags` are needed: first the flags,
/// then the usages.
pub open spec fn format_lack(
    format: TextureFormat,
    required_flags: u32,
    reported: TextureFormatFeatures,
) -> Option<MissingCapability> {
    if required_flags & !reported.flags != 0 {
        Some(MissingCapability::Flags { format, missing: required_flags & !reported.flags })
    } else if reported.allowed_usages & required_usages() != required_usages() {
        Some(
            MissingCapability::Usages {
                format,
                missing: required_usages() & !reported.allowed_usages,
            },
        )
    } else {
        None
    }
}

/// The report on `format` in a list of reports: the first one, or a report of nothing.
pub open spec fn reported(
    entries: Seq<(TextureFormat, TextureFormatFeatures)>,
    format: TextureFormat,
) -> TextureFormatFeatures
    decreases entries.len(),
{
    if entries.len() == 0 {
        TextureFormatFeatures { allowed_usages: 0, flags: 0 }
    } else if entries[0].0 == format {
        entries[0].1
    } else {
        reported(entries.skip(1), format)
    }
}

/// The first lack among `requirements`.
pub open spec fn first_lack(
    requirements: Seq<(TextureFormat, u32)>,
    entries: Seq<(TextureFormat, TextureFormatFeatures)>,
) -> Option<MissingCapability>
    decreases requirements.len(),
{
    if requirements.len() == 0 {
        None
    } else {
        let (format, flags) = requirements[0];
        match format_lack(format, flags, reported(entries, format)) {
            Some(lack) => Some(lack),
            None => first_lack(requirements.skip(1), entries),
        }
    }
}

impl AdapterFormats {
    /// What the adapter reports of `format`.
    pub fn format_features(&self, format: TextureFormat) -> (result: TextureFormatFeatures)
        ensures
            result == reported(self.entries@, format),
    {
        let mut i: usize = 0;
        assert(self.entries@.skip(0) =~= self.entries@);
        while i < self.entries.len()
            invariant
                i <= self.entries.len(),
                reported(self.entries@.skip(i as int), format) == reported(self.entries@, format),
            decreases self.entries.len() - i,
        {
            let (candidate, features) = self.entries[i];
            if candidate == format {
                return features;
            }
            assert(self.entries@.skip(i as int).skip(1) =~= self.entries@.skip(i + 1));
            i = i + 1;
        }
        TextureFormatFeatures { allowed_usages: 0, flags: 0 }
    }
}

/// How `wgpu::TextureFormatFeatureFlags` with the given bits prints itself for debugging.
pub uninterp spec fn format_flags_text(bits: u32) -> Seq<char>;

/// How `wgpu::TextureUsages` with the given bits prints itself for debugging.
pub uninterp spec fn texture_usages_text(bits: u32) -> Seq<char>;

/// `Debug` of `wgpu::TextureFormatFeatureFlags`. The text depends on the bits alone; which text
/// it is, is left to wgpu.
#[verifier::external_body]
fn format_flags_debug(bits: u32) -> (result: String)
    ensures
        result@ == format_flags_text(bits),
{
    format!("{:?}", wgpu::TextureFormatFeatureFlags::from_bits_retain(bits))
}

/// `Debug` of `wgpu::TextureUsages`. The text depends on the bits alone; which text it is, is
/// left to wgpu.
#[verifier::external_body]
fn texture_usages_debug(bits: u32) -> (result: String)
    ensures
        result@ == texture_usages_text(bits),
{
    format!("{:?}", wgpu::TextureUsages::from_bits_retain(bits))
}

impl FormatProfile {
    /// The name of the profile.
    pub open spec fn name_text(self) -> Seq<char> {
        match self {
            FormatProfile::Core => "Core"@,
            FormatProfile::Tier2 => "Tier2"@,
            FormatProfile::Native => "Native"@,
        }
    }

    /// The profile's place in the order from most restrictive to least.
    pub open spec fn rank(self) -> int {
        match self {
            FormatProfile::Core => 0,
            FormatProfile::Tier2 => 1,
            FormatProfile::Native => 2,
        }
    }

    /// The formats that this profile needs more of than baseline WebGPU gives, each with the
    /// flags that it needs.
    pub open spec fn requirements(self) -> Seq<(TextureFormat, u32)> {
        let filtered_read_write = FormatFlags::FILTERABLE | FormatFlags::STORAGE_READ_WRITE;
        let common = seq![
            (
                TextureFormat::R8Unorm,
                FormatFlags::FILTERABLE | FormatFlags::STORAGE_WRITE_ONLY
                    | FormatFlags::STORAGE_READ_WRITE,
            ),
            (
                TextureFormat::R16Float,
                FormatFlags::FILTERABLE | FormatFlags::STORAGE_WRITE_ONLY,
            ),
            (TextureFormat::Rg16Float, FormatFlags::STORAGE_WRITE_ONLY),
        ];
        match self {
            FormatProfile::Core => seq![],
            FormatProfile::Tier2 => common.push((TextureFormat::Rgba16Float, filtered_read_write)),
            FormatProfile::Native => common.push((TextureFormat::Rg16Float, filtered_read_write)),
        }
    }

    /// The first capability that this profile requires and that is not there.
    pub open spec fn lack(
        self,
        device: Features,
        entries: Seq<(TextureFormat, TextureFormatFeatures)>,
    ) -> Option<MissingCapability> {
        if self == FormatProfile::Core {
            None
        } else if !device.texture_adapter_specific_format_features {
            Some(MissingCapability::AdapterSpecificFormatFeatures)
        } else {
            first_lack(self.requirements(), entries)
        }
    }

    /// The richest profile of which nothing is missing.
    pub open spec fn richest(
        device: Features,
        entries: Seq<(TextureFormat, TextureFormatFeatures)>,
    ) -> FormatProfile {
        if FormatProfile::Native.lack(device, entries) is None {
            FormatProfile::Native
        } else if FormatProfile::Tier2.lack(device, entries) is None {
            FormatProfile::Tier2
        } else {
            FormatProfile::Core
        }
    }

    /// What a missing capability is reported as, given how wgpu prints what is missing.
    pub open spec fn lack_text(self, lack: MissingCapability, missing: Seq<char>) -> Seq<char> {
        match lack {
            MissingCapability::AdapterSpecificFormatFeatures => "FormatProfile::"@
                + self.name_text()
                + " requires the TEXTURE_ADAPTER_SPECIFIC_FORMAT_FEATURES device feature"@,
            MissingCapability::Flags { format, .. } => "FormatProfile::"@ + self.name_text()
                + " requires "@ + format.name_text() + " to support "@ + missing
                + ", which the adapter does not report"@,
            MissingCapability::Usages { format, .. } => "FormatProfile::"@ + self.name_text()
                + " requires "@ + format.name_text() + " to allow "@ + missing
                + ", which the adapter does not report"@,
        }
    }

    /// The name of the profile.
    pub fn name(self) -> (result: &'static str)
        ensures
            result@ == self.name_text(),
    {
        match self {
            FormatProfile::Core => "Core",
            FormatProfile::Tier2 => "Tier2",
            FormatProfile::Native => "Native",
        }
    }

    /// The richest profile supported by `device`, created from `adapter`.
    ///
    /// `Tier2` and `Native` require the device feature
    /// `TEXTURE_ADAPTER_SPECIFIC_FORMAT_FEATURES`. With that feature enabled,
    /// storage bindings are validated against the capabilities the adapter
    /// reports per format, so each profile's required capabilities are
    /// verified rather than assumed from the feature bit. An adapter that
    /// reports everything except `rg16float` read-write storage (e.g. Metal)
    /// lands on `Tier2`.
    pub fn from_adapter(adapter: &AdapterFormats, device: Features) -> (result: FormatProfile)
        ensures
            result == FormatProfile::richest(device, adapter.entries@),
    {
        FormatProfile::classify(device, adapter)
    }

    /// Whether `device`, created from `adapter`, can run at this profile.
    pub fn supported_by(self, adapter: &AdapterFormats, device: Features) -> (result: bool)
        ensures
            result == (self.lack(device, adapter.entries@) is None),
    {
        self.missing_capability(device, adapter).is_none()
    }

    /// The richest profile that passes [`FormatProfile::check_support`].
    pub fn classify(device: Features, adapter: &AdapterFormats) -> (result: FormatProfile)
        ensures
            result == FormatProfile::richest(device, adapter.entries@),
    {
        if FormatProfile::Native.missing_capability(device, adapter).is_none() {
            return FormatProfile::Native;
        }
        if FormatProfile::Tier2.missing_capability(device, adapter).is_none() {
            return FormatProfile::Tier2;
        }
        FormatProfile::Core
    }

    /// The first capability this profile requires that is missing. `Core` needs only baseline
    /// WebGPU and always passes.
    pub fn missing_capability(self, device: Features, adapter: &AdapterFormats) -> (result: Option<
        MissingCapability,
    >)
        ensures
            result == self.lack(device, adapter.entries@),
    {
        if self == FormatProfile::Core {
            return None;
        }
        if !device.texture_adapter_specific_format_features {
            return Some(MissingCapability::AdapterSpecificFormatFeatures);
        }
        let requirements = self.format_requirements();
        let usages: u32 = TextureUsages::TEXTURE_BINDING | TextureUsages::STORAGE_BINDING;
        let mut i: usize = 0;
        assert(requirements@.skip(0) =~= requirements@);
        while i < requirements.len()
            invariant
                i <= requirements.len(),
                usages == required_usages(),
                self.lack(device, adapter.entries@) == first_lack(
                    requirements@.skip(i as int),
                    adapter.entries@,
                ),
            decreases requirements.len() - i,
        {
            let (format, required_flags) = requirements[i];
            let features = adapter.format_features(format);
            let missing: u32 = required_flags & !features.flags;
            if missing != 0 {
                return Some(MissingCapability::Flags { format, missing });
            }
            if features.allowed_usages & usages != usages {
                return Some(
                    MissingCapability::Usages { format, missing: usages & !features.allowed_usages },
                );
            }
            assert(requirements@.skip(i as int).skip(1) =~= requirements@.skip(i + 1));
            i = i + 1;
        }
        None
    }

    /// What a missing capability is reported as, given how wgpu prints what is missing.
    pub fn describe_missing(self, lack: MissingCapability, missing: &str) -> (result: String)
        ensures
            result@ == self.lack_text(lack, missing@),
    {
        let mut text = "FormatProfile::".to_owned();
        text.append(self.name());
        match lack {
            MissingCapability::AdapterSpecificFormatFeatures => {
                text.append(" requires the TEXTURE_ADAPTER_SPECIFIC_FORMAT_FEATURES device feature");
            },
            MissingCapability::Flags { format, .. } => {
                text.append(" requires ");
                text.append(format.name().as_str());
                text.append(" to support ");
                text.append(missing);
                text.append(", which the adapter does not report");
            },
            MissingCapability::Usages { format, .. } => {
                text.append(" requires ");
                text.append(format.name().as_str());
                text.append(" to allow ");
                text.append(missing);
                text.append(", which the adapter does not report");
            },
        }
        text
    }

    /// What is said of the first capability that this profile lacks, where it lacks one.
    pub open spec fn support_message(
        self,
        device: Features,
        entries: Seq<(TextureFormat, TextureFormatFeatures)>,
    ) -> Seq<char> {
        let lack = self.lack(device, entries)->0;
        self.lack_text(
            lack,
            match lack {
                MissingCapability::AdapterSpecificFormatFeatures => ""@,
                MissingCapability::Flags { missing, .. } => format_flags_text(missing),
                MissingCapability::Usages { missing, .. } => texture_usages_text(missing),
            },
        )
    }

    /// Check every capability this profile requires, describing the first
    /// missing one. `Core` needs only baseline WebGPU and always passes.
    pub fn check_support(self, device: Features, adapter: &AdapterFormats) -> (result: Result<
        (),
        String,
    >)
        ensures
            result is Ok <==> self.lack(device, adapter.entries@) is None,
            result matches Err(text) ==> text@ == self.support_message(
                device,
                adapter.entries@,
            ),
    {
        match self.missing_capability(device, adapter) {
            None => Ok(()),
            Some(lack) => {
                let missing = match lack {
                    MissingCapability::AdapterSpecificFormatFeatures => "".to_owned(),
                    MissingCapability::Flags { missing, .. } => format_flags_debug(missing),
                    MissingCapability::Usages { missing, .. } => texture_usages_debug(missing),
                };
                Err(self.describe_missing(lack, missing.as_str()))
            },
        }
    }

    /// The per-format capabilities this profile requires beyond baseline
    /// WebGPU, checked against what the adapter reports.
    pub fn format_requirements(self) -> (result: Vec<(TextureFormat, u32)>)
        ensures
            result@ == self.requirements(),
    {
        // Shared by Tier2 and Native: accumulation / shading change (r8unorm
        // write-only, linearly sampled), new locks (r8unorm read-write), luma
        // and the fp16 intermediates (r16float write-only, linearly sampled),
        // dilated motion vectors (rg16float write-only, point-sampled).
        let mut result: Vec<(TextureFormat, u32)> = Vec::new();
        if self == FormatProfile::Core {
            assert(result@ =~= self.requirements());
            return result;
        }
        result.push(
            (
                TextureFormat::R8Unorm,
                FormatFlags::FILTERABLE | FormatFlags::STORAGE_WRITE_ONLY
                    | FormatFlags::STORAGE_READ_WRITE,
            ),
        );
        result.push(
            (TextureFormat::R16Float, FormatFlags::FILTERABLE | FormatFlags::STORAGE_WRITE_ONLY),
        );
        result.push((TextureFormat::Rg16Float, FormatFlags::STORAGE_WRITE_ONLY));

        // The profiles differ only in the SPD mip chain, which is read-write
        // and linearly sampled: rg16float on Native, widened to rgba16float
        // on Tier2.
        let spd: TextureFormat = if self == FormatProfile::Native {
            TextureFormat::Rg16Float
        } else {
            TextureFormat::Rgba16Float
        };
        result.push((spd, FormatFlags::FILTERABLE | FormatFlags::STORAGE_READ_WRITE));
        assert(result@ =~= self.requirements());
        result
    }

    /// The formats a caller must use for the textures it provides to a context
    /// running at this profile.
    pub fn formats(self) -> (result: FsrFormats)
        ensures
            result == FsrFormats::of(self),
    {
        FsrFormats {
            color: TextureFormat::Rgba16Float,
            depth: TextureFormat::Depth32Float,
            motion_vectors: TextureFormat::Rg16Float,
            output: TextureFormat::Rgba16Float,
            dilated_depth: TextureFormat::R32Float,
            // `rg16float` is unavailable as a storage texture on `Core`, so
            // the dilated motion vectors widen to the 32-bit two-channel
            // format. They are only ever point-sampled, so this needs no
            // filtering feature.
            dilated_motion_vectors: match self {
                FormatProfile::Core => TextureFormat::Rg32Float,
                FormatProfile::Tier2 => TextureFormat::Rg16Float,
                FormatProfile::Native => TextureFormat::Rg16Float,
            },
        }
    }

    /// The profile for a new context: the requested one, which the device must support, or the
    /// richest that it supports where none is requested.
    pub fn resolve(
        requested: Option<FormatProfile>,
        device: Features,
        adapter: &AdapterFormats,
    ) -> (result: Result<FormatProfile, String>)
        ensures
            requested is None ==> result == Ok::<FormatProfile, String>(
                FormatProfile::richest(device, adapter.entries@),
            ),
            requested matches Some(profile) ==> {
                &&& result is Ok <==> profile.lack(device, adapter.entries@) is None
                &&& result matches Ok(chosen) ==> chosen == profile
                &&& result matches Err(text) ==> text@ == profile.support_message(
                    device,
                    adapter.entries@,
                )
            },
    {
        match requested {
            None => Ok(FormatProfile::classify(device, adapter)),
            Some(profile) => match profile.check_support(device, adapter) {
                Ok(()) => Ok(profile),
                Err(text) => Err(text),
            },
        }
    }
}

/// The formats the caller must use for each texture it provides, for a given
/// [`FormatProfile`].
///
/// Obtainable from a [`FormatProfile`] before a context exists (via
/// [`FormatProfile::formats`]), which is required when allocating the textures
/// that will be passed into the context. Includes the fixed-format textures as
/// well as the variable ones so callers have a single authoritative source.
#[derive(Debug, Clone, Copy, PartialEq, Eq, Structural)]
pub struct FsrFormats {
    /// Input color (current frame), at render resolution.
    pub color: TextureFormat,
    /// Input depth, at render resolution.
    pub depth: TextureFormat,
    /// Input motion vectors.
    pub motion_vectors: TextureFormat,
    /// Output color, at presentation resolution.
    pub output: TextureFormat,
    /// Shared dilated depth output, at render resolution.
    pub dilated_depth: TextureFormat,
    /// Shared dilated motion vectors output, at render resolution. This is the
    /// only caller-provided format that changes with the profile.
    pub dilated_motion_vectors: TextureFormat,
}

impl FsrFormats {
    /// The formats for a profile.
    pub open spec fn of(profile: FormatProfile) -> FsrFormats {
        FsrFormats {
            color: TextureFormat::Rgba16Float,
            depth: TextureFormat::Depth32Float,
            motion_vectors: TextureFormat::Rg16Float,
            output: TextureFormat::Rgba16Float,
            dilated_depth: TextureFormat::R32Float,
            dilated_motion_vectors: if profile == FormatProfile::Core {
                TextureFormat::Rg32Float
            } else {
                TextureFormat::Rg16Float
            },
        }
    }
}

/// Detection settles on a profile that is supported, and no richer profile is.
pub proof fn law_richest(
    profile: FormatProfile,
    device: Features,
    entries: Seq<(TextureFormat, TextureFormatFeatures)>,
)
    ensures
        FormatProfile::richest(device, entries).lack(device, entries) is None,
        profile.lack(device, entries) is None ==> profile.rank() <= FormatProfile::richest(
            device,
            entries,
        ).rank(),
{
}

/// `Core` is supported by every device, and a device without adapter-specific format features
/// supports nothing else, whatever its adapter reports.
pub proof fn law_core_fallback(
    profile: FormatProfile,
    device: Features,
    entries: Seq<(TextureFormat, TextureFormatFeatures)>,
)
    ensures
        FormatProfile::Core.lack(device, entries) is None,
        !device.texture_adapter_specific_format_features ==> {
            &&& profile.lack(device, entries) is None <==> profile == FormatProfile::Core
            &&& FormatProfile::richest(device, entries) == FormatProfile::Core
        },
{
}

/// A supported profile has every flag and usage it requires reported for every format.
pub proof fn law_supported_is_complete(
    profile: FormatProfile,
    device: Features,
    entries: Seq<(TextureFormat, TextureFormatFeatures)>,
)
    requires
        profile != FormatProfile::Core,
        profile.lack(device, entries) is None,
    ensures
        device.texture_adapter_specific_format_features,
        forall|i: int|
            0 <= i < profile.requirements().len() ==> {
                let (format, flags) = #[trigger] profile.requirements()[i];
                &&& flags & !reported(entries, format).flags == 0
                &&& reported(entries, format).allowed_usages & required_usages()
                    == required_usages()
            },
{
    lemma_no_lack(profile.requirements(), entries);
}

/// Where there is no first lack, there is none at all.
proof fn lemma_no_lack(
    requirements: Seq<(TextureFormat, u32)>,
    entries: Seq<(TextureFormat, TextureFormatFeatures)>,
)
    requires
        first_lack(requirements, entries) is None,
    ensures
        forall|i: int|
            0 <= i < requirements.len() ==> format_lack(
                (#[trigger] requirements[i]).0,
                requirements[i].1,
                reported(entries, requirements[i].0),
            ) is None,
    decreases requirements.len(),
{
    if requirements.len() > 0 {
        lemma_no_lack(requirements.skip(1), entries);
        assert forall|i: int| 0 <= i < requirements.len() implies format_lack(
            (#[trigger] requirements[i]).0,
            requirements[i].1,
            reported(entries, requirements[i].0),
        ) is None by {
            if i > 0 {
                assert(requirements.skip(1)[i - 1] == requirements[i]);
            }
        }
    }
}

/// Only the dilated motion vectors change their format with the profile, and only for `Core`.
pub proof fn law_fixed_formats(a: FormatProfile, b: FormatProfile)
    ensures
        FsrFormats::of(a).color == FsrFormats::of(b).color,
        FsrFormats::of(a).depth == FsrFormats::of(b).depth,
        FsrFormats::of(a).motion_vectors == FsrFormats::of(b).motion_vectors,
        FsrFormats::of(a).output == FsrFormats::of(b).output,
        FsrFormats::of(a).dilated_depth == FsrFormats::of(b).dilated_depth,
        FsrFormats::of(a).dilated_motion_vectors == FsrFormats::of(b).dilated_motion_vectors
            <==> (a == FormatProfile::Core <==> b == FormatProfile::Core),
{
}

/// The bits that a profile asks an adapter to report of a format, beyond baseline WebGPU: 1 to
/// filter it, 128 to store to it, and 256 to read and store; what it asks is the sum of these.
pub proof fn law_required_flags(profile: FormatProfile, format: TextureFormat)
    ensures
        ({
            let list = profile.requirements();
            let asks = |flags: u32| list.contains((format, flags));
            let wide = profile != FormatProfile::Core;
            &&& asks(385) <==> wide && format == TextureFormat::R8Unorm
            &&& asks(129) <==> wide && format == TextureFormat::R16Float
            &&& asks(128) <==> wide && format == TextureFormat::Rg16Float
            &&& asks(257) <==> profile == FormatProfile::Tier2 && format
                == TextureFormat::Rgba16Float || profile == FormatProfile::Native && format
                == TextureFormat::Rg16Float
            &&& list.len() == (if wide {
                4int
            } else {
                0int
            })
        }),
{
    assert((1u32 | 128u32 | 256u32) == 385u32) by (bit_vector);
    assert((1u32 | 128u32) == 129u32) by (bit_vector);
    assert((1u32 | 256u32) == 257u32) by (bit_vector);
    let list = profile.requirements();
    if profile != FormatProfile::Core {
        assert(list[0] == (TextureFormat::R8Unorm, 385u32));
        assert(list[1] == (TextureFormat::R16Float, 129u32));
        assert(list[2] == (TextureFormat::Rg16Float, 128u32));
        assert(list[3].1 == 257u32);
        assert(list.contains(list[0]));
        assert(list.contains(list[1]));
        assert(list.contains(list[2]));
        assert(list.contains(list[3]));
    }
}

/// Of the reports on a format the first one counts, and a format without one supports nothing.
pub proof fn law_first_report_counts(
    entries: Seq<(TextureFormat, TextureFormatFeatures)>,
    format: TextureFormat,
    i: int,
)
    ensures
        (forall|k: int| 0 <= k < entries.len() ==> (#[trigger] entries[k]).0 != format) ==> {
            &&& reported(entries, format).flags == 0
            &&& reported(entries, format).allowed_usages == 0
        },
        0 <= i < entries.len() && entries[i].0 == format && (forall|k: int|
            0 <= k < i ==> (#[trigger] entries[k]).0 != format) ==> reported(entries, format)
            == entries[i].1,
    decreases entries.len(),
{
    if entries.len() > 0 && entries[0].0 != format {
        law_first_report_counts(entries.skip(1), format, i - 1);
        assert(forall|k: int|
            0 <= k < entries.len() - 1 ==> #[trigger] entries.skip(1)[k] == entries[k + 1]);
    }
}

/// Whether an adapter's report on a format has every required flag, and allows the format to be
/// sampled (bit 2) and stored to (bit 3).
pub open spec fn suffices(reported: TextureFormatFeatures, required_flags: u32) -> bool {
    &&& reported.flags & required_flags == required_flags
    &&& reported.allowed_usages / 4 % 2 == 1
    &&& reported.allowed_usages / 8 % 2 == 1
}

/// Nothing is missing of one format exactly where its report suffices; and what is said to be
/// missing was required and is not reported.
pub proof fn law_format_lack(
    format: TextureFormat,
    required_flags: u32,
    reported: TextureFormatFeatures,
)
    ensures
        format_lack(format, required_flags, reported) is None <==> suffices(
            reported,
            required_flags,
        ),
        match format_lack(format, required_flags, reported) {
            Some(MissingCapability::Flags { format: named, missing }) => {
                &&& named == format
                &&& missing != 0
                &&& missing & required_flags == missing
                &&& missing & reported.flags == 0
                &&& missing | (reported.flags & required_flags) == required_flags
            },
            Some(MissingCapability::Usages { format: named, missing }) => {
                &&& named == format
                &&& reported.flags & required_flags == required_flags
                &&& missing == (if reported.allowed_usages / 4 % 2 == 0 {
                    4int
                } else {
                    0
                }) + (if reported.allowed_usages / 8 % 2 == 0 {
                    8int
                } else {
                    0
                })
            },
            Some(MissingCapability::AdapterSpecificFormatFeatures) => false,
            None => true,
        },
{
    let f = reported.flags;
    let u = reported.allowed_usages;
    let r = required_flags;
    assert((r & !f == 0) == (f & r == r)) by (bit_vector);
    assert((r & !f) & r == (r & !f) && (r & !f) & f == 0 && ((r & !f) | (f & r)) == r)
        by (bit_vector);
    assert((u & (4u32 | 8u32) == (4u32 | 8u32)) == (u / 4 % 2 == 1 && u / 8 % 2 == 1))
        by (bit_vector);
    assert(((4u32 | 8u32) & !u) == (if u / 4 % 2 == 0 {
        4u32
    } else {
        0u32
    }) + (if u / 8 % 2 == 0 {
        8u32
    } else {
        0u32
    })) by (bit_vector);
}

/// A profile other than `Core` is supported exactly where the device has adapter-specific format
/// features and the report on every format of the profile's requirements suffices.
pub proof fn law_supported(
    profile: FormatProfile,
    device: Features,
    entries: Seq<(TextureFormat, TextureFormatFeatures)>,
)
    requires
        profile != FormatProfile::Core,
    ensures
        profile.lack(device, entries) is None <==> device.texture_adapter_specific_format_features
            && forall|i: int|
            0 <= i < profile.requirements().len() ==> suffices(
                reported(entries, (#[trigger] profile.requirements()[i]).0),
                profile.requirements()[i].1,
            ),
{
    let list = profile.requirements();
    if profile.lack(device, entries) is None {
        lemma_no_lack(list, entries);
        assert forall|i: int| 0 <= i < list.len() implies suffices(
            reported(entries, (#[trigger] list[i]).0),
            list[i].1,
        ) by {
            law_format_lack(list[i].0, list[i].1, reported(entries, list[i].0));
        }
    } else if device.texture_adapter_specific_format_features {
        let i = law_first_lack_is_real(list, entries);
        law_format_lack(list[i].0, list[i].1, reported(entries, list[i].0));
    }
}

/// Where something is missing, it is missing of the first requirement that the adapter does not
/// meet.
pub proof fn law_first_lack_is_real(
    requirements: Seq<(TextureFormat, u32)>,
    entries: Seq<(TextureFormat, TextureFormatFeatures)>,
) -> (i: int)
    requires
        first_lack(requirements, entries) is Some,
    ensures
        0 <= i < requirements.len(),
        first_lack(requirements, entries) == format_lack(
            requirements[i].0,
            requirements[i].1,
            reported(entries, requirements[i].0),
        ),
        forall|k: int|
            0 <= k < i ==> suffices(
                reported(entries, (#[trigger] requirements[k]).0),
                requirements[k].1,
            ),
    decreases requirements.len(),
{
    let (format, flags) = requirements[0];
    if format_lack(format, flags, reported(entries, format)) is Some {
        0
    } else {
        law_format_lack(format, flags, reported(entries, format));
        let rest = requirements.skip(1);
        let i = law_first_lack_is_real(rest, entries);
        assert forall|k: int| 0 <= k < i + 1 implies suffices(
            reported(entries, (#[trigger] requirements[k]).0),
            requirements[k].1,
        ) by {
            if k > 0 {
                assert(rest[k - 1] == requirements[k]);
            }
        }
        i + 1
    }
}

/// The formats that a caller's textures must have.
pub proof fn law_caller_formats(profile: FormatProfile)
    ensures
        FsrFormats::of(profile).color == TextureFormat::Rgba16Float,
        FsrFormats::of(profile).output == TextureFormat::Rgba16Float,
        FsrFormats::of(profile).depth == TextureFormat::Depth32Float,
        FsrFormats::of(profile).dilated_depth == TextureFormat::R32Float,
        FsrFormats::of(profile).motion_vectors == TextureFormat::Rg16Float,
        profile == FormatProfile::Core <==> FsrFormats::of(profile).dilated_motion_vectors
            == TextureFormat::Rg32Float,
        profile != FormatProfile::Core <==> FsrFormats::of(profile).dilated_motion_vectors
            == TextureFormat::Rg16Float,
{
}

/// A report of what is missing names the profile first, then the format, then what is missing of
/// it: to be supported where it is a flag, and to be allowed where it is a usage.
pub proof fn law_reports(profile: FormatProfile, lack: MissingCapability, missing: Seq<char>)
    ensures
        ({
            let name = match profile {
                FormatProfile::Core => "Core"@,
                FormatProfile::Tier2 => "Tier2"@,
                FormatProfile::Native => "Native"@,
            };
            let start = "FormatProfile::"@ + name + " requires "@;
            let end = ", which the adapter does not report"@;
            match lack {
                MissingCapability::AdapterSpecificFormatFeatures => profile.lack_text(lack, missing)
                    == start + "the TEXTURE_ADAPTER_SPECIFIC_FORMAT_FEATURES device feature"@,
                MissingCapability::Flags { format, .. } => profile.lack_text(lack, missing) == start
                    + format.name_text() + (" to support "@ + missing) + end,
                MissingCapability::Usages { format, .. } => profile.lack_text(lack, missing)
                    == start + format.name_text() + (" to allow "@ + missing) + end,
            }
        }),
{
    reveal_strlit(" requires ");
    reveal_strlit("the TEXTURE_ADAPTER_SPECIFIC_FORMAT_FEATURES device feature");
    reveal_strlit(" requires the TEXTURE_ADAPTER_SPECIFIC_FORMAT_FEATURES device feature");
    let start = "FormatProfile::"@ + profile.name_text() + " requires "@;
    let end = ", which the adapter does not report"@;
    match lack {
        MissingCapability::AdapterSpecificFormatFeatures => {
            assert(" requires "@ + "the TEXTURE_ADAPTER_SPECIFIC_FORMAT_FEATURES device feature"@
                =~= " requires the TEXTURE_ADAPTER_SPECIFIC_FORMAT_FEATURES device feature"@);
            assert(profile.lack_text(lack, missing) =~= start
                + "the TEXTURE_ADAPTER_SPECIFIC_FORMAT_FEATURES device feature"@);
        },
        MissingCapability::Flags { format, .. } => {
            assert(profile.lack_text(lack, missing) =~= start + format.name_text() + (
            " to support "@ + missing) + end);
        },
        MissingCapability::Usages { format, .. } => {
            assert(profile.lack_text(lack, missing) =~= start + format.name_text() + (" to allow "@
                + missing) + end);
        },
    }
}

} // verus!
