use wgpu_ffx::format_profile::{
    AdapterFormats, Features, FormatProfile, MissingCapability, TextureFormatFeatures,
};
use wgpu_ffx::texture::{AstcBlock, AstcChannel, FormatFlags, TextureFormat, TextureUsages};

const FILTERED: u32 = FormatFlags::FILTERABLE | FormatFlags::STORAGE_WRITE_ONLY;
const FULL: u32 = FILTERED | FormatFlags::STORAGE_READ_WRITE;

const NATIVE_CAPS: &[(TextureFormat, u32)] = &[
    (TextureFormat::R8Unorm, FULL),
    (TextureFormat::R16Float, FILTERED),
    (TextureFormat::Rg16Float, FULL),
    (TextureFormat::Rgba16Float, FULL),
];

const METAL_CAPS: &[(TextureFormat, u32)] = &[
    (TextureFormat::R8Unorm, FULL),
    (TextureFormat::R16Float, FILTERED),
    (TextureFormat::Rg16Float, FILTERED),
    (TextureFormat::Rgba16Float, FULL),
];

const ADAPTER_SPECIFIC: Features = Features {
    texture_adapter_specific_format_features: true,
};

const NO_FEATURES: Features = Features {
    texture_adapter_specific_format_features: false,
};

fn adapter_caps(caps: &[(TextureFormat, u32)]) -> AdapterFormats {
    adapter_with_usages(
        caps,
        TextureUsages::TEXTURE_BINDING
            | TextureUsages::STORAGE_BINDING
            | wgpu::TextureUsages::COPY_SRC.bits()
            | wgpu::TextureUsages::COPY_DST.bits(),
    )
}

fn adapter_with_usages(caps: &[(TextureFormat, u32)], allowed_usages: u32) -> AdapterFormats {
    let mut entries = Vec::new();
    for &(format, flags) in caps {
        entries.push((
            format,
            TextureFormatFeatures {
                allowed_usages,
                flags,
            },
        ));
    }
    AdapterFormats { entries }
}

#[test]
fn core_without_adapter_specific_feature() {
    // Capabilities alone are not enough: without the device feature, wgpu
    // validates against spec guarantees, so detection must stay on Core.
    assert_eq!(
        FormatProfile::classify(NO_FEATURES, &adapter_caps(NATIVE_CAPS)),
        FormatProfile::Core
    );
}

#[test]
fn native_with_full_capabilities() {
    assert_eq!(
        FormatProfile::classify(ADAPTER_SPECIFIC, &adapter_caps(NATIVE_CAPS)),
        FormatProfile::Native
    );
}

#[test]
fn tier2_when_rg16float_read_write_missing() {
    assert_eq!(
        FormatProfile::classify(ADAPTER_SPECIFIC, &adapter_caps(METAL_CAPS)),
        FormatProfile::Tier2
    );
}

#[test]
fn core_when_small_format_storage_missing() {
    // The feature bit alone must not imply Native (or Tier2): an adapter
    // reporting no extra per-format capabilities falls back to Core.
    assert_eq!(
        FormatProfile::classify(ADAPTER_SPECIFIC, &adapter_caps(&[])),
        FormatProfile::Core
    );
}

#[test]
fn check_support_names_missing_capability() {
    let err = FormatProfile::Native
        .check_support(ADAPTER_SPECIFIC, &adapter_caps(METAL_CAPS))
        .unwrap_err();
    assert!(err.contains("Rg16Float"), "{err}");
    assert!(err.contains("STORAGE_READ_WRITE"), "{err}");
}

#[test]
fn check_support_requires_storage_binding_usage() {
    let no_storage_usage = adapter_with_usages(NATIVE_CAPS, TextureUsages::TEXTURE_BINDING);
    let err = FormatProfile::Native
        .check_support(ADAPTER_SPECIFIC, &no_storage_usage)
        .unwrap_err();
    assert!(err.contains("STORAGE_BINDING"), "{err}");
}

#[test]
fn core_always_supported() {
    assert!(FormatProfile::Core
        .check_support(NO_FEATURES, &adapter_caps(&[]))
        .is_ok());
}

#[test]
fn dilated_motion_vectors_widen_on_core() {
    // The only caller-provided format that varies: `rg16float` is not a
    // valid storage texture on `Core`, so it widens to the 32-bit format.
    assert_eq!(
        FormatProfile::Core.formats().dilated_motion_vectors,
        TextureFormat::Rg32Float
    );
    assert_eq!(
        FormatProfile::Tier2.formats().dilated_motion_vectors,
        TextureFormat::Rg16Float
    );
    assert_eq!(
        FormatProfile::Native.formats().dilated_motion_vectors,
        TextureFormat::Rg16Float
    );
}

#[test]
fn fixed_formats_are_profile_independent() {
    for profile in [
        FormatProfile::Core,
        FormatProfile::Tier2,
        FormatProfile::Native,
    ] {
        let f = profile.formats();
        assert_eq!(f.color, TextureFormat::Rgba16Float);
        assert_eq!(f.depth, TextureFormat::Depth32Float);
        assert_eq!(f.motion_vectors, TextureFormat::Rg16Float);
        assert_eq!(f.output, TextureFormat::Rgba16Float);
        assert_eq!(f.dilated_depth, TextureFormat::R32Float);
    }
}

#[test]
fn missing_device_feature_is_named() {
    let err = FormatProfile::Tier2
        .check_support(NO_FEATURES, &adapter_caps(NATIVE_CAPS))
        .unwrap_err();
    assert_eq!(
        err,
        "FormatProfile::Tier2 requires the TEXTURE_ADAPTER_SPECIFIC_FORMAT_FEATURES device feature"
    );
}

#[test]
fn missing_capability_is_the_first_one() {
    assert_eq!(
        FormatProfile::Native.missing_capability(ADAPTER_SPECIFIC, &adapter_caps(METAL_CAPS)),
        Some(MissingCapability::Flags {
            format: TextureFormat::Rg16Float,
            missing: FormatFlags::STORAGE_READ_WRITE,
        })
    );
    assert_eq!(
        FormatProfile::Tier2.missing_capability(ADAPTER_SPECIFIC, &adapter_caps(METAL_CAPS)),
        None
    );
}

#[test]
fn classified_profile_is_supported() {
    for caps in [NATIVE_CAPS, METAL_CAPS, &[]] {
        for device in [ADAPTER_SPECIFIC, NO_FEATURES] {
            let adapter = adapter_caps(caps);
            let profile = FormatProfile::from_adapter(&adapter, device);
            assert!(profile.supported_by(&adapter, device));
        }
    }
}

#[test]
fn requested_profile_must_be_supported() {
    let adapter = adapter_caps(METAL_CAPS);
    assert_eq!(
        FormatProfile::resolve(None, ADAPTER_SPECIFIC, &adapter),
        Ok(FormatProfile::Tier2)
    );
    assert_eq!(
        FormatProfile::resolve(Some(FormatProfile::Core), ADAPTER_SPECIFIC, &adapter),
        Ok(FormatProfile::Core)
    );
    assert!(FormatProfile::resolve(Some(FormatProfile::Native), ADAPTER_SPECIFIC, &adapter)
        .is_err());
}

#[test]
fn flag_bits_are_those_of_wgpu() {
    assert_eq!(
        FormatFlags::FILTERABLE,
        wgpu::TextureFormatFeatureFlags::FILTERABLE.bits()
    );
    assert_eq!(
        FormatFlags::STORAGE_WRITE_ONLY,
        wgpu::TextureFormatFeatureFlags::STORAGE_WRITE_ONLY.bits()
    );
    assert_eq!(
        FormatFlags::STORAGE_READ_WRITE,
        wgpu::TextureFormatFeatureFlags::STORAGE_READ_WRITE.bits()
    );
    assert_eq!(
        TextureUsages::TEXTURE_BINDING,
        wgpu::TextureUsages::TEXTURE_BINDING.bits()
    );
    assert_eq!(
        TextureUsages::STORAGE_BINDING,
        wgpu::TextureUsages::STORAGE_BINDING.bits()
    );
    assert_eq!(
        TextureUsages::RENDER_ATTACHMENT,
        wgpu::TextureUsages::RENDER_ATTACHMENT.bits()
    );
}

#[test]
fn formats_are_told_by_name() {
    assert_eq!(TextureFormat::Rg16Float.name(), "Rg16Float");
    assert_eq!(TextureFormat::Bgra8UnormSrgb.name(), "Bgra8UnormSrgb");
    let astc = TextureFormat::Astc {
        block: AstcBlock::B10x6,
        channel: AstcChannel::Hdr,
    };
    assert_eq!(
        astc.name(),
        format!(
            "{:?}",
            wgpu::TextureFormat::Astc {
                block: wgpu::AstcBlock::B10x6,
                channel: wgpu::AstcChannel::Hdr,
            }
        )
    );
}
