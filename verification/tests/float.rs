use wgpu_ffx::float::{round_integer, F32};

const SAMPLES: [f32; 16] = [
    0.0,
    -0.0,
    1.0,
    -1.0,
    0.075,
    1e-45,
    -1e-45,
    1.1754944e-38,
    f32::MAX,
    f32::MIN,
    f32::INFINITY,
    f32::NEG_INFINITY,
    f32::NAN,
    3.1415927,
    16_777_216.0,
    0.33333334,
];

fn bits(x: f32) -> F32 {
    F32::from_bits(x.to_bits())
}

#[test]
fn comparisons_agree_with_the_machine() {
    for a in SAMPLES {
        for b in SAMPLES {
            assert_eq!(bits(a).lt(bits(b)), a < b, "{a} {b}");
            assert_eq!(bits(a).le(bits(b)), a <= b, "{a} {b}");
            assert_eq!(bits(a).same_number(bits(b)), a == b, "{a} {b}");
        }
        assert_eq!(bits(a).nan(), a.is_nan());
        assert_eq!(bits(a).abs().bits, a.abs().to_bits());
    }
}

#[test]
fn integers_agree_with_the_machine() {
    for n in [
        0u32,
        1,
        2,
        3,
        1920,
        16_777_215,
        16_777_216,
        16_777_217,
        16_777_219,
        0x7fff_ffff,
        0x8000_0000,
        0xffff_ff7f,
        0xffff_ff80,
        0xffff_ffff,
    ] {
        assert_eq!(F32::from_u32(n).bits, (n as f32).to_bits(), "{n}");
        assert_eq!(round_integer(n), n as f32 as u64, "{n}");
    }
}

#[test]
fn ratios_agree_with_the_machine() {
    for n in [1u32, 2, 640, 1279, 1707, 1920, 16_777_217, 0xffff_ffff] {
        for d in [1u32, 3, 1280, 1920, 3840, 7681, 33_554_435, 0xffff_ffff] {
            assert_eq!(
                F32::ratio(n, d).bits,
                (n as f32 / d as f32).to_bits(),
                "{n} {d}"
            );
        }
    }
}

#[test]
fn clamping_and_extremes_agree_with_the_machine() {
    for a in SAMPLES {
        let clamped = bits(a).clamped(F32::zero(), F32::one());
        assert_eq!(clamped.bits, a.clamp(0.0, 1.0).to_bits(), "{a}");
        for b in [0.5f32, 2.0, f32::INFINITY] {
            assert_eq!(bits(a).min(bits(b)).bits, a.min(b).to_bits());
            assert_eq!(bits(a).max(bits(b)).bits, a.max(b).to_bits());
        }
    }
    assert_eq!(bits(1.0).min(bits(f32::NAN)).bits, 1.0f32.to_bits());
    assert_eq!(bits(1.0).max(bits(f32::NAN)).bits, 1.0f32.to_bits());
}
