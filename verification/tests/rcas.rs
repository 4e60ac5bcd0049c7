use wgpu_ffx::constants::RcasConstants;
use wgpu_ffx::float::F32;
use wgpu_ffx::rcas::populate_rcas_constants;

/// The constants for a reduction of sharpness by the given number of stops.
fn constants_for_stops(sharpness: f32) -> RcasConstants {
    populate_rcas_constants(F32::from_bits((-sharpness).exp2().to_bits()))
}

#[test]
fn test_rcas_constants_zero_sharpness() {
    let constants = constants_for_stops(0.0);
    // At sharpness 0.0, exp2(0) = 1.0
    assert_eq!(constants.rcas_config[0], 1.0f32.to_bits());
}

#[test]
fn test_rcas_constants_max_sharpness() {
    let constants = constants_for_stops(2.0);
    // At sharpness 2.0, exp2(-2.0) = 0.25
    assert_eq!(constants.rcas_config[0], 0.25f32.to_bits());
}

#[test]
fn rcas_packs_two_halves() {
    assert_eq!(constants_for_stops(0.0).rcas_config, [0x3f80_0000, 0x3c00_3c00, 0, 0]);
    assert_eq!(constants_for_stops(2.0).rcas_config, [0x3e80_0000, 0x3400_3400, 0, 0]);
}

#[test]
fn halves_are_rounded_to_the_nearest_even() {
    let cases: [(u32, u32); 12] = [
        // 1 + 2^-11 lies between 1 and 1 + 2^-10, and goes to the even one
        (0x3f80_1000, 0x3c00),
        (0x3f80_1001, 0x3c01),
        // 1 + 3 * 2^-11 lies between two, and goes to the even one
        (0x3f80_3000, 0x3c02),
        // The largest half, and where infinity begins
        (0x477f_e000, 0x7bff),
        (0x477f_efff, 0x7bff),
        (0x477f_f000, 0x7c00),
        (0x7f80_0000, 0x7c00),
        // Half of the smallest half goes to zero, and what is above it does not
        (0x3300_0000, 0x0000),
        (0x3300_0001, 0x0001),
        // The sign is kept
        (0x8000_0000, 0x8000),
        (0xbf80_0000, 0xbc00),
        // What is not a number stays so
        (0x7fc0_0000, 0x7e00),
    ];
    for (bits, half) in cases {
        let packed = populate_rcas_constants(F32::from_bits(bits)).rcas_config[1];
        assert_eq!(packed, half * 0x1_0001, "{bits:x}");
    }
}

#[test]
fn halves_agree_with_the_half_crate() {
    let mut bits: u32 = 0;
    for _ in 0..200_000 {
        let packed = populate_rcas_constants(F32::from_bits(bits)).rcas_config[1];
        let expected = half::f16::from_f32(f32::from_bits(bits)).to_bits() as u32;
        assert_eq!(packed, expected * 0x1_0001, "{bits:x}");
        bits = bits.wrapping_add(0x0001_5b35);
    }
}
