use std::f32::consts::PI;
use wgpu_ffx::lanczos2::generate_lanczos2_lut;

fn lanczos2(value: f32) -> f32 {
    if value.abs() < 1e-06 {
        return 1.0;
    }
    let v_pi = PI * value;
    let half_v_pi = 0.5 * v_pi;
    (v_pi.sin() / v_pi) * (half_v_pi.sin() / half_v_pi)
}

#[test]
fn lut_is_the_filter_at_128_positions() {
    let lut = generate_lanczos2_lut();
    assert_eq!(lut.len(), 128);
    for i in 0..128 {
        let x = 2.0_f32 * i as f32 / 127.0;
        assert_eq!(lut[i], (lanczos2(x) * 32767.0f32).round() as i16, "{i}");
    }
}

#[test]
fn lut_lobes() {
    let lut = generate_lanczos2_lut();
    assert_eq!(lut[0], 32767);
    assert_eq!(lut[127], 0);
    for i in 0..64 {
        assert!(lut[i] > 0);
    }
    for i in 64..127 {
        assert!(lut[i] < 0);
    }
}
