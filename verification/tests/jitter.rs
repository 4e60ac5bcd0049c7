use wgpu_ffx::halton::{halton_digits, jitter_index};
use wgpu_ffx::jitter::get_jitter_phase_count;

fn expected_phase_count(render_width: i32, display_width: i32) -> i32 {
    (8.0f32 * f32::powf(display_width as f32 / render_width as f32, 2.0)) as i32
}

#[test]
fn phase_count_at_common_ratios() {
    assert_eq!(get_jitter_phase_count(1920, 1920), 8);
    assert_eq!(get_jitter_phase_count(1920, 3840), 32);
    assert_eq!(get_jitter_phase_count(1280, 1920), 18);
    assert_eq!(get_jitter_phase_count(640, 1920), 72);
}

#[test]
fn phase_count_is_computed_in_single_precision() {
    for render_width in [1, 7, 640, 1279, 1280, 1707, 1920, 4095, 16_777_217] {
        for display_width in [0, 1, 1280, 1920, 2560, 3840, 7680, 33_554_433] {
            assert_eq!(
                get_jitter_phase_count(render_width, display_width),
                expected_phase_count(render_width, display_width),
                "{render_width} {display_width}"
            );
        }
    }
}

#[test]
fn phase_count_is_eight_times_the_squared_ratio() {
    let unit: u128 = 1 << 24;
    for (render_width, display_width) in [(1280u128, 1920u128), (1129, 1920), (1707, 2560), (640, 4096)] {
        let count = get_jitter_phase_count(render_width as i32, display_width as i32) as u128;
        let ratio = 8 * display_width * display_width * unit * unit * unit;
        let area = render_width * render_width;
        assert!(count * area * (unit - 1) * (unit - 1) * (unit - 1) <= ratio);
        assert!(ratio < (count + 1) * area * (unit + 1) * (unit + 1) * (unit + 1));
    }
    assert_eq!(get_jitter_phase_count(1129, 1920), 23);
}

#[test]
fn phase_count_edge_cases() {
    assert_eq!(get_jitter_phase_count(0, 0), 0);
    assert_eq!(get_jitter_phase_count(0, 5), i32::MAX);
    assert_eq!(get_jitter_phase_count(0, -5), i32::MAX);
    assert_eq!(get_jitter_phase_count(5, 0), 0);
    assert_eq!(get_jitter_phase_count(1, i32::MAX), i32::MAX);
    assert_eq!(get_jitter_phase_count(-1920, 3840), 32);
    assert_eq!(get_jitter_phase_count(i32::MIN, i32::MIN), 8);
}

#[test]
fn jitter_index_repeats() {
    assert_eq!(jitter_index(0, 8), 1);
    assert_eq!(jitter_index(7, 8), 8);
    assert_eq!(jitter_index(8, 8), 1);
    assert_eq!(jitter_index(-1, 8), 0);
    assert_eq!(jitter_index(-8, 8), 1);
    assert_eq!(jitter_index(5, -3), 3);
}

#[test]
fn halton_digits_of_small_numbers() {
    assert_eq!(halton_digits(6, 2), vec![0, 1, 1]);
    assert_eq!(halton_digits(5, 3), vec![2, 1]);
    assert_eq!(halton_digits(1, 2), vec![1]);
    assert!(halton_digits(0, 2).is_empty());
    assert!(halton_digits(-3, 2).is_empty());
}

#[test]
fn halton_digits_mirror_below_one() {
    for index in 1..1000 {
        for base in [2u32, 3] {
            let digits = halton_digits(index, base);
            let mut value = 0.0f64;
            let mut weight = 1.0f64;
            for digit in digits {
                weight /= base as f64;
                value += weight * digit as f64;
            }
            assert!(value > 0.0 && value < 1.0);
        }
    }
}

#[test]
fn jitter_repeats_after_all_phases() {
    for phase_count in [1, 8, 32, 4096] {
        let mut seen = Vec::new();
        for frame in 0..phase_count {
            let index = jitter_index(frame, phase_count);
            assert_eq!(jitter_index(frame + phase_count, phase_count), index);
            let digits = halton_digits(index, 2);
            assert!(digits.len() <= 13);
            let mut fraction = 0u32;
            for (place, digit) in digits.iter().enumerate() {
                fraction += digit << (12 - place);
            }
            seen.push(fraction);
        }
        seen.sort();
        seen.dedup();
        assert_eq!(seen.len(), phase_count as usize);
    }
}
