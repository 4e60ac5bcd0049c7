use wgpu_ffx::constants::SpdConstants;
use wgpu_ffx::spd::RectInput;

#[test]
fn test_spd_setup_basic() {
    let rect = RectInput::new(1920, 1080);
    let constants = SpdConstants::new(rect);

    // For 1920x1080, we need (1920-1)/64 + 1 = 30 tiles in X
    // and (1080-1)/64 + 1 = 17 tiles in Y
    assert_eq!(constants.num_work_groups, 30 * 17);
    assert_eq!(constants.work_group_offset, [0, 0]);
    assert_eq!(constants.render_size, [1920, 1080]);

    // Mips should be log2(1920) floored, capped at 12
    let expected_mips = (1920.0f32).log2().floor().min(12.0) as u32;
    assert_eq!(constants.mips, expected_mips);
}

#[test]
fn test_spd_setup_small_resolution() {
    let rect = RectInput::new(64, 64);
    let constants = SpdConstants::new(rect);

    assert_eq!(constants.num_work_groups, 1);
    assert_eq!(constants.work_group_offset, [0, 0]);
    assert_eq!(constants.render_size, [64, 64]);
    assert_eq!(constants.mips, 6); // log2(64) = 6
}

#[test]
fn test_spd_setup_large_resolution() {
    let rect = RectInput::new(4096, 4096);
    let constants = SpdConstants::new(rect);

    let expected_tiles_x = (4096 - 1) / 64 + 1;
    let expected_tiles_y = (4096 - 1) / 64 + 1;
    assert_eq!(
        constants.num_work_groups,
        expected_tiles_x * expected_tiles_y
    );
    assert_eq!(constants.mips, 12); // Capped at 12
}

#[test]
fn test_spd_setup_with_offset() {
    // Test with a 128x128 region starting at (64, 64)
    let rect = RectInput::with_offset(64, 64, 128, 128);
    let constants = SpdConstants::new(rect);

    // Work group offset should be (64/64, 64/64) = (1, 1)
    assert_eq!(constants.work_group_offset, [1, 1]);

    // End indices: (64 + 128 - 1) / 64 = 191 / 64 = 2
    // Dispatch count: 2 + 1 - 1 = 2 in each dimension
    assert_eq!(constants.num_work_groups, 2 * 2);

    // Render size should be the width/height, not including offset
    assert_eq!(constants.render_size, [128, 128]);

    // Mips based on 128x128
    assert_eq!(constants.mips, 7); // log2(128) = 7
}

#[test]
fn test_spd_setup_with_large_offset() {
    // Test with a 256x256 region starting at (256, 128)
    let rect = RectInput::with_offset(256, 128, 256, 256);
    let constants = SpdConstants::new(rect);

    // Work group offset should be (256/64, 128/64) = (4, 2)
    assert_eq!(constants.work_group_offset, [4, 2]);

    // End indices:
    // X: (256 + 256 - 1) / 64 = 511 / 64 = 7
    // Y: (128 + 256 - 1) / 64 = 383 / 64 = 5
    // Dispatch count: (7 + 1 - 4, 5 + 1 - 2) = (4, 4)
    assert_eq!(constants.num_work_groups, 4 * 4);

    assert_eq!(constants.render_size, [256, 256]);
    assert_eq!(constants.mips, 8); // log2(256) = 8
}

#[test]
fn test_rect_input_constructors() {
    let rect1 = RectInput::new(1920, 1080);
    assert_eq!(rect1.left, 0);
    assert_eq!(rect1.top, 0);
    assert_eq!(rect1.width, 1920);
    assert_eq!(rect1.height, 1080);

    let rect2 = RectInput::with_offset(100, 200, 800, 600);
    assert_eq!(rect2.left, 100);
    assert_eq!(rect2.top, 200);
    assert_eq!(rect2.width, 800);
    assert_eq!(rect2.height, 600);
}

#[test]
fn spd_mips_match_the_logarithm() {
    for side in 1u32..=8192 {
        let expected = (side as f32).log2().floor().min(12.0) as u32;
        assert_eq!(SpdConstants::new(RectInput::new(side, 1)).mips, expected);
        assert_eq!(SpdConstants::new(RectInput::new(1, side)).mips, expected);
    }
}

#[test]
fn spd_rect_across_a_tile_border() {
    // Columns 63 and 64 lie in different tiles.
    let constants = SpdConstants::new(RectInput::with_offset(63, 0, 2, 1));
    assert_eq!(constants.num_work_groups, 2);
    assert_eq!(constants.work_group_offset, [0, 0]);
    assert_eq!(constants.mips, 1);
    assert_eq!(constants._padding, [0, 0]);
}

#[test]
fn spd_empty_rect_past_the_origin() {
    let constants = SpdConstants::new(RectInput::with_offset(64, 64, 0, 0));
    assert_eq!(constants.mips, 0);
    assert_eq!(constants.num_work_groups, 0);
    assert_eq!(constants.work_group_offset, [1, 1]);
}
