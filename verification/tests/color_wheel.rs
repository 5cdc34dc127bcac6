use xmas_tree_gen::color::{quantize, saturated_color, stepped_hue, Color, ONE};

fn c(r: u32, g: u32, b: u32) -> Color {
    Color { r, g, b }
}

#[test]
fn wheel_starts_at_red() {
    assert_eq!(saturated_color(0), c(ONE, 0, 0));
}

#[test]
fn wheel_at_one_sixth_is_yellow() {
    assert_eq!(saturated_color((ONE / 6) as u64), c(ONE, ONE, 0));
}

#[test]
fn wheel_at_two_sixths_is_green() {
    assert_eq!(saturated_color((2 * ONE / 6) as u64), c(0, ONE, 0));
}

#[test]
fn wheel_at_three_sixths_is_cyan() {
    assert_eq!(saturated_color((3 * ONE / 6) as u64), c(0, ONE, ONE));
}

#[test]
fn wheel_at_four_sixths_is_blue() {
    assert_eq!(saturated_color((4 * ONE / 6) as u64), c(0, 0, ONE));
}

#[test]
fn wheel_at_five_sixths_is_magenta() {
    assert_eq!(saturated_color((5 * ONE / 6) as u64), c(ONE, 0, ONE));
}

#[test]
fn wheel_repeats_after_one_trip() {
    let mut h: u64 = 0;
    while h < ONE as u64 {
        assert_eq!(saturated_color(h), saturated_color(h + ONE as u64));
        assert_eq!(saturated_color(h), saturated_color(h + 7 * ONE as u64));
        h += 99_991;
    }
}

#[test]
fn wheel_ramps_within_each_sector() {
    // A quarter into each sector: r = k + 0.25.
    let quarter: u64 = (ONE / 24) as u64;
    let sixth: u64 = (ONE / 6) as u64;
    assert_eq!(saturated_color(quarter), c(ONE, ONE / 4, 0));
    assert_eq!(saturated_color(sixth + quarter), c(3 * ONE / 4, ONE, 0));
    assert_eq!(saturated_color(2 * sixth + quarter), c(0, ONE, ONE / 4));
    assert_eq!(saturated_color(3 * sixth + quarter), c(0, 3 * ONE / 4, ONE));
    assert_eq!(saturated_color(4 * sixth + quarter), c(ONE / 4, 0, ONE));
    assert_eq!(saturated_color(5 * sixth + quarter), c(ONE, 0, 3 * ONE / 4));
}

#[test]
fn wheel_keeps_one_channel_full_and_none_above() {
    let mut h: u64 = 0;
    while h < 2 * ONE as u64 {
        let col = saturated_color(h);
        assert!(col.r <= ONE && col.g <= ONE && col.b <= ONE);
        assert_eq!(col.r.max(col.g).max(col.b), ONE);
        assert_eq!(col.r.min(col.g).min(col.b), 0);
        h += 12_347;
    }
}

#[test]
fn stepped_hue_counts_in_sixtieths() {
    // 0.45 of the wheel per step: 0, 0.45, 0.9, 1.35 -> 0.35.
    assert_eq!(stepped_hue(0, 27), 0);
    assert_eq!(stepped_hue(1, 27), 2_700_000);
    assert_eq!(stepped_hue(2, 27), 5_400_000);
    assert_eq!(stepped_hue(3, 27), 2_100_000);
    assert_eq!(stepped_hue(20, 27), 0);
    // 0.3 of the wheel per step.
    assert_eq!(stepped_hue(3, 18), 5_400_000);
    assert_eq!(stepped_hue(4, 18), 1_200_000);
    // One sixtieth per step, with a count far beyond one trip.
    assert_eq!(stepped_hue(61, 1), 100_000);
    assert_eq!(stepped_hue(u128::MAX, 1), ((u128::MAX % 60) as u64) * 100_000);
}

#[test]
fn stepped_hue_colors() {
    // 0.45 -> r = 2.7: green with blue at 0.7.
    assert_eq!(saturated_color(stepped_hue(1, 27)), c(0, ONE, 4_200_000));
    // 0.9 -> r = 5.4: red with blue at 0.6.
    assert_eq!(saturated_color(stepped_hue(2, 27)), c(ONE, 0, 3_600_000));
    // 0.3 -> r = 1.8: green with red at 0.2.
    assert_eq!(saturated_color(stepped_hue(1, 18)), c(1_200_000, ONE, 0));
}

#[test]
fn quantize_cuts_off_after_the_point() {
    assert_eq!(quantize(0), 0);
    assert_eq!(quantize(ONE / 2), 127);
    assert_eq!(quantize(ONE), 255);
    assert_eq!(quantize(ONE - 1), 254);
    // 0.6 * 255 = 153 exactly.
    assert_eq!(quantize(3_600_000), 153);
    assert_eq!(quantize(3_599_999), 152);
    // 1 / 255 is the first value that gives 1.
    assert_eq!(quantize(23_529), 0);
    assert_eq!(quantize(23_530), 1);
}

#[test]
fn quantize_clamps_above_full() {
    assert_eq!(quantize(ONE + 1), 255);
    assert_eq!(quantize(u32::MAX), 255);
}

#[test]
fn quantized_takes_each_channel() {
    assert_eq!(c(ONE, ONE / 2, 0).quantized(), (255, 127, 0));
    assert_eq!(c(1_200_000, 4_200_000, 3_000_000).quantized(), (51, 178, 127));
}

#[test]
fn scaled_dims_every_channel_rounding_down() {
    assert_eq!(c(ONE, ONE / 2, 0).scaled(ONE), c(ONE, ONE / 2, 0));
    assert_eq!(c(ONE, ONE / 2, 0).scaled(0), c(0, 0, 0));
    assert_eq!(c(ONE, ONE / 2, 7).scaled(ONE / 2), c(ONE / 2, ONE / 4, 3));
    assert_eq!(c(ONE, 600_000, 0).scaled(5_700_000), c(5_700_000, 570_000, 0));
}

#[test]
fn black_is_all_off() {
    assert_eq!(Color::black(), c(0, 0, 0));
}
