use xmas_tree_gen::accelerate::{accelerate, distance_fallen, fifth_root_of};
use xmas_tree_gen::barber_pole::barber_pole;
use xmas_tree_gen::cloud::{Point, PointCloud};
use xmas_tree_gen::color::{Color, ONE};
use xmas_tree_gen::cycle::CycleSync;
use xmas_tree_gen::effect::Effect;
use xmas_tree_gen::error::EffectError;
use xmas_tree_gen::fall_down::{fall_down, fall_down_rainbow};
use xmas_tree_gen::fill_up::fill_up;
use xmas_tree_gen::roll_around::{octant, roll_angles, roll_around};
use xmas_tree_gen::sequence::generate;
use xmas_tree_gen::snake::snake;
use xmas_tree_gen::twinkle::{phase_classes, twinkle, twinkle_with_phases};

const DARK: Color = Color { r: 0, g: 0, b: 0 };
const RED: Color = Color { r: ONE, g: 0, b: 0 };
const GREY: Color = Color { r: ONE / 2, g: ONE / 2, b: ONE / 2 };

fn cloud_of(points: Vec<(i32, i32, i32)>) -> PointCloud {
    let points: Vec<Point> = points.into_iter().map(|(x, y, z)| Point { x, y, z }).collect();
    match PointCloud::new(points) {
        Ok(cloud) => cloud,
        Err(_) => panic!("no points"),
    }
}

fn tree() -> PointCloud {
    cloud_of(vec![
        (100_000, 200_000, 0),
        (-300_000, 100_000, 500_000),
        (200_000, -400_000, 1_000_000),
        (0, 0, 1_500_000),
        (-200_000, -200_000, 2_000_000),
        (50_000, 300_000, -100_000),
    ])
}

fn string_of(n: usize) -> PointCloud {
    cloud_of((0..n).map(|i| (0, 0, 1 + i as i32)).collect())
}

fn brightness(c: &Color) -> u32 {
    c.r.max(c.g).max(c.b)
}

const ALL: [Effect; 8] = [
    Effect::BarberPole,
    Effect::FillUp,
    Effect::Snake,
    Effect::FallDown,
    Effect::FallDownRainbow,
    Effect::Accelerate,
    Effect::RollAround,
    Effect::Twinkle,
];

// The cloud.

#[test]
fn empty_cloud_is_rejected() {
    assert!(matches!(PointCloud::new(Vec::new()), Err(EffectError::EmptyCloud)));
}

#[test]
fn cloud_keeps_the_points_in_order() {
    let cloud = tree();
    assert_eq!(cloud.len(), 6);
    assert_eq!(cloud.point(0), Point { x: 100_000, y: 200_000, z: 0 });
    assert_eq!(cloud.point(5), Point { x: 50_000, y: 300_000, z: -100_000 });
}

#[test]
fn max_height_is_the_largest_z() {
    assert_eq!(tree().max_height(), 2_000_000);
    assert_eq!(cloud_of(vec![(0, 0, -5)]).max_height(), -5);
    assert_eq!(cloud_of(vec![(0, 0, -5), (1, 1, -7), (9, 9, -6)]).max_height(), -5);
    assert_eq!(cloud_of(vec![(0, 0, 3), (0, 0, i32::MAX), (0, 0, i32::MIN)]).max_height(), i32::MAX);
}

// Fitting cycles into a sequence.

#[test]
fn cycles_are_counted_by_whole_division() {
    let sync = CycleSync::new(60, 1, 1000).ok().unwrap();
    assert_eq!(sync.cycle_count(), 16);
    let sync = CycleSync::new(480, 1, 1000).ok().unwrap();
    assert_eq!(sync.cycle_count(), 2);
    // 163 and one third frames: six cycles in a thousand frames.
    let sync = CycleSync::new(49_000_000, 300_000, 1000).ok().unwrap();
    assert_eq!(sync.cycle_count(), 6);
    let sync = CycleSync::new(60, 1, 60).ok().unwrap();
    assert_eq!(sync.cycle_count(), 1);
}

#[test]
fn cycles_need_one_whole_period() {
    assert!(matches!(CycleSync::new(60, 1, 59), Err(EffectError::TooShort)));
    assert!(matches!(CycleSync::new(60, 1, 0), Err(EffectError::TooShort)));
    assert!(matches!(CycleSync::new(49_000_000, 300_000, 163), Err(EffectError::TooShort)));
    assert!(CycleSync::new(49_000_000, 300_000, 164).is_ok());
}

#[test]
fn cycle_index_and_phase_follow_the_frame() {
    let sync = CycleSync::new(480, 1, 1000).ok().unwrap();
    assert_eq!(sync.cycle_index(0), 0);
    assert_eq!(sync.phase(0), 0);
    assert_eq!(sync.cycle_index(499), 0);
    assert_eq!(sync.phase(499), 998);
    assert_eq!(sync.cycle_index(500), 1);
    assert_eq!(sync.phase(500), 0);
    assert_eq!(sync.cycle_index(750), 1);
    assert_eq!(sync.phase(750), 500);
}

#[test]
fn phase_closes_where_the_sequence_wraps() {
    for total in [480u64, 481, 1000, 4801, 99_999] {
        let sync = CycleSync::new(480, 1, total).ok().unwrap();
        assert_eq!(sync.phase(total), 0);
        assert_eq!(sync.phase(0), 0);
        assert_eq!(sync.cycle_index(total), sync.cycle_count());
    }
}

#[test]
fn cycle_arithmetic_holds_at_the_largest_numbers() {
    let sync = CycleSync::new(1, 1, u64::MAX).ok().unwrap();
    assert_eq!(sync.cycle_count(), u64::MAX);
    assert_eq!(sync.cycle_index(u64::MAX), u64::MAX);
    assert_eq!(sync.phase(u64::MAX), 0);
}

// Too short, too flat, too late.

#[test]
fn no_frames_requested_is_an_error_for_fall_down() {
    assert_eq!(fall_down(&tree(), 0, 0), Err(EffectError::TooShort));
    assert_eq!(fall_down_rainbow(&tree(), 0, 0), Err(EffectError::TooShort));
}

#[test]
fn fall_down_needs_one_whole_cycle() {
    // For a cloud two units high a cycle has 163 and one third frames.
    assert_eq!(fall_down(&tree(), 0, 163), Err(EffectError::TooShort));
    assert_eq!(fall_down_rainbow(&tree(), 5, 163), Err(EffectError::TooShort));
    assert!(fall_down(&tree(), 0, 164).is_ok());
    assert!(fall_down_rainbow(&tree(), 0, 164).is_ok());
    // A cloud one step high: ninety frames and a little.
    let low = cloud_of(vec![(0, 0, 1)]);
    assert_eq!(fall_down(&low, 0, 90), Err(EffectError::TooShort));
    assert!(fall_down(&low, 0, 91).is_ok());
}

#[test]
fn fall_down_needs_a_cloud_above_the_floor() {
    let flat = cloud_of(vec![(1, 2, 0), (3, 4, -10)]);
    assert_eq!(fall_down(&flat, 0, 1000), Err(EffectError::FlatCloud));
    assert_eq!(fall_down_rainbow(&flat, 0, 1000), Err(EffectError::FlatCloud));
    assert_eq!(fall_down(&flat, 0, 0), Err(EffectError::FlatCloud));
    assert_eq!(accelerate(&flat, 0, 1000), Err(EffectError::FlatCloud));
}

#[test]
fn fill_up_needs_sixty_frames() {
    assert_eq!(fill_up(&tree(), 0, 0), Err(EffectError::TooShort));
    assert_eq!(fill_up(&tree(), 0, 59), Err(EffectError::TooShort));
    assert!(fill_up(&tree(), 0, 60).is_ok());
}

#[test]
fn roll_around_needs_eight_rotations() {
    assert_eq!(roll_around(&tree(), 0, 0), Err(EffectError::TooShort));
    assert_eq!(roll_around(&tree(), 0, 479), Err(EffectError::TooShort));
    assert_eq!(roll_angles(0, 479), Err(EffectError::TooShort));
    assert!(roll_around(&tree(), 0, 480).is_ok());
}

#[test]
fn barber_pole_needs_one_turn() {
    assert_eq!(barber_pole(&tree(), 0, 0), Err(EffectError::TooShort));
    assert_eq!(barber_pole(&tree(), 0, 125), Err(EffectError::TooShort));
    assert!(barber_pole(&tree(), 0, 126).is_ok());
}

#[test]
fn twinkle_needs_a_frame() {
    assert_eq!(twinkle(&tree(), 0, 0), Err(EffectError::TooShort));
    assert_eq!(twinkle_with_phases(&vec![0, 1], 0, 0), Err(EffectError::TooShort));
    assert!(twinkle(&tree(), 0, 1).is_ok());
}

#[test]
fn accelerate_stops_where_its_arithmetic_ends() {
    if usize::BITS > 32 {
        let limit: usize = 1 << 32;
        assert_eq!(accelerate(&tree(), limit, 1000), Err(EffectError::FrameTooLarge));
        assert!(accelerate(&tree(), limit - 1, 1000).is_ok());
    }
}

// The barber pole.

#[test]
fn barber_pole_point_at_the_origin_is_grey() {
    let origin = cloud_of(vec![(0, 0, 0)]);
    let frame = barber_pole(&origin, 0, 1000).ok().unwrap();
    assert_eq!(frame, vec![GREY]);
    assert_eq!(frame[0].quantized(), (127, 127, 127));
}

#[test]
fn barber_pole_shows_two_colors_only() {
    let cloud = tree();
    let mut seen_red = false;
    let mut seen_grey = false;
    for frame in 0..1000 {
        for c in barber_pole(&cloud, frame, 1000).ok().unwrap() {
            assert!(c == RED || c == GREY);
            seen_red |= c == RED;
            seen_grey |= c == GREY;
        }
    }
    assert!(seen_red && seen_grey);
}

#[test]
fn barber_pole_sides_of_the_pole() {
    // In the first frame at the floor the stripe covers the side that `x`
    // points to.
    let ring = cloud_of(vec![(1000, 0, 0), (-1000, 0, 0), (1000, 1000, 0), (-1000, -1000, 0), (0, 1000, 0), (0, -1000, 0)]);
    assert_eq!(barber_pole(&ring, 0, 1000), Ok(vec![RED, GREY, RED, GREY, GREY, GREY]));
}

#[test]
fn barber_pole_closes_where_the_sequence_wraps() {
    for total in [126usize, 1000, 1777] {
        assert_eq!(barber_pole(&tree(), total, total), barber_pole(&tree(), 0, total));
    }
}

// The snake.

#[test]
fn snake_on_a_short_string_lights_every_point() {
    let frame = snake(&string_of(3), 0, 1000);
    assert_eq!(
        frame,
        vec![
            Color { r: 6_000_000, g: 0, b: 0 },
            Color { r: 5_700_000, g: 0, b: 0 },
            Color { r: 5_400_000, g: 0, b: 0 },
        ]
    );
    let frame = snake(&string_of(3), 61, 1000);
    assert_eq!(
        frame,
        vec![
            Color { r: 5_700_000, g: 570_000, b: 0 },
            Color { r: 5_400_000, g: 540_000, b: 0 },
            Color { r: 6_000_000, g: 600_000, b: 0 },
        ]
    );
}

#[test]
fn snake_lights_twenty_points_with_a_falling_ramp() {
    for n in [1usize, 7, 19, 20, 21, 50, 500] {
        let cloud = string_of(n);
        for frame in [0usize, 1, 19, 59, 60, 499, 12_345] {
            let colors = snake(&cloud, frame, 1000);
            assert_eq!(colors.len(), n);
            let lit = colors.iter().filter(|c| **c != DARK).count();
            assert_eq!(lit, n.min(20));
            for (i, c) in colors.iter().enumerate() {
                let place = (i + frame) % n;
                if place < 20 {
                    assert_eq!(brightness(c), (20 - place as u32) * 300_000);
                } else {
                    assert_eq!(*c, DARK);
                }
            }
        }
    }
}

#[test]
fn snake_ignores_the_positions_and_the_length_of_the_sequence() {
    assert_eq!(snake(&tree(), 17, 1000), snake(&string_of(6), 17, 0));
}

#[test]
fn snake_takes_the_largest_frame_index() {
    let colors = snake(&string_of(7), usize::MAX, 1000);
    assert_eq!(colors.iter().filter(|c| **c != DARK).count(), 7);
}

// Where the sequence wraps.

#[test]
fn roll_around_closes_where_the_sequence_wraps() {
    for total in [480usize, 1000, 1441, 5000] {
        assert_eq!(roll_angles(total, total), roll_angles(0, total));
        assert_eq!(roll_around(&tree(), total, total), roll_around(&tree(), 0, total));
    }
}

#[test]
fn fall_down_lights_the_same_points_where_the_sequence_wraps() {
    // Six cycles: the points are the same, the hue has moved on.
    let first = fall_down(&tree(), 0, 1000).ok().unwrap();
    let after = fall_down(&tree(), 1000, 1000).ok().unwrap();
    for (a, b) in first.iter().zip(after.iter()) {
        assert_eq!(*a == DARK, *b == DARK);
    }
    assert_ne!(first, after);
}

#[test]
fn fall_down_closes_after_twenty_cycles() {
    // 3300 frames hold twenty cycles of 163 and one third frames.
    assert_eq!(fall_down(&tree(), 3300, 3300), fall_down(&tree(), 0, 3300));
    // 3200 frames hold nineteen.
    assert_ne!(fall_down(&tree(), 3200, 3200), fall_down(&tree(), 0, 3200));
}

#[test]
fn fall_down_rainbow_closes_after_five_cycles() {
    // 900 frames hold five cycles, 1000 frames six.
    assert_eq!(fall_down_rainbow(&tree(), 900, 900), fall_down_rainbow(&tree(), 0, 900));
    assert_ne!(fall_down_rainbow(&tree(), 1000, 1000), fall_down_rainbow(&tree(), 0, 1000));
}

#[test]
fn fill_up_closes_for_points_above_the_floor() {
    let first = fill_up(&tree(), 0, 1000).ok().unwrap();
    let after = fill_up(&tree(), 1000, 1000).ok().unwrap();
    // The first and the last point of the tree are not above the floor.
    assert_eq!(first[1..5], after[1..5]);
    assert_ne!(first[0], after[0]);
    assert_ne!(first[5], after[5]);
    let raised = cloud_of(vec![(0, 0, 1), (0, 0, 700_000), (5, 5, 2_000_000)]);
    assert_eq!(fill_up(&raised, 1000, 1000), fill_up(&raised, 0, 1000));
}

#[test]
fn fill_up_closes_after_twenty_segments() {
    assert_eq!(fill_up(&tree(), 1200, 1200), fill_up(&tree(), 0, 1200));
}

// Fill-up in detail.

#[test]
fn fill_up_threshold_rises_through_the_cloud() {
    // 120 frames: two segments of sixty.  The hues of the segments are 0
    // and 0.45 of the wheel.
    let current = Color { r: ONE, g: 0, b: 0 };
    let next = Color { r: 0, g: ONE, b: 4_200_000 };
    let cloud = cloud_of(vec![(0, 0, 0), (0, 0, 1_000_000), (0, 0, 2_000_000)]);
    assert_eq!(fill_up(&cloud, 0, 120), Ok(vec![current, next, next]));
    // Frame 30: the threshold is at one unit; a point at the threshold is
    // not above it.
    assert_eq!(fill_up(&cloud, 29, 120), Ok(vec![current, next, next]));
    assert_eq!(fill_up(&cloud, 30, 120), Ok(vec![current, current, next]));
    assert_eq!(fill_up(&cloud, 59, 120), Ok(vec![current, current, next]));
    // The second segment: its hue is the current one, the first comes next.
    assert_eq!(fill_up(&cloud, 60, 120), Ok(vec![next, current, current]));
    assert_eq!(fill_up(&cloud, 90, 120), Ok(vec![next, next, current]));
}

// Roll-around in detail.

#[test]
fn roll_angles_move_between_the_key_values() {
    let q: u32 = 1 << 30;
    assert_eq!(roll_angles(0, 1000), Ok((q, q)));
    assert_eq!(roll_angles(10, 1000), Ok((q, 730_144_440)));
    assert_eq!(roll_angles(40, 1000), Ok((q, 0)));
    assert_eq!(roll_angles(62, 1000), Ok((q, 0)));
    assert_eq!(roll_angles(125, 1000), Ok((0, 0)));
    assert_eq!(roll_angles(250, 1000), Ok((3 * q, 3 * q)));
    assert_eq!(roll_angles(30, 480), Ok((q, 0)));
}

#[test]
fn octant_of_an_unturned_cloud_goes_by_the_signs() {
    // The centre is at half the height: one unit up.
    let top: i32 = 2_000_000;
    assert_eq!(octant(Point { x: 1, y: 1, z: 1_000_001 }, top, 0, 0), 7);
    assert_eq!(octant(Point { x: -1, y: -1, z: 999_999 }, top, 0, 0), 0);
    assert_eq!(octant(Point { x: 1, y: -1, z: 999_999 }, top, 0, 0), 1);
    assert_eq!(octant(Point { x: -1, y: 1, z: 999_999 }, top, 0, 0), 2);
    assert_eq!(octant(Point { x: -1, y: -1, z: 1_000_001 }, top, 0, 0), 4);
    // On a boundary nothing counts as positive.
    assert_eq!(octant(Point { x: 0, y: 0, z: 1_000_000 }, top, 0, 0), 0);
}

#[test]
fn octant_after_a_quarter_turn() {
    let top: i32 = 0;
    let q: u32 = 1 << 30;
    // A quarter turn about the vertical axis takes x to y.
    assert_eq!(octant(Point { x: 5, y: 0, z: 0 }, top, q, 0), 2);
    // A quarter turn about the x axis takes y to z.
    assert_eq!(octant(Point { x: 0, y: 5, z: 0 }, top, 0, q), 4);
    // Both: x goes to y and on to z.
    assert_eq!(octant(Point { x: 5, y: 0, z: 0 }, top, q, q), 4);
}

#[test]
fn octant_holds_at_the_largest_coordinates() {
    let p = Point { x: i32::MIN, y: i32::MAX, z: i32::MIN };
    assert!(octant(p, i32::MAX, 0x2000_0000, 0xE000_0000) < 8);
    assert!(octant(p, i32::MIN, 0x6000_0000, 0xA000_0000) < 8);
}

// Accelerate in detail.

#[test]
fn fifth_root_is_exact_on_fifth_powers() {
    assert_eq!(fifth_root_of(0), 0);
    assert_eq!(fifth_root_of(1), 1 << 19);
    assert_eq!(fifth_root_of(32), 2 << 19);
    assert_eq!(fifth_root_of(243), 3 << 19);
    assert_eq!(fifth_root_of(1000), 2_087_228);
    assert_eq!(fifth_root_of(u32::MAX), 44_275_338);
}

#[test]
fn distance_fallen_grows_with_the_power_of_two_and_a_fifth() {
    assert_eq!(distance_fallen(0), 0);
    assert_eq!(distance_fallen(1), 20);
    assert_eq!(distance_fallen(2), 91);
    assert_eq!(distance_fallen(32), 40_960);
    assert_eq!(distance_fallen(100), 502_376);
    assert_eq!(distance_fallen(1000), 79_621_429);
    assert_eq!(distance_fallen(u32::MAX), 31_155_999_316_507_913_750_168);
}

#[test]
fn distance_fallen_is_close_to_the_real_power() {
    for frame in [1u32, 7, 60, 999, 12_345, 1_000_000] {
        let real = 20.0 * (frame as f64).powf(2.2);
        let ours = distance_fallen(frame) as f64;
        assert!((real - ours).abs() <= 1.0 + real * 1e-6, "frame {}: {} {}", frame, real, ours);
    }
}

#[test]
fn accelerate_bands_in_the_first_frame() {
    // Nothing has fallen yet.  The cloud is two units high, a band one unit:
    // lit from 0 to 0.5 in the first hue, from 1 to 1.5 in the second, and
    // the top starts the third.
    let cloud = cloud_of(vec![
        (0, 0, 0),
        (0, 0, 499_999),
        (0, 0, 500_000),
        (0, 0, 1_000_000),
        (0, 0, 1_499_999),
        (0, 0, 1_500_000),
        (0, 0, 2_000_000),
        (0, 0, -1),
    ]);
    let first = Color { r: ONE, g: 0, b: 0 };
    let second = Color { r: 0, g: ONE, b: 4_200_000 };
    let third = Color { r: ONE, g: 0, b: 3_600_000 };
    assert_eq!(
        accelerate(&cloud, 0, 1000),
        Ok(vec![first, first, DARK, second, second, DARK, third, first])
    );
}

// Twinkle.

#[test]
fn phase_classes_are_the_same_in_every_call() {
    assert_eq!(phase_classes(12), vec![3, 3, 2, 0, 1, 0, 2, 3, 0, 2, 1, 1]);
    assert_eq!(phase_classes(12), phase_classes(12));
    assert_eq!(phase_classes(5), vec![0, 0, 3, 2, 1]);
    assert_eq!(phase_classes(0), Vec::<u8>::new());
    assert_eq!(phase_classes(1), vec![0]);
}

#[test]
fn phase_classes_are_shuffled() {
    let dealt: Vec<u8> = (0..12).map(|i| (i % 4) as u8).collect();
    assert_ne!(phase_classes(12), dealt);
}

#[test]
fn phase_classes_deal_out_the_four_classes_evenly() {
    for n in [4usize, 5, 12, 50, 501] {
        let classes = phase_classes(n);
        assert_eq!(classes.len(), n);
        for class in 0..4u8 {
            let count = classes.iter().filter(|c| **c == class).count();
            let dealt = (0..n).filter(|i| (i % 4) as u8 == class).count();
            assert_eq!(count, dealt);
        }
    }
}

#[test]
fn twinkle_keeps_the_class_of_a_channel_in_every_frame() {
    let cloud = string_of(12);
    let classes = phase_classes(12);
    for frame in [0usize, 1, 100, 333, 999] {
        assert_eq!(twinkle(&cloud, frame, 1000), twinkle_with_phases(&classes, frame, 1000));
    }
}

#[test]
fn twinkle_ignores_the_positions() {
    assert_eq!(twinkle(&tree(), 321, 1000), twinkle(&string_of(6), 321, 1000));
}

#[test]
fn twinkle_first_frame_lights_the_second_class_fully() {
    // Sines of 0, a quarter, a half and three quarters of a turn.
    let frame = twinkle_with_phases(&vec![0, 1, 2, 3], 0, 1000).ok().unwrap();
    assert_eq!(frame, vec![DARK, Color { r: 1_200_000, g: ONE, b: 0 }, DARK, DARK]);
}

#[test]
fn twinkle_sweeps_three_turns() {
    // A third of the way the sweep has made one turn.
    let classes: Vec<u8> = vec![0, 1, 2, 3];
    assert_eq!(twinkle_with_phases(&classes, 100, 300), twinkle_with_phases(&classes, 0, 300));
    assert_eq!(twinkle_with_phases(&classes, 300, 300), twinkle_with_phases(&classes, 0, 300));
    // A twelfth of the way it has made a quarter turn: now the third class
    // is at its peak, in the hue at 0.6 of the wheel.
    let frame = twinkle_with_phases(&classes, 25, 300).ok().unwrap();
    assert_eq!(frame, vec![DARK, DARK, Color { r: 0, g: 2_400_000, b: ONE }, DARK]);
}

// The effects by name.

#[test]
fn every_effect_is_found_by_its_name() {
    assert_eq!(Effect::from_name("barber-pole"), Some(Effect::BarberPole));
    assert_eq!(Effect::from_name("fill-up"), Some(Effect::FillUp));
    assert_eq!(Effect::from_name("snake"), Some(Effect::Snake));
    assert_eq!(Effect::from_name("fall-down"), Some(Effect::FallDown));
    assert_eq!(Effect::from_name("fall-down-rainbow"), Some(Effect::FallDownRainbow));
    assert_eq!(Effect::from_name("accelerate"), Some(Effect::Accelerate));
    assert_eq!(Effect::from_name("roll-around"), Some(Effect::RollAround));
    assert_eq!(Effect::from_name("twinkle"), Some(Effect::Twinkle));
}

#[test]
fn unknown_names_find_nothing() {
    assert_eq!(Effect::from_name(""), None);
    assert_eq!(Effect::from_name("Snake"), None);
    assert_eq!(Effect::from_name("snake "), None);
    assert_eq!(Effect::from_name("fall_down"), None);
    assert_eq!(Effect::from_name("fall-down-"), None);
    assert_eq!(Effect::from_name("sparkle"), None);
}

#[test]
fn names_lead_back_to_their_effects() {
    for effect in ALL {
        assert_eq!(Effect::from_name(effect.name()), Some(effect));
    }
}

#[test]
fn render_runs_the_effect_that_it_is_given() {
    let cloud = tree();
    assert_eq!(Effect::BarberPole.render(&cloud, 185, 1000), barber_pole(&cloud, 185, 1000));
    assert_eq!(Effect::FillUp.render(&cloud, 93, 1000), fill_up(&cloud, 93, 1000));
    assert_eq!(Effect::Snake.render(&cloud, 3, 1000), Ok(snake(&cloud, 3, 1000)));
    assert_eq!(Effect::FallDown.render(&cloud, 140, 1000), fall_down(&cloud, 140, 1000));
    assert_eq!(
        Effect::FallDownRainbow.render(&cloud, 140, 1000),
        fall_down_rainbow(&cloud, 140, 1000)
    );
    assert_eq!(Effect::Accelerate.render(&cloud, 500, 1000), accelerate(&cloud, 500, 1000));
    assert_eq!(Effect::RollAround.render(&cloud, 333, 1000), roll_around(&cloud, 333, 1000));
    assert_eq!(Effect::Twinkle.render(&cloud, 50, 1000), twinkle(&cloud, 50, 1000));
    assert_eq!(Effect::RollAround.render(&cloud, 0, 100), Err(EffectError::TooShort));
}

// Whole sequences.

#[test]
fn generate_gives_one_row_per_frame_and_one_color_per_point() {
    let cloud = tree();
    for effect in ALL {
        let rows = generate(effect, &cloud, 500).ok().unwrap();
        assert_eq!(rows.len(), 500);
        for (frame, row) in rows.iter().enumerate() {
            assert_eq!(row.len(), 6);
            assert_eq!(Ok(row.clone()), effect.render(&cloud, frame, 500));
        }
    }
}

#[test]
fn generate_keeps_every_channel_within_full_intensity() {
    let cloud = tree();
    for effect in ALL {
        for row in generate(effect, &cloud, 480).ok().unwrap() {
            for c in row {
                assert!(c.r <= ONE && c.g <= ONE && c.b <= ONE);
            }
        }
    }
}

#[test]
fn generate_without_frames_is_an_error() {
    for effect in ALL {
        assert_eq!(generate(effect, &tree(), 0), Err(EffectError::TooShort));
    }
}

#[test]
fn generate_gives_nothing_when_the_effect_cannot_run() {
    assert_eq!(generate(Effect::FallDown, &tree(), 100), Err(EffectError::TooShort));
    assert_eq!(generate(Effect::RollAround, &tree(), 479), Err(EffectError::TooShort));
    let flat = cloud_of(vec![(0, 0, 0)]);
    assert_eq!(generate(Effect::Accelerate, &flat, 10), Err(EffectError::FlatCloud));
    assert!(generate(Effect::Snake, &flat, 10).is_ok());
    assert!(generate(Effect::Twinkle, &flat, 1).is_ok());
}
