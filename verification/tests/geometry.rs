use endless_chase::geometry::{
    clamp_to, distance_between, is_in_box, is_within_radius, magnitude_of, norm_of, norm_squared_of,
    step_along, Position, DISTANCE_LIMIT,
};
use endless_chase::units::{isqrt, mul_wide, product_le, WORLD_LIMIT};

#[test]
fn integer_square_root_rounds_down() {
    assert_eq!(isqrt(0), 0);
    assert_eq!(isqrt(1), 1);
    assert_eq!(isqrt(3), 1);
    assert_eq!(isqrt(4), 2);
    assert_eq!(isqrt(99), 9);
    assert_eq!(isqrt(100), 10);
    assert_eq!(isqrt(2_000_000), 1_414);
    assert_eq!(isqrt(u64::MAX as u128), 4_294_967_295);
    assert_eq!(isqrt(u128::MAX), u64::MAX);
    assert_eq!(isqrt((u64::MAX as u128) * (u64::MAX as u128) - 1), u64::MAX - 1);
}

#[test]
fn integer_square_root_brackets_its_argument() {
    for n in 0..5_000u128 {
        let r = isqrt(n) as u128;
        assert!(r * r <= n && n < (r + 1) * (r + 1));
    }
}

#[test]
fn clamp_and_magnitude() {
    assert_eq!(clamp_to(5, -3, 3), 3);
    assert_eq!(clamp_to(-5, -3, 3), -3);
    assert_eq!(clamp_to(2, -3, 3), 2);
    assert_eq!(clamp_to(i128::MAX, i64::MIN, i64::MAX), i64::MAX);
    assert_eq!(magnitude_of(-7), 7);
    assert_eq!(magnitude_of(7), 7);
    assert_eq!(magnitude_of(i64::MIN as i128), 1u128 << 63);
}

#[test]
fn positions_are_made_inside_the_world() {
    assert_eq!(Position::new(5, -6), Position { x: 5, y: -6 });
    assert_eq!(Position::new(i64::MAX, i64::MIN), Position { x: WORLD_LIMIT, y: -WORLD_LIMIT });
    let far = Position { x: WORLD_LIMIT, y: 0 };
    assert_eq!(far.translate(1, i64::MIN), Position { x: WORLD_LIMIT, y: -WORLD_LIMIT });
    assert_eq!(far.translate(-1, 2), Position { x: WORLD_LIMIT - 1, y: 2 });
}

#[test]
fn norms_and_distances() {
    assert_eq!(norm_squared_of(3, -4), 25);
    assert_eq!(norm_of(3, -4), 5);
    assert_eq!(norm_of(1, 1), 1);
    assert_eq!(norm_of(0, 0), 0);
    assert_eq!(norm_squared_of(i64::MIN, i64::MIN), 1u128 << 127);
    let a = Position { x: -WORLD_LIMIT, y: -WORLD_LIMIT };
    let b = Position { x: WORLD_LIMIT, y: WORLD_LIMIT };
    let across = distance_between(a, b);
    assert_eq!(across, 2_828_427_124_746_190);
    assert!(across <= DISTANCE_LIMIT);
    assert_eq!(distance_between(a, a), 0);
}

#[test]
fn radius_and_box_tests() {
    let origin = Position { x: 0, y: 0 };
    assert!(is_within_radius(origin, Position { x: 3, y: 4 }, 5));
    assert!(!is_within_radius(origin, Position { x: 3, y: 4 }, 4));
    assert!(is_within_radius(origin, origin, 0));
    assert!(is_in_box(origin, 0, 0, origin));
    assert!(is_in_box(origin, 3, 4, Position { x: -3, y: 4 }));
    assert!(!is_in_box(origin, 3, 4, Position { x: -4, y: 4 }));
}

#[test]
fn steps_are_rounded_towards_zero_and_mirror_each_other() {
    assert_eq!(step_along(1_000, 0, 1_000_000), (10_000, 0));
    assert_eq!(step_along(-1_000, 0, 1_000_000), (-10_000, 0));
    assert_eq!(step_along(1_000, 1_000, 1_000_000), (7_071, 7_071));
    assert_eq!(step_along(-1_000, 1_000, 1_000_000), (-7_071, 7_071));
    assert_eq!(step_along(1, 1, 1_000_000), (7_071, 7_071));
    assert_eq!(step_along(-1, -2, 1_000_000), (-4_472, -8_944));
    assert_eq!(step_along(3, -4, 500), (3, -4));
    assert_eq!(step_along(0, 0, 1_000_000), (0, 0));
    assert_eq!(step_along(5, 5, 0), (0, 0));
    assert_eq!(step_along(1_000, 1, 1_000), (9, 0));
    assert_eq!(step_along(1_000, 0, 1_000), (10, 0));
    assert_eq!(step_along(2_000_000_000_000_000, -2_000_000_000_000_000, 3_000_000_000_000_000), (21_213_203_435_596, -21_213_203_435_596));
    assert_eq!(step_along(i64::MIN, i64::MAX, u64::MAX).0 < 0, true);
}

#[test]
fn steps_are_exact_for_the_largest_arguments() {
    let (x, y) = step_along(i64::MAX, i64::MAX, u64::MAX);
    // The largest speed over a hundred, over the root of two.
    assert_eq!((x, y), (130_438_178_253_327_822, 130_438_178_253_327_822));
    assert_eq!(step_along(i64::MIN, 0, u64::MAX), (-184_467_440_737_095_516, 0));
    assert_eq!(step_along(0, i64::MIN, 99), (0, 0));
    assert_eq!(step_along(0, i64::MAX, 100), (0, 1));
}

#[test]
fn wide_products() {
    assert_eq!(mul_wide(0, u128::MAX), (0, 0));
    assert_eq!(mul_wide(1, u128::MAX), (0, u128::MAX));
    assert_eq!(mul_wide(2, u128::MAX), (1, u128::MAX - 1));
    assert_eq!(mul_wide(u128::MAX, u128::MAX), (u128::MAX - 1, 1));
    assert_eq!(mul_wide(1 << 64, 1 << 64), (1, 0));
    assert_eq!(mul_wide(1 << 100, 1 << 100), (1 << 72, 0));
    assert_eq!(mul_wide(3, 5), (0, 15));
    assert!(product_le(3, 5, 4, 4));
    assert!(!product_le(4, 4, 3, 5));
    assert!(product_le(u128::MAX, 2, 2, u128::MAX));
    assert!(product_le(u128::MAX, u128::MAX - 1, u128::MAX, u128::MAX));
    assert!(!product_le(u128::MAX, u128::MAX, u128::MAX, u128::MAX - 1));
    assert!(product_le(0, u128::MAX, 0, 0));
}
