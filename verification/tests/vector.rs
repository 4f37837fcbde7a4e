use bevy_pong::fixed::{isqrt, mul_div, LIMIT, UNIT};
use bevy_pong::vector::{Vec2, UNIT_TOLERANCE};

fn length_squared(v: Vec2) -> i128 {
    (v.x as i128) * (v.x as i128) + (v.y as i128) * (v.y as i128)
}

fn is_unit(v: Vec2) -> bool {
    let low = ((UNIT - UNIT_TOLERANCE) as i128) * ((UNIT - UNIT_TOLERANCE) as i128);
    let high = ((UNIT + UNIT_TOLERANCE) as i128) * ((UNIT + UNIT_TOLERANCE) as i128);
    low <= length_squared(v) && length_squared(v) <= high
}

#[test]
fn isqrt_of_small_numbers() {
    let expected: [u128; 18] = [0, 1, 1, 1, 2, 2, 2, 2, 2, 3, 3, 3, 3, 3, 3, 3, 4, 4];
    for n in 0..18u128 {
        assert_eq!(isqrt(n), expected[n as usize]);
    }
}

#[test]
fn isqrt_rounds_down_at_squares() {
    for r in [1u128, 2, 999, 1_000_000, 1_414_213_562_373, 18_446_744_073_709_551_615] {
        assert_eq!(isqrt(r * r), r);
        assert_eq!(isqrt(r * r - 1), r - 1);
        if r < 18_446_744_073_709_551_615 {
            assert_eq!(isqrt(r * r + 2 * r), r);
        }
    }
}

#[test]
fn isqrt_of_the_largest_number() {
    assert_eq!(isqrt(u128::MAX), 18_446_744_073_709_551_615);
}

#[test]
fn mul_div_rounds_toward_zero() {
    assert_eq!(mul_div(7, 3, 2), 10);
    assert_eq!(mul_div(-7, 3, 2), -10);
    assert_eq!(mul_div(7, -3, 2), -10);
    assert_eq!(mul_div(-7, -3, 2), 10);
    assert_eq!(mul_div(0, 5, 9), 0);
    assert_eq!(mul_div(1, 1, 2), 0);
    assert_eq!(mul_div(-1, 1, 2), 0);
}

#[test]
fn mul_div_takes_the_whole_range() {
    assert_eq!(mul_div(i64::MAX, i64::MAX, 1), (i64::MAX as i128) * (i64::MAX as i128));
    assert_eq!(mul_div(i64::MIN, i64::MIN, 1), (i64::MIN as i128) * (i64::MIN as i128));
    assert_eq!(mul_div(i64::MIN, i64::MAX, i64::MAX), i64::MIN as i128);
}

#[test]
fn normalize_three_four_five() {
    let n = Vec2::new(3 * UNIT, 4 * UNIT).normalize();
    assert_eq!(n, Vec2::new(600_000, 800_000));
}

#[test]
fn normalize_exact_values() {
    assert_eq!(Vec2::new(1, 1).normalize(), Vec2::new(707_107, 707_107));
    assert_eq!(Vec2::new(-1, -1).normalize(), Vec2::new(-707_107, -707_107));
    assert_eq!(Vec2::new(-UNIT, -UNIT).normalize(), Vec2::new(-707_106, -707_106));
    assert_eq!(Vec2::new(5, -12).normalize(), Vec2::new(384_615, -923_076));
    assert_eq!(Vec2::new(123_456, -654_321).normalize(), Vec2::new(185_406, -982_661));
    assert_eq!(Vec2::new(1_100_000, 100_000).normalize(), Vec2::new(995_893, 90_535));
    assert_eq!(Vec2::new(999_999, -1_000_000).normalize(), Vec2::new(707_106, -707_107));
}

#[test]
fn normalize_along_the_axes() {
    assert_eq!(Vec2::new(1, 0).normalize(), Vec2::new(UNIT, 0));
    assert_eq!(Vec2::new(0, -7).normalize(), Vec2::new(0, -UNIT));
    assert_eq!(Vec2::new(-LIMIT, 0).normalize(), Vec2::new(-UNIT, 0));
    assert_eq!(Vec2::new(0, LIMIT).normalize(), Vec2::new(0, UNIT));
}

#[test]
fn normalize_at_the_limit() {
    assert_eq!(Vec2::new(LIMIT, LIMIT).normalize(), Vec2::new(707_106, 707_106));
    assert_eq!(Vec2::new(-LIMIT, 1).normalize(), Vec2::new(-UNIT, 0));
    assert_eq!(Vec2::new(LIMIT, -LIMIT).normalize(), Vec2::new(707_106, -707_106));
}

#[test]
fn normalized_vectors_are_one_long() {
    let coordinates: [i64; 13] = [
        -LIMIT,
        -987_654_321,
        -UNIT,
        -1_234,
        -3,
        -1,
        0,
        1,
        2,
        77,
        UNIT,
        31_415_926_535,
        LIMIT,
    ];
    for x in coordinates {
        for y in coordinates {
            if x != 0 || y != 0 {
                let n = Vec2::new(x, y).normalize();
                assert!(is_unit(n), "{:?} is not one long", n);
                assert!(n.x == 0 || (n.x > 0) == (x > 0));
                assert!(n.y == 0 || (n.y > 0) == (y > 0));
            }
        }
    }
}

#[test]
fn vec2_new_keeps_its_coordinates() {
    let v = Vec2::new(-4, 9);
    assert_eq!(v.x, -4);
    assert_eq!(v.y, 9);
    assert_eq!(v, Vec2 { x: -4, y: 9 });
    assert_ne!(v, Vec2::new(9, -4));
}
