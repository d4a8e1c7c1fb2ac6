use atc::math::{
    angle_lerp, clamp, complement_angle, degrees_normalize, invert_bearing, lerp, long_angle_distance,
    long_angle_lerp, round_to_sf, short_angle_distance, sign, spread, InterpolationKind, Interpolator,
};

#[test]
fn test_sign() {
    assert_eq!(-1, sign(-6));
    assert_eq!(1, sign(10));
    assert_eq!(0, sign(0));
}

#[test]
fn test_degrees_normalize() {
    assert_eq!(10, degrees_normalize(370));
    assert_eq!(350, degrees_normalize(-10));
}

#[test]
fn test_invert_bearing() {
    assert_eq!(0, invert_bearing(180));
    assert_eq!(180, invert_bearing(0));
    assert_eq!(180, invert_bearing(360));
    assert_eq!(270, invert_bearing(90));
    assert_eq!(105, invert_bearing(285));
}

#[test]
fn test_complement_angle() {
    assert_eq!(0, complement_angle(0));
    assert_eq!(-270, complement_angle(90));
    assert_eq!(-180, complement_angle(180));
}

// Half a turn is a right turn (+180), so the long way round is -180.
#[test]
fn test_long_angle_distance() {
    assert_eq!(-270, long_angle_distance(0, 90));
    assert_eq!(-180, long_angle_distance(0, 180));
    assert_eq!(-340, long_angle_distance(350, 10));
    assert_eq!(-180, long_angle_distance(90, 270));
    assert_eq!(-180, long_angle_distance(270, 90));
}

// The shortest rotation lies in (-180, 180]: half a turn is +180.
#[test]
fn test_short_angle_distance() {
    assert_eq!(20, short_angle_distance(350, 10));
    assert_eq!(-20, short_angle_distance(10, 350));
    assert_eq!(180, short_angle_distance(90, 270));
    assert_eq!(180, short_angle_distance(270, 90));
}

#[test]
fn test_clamp() {
    // i32
    assert_eq!(0, clamp(-1, 0, 1));
    assert_eq!(1, clamp(2, 0, 1));
    assert_eq!(1, clamp(1, 0, 2));

    // f32
    assert_eq!(0.0, clamp(-1.0, 0.0, 1.0));
    assert_eq!(1.0, clamp(2.0, 0.0, 1.0));
    assert_eq!(1.0, clamp(1.0, 0.0, 2.0));
}

#[test]
fn test_angle_lerp() {
    assert_eq!(10, angle_lerp(350, 10, 1, 1));
    assert_eq!(0, angle_lerp(350, 10, 1, 2));

    assert_eq!(0, angle_lerp(90, 0, 1, 1));
    assert_eq!(45, angle_lerp(90, 0, 1, 2));

    assert_eq!(350, angle_lerp(10, 350, 1, 1));
    assert_eq!(0, angle_lerp(10, 350, 1, 2));
}

#[test]
fn test_long_angle_lerp() {
    assert_eq!(10, long_angle_lerp(350, 10, 1, 1));
    assert_eq!(180, long_angle_lerp(350, 10, 1, 2));

    assert_eq!(0, long_angle_lerp(90, 0, 1, 1));
    assert_eq!(225, long_angle_lerp(90, 0, 1, 2));

    assert_eq!(350, long_angle_lerp(10, 350, 1, 1));
    assert_eq!(180, long_angle_lerp(10, 350, 1, 2));
}

#[test]
fn short_and_long_distances_make_a_full_turn() {
    for (a, b) in [(0, 90), (350, 10), (10, 350), (90, 270), (123, 321), (45, 44)] {
        let s = short_angle_distance(a, b);
        let l = long_angle_distance(a, b);
        assert!(s.abs() <= 180);
        assert_eq!(360 - s.abs(), l.abs());
        assert_eq!(s.signum(), -l.signum());
    }
    assert_eq!(0, short_angle_distance(42, 42));
    assert_eq!(0, long_angle_distance(42, 402));
}

#[test]
fn angle_lerp_starts_and_ends_at_its_bearings() {
    for (a, b) in [(0, 90), (350, 10), (10, 350), (90, 270), (200, 20)] {
        assert_eq!(a, angle_lerp(a, b, 0, 7));
        assert_eq!(b, angle_lerp(a, b, 7, 7));
    }
    assert_eq!(10, angle_lerp(370, 730, 0, 3));
}

#[test]
fn lerp_rounds_toward_the_start() {
    assert_eq!(5, lerp(0, 10, 1, 2));
    assert_eq!(3, lerp(0, 10, 1, 3));
    assert_eq!(-3, lerp(0, -10, 1, 3));
    assert_eq!(250, lerp(150, 250, 1, 1));
}

#[test]
fn spread_moves_inner_values_to_the_nearer_bound() {
    assert_eq!(-10, spread(-3, -10, 10));
    assert_eq!(10, spread(0, -10, 10));
    assert_eq!(10, spread(4, -10, 10));
    assert_eq!(25, spread(25, -10, 10));
    assert_eq!(-10, spread(-10, -10, 10));
}

#[test]
fn round_to_sf_rounds_halves_up() {
    assert_eq!(1000, round_to_sf(1499, 3));
    assert_eq!(2000, round_to_sf(1500, 3));
    assert_eq!(0, round_to_sf(499, 3));
    assert_eq!(1234, round_to_sf(1234, 0));
}

#[test]
fn interpolator_stops_at_its_end() {
    let mut i = Interpolator::new(0, 100, 1000);
    assert_eq!(25, i.update(250));
    assert!(!i.is_finished());
    assert_eq!(100, i.update(10_000));
    assert!(i.is_finished());
    assert_eq!(100, i.update(1));

    let mut arc = Interpolator::with_fn(350, 10, 200, InterpolationKind::ShortestArc);
    assert_eq!(0, arc.update(100));
    let mut long = Interpolator::with_fn(350, 10, 200, InterpolationKind::LongestArc);
    assert_eq!(180, long.update(100));
}
