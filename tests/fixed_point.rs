use bevy_pong::geometry::{collide, Collision, Vec2};
use bevy_pong::trig::{cos_deci, isqrt, normalize, scale_trunc, sin_deci, UNIT};

#[test]
fn isqrt_rounds_down() {
    assert_eq!(isqrt(0), 0);
    assert_eq!(isqrt(15), 3);
    assert_eq!(isqrt(16), 4);
    assert_eq!(isqrt(1_000_000_000_000), 1_000_000);
}

#[test]
fn sine_exact_points() {
    assert_eq!(sin_deci(0), 0);
    assert_eq!(sin_deci(300), 500_000);
    assert_eq!(sin_deci(900), UNIT);
    assert_eq!(sin_deci(-300), -500_000);
    assert_eq!(sin_deci(2700), -UNIT);
    assert_eq!(sin_deci(375), 608_000);
    assert_eq!(sin_deci(-450), -705_882);
}

#[test]
fn cosine_values() {
    assert_eq!(cos_deci(0), UNIT);
    assert_eq!(cos_deci(750), 260_355);
    assert_eq!(cos_deci(-750), 260_355);
    assert_eq!(cos_deci(1800), -UNIT);
}

#[test]
fn sine_is_monotonic_over_quarter_turns() {
    let mut prev = sin_deci(-900);
    for a in -899..=900 {
        let s = sin_deci(a);
        assert!(s >= prev, "sine decreased at {}", a);
        prev = s;
    }
}

#[test]
fn normalize_serve_vector() {
    let v = normalize(UNIT, UNIT / 2);
    assert_eq!(v, Vec2::new(894_427, 447_213));
    let w = normalize(-UNIT, -UNIT / 2);
    assert_eq!(w, Vec2::new(-894_427, -447_213));
}

#[test]
fn normalize_axis_vector_is_exact() {
    assert_eq!(normalize(300_000, 0), Vec2::new(UNIT, 0));
    assert_eq!(normalize(0, -2 * UNIT), Vec2::new(0, -UNIT));
}

#[test]
fn scale_trunc_rounds_toward_zero() {
    assert_eq!(scale_trunc(7, 1, 2), 3);
    assert_eq!(scale_trunc(-7, 1, 2), -3);
    assert_eq!(scale_trunc(-5, 3, 4), -3);
}

#[test]
fn collide_classifies_sides() {
    let size = Vec2::new(20, 20);
    let wall = Vec2::new(0, 0);
    let wall_size = Vec2::new(100, 20);
    assert_eq!(collide(Vec2::new(0, 100), size, wall, wall_size), None);
    assert_eq!(collide(Vec2::new(0, 15), size, wall, wall_size), Some(Collision::Top));
    assert_eq!(collide(Vec2::new(0, -15), size, wall, wall_size), Some(Collision::Bottom));
    assert_eq!(collide(Vec2::new(-55, 0), size, wall, wall_size), Some(Collision::Left));
    assert_eq!(collide(Vec2::new(55, 0), size, wall, wall_size), Some(Collision::Right));
    assert_eq!(collide(Vec2::new(0, 0), Vec2::new(10, 10), wall, wall_size), Some(Collision::Inside));
}

#[test]
fn collide_touching_edges_is_no_contact() {
    let size = Vec2::new(20, 20);
    assert_eq!(collide(Vec2::new(0, 20), size, Vec2::new(0, 0), size), None);
}
