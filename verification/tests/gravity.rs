// The inverse-square gravity query and its guard conditions.

use rigid2d::rigid_body::RigidBody;

fn body(px: i64, py: i64, mass: i64) -> RigidBody {
    RigidBody::new((px, py), mass).unwrap()
}

#[test]
fn gravity_zero_when_self_below_mass_threshold() {
    // 9.999 < 10.0 threshold, at a distance that would otherwise qualify
    let a = body(0, 0, 9_999);
    let b = body(100_000, 0, 10_000);
    let f = a.calculate_gravity(&b);
    assert_eq!((f.x, f.y), (0, 0));
}

#[test]
fn gravity_zero_when_other_below_mass_threshold() {
    let a = body(0, 0, 10_000);
    let b = body(100_000, 0, 9_999);
    let f = a.calculate_gravity(&b);
    assert_eq!((f.x, f.y), (0, 0));
}

#[test]
fn gravity_zero_when_too_close() {
    // distance 0.099 < 0.1: squared separation 99^2 = 9_801 < 10_000
    let a = body(0, 0, 10_000);
    let b = body(99, 0, 10_000);
    let f = a.calculate_gravity(&b);
    assert_eq!((f.x, f.y), (0, 0));
}

#[test]
fn gravity_zero_when_too_far() {
    // distance 2000.0 > 1000.0
    let a = body(0, 0, 10_000);
    let b = body(2_000_000, 0, 10_000);
    let f = a.calculate_gravity(&b);
    assert_eq!((f.x, f.y), (0, 0));
}

#[test]
fn gravity_nonzero_at_minimum_distance() {
    // distance exactly 0.1 is inside the window (inclusive):
    // mag = 9810 * 10_000 * 10_000 / 10_000 = 98_100_000, root = 100,
    // f = (100 * 98_100_000 / 100, 0)
    let a = body(0, 0, 10_000);
    let b = body(100, 0, 10_000);
    let f = a.calculate_gravity(&b);
    assert_eq!((f.x, f.y), (98_100_000, 0));
}

#[test]
fn gravity_exact_value_diagonal() {
    // d = (60_000, 70_000), q = 8_500_000_000,
    // mag = 9810 * 10_000 * 10_000 / 8_500_000_000 = 115,
    // root = isqrt(8_500_000_000) = 92_195,
    // f = (60_000 * 115 / 92_195, 70_000 * 115 / 92_195) = (74, 87)
    let a = body(20_000, 10_000, 10_000);
    let b = body(80_000, 80_000, 10_000);
    let f = a.calculate_gravity(&b);
    assert_eq!((f.x, f.y), (74, 87));
}

#[test]
fn gravity_points_from_self_toward_other() {
    let a = body(80_000, 80_000, 10_000);
    let b = body(20_000, 10_000, 10_000);
    let f = a.calculate_gravity(&b);
    assert_eq!((f.x, f.y), (-74, -87));
}

#[test]
fn gravity_is_a_pure_query() {
    let a = body(20_000, 10_000, 10_000);
    let b = body(80_000, 80_000, 10_000);
    let _ = a.calculate_gravity(&b);
    assert_eq!((a.position.x, a.position.y), (20_000, 10_000));
    assert_eq!((a.velocity.x, a.velocity.y), (0, 0));
    assert_eq!(a.forces.len(), 0);
    assert_eq!((b.position.x, b.position.y), (80_000, 80_000));
}
