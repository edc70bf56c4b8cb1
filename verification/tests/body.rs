// Body construction, direct setters, impulse, energy, momentum, and the
// force accumulator, on exact scaled-integer values (SCALE = 1000, so
// 1.0 world unit == 1000 raw units).

use rigid2d::rigid_body::{BodyError, RigidBody};

fn body(px: i64, py: i64, mass: i64) -> RigidBody {
    RigidBody::new((px, py), mass).unwrap()
}

#[test]
fn new_rejects_zero_mass() {
    assert_eq!(RigidBody::new((0, 0), 0).unwrap_err(), BodyError::InvalidMass);
}

#[test]
fn new_rejects_negative_mass() {
    assert_eq!(RigidBody::new((0, 0), -5_000).unwrap_err(), BodyError::InvalidMass);
}

#[test]
fn new_rejects_huge_mass() {
    assert_eq!(RigidBody::new((0, 0), 1_000_001).unwrap_err(), BodyError::InvalidMass);
}

#[test]
fn new_accepts_smallest_and_largest_mass() {
    assert!(RigidBody::new((0, 0), 1).is_ok());
    assert!(RigidBody::new((0, 0), 1_000_000).is_ok());
}

#[test]
fn new_starts_at_rest() {
    let b = body(20_000, 10_000, 10_000);
    assert_eq!((b.position.x, b.position.y), (20_000, 10_000));
    assert_eq!((b.velocity.x, b.velocity.y), (0, 0));
    assert_eq!((b.acceleration.x, b.acceleration.y), (0, 0));
    assert_eq!(b.mass, 10_000);
    assert_eq!(b.forces.len(), 0);
}

#[test]
fn set_velocity_overwrites() {
    let mut b = body(0, 0, 10_000);
    b.set_velocity((3_000, -2_000));
    assert_eq!((b.velocity.x, b.velocity.y), (3_000, -2_000));
}

#[test]
fn apply_acceleration_overwrites_and_reset_clears() {
    let mut b = body(0, 0, 10_000);
    b.apply_acceleration((500, -700));
    assert_eq!((b.acceleration.x, b.acceleration.y), (500, -700));
    b.reset_acceleration();
    assert_eq!((b.acceleration.x, b.acceleration.y), (0, 0));
}

#[test]
fn apply_impulse_divides_by_mass() {
    // dv = impulse * SCALE / mass = 5_000 * 1000 / 10_000 = 500
    let mut b = body(0, 0, 10_000);
    b.apply_impulse((5_000, -2_500));
    assert_eq!((b.velocity.x, b.velocity.y), (500, -250));
}

#[test]
fn momentum_is_velocity_times_mass() {
    // p = v * m / SCALE = 2_000 * 10_000 / 1000 = 20_000
    let mut b = body(0, 0, 10_000);
    b.set_velocity((2_000, -3_000));
    let p = b.get_momentum();
    assert_eq!((p.x, p.y), (20_000, -30_000));
}

#[test]
fn kinetic_energy_exact_value() {
    // KE = m * |v|^2 / (2 * SCALE^2) = 10_000 * 4_000_000 / 2_000_000 = 20_000,
    // i.e. 0.5 * 10.0 * 2.0^2 = 20.0 world units, scaled.
    let mut b = body(0, 0, 10_000);
    b.set_velocity((2_000, 0));
    assert_eq!(b.get_kinetic_energy(), 20_000);
}

#[test]
fn kinetic_energy_zero_at_rest_positive_in_motion() {
    let mut b = body(0, 0, 10_000);
    assert_eq!(b.get_kinetic_energy(), 0);
    b.set_velocity((0, -500));
    assert!(b.get_kinetic_energy() > 0);
    b.set_velocity((-2_000, 3_000));
    assert!(b.get_kinetic_energy() > 0);
}

#[test]
fn kinetic_energy_truncates_below_one_raw_unit() {
    // A velocity of a single raw step: m * |v|^2 = 10_000 < 2 * SCALE^2,
    // so the scaled quotient truncates to zero.
    let mut b = body(0, 0, 10_000);
    b.set_velocity((1, 0));
    assert_eq!(b.get_kinetic_energy(), 0);
}

#[test]
fn add_persistent_force_overwrites_same_name() {
    let mut b = body(0, 0, 10_000);
    b.add_persistent_force("gravity", (1, 2));
    b.add_persistent_force("thrust", (3, 4));
    b.add_persistent_force("gravity", (5, 6));
    assert_eq!(b.forces.len(), 2);
    assert_eq!(b.forces[0].name, "gravity");
    assert_eq!((b.forces[0].force.x, b.forces[0].force.y), (5, 6));
    assert_eq!(b.forces[1].name, "thrust");
    assert_eq!((b.forces[1].force.x, b.forces[1].force.y), (3, 4));
}

#[test]
fn remove_force_removes_named_entry() {
    let mut b = body(0, 0, 10_000);
    b.add_persistent_force("gravity", (1, 2));
    b.add_persistent_force("thrust", (3, 4));
    b.remove_force("gravity");
    assert_eq!(b.forces.len(), 1);
    assert_eq!(b.forces[0].name, "thrust");
}

#[test]
fn remove_force_missing_name_is_a_noop() {
    let mut b = body(0, 0, 10_000);
    b.add_persistent_force("gravity", (1, 2));
    b.remove_force("wind");
    assert_eq!(b.forces.len(), 1);
}
