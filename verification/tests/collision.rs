// The pairwise impulse resolver: the head-on restitution scenario, the
// positional-correction scenario, the slop band, and momentum conservation
// of the impulse step.

use rigid2d::collision::{resolve_collision, Contact};
use rigid2d::rigid_body::RigidBody;
use rigid2d::vec2::Vec2;

fn body(px: i64, py: i64, mass: i64) -> RigidBody {
    RigidBody::new((px, py), mass).unwrap()
}

#[test]
fn head_on_bounce_with_half_restitution() {
    // Masses 10 and 10, approaching head-on at relative speed 4 along the
    // normal, restitution 0.5: impulse magnitude 30, velocity changes -3
    // and +3, post-impulse relative speed 2.
    let mut a = body(0, 0, 10_000);
    let mut b = body(1_000, 0, 10_000);
    a.set_velocity((2_000, 0));
    b.set_velocity((-2_000, 0));
    let contact = Contact { normal: Vec2 { x: 1_000, y: 0 }, penetration: 0 };
    resolve_collision(&mut a, &mut b, &contact);
    assert_eq!((a.velocity.x, a.velocity.y), (-1_000, 0));
    assert_eq!((b.velocity.x, b.velocity.y), (1_000, 0));
    // relative speed along the normal fell from 4.0 to 2.0
    assert_eq!(b.velocity.x - a.velocity.x, 2_000);
    // zero penetration: no positional correction
    assert_eq!((a.position.x, a.position.y), (0, 0));
    assert_eq!((b.position.x, b.position.y), (1_000, 0));
}

#[test]
fn masses_and_forces_survive_resolution() {
    let mut a = body(0, 0, 10_000);
    let mut b = body(1_000, 0, 20_000);
    a.add_persistent_force("gravity", (0, 5_000));
    a.set_velocity((2_000, 0));
    let contact = Contact { normal: Vec2 { x: 1_000, y: 0 }, penetration: 0 };
    resolve_collision(&mut a, &mut b, &contact);
    assert_eq!(a.mass, 10_000);
    assert_eq!(b.mass, 20_000);
    assert_eq!(a.forces.len(), 1);
    assert_eq!(b.forces.len(), 0);
}

#[test]
fn positional_correction_splits_by_inverse_mass() {
    // Penetration 0.05, slop 0.01, percent 0.2, masses 10/10:
    // t = 50 * 200 / 1000 = 10, invm = 200,
    // correction = 1000 * 10 / 200 = 50 (0.05 world units),
    // each body moves 50 * 1000 / 10_000 = 5 (0.005 world units).
    let mut a = body(0, 0, 10_000);
    let mut b = body(100, 0, 10_000);
    let contact = Contact { normal: Vec2 { x: 1_000, y: 0 }, penetration: 50 };
    resolve_collision(&mut a, &mut b, &contact);
    assert_eq!((a.position.x, a.position.y), (-5, 0));
    assert_eq!((b.position.x, b.position.y), (105, 0));
    // both bodies were at rest, so the impulse step changed nothing
    assert_eq!((a.velocity.x, a.velocity.y), (0, 0));
    assert_eq!((b.velocity.x, b.velocity.y), (0, 0));
}

#[test]
fn negative_penetration_corrects_by_magnitude() {
    let mut a = body(0, 0, 10_000);
    let mut b = body(100, 0, 10_000);
    let contact = Contact { normal: Vec2 { x: 1_000, y: 0 }, penetration: -50 };
    resolve_collision(&mut a, &mut b, &contact);
    assert_eq!((a.position.x, a.position.y), (-5, 0));
    assert_eq!((b.position.x, b.position.y), (105, 0));
}

#[test]
fn penetration_within_slop_leaves_positions_alone() {
    // |penetration| == slop is not corrected
    let mut a = body(0, 0, 10_000);
    let mut b = body(100, 0, 10_000);
    let contact = Contact { normal: Vec2 { x: 1_000, y: 0 }, penetration: 10 };
    resolve_collision(&mut a, &mut b, &contact);
    assert_eq!((a.position.x, a.position.y), (0, 0));
    assert_eq!((b.position.x, b.position.y), (100, 0));
}

#[test]
fn unequal_masses_conserve_momentum_within_tolerance() {
    // Masses 10 and 30: dot = -6000, invm = 133 (truncated),
    // j = 9_000_000 / 133 = 67_669, dva = 6_766, dvb = 2_255.
    let mut a = body(0, 0, 10_000);
    let mut b = body(1_000, 0, 30_000);
    a.set_velocity((5_000, 0));
    b.set_velocity((-1_000, 0));
    let contact = Contact { normal: Vec2 { x: 1_000, y: 0 }, penetration: 0 };
    resolve_collision(&mut a, &mut b, &contact);
    assert_eq!((a.velocity.x, a.velocity.y), (-1_766, 0));
    assert_eq!((b.velocity.x, b.velocity.y), (1_255, 0));
    // mass-weighted velocity changes cancel to within ma + mb raw units
    let dva: i64 = a.velocity.x - 5_000;
    let dvb: i64 = b.velocity.x - -1_000;
    let drift: i64 = 10_000 * dva + 30_000 * dvb;
    assert!(drift.abs() < 10_000 + 30_000);
}

#[test]
fn separating_bodies_get_a_separating_impulse() {
    // The resolver applies the formula regardless of approach direction:
    // with bodies already separating the dot product is positive and the
    // impulse reverses sign.
    let mut a = body(0, 0, 10_000);
    let mut b = body(1_000, 0, 10_000);
    a.set_velocity((-2_000, 0));
    b.set_velocity((2_000, 0));
    let contact = Contact { normal: Vec2 { x: 1_000, y: 0 }, penetration: 0 };
    resolve_collision(&mut a, &mut b, &contact);
    assert_eq!((a.velocity.x, a.velocity.y), (1_000, 0));
    assert_eq!((b.velocity.x, b.velocity.y), (-1_000, 0));
}
