// The update tick: pure inertia, force accumulation across ticks, the
// semi-implicit ordering, and the per-tick clearing of the force map.

use rigid2d::rigid_body::RigidBody;

fn body(px: i64, py: i64, mass: i64) -> RigidBody {
    RigidBody::new((px, py), mass).unwrap()
}

#[test]
fn update_pure_inertia_keeps_velocity_and_advances_position() {
    // With no forces: velocity unchanged, position += v * dt / SCALE.
    let mut b = body(1_000, 1_000, 10_000);
    b.set_velocity((3_000, -2_000));
    b.update(500);
    assert_eq!((b.velocity.x, b.velocity.y), (3_000, -2_000));
    assert_eq!((b.position.x, b.position.y), (2_500, 0));
    assert_eq!((b.acceleration.x, b.acceleration.y), (0, 0));
}

#[test]
fn update_single_force_semi_implicit_order() {
    // a = F * SCALE / m = 10_000 * 1000 / 10_000 = 1_000
    // dv = a * dt / SCALE = 1_000 * 100 / 1000 = 100
    // dp = v_new * dt / SCALE = 100 * 100 / 1000 = 10: the position step
    // uses the already-updated velocity.
    let mut b = body(0, 0, 10_000);
    b.add_persistent_force("thrust", (10_000, 0));
    b.update(100);
    assert_eq!((b.acceleration.x, b.acceleration.y), (1_000, 0));
    assert_eq!((b.velocity.x, b.velocity.y), (100, 0));
    assert_eq!((b.position.x, b.position.y), (10, 0));
}

#[test]
fn update_sums_several_forces() {
    let mut b = body(0, 0, 10_000);
    b.add_persistent_force("thrust", (10_000, 0));
    b.add_persistent_force("lift", (-4_000, 6_000));
    b.update(100);
    // components: 10_000*1000/10_000 = 1_000 and -4_000*1000/10_000 = -400,
    // 6_000*1000/10_000 = 600
    assert_eq!((b.acceleration.x, b.acceleration.y), (600, 600));
    assert_eq!((b.velocity.x, b.velocity.y), (60, 60));
}

#[test]
fn update_clears_force_map_every_tick() {
    let mut b = body(0, 0, 10_000);
    b.add_persistent_force("gravity", (0, 20_000));
    b.add_persistent_force("thrust", (10_000, 0));
    b.add_persistent_force("wind", (-1_000, -1_000));
    b.update(100);
    assert_eq!(b.forces.len(), 0);
    b.update(100);
    assert_eq!(b.forces.len(), 0);
}

#[test]
fn update_reinserted_force_accumulates_linearly() {
    // Re-adding the same force before each tick from rest gives
    // velocity == n * tick increment; here the increment is 100.
    let mut b = body(0, 0, 10_000);
    let mut expected: i64 = 0;
    for _ in 0..5 {
        if !b.forces.iter().any(|e| e.name == "thrust") {
            b.add_persistent_force("thrust", (10_000, 0));
        }
        b.update(100);
        expected += 100;
        assert_eq!(b.velocity.x, expected);
    }
    assert_eq!(b.velocity.x, 500);
}

#[test]
fn update_with_negative_dt_reverses_motion() {
    // dt may be negative: time-reversed but well-defined motion.
    let mut b = body(1_000, 0, 10_000);
    b.set_velocity((2_000, 0));
    b.update(-500);
    assert_eq!((b.velocity.x, b.velocity.y), (2_000, 0));
    assert_eq!((b.position.x, b.position.y), (0, 0));
}

#[test]
fn update_zero_dt_only_clears_forces() {
    let mut b = body(7, 8, 10_000);
    b.set_velocity((123, 456));
    b.add_persistent_force("thrust", (10_000, 0));
    b.update(0);
    assert_eq!((b.velocity.x, b.velocity.y), (123, 456));
    assert_eq!((b.position.x, b.position.y), (7, 8));
    assert_eq!(b.forces.len(), 0);
}
