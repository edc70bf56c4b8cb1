//! Per-body kinematic state, a named-force accumulator, and the
//! semi-implicit Euler integrator, together with gravity, energy and
//! momentum queries.

use crate::fixed::{
    div_rtz, div_tz, in_range, int_sqrt, lemma_div_tz_bound, lemma_div_tz_quotient_bound,
    lemma_div_tz_zero, lemma_sqrt_floor_unique, sqrt_floor,
    COORD_LIMIT, DT_LIMIT, FORCE_COUNT_LIMIT, FORCE_LIMIT, MASS_LIMIT, SCALE, SPEED_LIMIT,
};
use crate::vec2::{vec_in_range, Vec2};
use vstd::arithmetic::div_mod::{lemma_div_by_self, lemma_div_is_ordered,
    lemma_div_nonincreasing, lemma_div_pos_is_pos};
use vstd::prelude::*;

verus! {

/// Gravitational constant, scaled.
pub const GRAVITY_CONSTANT: i64 = 9810;

/// Bodies lighter than this neither exert nor feel gravity.
pub const MIN_MASS_FOR_GRAVITY: i64 = 10_000;

/// Below this separation the gravity query returns zero, guarding the
/// near-zero singularity.
pub const MIN_DISTANCE_FOR_GRAVITY: i64 = 100;

/// Beyond this separation gravity is treated as negligible.
pub const MAX_DISTANCE_FOR_GRAVITY: i64 = 1_000_000;

/// Largest magnitude an accumulated acceleration component can reach:
/// `FORCE_COUNT_LIMIT * FORCE_LIMIT * SCALE`.
pub const ACCEL_LIMIT: i64 = 1_000_000_000_000_000;

/// A named entry of the per-body force accumulator.
#[derive(Clone, Debug)]
pub struct ForceEntry {
    pub name: String,
    pub force: Vec2,
}

/// Rejected input at body construction.
#[derive(Clone, Copy, Debug, PartialEq, Eq, Structural)]
pub enum BodyError {
    /// The mass was not strictly positive, or too large to compute with.
    InvalidMass,
}

/// A point body with position, velocity, acceleration, mass and a named
/// force accumulator.
#[derive(Clone, Debug)]
pub struct RigidBody {
    pub position: Vec2,
    pub velocity: Vec2,
    pub acceleration: Vec2,
    pub mass: i64,
    pub forces: Vec<ForceEntry>,
}

/// No two entries carry the same name.
pub open spec fn names_unique(s: Seq<ForceEntry>) -> bool {
    forall|i: int, j: int| 0 <= i < j < s.len() ==> s[i].name@ != s[j].name@
}

/// Acceleration accumulated from a force sequence: each force component is
/// divided by the mass (scaled), and the quotients are summed in order.
pub open spec fn accel_sum_x(s: Seq<ForceEntry>, m: int) -> int
    decreases s.len(),
{
    if s.len() == 0 {
        0
    } else {
        accel_sum_x(s.drop_last(), m) + div_tz(s.last().force.x * SCALE, m)
    }
}

/// As [`accel_sum_x`], for the `y` components.
pub open spec fn accel_sum_y(s: Seq<ForceEntry>, m: int) -> int
    decreases s.len(),
{
    if s.len() == 0 {
        0
    } else {
        accel_sum_y(s.drop_last(), m) + div_tz(s.last().force.y * SCALE, m)
    }
}

/// Velocity after one semi-implicit Euler step under acceleration `a`.
pub open spec fn integrated_velocity(v: int, a: int, dt: int) -> int {
    v + div_tz(a * dt, SCALE as int)
}

/// Position after one step, advanced by the already-updated velocity.
pub open spec fn integrated_position(p: int, v_new: int, dt: int) -> int {
    p + div_tz(v_new * dt, SCALE as int)
}

/// Kinetic energy `m * |v|^2 / 2`, in scaled units.
pub open spec fn kinetic_energy_of(b: RigidBody) -> int {
    (b.mass * (b.velocity.x * b.velocity.x + b.velocity.y * b.velocity.y)) / (2 * SCALE * SCALE)
}

/// Momentum `v * m`, in scaled units.
pub open spec fn momentum_of(b: RigidBody) -> (int, int) {
    (div_tz(b.velocity.x * b.mass, SCALE as int), div_tz(b.velocity.y * b.mass, SCALE as int))
}

/// Squared separation of the two bodies, in raw units.
pub open spec fn gravity_dist_sq(a: RigidBody, b: RigidBody) -> int {
    let dx = b.position.x - a.position.x;
    let dy = b.position.y - a.position.y;
    dx * dx + dy * dy
}

/// The attractive force `a` feels toward `b`: zero when either mass is below
/// the gravity threshold or the squared separation leaves
/// `[MIN_DISTANCE_FOR_GRAVITY^2, MAX_DISTANCE_FOR_GRAVITY^2]`, and otherwise
/// the unit direction times `GRAVITY_CONSTANT * m1 * m2 / dist^2`.
pub open spec fn gravity_force(a: RigidBody, b: RigidBody) -> (int, int) {
    let dx = b.position.x - a.position.x;
    let dy = b.position.y - a.position.y;
    let q = gravity_dist_sq(a, b);
    if a.mass < MIN_MASS_FOR_GRAVITY || b.mass < MIN_MASS_FOR_GRAVITY {
        (0, 0)
    } else if q < MIN_DISTANCE_FOR_GRAVITY * MIN_DISTANCE_FOR_GRAVITY || q
        > MAX_DISTANCE_FOR_GRAVITY * MAX_DISTANCE_FOR_GRAVITY {
        (0, 0)
    } else {
        let mag = (GRAVITY_CONSTANT * a.mass * b.mass) / q;
        let root = sqrt_floor(q);
        (div_tz(dx * mag, root), div_tz(dy * mag, root))
    }
}

impl RigidBody {
    /// The mass invariant: strictly positive, and small enough for every
    /// scaled computation to stay within machine bounds.
    pub open spec fn mass_ok(&self) -> bool {
        1 <= self.mass <= MASS_LIMIT
    }

    /// Well-formedness: the mass invariant, and uniquely named forces.
    pub open spec fn wf(&self) -> bool {
        self.mass_ok() && names_unique(self.forces@)
    }

    /// Create a body at `position` with the given mass and zero velocity and
    /// acceleration; a non-positive (or too large) mass is rejected.
    pub fn new(position: (i64, i64), mass: i64) -> (r: Result<RigidBody, BodyError>)
        ensures
            r is Ok <==> 1 <= mass <= MASS_LIMIT,
            r matches Ok(b) ==> b.position == (Vec2 { x: position.0, y: position.1 })
                && b.velocity == (Vec2 { x: 0, y: 0 })
                && b.acceleration == (Vec2 { x: 0, y: 0 })
                && b.mass == mass
                && b.forces@.len() == 0
                && b.wf(),
    {
        if mass < 1 || mass > MASS_LIMIT {
            return Err(BodyError::InvalidMass);
        }
        Ok(
            RigidBody {
                position: Vec2 { x: position.0, y: position.1 },
                velocity: Vec2::zero(),
                acceleration: Vec2::zero(),
                mass,
                forces: Vec::new(),
            },
        )
    }

    /// Index of the entry named `key`, if any.
    fn find_force(forces: &Vec<ForceEntry>, key: &String) -> (r: Option<usize>)
        ensures
            match r {
                Some(i) => i < forces@.len() && forces@[i as int].name@ == key@,
                None => forall|j: int|
                    0 <= j < forces@.len() ==> (#[trigger] forces@[j]).name@ != key@,
            },
    {
        let n: usize = forces.len();
        let mut i: usize = 0;
        while i < n
            invariant
                i <= n,
                n == forces@.len(),
                forall|j: int| 0 <= j < i as int ==> (#[trigger] forces@[j]).name@ != key@,
            decreases n - i,
        {
            if forces[i].name.eq(key) {
                return Some(i);
            }
            i += 1;
        }
        None
    }

    /// Insert or replace the named force; every other entry is untouched.
    pub fn add_persistent_force(&mut self, name: &str, force: (i64, i64))
        requires
            old(self).wf(),
        ensures
            final(self).wf(),
            final(self).mass == old(self).mass,
            final(self).position == old(self).position,
            final(self).velocity == old(self).velocity,
            final(self).acceleration == old(self).acceleration,
            (exists|i: int|
                0 <= i < old(self).forces@.len() && (#[trigger] old(self).forces@[i]).name@
                    == name@) ==> exists|i: int|
                {
                    &&& 0 <= i < old(self).forces@.len()
                    &&& (#[trigger] old(self).forces@[i]).name@ == name@
                    &&& final(self).forces@ == old(self).forces@.update(
                        i,
                        final(self).forces@[i],
                    )
                    &&& final(self).forces@[i].name@ == name@
                    &&& final(self).forces@[i].force == (Vec2 { x: force.0, y: force.1 })
                },
            (forall|i: int|
                0 <= i < old(self).forces@.len() ==> (#[trigger] old(self).forces@[i]).name@
                    != name@) ==> {
                &&& final(self).forces@.len() == old(self).forces@.len() + 1
                &&& final(self).forces@ == old(self).forces@.push(final(self).forces@.last())
                &&& final(self).forces@.last().name@ == name@
                &&& final(self).forces@.last().force == (Vec2 { x: force.0, y: force.1 })
            },
    {
        let key: String = name.to_owned();
        let entry = ForceEntry { name: key, force: Vec2 { x: force.0, y: force.1 } };
        let found = Self::find_force(&self.forces, &entry.name);
        match found {
            Some(i) => {
                let ghost before = self.forces@;
                self.forces[i] = entry;
                proof {
                    assert(final(self).forces@ =~= before.update(
                        i as int,
                        final(self).forces@[i as int],
                    ));
                    assert forall|p: int, q: int|
                        0 <= p < q < final(self).forces@.len() implies final(self).forces@[p].name@
                        != final(self).forces@[q].name@ by {
                        assert(before[p].name@ != before[q].name@);
                    }
                }
            },
            None => {
                let ghost before = self.forces@;
                self.forces.push(entry);
                proof {
                    assert(final(self).forces@ =~= before.push(final(self).forces@.last()));
                    assert forall|p: int, q: int|
                        0 <= p < q < final(self).forces@.len() implies final(self).forces@[p].name@
                        != final(self).forces@[q].name@ by {
                        if q < before.len() {
                            assert(before[p].name@ != before[q].name@);
                        } else {
                            assert(before[p].name@ != key@);
                        }
                    }
                }
            },
        }
    }

    /// Remove the named force if present; a no-op otherwise.
    pub fn remove_force(&mut self, name: &str)
        requires
            old(self).wf(),
        ensures
            final(self).wf(),
            final(self).mass == old(self).mass,
            final(self).position == old(self).position,
            final(self).velocity == old(self).velocity,
            final(self).acceleration == old(self).acceleration,
            (forall|i: int|
                0 <= i < old(self).forces@.len() ==> (#[trigger] old(self).forces@[i]).name@
                    != name@) ==> final(self).forces@ == old(self).forces@,
            (exists|i: int|
                0 <= i < old(self).forces@.len() && (#[trigger] old(self).forces@[i]).name@
                    == name@) ==> exists|i: int|
                {
                    &&& 0 <= i < old(self).forces@.len()
                    &&& (#[trigger] old(self).forces@[i]).name@ == name@
                    &&& final(self).forces@ == old(self).forces@.remove(i)
                },
    {
        let key: String = name.to_owned();
        let found = Self::find_force(&self.forces, &key);
        match found {
            Some(i) => {
                let ghost before = self.forces@;
                self.forces.remove(i);
                proof {
                    assert forall|p: int, q: int|
                        0 <= p < q < final(self).forces@.len() implies final(self).forces@[p].name@
                        != final(self).forces@[q].name@ by {
                        let po: int = if p < i as int {
                            p
                        } else {
                            p + 1
                        };
                        let qo: int = if q < i as int {
                            q
                        } else {
                            q + 1
                        };
                        assert(before[po].name@ != before[qo].name@);
                    }
                }
            },
            None => {},
        }
    }

    /// Add `impulse / mass` directly to the velocity, bypassing the force
    /// accumulator.
    pub fn apply_impulse(&mut self, impulse: (i64, i64))
        requires
            old(self).wf(),
            in_range(impulse.0 as int, FORCE_LIMIT as int),
            in_range(impulse.1 as int, FORCE_LIMIT as int),
            vec_in_range(old(self).velocity, SPEED_LIMIT as int),
        ensures
            final(self).wf(),
            final(self).velocity.x as int == old(self).velocity.x + div_tz(
                impulse.0 * SCALE,
                old(self).mass as int,
            ),
            final(self).velocity.y as int == old(self).velocity.y + div_tz(
                impulse.1 * SCALE,
                old(self).mass as int,
            ),
            final(self).position == old(self).position,
            final(self).acceleration == old(self).acceleration,
            final(self).mass == old(self).mass,
            final(self).forces@ == old(self).forces@,
    {
        let m: i128 = self.mass as i128;
        let jx: i128 = (impulse.0 as i128) * (SCALE as i128);
        let jy: i128 = (impulse.1 as i128) * (SCALE as i128);
        let dvx: i128 = div_rtz(jx, m);
        let dvy: i128 = div_rtz(jy, m);
        proof {
            lemma_div_tz_bound(jx as int, m as int, 1_000_000_000_000int);
            lemma_div_tz_bound(jy as int, m as int, 1_000_000_000_000int);
        }
        let vx: i64 = ((self.velocity.x as i128) + dvx) as i64;
        let vy: i64 = ((self.velocity.y as i128) + dvy) as i64;
        self.velocity = Vec2 { x: vx, y: vy };
    }

    /// Kinetic energy `m * |v|^2 / 2`, never negative.
    pub fn get_kinetic_energy(&self) -> (r: i128)
        requires
            self.mass_ok(),
            vec_in_range(self.velocity, SPEED_LIMIT as int),
        ensures
            r as int == kinetic_energy_of(*self),
            r >= 0,
    {
        let vx: i128 = self.velocity.x as i128;
        let vy: i128 = self.velocity.y as i128;
        let ml: i128 = self.mass as i128;
        proof {
            assert(vx * vx + vy * vy <= 2_000_000_000_000_000_000int && 0 <= vx * vx && 0 <= vy
                * vy) by (nonlinear_arith)
                requires
                    -1_000_000_000 <= vx <= 1_000_000_000,
                    -1_000_000_000 <= vy <= 1_000_000_000,
            ;
        }
        let msq: i128 = vx * vx + vy * vy;
        proof {
            assert(ml * msq <= 2_000_000_000_000_000_000_000_000int && 0 <= ml * msq) by (
            nonlinear_arith)
                requires
                    1 <= ml <= 1_000_000,
                    0 <= msq <= 2_000_000_000_000_000_000int,
            ;
        }
        let num: i128 = ml * msq;
        // 2 * SCALE * SCALE
        let r: i128 = div_rtz(num, 2_000_000);
        proof {
            lemma_div_pos_is_pos(num as int, 2 * SCALE * SCALE);
        }
        r
    }

    /// Momentum `v * m`, componentwise, in scaled units.
    pub fn get_momentum(&self) -> (r: Vec2)
        requires
            self.mass_ok(),
            vec_in_range(self.velocity, SPEED_LIMIT as int),
        ensures
            r.x as int == momentum_of(*self).0,
            r.y as int == momentum_of(*self).1,
    {
        let vx: i128 = self.velocity.x as i128;
        let vy: i128 = self.velocity.y as i128;
        let m: i128 = self.mass as i128;
        proof {
            assert(-1_000_000_000_000_000int <= vx * m <= 1_000_000_000_000_000int
                && -1_000_000_000_000_000int <= vy * m
                <= 1_000_000_000_000_000int) by (nonlinear_arith)
                requires
                    -1_000_000_000 <= vx <= 1_000_000_000,
                    -1_000_000_000 <= vy <= 1_000_000_000,
                    1 <= m <= 1_000_000,
            ;
            lemma_div_tz_quotient_bound(vx as int * m as int, SCALE as int, 1_000_000_000_000int);
            lemma_div_tz_quotient_bound(vy as int * m as int, SCALE as int, 1_000_000_000_000int);
        }
        let px: i128 = div_rtz(vx * m, SCALE as i128);
        let py: i128 = div_rtz(vy * m, SCALE as i128);
        Vec2 { x: px as i64, y: py as i64 }
    }

    /// Set the acceleration to zero.
    pub fn reset_acceleration(&mut self)
        ensures
            final(self).acceleration == (Vec2 { x: 0, y: 0 }),
            final(self).position == old(self).position,
            final(self).velocity == old(self).velocity,
            final(self).mass == old(self).mass,
            final(self).forces@ == old(self).forces@,
    {
        self.acceleration = Vec2 { x: 0, y: 0 };
    }

    /// Overwrite the velocity.
    pub fn set_velocity(&mut self, velocity: (i64, i64))
        ensures
            final(self).velocity == (Vec2 { x: velocity.0, y: velocity.1 }),
            final(self).position == old(self).position,
            final(self).acceleration == old(self).acceleration,
            final(self).mass == old(self).mass,
            final(self).forces@ == old(self).forces@,
    {
        self.velocity = Vec2 { x: velocity.0, y: velocity.1 };
    }

    /// Sum every accumulated force divided by the mass, componentwise.
    fn sum_forces(forces: &Vec<ForceEntry>, mass: i64) -> (r: (i64, i64))
        requires
            1 <= mass,
            forces@.len() <= FORCE_COUNT_LIMIT,
            forall|i: int|
                0 <= i < forces@.len() ==> vec_in_range(
                    (#[trigger] forces@[i]).force,
                    FORCE_LIMIT as int,
                ),
        ensures
            r.0 as int == accel_sum_x(forces@, mass as int),
            r.1 as int == accel_sum_y(forces@, mass as int),
            in_range(r.0 as int, ACCEL_LIMIT as int),
            in_range(r.1 as int, ACCEL_LIMIT as int),
    {
        let n: usize = forces.len();
        let m: i128 = mass as i128;
        let mut ax: i128 = 0;
        let mut ay: i128 = 0;
        let mut i: usize = 0;
        while i < n
            invariant
                i <= n,
                n == forces@.len(),
                n <= FORCE_COUNT_LIMIT,
                m == mass as i128,
                1 <= mass,
                forall|k: int|
                    0 <= k < forces@.len() ==> vec_in_range(
                        (#[trigger] forces@[k]).force,
                        FORCE_LIMIT as int,
                    ),
                ax as int == accel_sum_x(forces@.take(i as int), mass as int),
                ay as int == accel_sum_y(forces@.take(i as int), mass as int),
                -(i as int) * 1_000_000_000_000 <= ax as int <= (i as int) * 1_000_000_000_000,
                -(i as int) * 1_000_000_000_000 <= ay as int <= (i as int) * 1_000_000_000_000,
            decreases n - i,
        {
            let fxv: i128 = forces[i].force.x as i128;
            let fyv: i128 = forces[i].force.y as i128;
            let sc: i128 = SCALE as i128;
            proof {
                assert(-1_000_000_000_000int <= fxv * sc <= 1_000_000_000_000int
                    && -1_000_000_000_000int <= fyv * sc <= 1_000_000_000_000int) by (
                nonlinear_arith)
                    requires
                        -1_000_000_000 <= fxv <= 1_000_000_000,
                        -1_000_000_000 <= fyv <= 1_000_000_000,
                        sc == 1000,
                ;
            }
            let fx: i128 = fxv * sc;
            let fy: i128 = fyv * sc;
            let tx: i128 = div_rtz(fx, m);
            let ty: i128 = div_rtz(fy, m);
            proof {
                lemma_div_tz_bound(fx as int, m as int, 1_000_000_000_000int);
                lemma_div_tz_bound(fy as int, m as int, 1_000_000_000_000int);
                assert(forces@.take(i + 1).drop_last() =~= forces@.take(i as int));
                assert(forces@.take(i + 1).last() == forces@[i as int]);
            }
            ax = ax + tx;
            ay = ay + ty;
            i = i + 1;
        }
        proof {
            assert(forces@.take(n as int) =~= forces@);
        }
        (ax as i64, ay as i64)
    }

    /// Advance one tick: reset the acceleration, accumulate every force
    /// divided by the mass, step the velocity first and then the position
    /// from the already-updated velocity (semi-implicit Euler), and clear
    /// the force map.
    pub fn update(&mut self, dt: i64)
        requires
            old(self).wf(),
            in_range(dt as int, DT_LIMIT as int),
            vec_in_range(old(self).velocity, SPEED_LIMIT as int),
            vec_in_range(old(self).position, COORD_LIMIT as int),
            old(self).forces@.len() <= FORCE_COUNT_LIMIT,
            forall|i: int|
                0 <= i < old(self).forces@.len() ==> vec_in_range(
                    (#[trigger] old(self).forces@[i]).force,
                    FORCE_LIMIT as int,
                ),
        ensures
            final(self).wf(),
            final(self).mass == old(self).mass,
            final(self).forces@.len() == 0,
            final(self).acceleration.x as int == accel_sum_x(
                old(self).forces@,
                old(self).mass as int,
            ),
            final(self).acceleration.y as int == accel_sum_y(
                old(self).forces@,
                old(self).mass as int,
            ),
            final(self).velocity.x as int == integrated_velocity(
                old(self).velocity.x as int,
                final(self).acceleration.x as int,
                dt as int,
            ),
            final(self).velocity.y as int == integrated_velocity(
                old(self).velocity.y as int,
                final(self).acceleration.y as int,
                dt as int,
            ),
            final(self).position.x as int == integrated_position(
                old(self).position.x as int,
                final(self).velocity.x as int,
                dt as int,
            ),
            final(self).position.y as int == integrated_position(
                old(self).position.y as int,
                final(self).velocity.y as int,
                dt as int,
            ),
    {
        let sums = Self::sum_forces(&self.forces, self.mass);
        let ax: i64 = sums.0;
        let ay: i64 = sums.1;
        self.acceleration = Vec2 { x: ax, y: ay };
        let axl: i128 = ax as i128;
        let ayl: i128 = ay as i128;
        let dtl: i128 = dt as i128;
        proof {
            assert(-10_000_000_000_000_000_000int <= axl * dtl <= 10_000_000_000_000_000_000int
                && -10_000_000_000_000_000_000int <= ayl * dtl
                <= 10_000_000_000_000_000_000int) by (nonlinear_arith)
                requires
                    -1_000_000_000_000_000int <= axl <= 1_000_000_000_000_000int,
                    -1_000_000_000_000_000int <= ayl <= 1_000_000_000_000_000int,
                    -10_000 <= dtl <= 10_000,
            ;
        }
        let adx: i128 = axl * dtl;
        let ady: i128 = ayl * dtl;
        proof {
            lemma_div_tz_quotient_bound(adx as int, SCALE as int, 10_000_000_000_000_000int);
            lemma_div_tz_quotient_bound(ady as int, SCALE as int, 10_000_000_000_000_000int);
        }
        let dvx: i128 = div_rtz(adx, SCALE as i128);
        let dvy: i128 = div_rtz(ady, SCALE as i128);
        let vx: i64 = ((self.velocity.x as i128) + dvx) as i64;
        let vy: i64 = ((self.velocity.y as i128) + dvy) as i64;
        self.velocity = Vec2 { x: vx, y: vy };
        let vxl: i128 = vx as i128;
        let vyl: i128 = vy as i128;
        proof {
            assert(-200_000_000_000_000_000_000int <= vxl * dtl <= 200_000_000_000_000_000_000int
                && -200_000_000_000_000_000_000int <= vyl * dtl
                <= 200_000_000_000_000_000_000int) by (nonlinear_arith)
                requires
                    -20_000_000_000_000_000int <= vxl <= 20_000_000_000_000_000int,
                    -20_000_000_000_000_000int <= vyl <= 20_000_000_000_000_000int,
                    -10_000 <= dtl <= 10_000,
            ;
        }
        let vdx: i128 = vxl * dtl;
        let vdy: i128 = vyl * dtl;
        proof {
            lemma_div_tz_quotient_bound(vdx as int, SCALE as int, 200_000_000_000_000_000int);
            lemma_div_tz_quotient_bound(vdy as int, SCALE as int, 200_000_000_000_000_000int);
        }
        let dpx: i128 = div_rtz(vdx, SCALE as i128);
        let dpy: i128 = div_rtz(vdy, SCALE as i128);
        let px: i64 = ((self.position.x as i128) + dpx) as i64;
        let py: i64 = ((self.position.y as i128) + dpy) as i64;
        self.position = Vec2 { x: px, y: py };
        self.forces.clear();
    }

    /// The attractive force this body feels toward `other`, by the
    /// inverse-square law with the mass and distance guards of
    /// [`gravity_force`]; a pure query that mutates neither body.
    pub fn calculate_gravity(&self, other: &RigidBody) -> (r: Vec2)
        requires
            self.mass_ok(),
            other.mass_ok(),
            vec_in_range(self.position, COORD_LIMIT as int),
            vec_in_range(other.position, COORD_LIMIT as int),
        ensures
            r.x as int == gravity_force(*self, *other).0,
            r.y as int == gravity_force(*self, *other).1,
    {
        if self.mass < MIN_MASS_FOR_GRAVITY || other.mass < MIN_MASS_FOR_GRAVITY {
            return Vec2 { x: 0, y: 0 };
        }
        let dx: i128 = (other.position.x as i128) - (self.position.x as i128);
        let dy: i128 = (other.position.y as i128) - (self.position.y as i128);
        proof {
            assert(0 <= dx * dx <= 4_000_000_000_000_000_000_000_000int && 0 <= dy * dy
                <= 4_000_000_000_000_000_000_000_000int) by (nonlinear_arith)
                requires
                    -2_000_000_000_000 <= dx <= 2_000_000_000_000,
                    -2_000_000_000_000 <= dy <= 2_000_000_000_000,
            ;
        }
        let q: i128 = dx * dx + dy * dy;
        // the squared distance window, in raw units
        let min_q: i128 = 10_000;
        let max_q: i128 = 1_000_000_000_000;
        if q < min_q || q > max_q {
            return Vec2 { x: 0, y: 0 };
        }
        let gc: i128 = GRAVITY_CONSTANT as i128;
        let ma: i128 = self.mass as i128;
        let mb: i128 = other.mass as i128;
        proof {
            assert(0 <= gc * ma <= 10_000_000_000int) by (nonlinear_arith)
                requires
                    gc == 9810,
                    1 <= ma <= 1_000_000,
            ;
        }
        let gm: i128 = gc * ma;
        proof {
            assert(0 <= gm * mb <= 10_000_000_000_000_000int) by (nonlinear_arith)
                requires
                    0 <= gm <= 10_000_000_000,
                    1 <= mb <= 1_000_000,
            ;
        }
        let gmm: i128 = gm * mb;
        let mag: i128 = div_rtz(gmm, q);
        proof {
            lemma_div_pos_is_pos(gmm as int, q as int);
            lemma_div_nonincreasing(gmm as int, q as int);
        }
        let root_u: u128 = int_sqrt(q as u128);
        proof {
            assert(root_u as int <= 1_000_000) by (nonlinear_arith)
                requires
                    0 <= root_u as int,
                    (root_u as int) * (root_u as int) <= 1_000_000_000_000int,
            ;
            assert(100 <= root_u as int) by (nonlinear_arith)
                requires
                    10_000 <= q as int,
                    0 <= root_u as int,
                    (q as int) < ((root_u as int) + 1) * ((root_u as int) + 1),
            ;
        }
        let root: i128 = root_u as i128;
        proof {
            assert(-root <= dx <= root && -root <= dy <= root) by (nonlinear_arith)
                requires
                    dx * dx <= q,
                    dy * dy <= q,
                    q < (root + 1) * (root + 1),
                    0 <= root,
            ;
            assert(-(root * mag) <= dx * mag <= root * mag && -(root * mag) <= dy * mag <= root
                * mag && root * mag <= 1_000_000_000_000_000_000_000_000int) by (nonlinear_arith)
                requires
                    -root <= dx <= root,
                    -root <= dy <= root,
                    0 <= mag <= 10_000_000_000_000_000int,
                    0 <= root <= 1_000_000,
            ;
        }
        let dxm: i128 = dx * mag;
        let dym: i128 = dy * mag;
        proof {
            lemma_div_tz_quotient_bound(dxm as int, root as int, mag as int);
            lemma_div_tz_quotient_bound(dym as int, root as int, mag as int);
            lemma_sqrt_floor_unique(q as int, root as int);
        }
        let fx: i128 = div_rtz(dxm, root);
        let fy: i128 = div_rtz(dym, root);
        Vec2 { x: fx as i64, y: fy as i64 }
    }

    /// Overwrite the acceleration.
    pub fn apply_acceleration(&mut self, acceleration: (i64, i64))
        ensures
            final(self).acceleration == (Vec2 { x: acceleration.0, y: acceleration.1 }),
            final(self).position == old(self).position,
            final(self).velocity == old(self).velocity,
            final(self).mass == old(self).mass,
            final(self).forces@ == old(self).forces@,
    {
        self.acceleration = Vec2 { x: acceleration.0, y: acceleration.1 };
    }
}

/// Velocity change of one tick under a single force `f`: the force over the
/// mass, scaled, then times `dt`.
pub open spec fn tick_velocity_delta(f: int, m: int, dt: int) -> int {
    div_tz(div_tz(f * SCALE, m) * dt, SCALE as int)
}

/// Velocity after `n` ticks that each add exactly [`tick_velocity_delta`].
pub open spec fn velocity_after_ticks(v0: int, f: int, m: int, dt: int, n: nat) -> int
    decreases n,
{
    if n == 0 {
        v0
    } else {
        velocity_after_ticks(v0, f, m, dt, (n - 1) as nat) + tick_velocity_delta(f, m, dt)
    }
}

/// Pure inertia: with no accumulated forces, one update leaves the velocity
/// unchanged and advances each position coordinate by exactly
/// `velocity * dt`, scaled.
pub proof fn lemma_update_pure_inertia(b: RigidBody, dt: int)
    requires
        b.forces@.len() == 0,
        1 <= b.mass,
    ensures
        accel_sum_x(b.forces@, b.mass as int) == 0,
        accel_sum_y(b.forces@, b.mass as int) == 0,
        integrated_velocity(b.velocity.x as int, accel_sum_x(b.forces@, b.mass as int), dt)
            == b.velocity.x,
        integrated_velocity(b.velocity.y as int, accel_sum_y(b.forces@, b.mass as int), dt)
            == b.velocity.y,
        integrated_position(b.position.x as int, b.velocity.x as int, dt) == b.position.x + div_tz(
            b.velocity.x * dt,
            SCALE as int,
        ),
        integrated_position(b.position.y as int, b.velocity.y as int, dt) == b.position.y + div_tz(
            b.velocity.y * dt,
            SCALE as int,
        ),
{
    lemma_div_tz_zero(SCALE as int);
    assert(0 * dt == 0);
}

/// One update whose force map holds a single entry changes each velocity
/// component by exactly one [`tick_velocity_delta`] of that entry's force.
pub proof fn lemma_single_force_tick(s: Seq<ForceEntry>, m: int, dt: int, v: int)
    requires
        s.len() == 1,
    ensures
        integrated_velocity(v, accel_sum_x(s, m), dt) == v + tick_velocity_delta(
            s[0].force.x as int,
            m,
            dt,
        ),
        integrated_velocity(v, accel_sum_y(s, m), dt) == v + tick_velocity_delta(
            s[0].force.y as int,
            m,
            dt,
        ),
{
    assert(s.drop_last().len() == 0);
    assert(accel_sum_x(s.drop_last(), m) == 0);
    assert(accel_sum_y(s.drop_last(), m) == 0);
    assert(s.last() == s[0]);
    assert(accel_sum_x(s, m) == div_tz(s[0].force.x * SCALE, m));
    assert(accel_sum_y(s, m) == div_tz(s[0].force.y * SCALE, m));
}

/// Re-adding the same force before each of `n` ticks, starting from zero
/// velocity, accumulates exactly `n` single-tick increments.
pub proof fn lemma_constant_force_accumulates(f: int, m: int, dt: int, n: nat)
    ensures
        velocity_after_ticks(0, f, m, dt, n) == n * tick_velocity_delta(f, m, dt),
    decreases n,
{
    let d = tick_velocity_delta(f, m, dt);
    if n == 0 {
        assert(0int * d == 0) by (nonlinear_arith);
    } else {
        lemma_constant_force_accumulates(f, m, dt, (n - 1) as nat);
        assert((n - 1) * d + d == n * d) by (nonlinear_arith);
    }
}

/// Kinetic energy is never negative, whatever the velocity.
pub proof fn lemma_kinetic_energy_nonnegative(b: RigidBody)
    requires
        1 <= b.mass,
    ensures
        kinetic_energy_of(b) >= 0,
{
    let vx = b.velocity.x as int;
    let vy = b.velocity.y as int;
    let m = b.mass as int;
    assert(0 <= vx * vx + vy * vy) by (nonlinear_arith);
    assert(0 <= m * (vx * vx + vy * vy)) by (nonlinear_arith)
        requires
            1 <= m,
            0 <= vx * vx + vy * vy,
    ;
    lemma_div_pos_is_pos(m * (vx * vx + vy * vy), 2 * SCALE * SCALE);
}

/// Kinetic energy is never negative; and except for velocities so small
/// that the scaled quotient truncates away, it is zero exactly when the
/// velocity is zero.
pub proof fn lemma_kinetic_energy_zero(b: RigidBody)
    requires
        b.mass_ok(),
        (b.velocity.x == 0 && b.velocity.y == 0) || b.mass * (b.velocity.x * b.velocity.x
            + b.velocity.y * b.velocity.y) >= 2 * SCALE * SCALE,
    ensures
        kinetic_energy_of(b) >= 0,
        kinetic_energy_of(b) == 0 <==> (b.velocity.x == 0 && b.velocity.y == 0),
{
    let vx = b.velocity.x as int;
    let vy = b.velocity.y as int;
    let m = b.mass as int;
    let msq = vx * vx + vy * vy;
    assert(0 <= vx * vx + vy * vy && ((vx * vx + vy * vy == 0) <==> (vx == 0 && vy == 0))) by (
    nonlinear_arith);
    assert(0 <= m * msq) by (nonlinear_arith)
        requires
            1 <= m,
            0 <= msq,
    ;
    lemma_div_pos_is_pos(m * msq, 2 * SCALE * SCALE);
    if vx == 0 && vy == 0 {
        assert(m * msq == 0) by (nonlinear_arith)
            requires
                msq == 0,
        ;
        lemma_div_tz_zero(2 * SCALE * SCALE);
    } else {
        lemma_div_is_ordered(2 * SCALE * SCALE, m * msq, 2 * SCALE * SCALE);
        lemma_div_by_self(2 * SCALE * SCALE);
    }
}

/// Gravity guard law: a below-threshold mass forces the exact zero vector
/// whatever the distance, and a nonzero result needs both masses at or
/// above the threshold and a squared separation inside the window.
pub proof fn lemma_gravity_guards(a: RigidBody, b: RigidBody)
    ensures
        a.mass < MIN_MASS_FOR_GRAVITY || b.mass < MIN_MASS_FOR_GRAVITY ==> gravity_force(a, b)
            == (0int, 0int),
        gravity_force(a, b) != (0int, 0int) ==> a.mass >= MIN_MASS_FOR_GRAVITY && b.mass
            >= MIN_MASS_FOR_GRAVITY && MIN_DISTANCE_FOR_GRAVITY * MIN_DISTANCE_FOR_GRAVITY
            <= gravity_dist_sq(a, b) && gravity_dist_sq(a, b) <= MAX_DISTANCE_FOR_GRAVITY
            * MAX_DISTANCE_FOR_GRAVITY,
{
}

} // verus!
