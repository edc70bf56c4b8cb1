//! A minimal point-mass schema: position, velocity and mass, with its
//! motion operations behind the [`Move`] trait.

use crate::fixed::{
    div_rtz, div_tz, in_range, lemma_div_tz_bound, lemma_div_tz_quotient_bound, mul_scale,
    COORD_LIMIT, DT_LIMIT, FORCE_LIMIT, MASS_LIMIT, SCALE, SPEED_LIMIT,
};
use crate::rigid_body::tick_velocity_delta;
use crate::vec2::{vec_in_range, Vec2};
use vstd::prelude::*;

verus! {

/// Motion operations of a point mass.
pub trait Move: Sized {
    /// The mass invariant the operations rely on.
    spec fn move_wf(&self) -> bool;

    /// The current position.
    spec fn pos_of(&self) -> Vec2;

    /// The current velocity.
    spec fn vel_of(&self) -> Vec2;

    /// The mass.
    spec fn mass_of(&self) -> int;

    /// Accelerate by `force / mass * dt`, componentwise.
    fn apply_force(&mut self, force: Vec2, dt: i64)
        requires
            old(self).move_wf(),
            vec_in_range(force, FORCE_LIMIT as int),
            in_range(dt as int, DT_LIMIT as int),
            vec_in_range(old(self).vel_of(), SPEED_LIMIT as int),
        ensures
            final(self).move_wf(),
            final(self).mass_of() == old(self).mass_of(),
            final(self).pos_of() == old(self).pos_of(),
            final(self).vel_of().x as int == old(self).vel_of().x + tick_velocity_delta(
                force.x as int,
                old(self).mass_of(),
                dt as int,
            ),
            final(self).vel_of().y as int == old(self).vel_of().y + tick_velocity_delta(
                force.y as int,
                old(self).mass_of(),
                dt as int,
            ),
    ;

    /// Advance the position by `velocity * dt`, componentwise.
    fn apply_velocity(&mut self, dt: i64)
        requires
            old(self).move_wf(),
            in_range(dt as int, DT_LIMIT as int),
            vec_in_range(old(self).vel_of(), SPEED_LIMIT as int),
            vec_in_range(old(self).pos_of(), COORD_LIMIT as int),
        ensures
            final(self).move_wf(),
            final(self).mass_of() == old(self).mass_of(),
            final(self).vel_of() == old(self).vel_of(),
            final(self).pos_of().x as int == old(self).pos_of().x + div_tz(
                old(self).vel_of().x * dt,
                SCALE as int,
            ),
            final(self).pos_of().y as int == old(self).pos_of().y + div_tz(
                old(self).vel_of().y * dt,
                SCALE as int,
            ),
    ;
}

/// A bare point mass.
#[derive(Clone, Copy, Debug, PartialEq, Eq, Structural)]
pub struct PhysicsObject {
    pub position: Vec2,
    pub velocity: Vec2,
    pub mass: i64,
}

impl PhysicsObject {
    /// The mass invariant.
    pub open spec fn wf(&self) -> bool {
        1 <= self.mass <= MASS_LIMIT
    }

    /// Build a point mass from its velocity, position and mass.
    pub fn new(velocity: Vec2, position: Vec2, mass: i64) -> (r: PhysicsObject)
        requires
            1 <= mass <= MASS_LIMIT,
        ensures
            r.velocity == velocity,
            r.position == position,
            r.mass == mass,
            r.wf(),
    {
        PhysicsObject { mass, position, velocity }
    }
}

impl Move for PhysicsObject {
    open spec fn move_wf(&self) -> bool {
        self.wf()
    }

    open spec fn pos_of(&self) -> Vec2 {
        self.position
    }

    open spec fn vel_of(&self) -> Vec2 {
        self.velocity
    }

    open spec fn mass_of(&self) -> int {
        self.mass as int
    }

    fn apply_force(&mut self, force: Vec2, dt: i64) {
        let m: i128 = self.mass as i128;
        let fx: i128 = mul_scale(force.x as i128);
        let fy: i128 = mul_scale(force.y as i128);
        proof {
            lemma_div_tz_bound(fx as int, m as int, 1_000_000_000_000int);
            lemma_div_tz_bound(fy as int, m as int, 1_000_000_000_000int);
        }
        let qx: i128 = div_rtz(fx, m);
        let qy: i128 = div_rtz(fy, m);
        let dtl: i128 = dt as i128;
        proof {
            assert(-10_000_000_000_000_000int <= qx * dtl <= 10_000_000_000_000_000int
                && -10_000_000_000_000_000int <= qy * dtl <= 10_000_000_000_000_000int) by (
            nonlinear_arith)
                requires
                    -1_000_000_000_000 <= qx <= 1_000_000_000_000,
                    -1_000_000_000_000 <= qy <= 1_000_000_000_000,
                    -10_000 <= dtl <= 10_000,
            ;
        }
        let qdx: i128 = qx * dtl;
        let qdy: i128 = qy * dtl;
        proof {
            lemma_div_tz_quotient_bound(qdx as int, SCALE as int, 10_000_000_000_000int);
            lemma_div_tz_quotient_bound(qdy as int, SCALE as int, 10_000_000_000_000int);
        }
        let dvx: i128 = div_rtz(qdx, SCALE as i128);
        let dvy: i128 = div_rtz(qdy, SCALE as i128);
        let vx: i64 = ((self.velocity.x as i128) + dvx) as i64;
        let vy: i64 = ((self.velocity.y as i128) + dvy) as i64;
        self.velocity = Vec2 { x: vx, y: vy };
    }

    fn apply_velocity(&mut self, dt: i64) {
        let vxl: i128 = self.velocity.x as i128;
        let vyl: i128 = self.velocity.y as i128;
        let dtl: i128 = dt as i128;
        proof {
            assert(-10_000_000_000_000int <= vxl * dtl <= 10_000_000_000_000int
                && -10_000_000_000_000int <= vyl * dtl <= 10_000_000_000_000int) by (
            nonlinear_arith)
                requires
                    -1_000_000_000 <= vxl <= 1_000_000_000,
                    -1_000_000_000 <= vyl <= 1_000_000_000,
                    -10_000 <= dtl <= 10_000,
            ;
        }
        let vdx: i128 = vxl * dtl;
        let vdy: i128 = vyl * dtl;
        proof {
            lemma_div_tz_quotient_bound(vdx as int, SCALE as int, 10_000_000_000int);
            lemma_div_tz_quotient_bound(vdy as int, SCALE as int, 10_000_000_000int);
        }
        let dpx: i128 = div_rtz(vdx, SCALE as i128);
        let dpy: i128 = div_rtz(vdy, SCALE as i128);
        let px: i64 = ((self.position.x as i128) + dpx) as i64;
        let py: i64 = ((self.position.y as i128) + dpy) as i64;
        self.position = Vec2 { x: px, y: py };
    }
}

} // verus!
