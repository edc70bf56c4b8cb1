//! Pairwise impulse-based collision response with positional
//! de-penetration.
//!
//! Given two bodies and a detected contact, the resolver applies an impulse
//! along the contact normal sized by the relative velocity, the restitution
//! coefficient and the inverse-mass sum, then pushes the bodies apart in
//! proportion to their inverse masses when the penetration exceeds the slop.

use crate::fixed::{
    div_rtz, div_tz, in_range, lemma_div_tz_bound, lemma_div_tz_quotient_bound,
    lemma_div_tz_remainder, mul_scale, COORD_LIMIT, SCALE, SPEED_LIMIT,
};
use crate::rigid_body::RigidBody;
use crate::vec2::{vec_in_range, Vec2};
use vstd::arithmetic::div_mod::{lemma_div_by_self, lemma_div_is_ordered, lemma_div_nonincreasing,
    lemma_div_pos_is_pos};
use vstd::prelude::*;

verus! {

/// Coefficient of restitution (bounciness), scaled: one half.
pub const RESTITUTION: i64 = 500;

/// Fraction of the penetration corrected per tick, scaled: one fifth.
pub const CORRECTION_PERCENT: i64 = 200;

/// Penetrations of magnitude at most this are left alone, avoiding jitter
/// from resolving negligible overlaps.
pub const PENETRATION_SLOP: i64 = 10;

/// An ephemeral contact between two bodies: a unit surface normal pointing
/// from the first body toward the second, and a penetration depth whose
/// magnitude is the overlap (zero or negative means no actual penetration).
#[derive(Clone, Copy, Debug, PartialEq, Eq, Structural)]
pub struct Contact {
    pub normal: Vec2,
    pub penetration: i64,
}

/// The magnitude of `a`.
pub open spec fn abs_val(a: int) -> int {
    if a >= 0 {
        a
    } else {
        -a
    }
}

/// Scaled dot product of the vectors `(ax, ay)` and `(bx, by)`.
pub open spec fn dot_scaled(ax: int, ay: int, bx: int, by: int) -> int {
    div_tz(ax * bx + ay * by, SCALE as int)
}

/// The scaled inverse-mass sum `1/ma + 1/mb`.
pub open spec fn inv_mass_sum(ma: int, mb: int) -> int {
    (SCALE * SCALE * (ma + mb)) / (ma * mb)
}

/// Magnitude of the collision impulse:
/// `-(1 + restitution) * dot(rv, n) / (1/ma + 1/mb)`, scaled.
pub open spec fn impulse_magnitude(rvx: int, rvy: int, nx: int, ny: int, ma: int, mb: int) -> int {
    div_tz(-((SCALE + RESTITUTION) * dot_scaled(rvx, rvy, nx, ny)), inv_mass_sum(ma, mb))
}

/// Magnitude of the impulse for the pair `(a, b)` at contact `c`, from the
/// relative velocity `velocity(b) - velocity(a)`.
pub open spec fn contact_impulse(a: RigidBody, b: RigidBody, c: Contact) -> int {
    impulse_magnitude(
        b.velocity.x - a.velocity.x,
        b.velocity.y - a.velocity.y,
        c.normal.x as int,
        c.normal.y as int,
        a.mass as int,
        b.mass as int,
    )
}

/// One component of the impulse vector `normal * j`, scaled.
pub open spec fn impulse_component(n_c: int, j: int) -> int {
    div_tz(n_c * j, SCALE as int)
}

/// Velocity change from one impulse component on a body of mass `m`.
pub open spec fn velocity_delta(i_c: int, m: int) -> int {
    div_tz(i_c * SCALE, m)
}

/// The magnitude of the velocity change body `a` or `b` receives along one
/// normal component from the impulse of contact `c`.
pub open spec fn impulse_velocity_change(
    a: RigidBody,
    b: RigidBody,
    c: Contact,
    n_c: int,
    m: int,
) -> int {
    velocity_delta(impulse_component(n_c, contact_impulse(a, b, c)), m)
}

/// The scaled correction factor `|penetration| * percent`.
pub open spec fn correction_factor(pen: int) -> int {
    div_tz(abs_val(pen) * CORRECTION_PERCENT, SCALE as int)
}

/// One component of the correction vector `normal * t / invm`.
pub open spec fn correction_component(n_c: int, t: int, invm: int) -> int {
    div_tz(n_c * t, invm)
}

/// Position change from one correction component on a body of mass `m`.
pub open spec fn position_delta(c_c: int, m: int) -> int {
    div_tz(c_c * SCALE, m)
}

/// The position change body `a` or `b` receives along one normal component
/// from the positional correction of contact `c`.
pub open spec fn correction_position_change(
    a: RigidBody,
    b: RigidBody,
    c: Contact,
    n_c: int,
    m: int,
) -> int {
    position_delta(
        correction_component(
            n_c,
            correction_factor(c.penetration as int),
            inv_mass_sum(a.mass as int, b.mass as int),
        ),
        m,
    )
}

/// Resolve one contact between `a` and `b`: apply the restitution impulse
/// to both velocities from the same impulse value, then, if the penetration
/// magnitude exceeds the slop, push the bodies apart along the normal in
/// proportion to their inverse masses.  Masses, accelerations and force
/// maps are untouched.
pub fn resolve_collision(a: &mut RigidBody, b: &mut RigidBody, contact: &Contact)
    requires
        old(a).wf(),
        old(b).wf(),
        vec_in_range(old(a).velocity, SPEED_LIMIT as int),
        vec_in_range(old(b).velocity, SPEED_LIMIT as int),
        vec_in_range(old(a).position, COORD_LIMIT as int),
        vec_in_range(old(b).position, COORD_LIMIT as int),
        vec_in_range(contact.normal, SCALE as int),
        in_range(contact.penetration as int, COORD_LIMIT as int),
    ensures
        final(a).wf(),
        final(b).wf(),
        final(a).mass == old(a).mass,
        final(b).mass == old(b).mass,
        final(a).acceleration == old(a).acceleration,
        final(b).acceleration == old(b).acceleration,
        final(a).forces@ == old(a).forces@,
        final(b).forces@ == old(b).forces@,
        final(a).velocity.x as int == old(a).velocity.x - impulse_velocity_change(
            *old(a),
            *old(b),
            *contact,
            contact.normal.x as int,
            old(a).mass as int,
        ),
        final(a).velocity.y as int == old(a).velocity.y - impulse_velocity_change(
            *old(a),
            *old(b),
            *contact,
            contact.normal.y as int,
            old(a).mass as int,
        ),
        final(b).velocity.x as int == old(b).velocity.x + impulse_velocity_change(
            *old(a),
            *old(b),
            *contact,
            contact.normal.x as int,
            old(b).mass as int,
        ),
        final(b).velocity.y as int == old(b).velocity.y + impulse_velocity_change(
            *old(a),
            *old(b),
            *contact,
            contact.normal.y as int,
            old(b).mass as int,
        ),
        abs_val(contact.penetration as int) > PENETRATION_SLOP ==> {
            &&& final(a).position.x as int == old(a).position.x - correction_position_change(
                *old(a),
                *old(b),
                *contact,
                contact.normal.x as int,
                old(a).mass as int,
            )
            &&& final(a).position.y as int == old(a).position.y - correction_position_change(
                *old(a),
                *old(b),
                *contact,
                contact.normal.y as int,
                old(a).mass as int,
            )
            &&& final(b).position.x as int == old(b).position.x + correction_position_change(
                *old(a),
                *old(b),
                *contact,
                contact.normal.x as int,
                old(b).mass as int,
            )
            &&& final(b).position.y as int == old(b).position.y + correction_position_change(
                *old(a),
                *old(b),
                *contact,
                contact.normal.y as int,
                old(b).mass as int,
            )
        },
        abs_val(contact.penetration as int) <= PENETRATION_SLOP ==> final(a).position == old(
            a,
        ).position && final(b).position == old(b).position,
{
    let rvx: i128 = (b.velocity.x as i128) - (a.velocity.x as i128);
    let rvy: i128 = (b.velocity.y as i128) - (a.velocity.y as i128);
    let nx: i128 = contact.normal.x as i128;
    let ny: i128 = contact.normal.y as i128;
    proof {
        assert(-2_000_000_000_000int <= rvx * nx <= 2_000_000_000_000int && -2_000_000_000_000int
            <= rvy * ny <= 2_000_000_000_000int && -4_000_000_000_000int <= rvx * nx + rvy * ny
            <= 4_000_000_000_000int) by (nonlinear_arith)
            requires
                -2_000_000_000 <= rvx <= 2_000_000_000,
                -2_000_000_000 <= rvy <= 2_000_000_000,
                -1000 <= nx <= 1000,
                -1000 <= ny <= 1000,
        ;
    }
    let prod: i128 = rvx * nx + rvy * ny;
    proof {
        lemma_div_tz_bound(prod as int, SCALE as int, 4_000_000_000_000int);
    }
    let dot: i128 = div_rtz(prod, SCALE as i128);
    let opr: i128 = (SCALE as i128) + (RESTITUTION as i128);
    proof {
        assert(-6_000_000_000_000_000int <= opr * dot <= 6_000_000_000_000_000int) by (
        nonlinear_arith)
            requires
                opr == 1500,
                -4_000_000_000_000 <= dot <= 4_000_000_000_000,
        ;
    }
    let num: i128 = -(opr * dot);
    // the scaled inverse-mass sum, at least one because neither mass
    // exceeds SCALE * SCALE
    let ma: i128 = a.mass as i128;
    let mb: i128 = b.mass as i128;
    let msum: i128 = ma + mb;
    // SCALE * SCALE times the mass sum
    let smm: i128 = 1_000_000 * msum;
    proof {
        assert(1 <= ma * mb && ma * mb <= 1_000_000 * (ma + mb) && ma * mb
            <= 1_000_000_000_000int) by (nonlinear_arith)
            requires
                1 <= ma <= 1_000_000,
                1 <= mb <= 1_000_000,
        ;
    }
    let mam: i128 = ma * mb;
    let invm: i128 = div_rtz(smm, mam);
    proof {
        lemma_div_pos_is_pos(smm as int, mam as int);
        lemma_div_nonincreasing(smm as int, mam as int);
        lemma_div_is_ordered(mam as int, smm as int, mam as int);
        lemma_div_by_self(mam as int);
        assert(1 <= invm <= 2_000_000_000_000int);
        lemma_div_tz_bound(num as int, invm as int, 6_000_000_000_000_000int);
    }
    let j: i128 = div_rtz(num, invm);
    proof {
        assert(-6_000_000_000_000_000_000int <= nx * j <= 6_000_000_000_000_000_000int
            && -6_000_000_000_000_000_000int <= ny * j <= 6_000_000_000_000_000_000int) by (
        nonlinear_arith)
            requires
                -1000 <= nx <= 1000,
                -1000 <= ny <= 1000,
                -6_000_000_000_000_000 <= j <= 6_000_000_000_000_000,
        ;
    }
    let nxj: i128 = nx * j;
    let nyj: i128 = ny * j;
    proof {
        lemma_div_tz_quotient_bound(nxj as int, SCALE as int, 6_000_000_000_000_000int);
        lemma_div_tz_quotient_bound(nyj as int, SCALE as int, 6_000_000_000_000_000int);
    }
    let ix: i128 = div_rtz(nxj, SCALE as i128);
    let iy: i128 = div_rtz(nyj, SCALE as i128);
    let ixs: i128 = mul_scale(ix);
    let iys: i128 = mul_scale(iy);
    proof {
        lemma_div_tz_bound(ixs as int, ma as int, 6_000_000_000_000_000_000int);
        lemma_div_tz_bound(iys as int, ma as int, 6_000_000_000_000_000_000int);
        lemma_div_tz_bound(ixs as int, mb as int, 6_000_000_000_000_000_000int);
        lemma_div_tz_bound(iys as int, mb as int, 6_000_000_000_000_000_000int);
    }
    let dvax: i128 = div_rtz(ixs, ma);
    let dvay: i128 = div_rtz(iys, ma);
    let dvbx: i128 = div_rtz(ixs, mb);
    let dvby: i128 = div_rtz(iys, mb);
    let avx: i64 = ((a.velocity.x as i128) - dvax) as i64;
    let avy: i64 = ((a.velocity.y as i128) - dvay) as i64;
    let bvx: i64 = ((b.velocity.x as i128) + dvbx) as i64;
    let bvy: i64 = ((b.velocity.y as i128) + dvby) as i64;
    a.velocity = Vec2 { x: avx, y: avy };
    b.velocity = Vec2 { x: bvx, y: bvy };
    // positional correction, skipped inside the slop
    let pen: i64 = if contact.penetration >= 0 {
        contact.penetration
    } else {
        -contact.penetration
    };
    if pen > PENETRATION_SLOP {
        let penl: i128 = pen as i128;
        // CORRECTION_PERCENT of the penetration, still scaled
        let pp: i128 = penl * 200;
        proof {
            lemma_div_tz_quotient_bound(pp as int, SCALE as int, 200_000_000_000int);
        }
        let t: i128 = div_rtz(pp, SCALE as i128);
        proof {
            assert(-200_000_000_000_000int <= nx * t <= 200_000_000_000_000int
                && -200_000_000_000_000int <= ny * t <= 200_000_000_000_000int) by (
            nonlinear_arith)
                requires
                    -1000 <= nx <= 1000,
                    -1000 <= ny <= 1000,
                    -200_000_000_000 <= t <= 200_000_000_000,
            ;
        }
        let nxt: i128 = nx * t;
        let nyt: i128 = ny * t;
        proof {
            lemma_div_tz_bound(nxt as int, invm as int, 200_000_000_000_000int);
            lemma_div_tz_bound(nyt as int, invm as int, 200_000_000_000_000int);
        }
        let cx: i128 = div_rtz(nxt, invm);
        let cy: i128 = div_rtz(nyt, invm);
        let cxs: i128 = mul_scale(cx);
        let cys: i128 = mul_scale(cy);
        proof {
            lemma_div_tz_bound(cxs as int, ma as int, 200_000_000_000_000_000int);
            lemma_div_tz_bound(cys as int, ma as int, 200_000_000_000_000_000int);
            lemma_div_tz_bound(cxs as int, mb as int, 200_000_000_000_000_000int);
            lemma_div_tz_bound(cys as int, mb as int, 200_000_000_000_000_000int);
        }
        let sax: i128 = div_rtz(cxs, ma);
        let say: i128 = div_rtz(cys, ma);
        let sbx: i128 = div_rtz(cxs, mb);
        let sby: i128 = div_rtz(cys, mb);
        let apx: i64 = ((a.position.x as i128) - sax) as i64;
        let apy: i64 = ((a.position.y as i128) - say) as i64;
        let bpx: i64 = ((b.position.x as i128) + sbx) as i64;
        let bpy: i64 = ((b.position.y as i128) + sby) as i64;
        a.position = Vec2 { x: apx, y: apy };
        b.position = Vec2 { x: bpx, y: bpy };
    }
}

/// Momentum law of the impulse step: the mass-weighted velocity changes of
/// the two bodies cancel, up to a truncation remainder strictly smaller
/// than `ma + mb` raw units, for each component.  Body `a` changes by
/// `-velocity_delta(i_c, ma)` and body `b` by `+velocity_delta(i_c, mb)`,
/// so the sum below is `ma * delta_a + mb * delta_b`.
pub proof fn lemma_impulse_conserves_momentum(i_c: int, ma: int, mb: int)
    requires
        1 <= ma,
        1 <= mb,
    ensures
        -(ma + mb) < mb * velocity_delta(i_c, mb) - ma * velocity_delta(i_c, ma) < ma + mb,
{
    let x = i_c * SCALE;
    lemma_div_tz_remainder(x, ma);
    lemma_div_tz_remainder(x, mb);
}

/// Momentum law of [`resolve_collision`]: for each velocity component, the
/// mass-weighted change `a` receives (it loses its share) and the one `b`
/// receives (it gains its share) cancel up to a truncation remainder
/// strictly smaller than the sum of the masses, before any positional
/// correction.
pub proof fn lemma_resolve_conserves_momentum(a: RigidBody, b: RigidBody, c: Contact)
    requires
        1 <= a.mass,
        1 <= b.mass,
    ensures
        -(a.mass + b.mass) < b.mass * impulse_velocity_change(a, b, c, c.normal.x as int, b.mass as int)
            - a.mass * impulse_velocity_change(a, b, c, c.normal.x as int, a.mass as int)
            < a.mass + b.mass,
        -(a.mass + b.mass) < b.mass * impulse_velocity_change(a, b, c, c.normal.y as int, b.mass as int)
            - a.mass * impulse_velocity_change(a, b, c, c.normal.y as int, a.mass as int)
            < a.mass + b.mass,
{
    let j = contact_impulse(a, b, c);
    lemma_impulse_conserves_momentum(
        impulse_component(c.normal.x as int, j),
        a.mass as int,
        b.mass as int,
    );
    lemma_impulse_conserves_momentum(
        impulse_component(c.normal.y as int, j),
        a.mass as int,
        b.mass as int,
    );
}

} // verus!
