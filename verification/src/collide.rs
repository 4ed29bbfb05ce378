//! Collision solver and motion resolver.
//!
//! The moving ball travels along a straight line until friction stops
//! it or it first touches the stationary ball; a confirmed collision
//! exchanges the velocity component along the contact normal (an
//! elastic, equal-mass impulse) and both balls then roll out their own
//! friction-limited distance.
//!
//! The friction coefficient is `0.8`: a ball launched at speed `v`
//! rolls exactly `v / 0.8 = 5 * v / 4` units, and its speed after `s`
//! units of travel is `v - 0.8 * s = v - 4 * s / 5`.  Those two exact
//! fractions are the literals `5 / 4` and `4 / 5` in the model below.
//!
//! Every quantity is a mathematical integer in micro-units.  Scales:
//! coordinates and velocities carry one factor of `MICRO`, products of
//! two of them (`approach`, `speed_sq`, `sep_sq`, `contact_shift`)
//! carry two, and `miss_excess` and `gap_sq` carry four.  The collision
//! test itself needs no square root: each comparison against a length
//! is squared first, so the classification is exact.  Only the contact
//! point needs `sqrt_floor`, the integer square root.

use vstd::prelude::*;

use crate::arith::{is_sqrt_floor, sqrt_floor, lemma_mul_bound, lemma_div_range, floor_div, isqrt};
use crate::vec2::{Vec2, MAX_COORD};

verus! {

/// Radius of one ball, in micro-units (0.03075 units).
pub const BALL_RADIUS_MICRO: i64 = 30_750;

/// Centre distance at which the two balls touch: the sum of both
/// radii, in micro-units (0.0615 units).
pub const CONTACT_DIST_MICRO: i64 = 2 * BALL_RADIUS_MICRO;

/// Squared contact distance, at two factors of `MICRO`.
pub open spec fn contact_sq() -> int {
    (CONTACT_DIST_MICRO as int) * (CONTACT_DIST_MICRO as int)
}

/// Signed distance (scaled by `speed`) at which the moving ball's
/// centre is closest to the target centre: `-dot(p0 - p1, v0)`.
/// Non-negative exactly when the target lies ahead of the travel
/// direction.
pub open spec fn approach(p0: Vec2, p1: Vec2, v0: Vec2) -> int {
    -((p0.x - p1.x) * v0.x + (p0.y - p1.y) * v0.y)
}

/// Squared speed of the moving ball.
pub open spec fn speed_sq(v0: Vec2) -> int {
    v0.x * v0.x + v0.y * v0.y
}

/// Squared distance between the two centres.
pub open spec fn sep_sq(p0: Vec2, p1: Vec2) -> int {
    (p0.x - p1.x) * (p0.x - p1.x) + (p0.y - p1.y) * (p0.y - p1.y)
}

/// Squared minimum distance between the trajectory line and the target
/// centre, scaled by `speed_sq`: the Pythagorean remainder
/// `|sep|^2 * |v0|^2 - approach^2`.
pub open spec fn miss_excess(p0: Vec2, p1: Vec2, v0: Vec2) -> int {
    sep_sq(p0, p1) * speed_sq(v0) - approach(p0, p1, v0) * approach(p0, p1, v0)
}

/// How far inside the collision circle the trajectory line passes,
/// squared and scaled by `speed_sq`: the discriminant whose square
/// root leads from the closest approach back to first contact.
pub open spec fn gap_sq(p0: Vec2, p1: Vec2, v0: Vec2) -> int {
    contact_sq() * speed_sq(v0) - miss_excess(p0, p1, v0)
}

/// The collision predicate: the moving ball, rolling straight until
/// friction stops it, touches the target.  All four comparisons are
/// exact; boundaries (tangency, contact at the start, contact exactly
/// at the stopping point) count as collisions.
pub open spec fn collides(p0: Vec2, p1: Vec2, v0: Vec2) -> bool {
    let a = approach(p0, p1, v0);
    let m = speed_sq(v0);
    let d = gap_sq(p0, p1, v0);
    &&& m > 0
    &&& a >= 0
    &&& miss_excess(p0, p1, v0) <= contact_sq() * m
    &&& a * a >= d
    &&& (4 * a <= 5 * m || (4 * a - 5 * m) * (4 * a - 5 * m) <= 16 * d)
}

/// Travel distance to first contact, scaled by `speed_sq`:
/// `approach - sqrt(gap_sq)`, with the square root taken as
/// `sqrt_floor`.
pub open spec fn contact_shift(p0: Vec2, p1: Vec2, v0: Vec2) -> int {
    approach(p0, p1, v0) - sqrt_floor(gap_sq(p0, p1, v0))
}

/// X coordinate of the moving ball's centre at first contact.
pub open spec fn contact_x(p0: Vec2, p1: Vec2, v0: Vec2) -> int {
    p0.x + v0.x * contact_shift(p0, p1, v0) / speed_sq(v0)
}

/// Y coordinate of the moving ball's centre at first contact.
pub open spec fn contact_y(p0: Vec2, p1: Vec2, v0: Vec2) -> int {
    p0.y + v0.y * contact_shift(p0, p1, v0) / speed_sq(v0)
}

/// Friction leaves `5 * m - 4 * contact_shift` of the launch momentum
/// (scaled by `5 * speed_sq`) when the balls touch.
pub open spec fn momentum_left(p0: Vec2, p1: Vec2, v0: Vec2) -> int {
    5 * speed_sq(v0) - 4 * contact_shift(p0, p1, v0)
}

/// X component of the moving ball's velocity at the instant of contact.
pub open spec fn impact_vx(p0: Vec2, p1: Vec2, v0: Vec2) -> int {
    v0.x * momentum_left(p0, p1, v0) / (5 * speed_sq(v0))
}

/// Y component of the moving ball's velocity at the instant of contact.
pub open spec fn impact_vy(p0: Vec2, p1: Vec2, v0: Vec2) -> int {
    v0.y * momentum_left(p0, p1, v0) / (5 * speed_sq(v0))
}

/// X component of the collision normal direction, unnormalised: from
/// the target centre to the moving ball's centre at contact.
pub open spec fn normal_x(p0: Vec2, p1: Vec2, v0: Vec2) -> int {
    contact_x(p0, p1, v0) - p1.x
}

/// Y component of the unnormalised collision normal.
pub open spec fn normal_y(p0: Vec2, p1: Vec2, v0: Vec2) -> int {
    contact_y(p0, p1, v0) - p1.y
}

/// Squared length of the unnormalised collision normal.
pub open spec fn normal_sq(p0: Vec2, p1: Vec2, v0: Vec2) -> int {
    normal_x(p0, p1, v0) * normal_x(p0, p1, v0) + normal_y(p0, p1, v0) * normal_y(p0, p1, v0)
}

/// Impact velocity projected on the unnormalised normal.
pub open spec fn normal_dot(p0: Vec2, p1: Vec2, v0: Vec2) -> int {
    impact_vx(p0, p1, v0) * normal_x(p0, p1, v0) + impact_vy(p0, p1, v0) * normal_y(p0, p1, v0)
}

/// X component of the velocity the target receives: the full normal
/// component of the impact velocity, `n * dot(v, n) / |n|^2`.  A
/// degenerate normal (coincident centres) transfers nothing.
pub open spec fn transfer_x(p0: Vec2, p1: Vec2, v0: Vec2) -> int {
    let ww = normal_sq(p0, p1, v0);
    if ww == 0 {
        0
    } else {
        normal_x(p0, p1, v0) * normal_dot(p0, p1, v0) / ww
    }
}

/// Y component of the velocity the target receives.
pub open spec fn transfer_y(p0: Vec2, p1: Vec2, v0: Vec2) -> int {
    let ww = normal_sq(p0, p1, v0);
    if ww == 0 {
        0
    } else {
        normal_y(p0, p1, v0) * normal_dot(p0, p1, v0) / ww
    }
}

/// X component of the velocity the moving ball keeps: the tangential
/// remainder of the impact velocity.
pub open spec fn keep_x(p0: Vec2, p1: Vec2, v0: Vec2) -> int {
    impact_vx(p0, p1, v0) - transfer_x(p0, p1, v0)
}

/// Y component of the velocity the moving ball keeps.
pub open spec fn keep_y(p0: Vec2, p1: Vec2, v0: Vec2) -> int {
    impact_vy(p0, p1, v0) - transfer_y(p0, p1, v0)
}

/// Speed of the moving ball at the instant of contact, in micro-units,
/// never negative.
pub open spec fn impact_speed(p0: Vec2, p1: Vec2, v0: Vec2) -> int {
    let k = momentum_left(p0, p1, v0);
    if k <= 0 {
        0
    } else {
        k / (5 * sqrt_floor(speed_sq(v0)))
    }
}

/// Friction-limited travel: a ball launched at micro-speed `c` rolls
/// `c / 0.8 = 5 * c / 4` micro-units before it rests.
pub open spec fn travel(c: int) -> int {
    5 * c / 4
}

/// Final X coordinate of the moving ball.
pub open spec fn final0_x(p0: Vec2, p1: Vec2, v0: Vec2) -> int {
    if collides(p0, p1, v0) {
        contact_x(p0, p1, v0) + travel(keep_x(p0, p1, v0))
    } else {
        p0.x + travel(v0.x as int)
    }
}

/// Final Y coordinate of the moving ball.
pub open spec fn final0_y(p0: Vec2, p1: Vec2, v0: Vec2) -> int {
    if collides(p0, p1, v0) {
        contact_y(p0, p1, v0) + travel(keep_y(p0, p1, v0))
    } else {
        p0.y + travel(v0.y as int)
    }
}

/// Final X coordinate of the target ball.
pub open spec fn final1_x(p0: Vec2, p1: Vec2, v0: Vec2) -> int {
    if collides(p0, p1, v0) {
        p1.x + travel(transfer_x(p0, p1, v0))
    } else {
        p1.x as int
    }
}

/// Final Y coordinate of the target ball.
pub open spec fn final1_y(p0: Vec2, p1: Vec2, v0: Vec2) -> int {
    if collides(p0, p1, v0) {
        p1.y + travel(transfer_y(p0, p1, v0))
    } else {
        p1.y as int
    }
}

/// Everything a confirmed collision determines: the contact point, the
/// moving ball's speed when the balls touch, and both velocities right
/// after the elastic exchange.
#[derive(Clone, Copy, Debug, PartialEq, Eq, Structural)]
pub struct Collision {
    pub contact: Vec2,
    pub speed: i64,
    pub v0_after: Vec2,
    pub v1_after: Vec2,
}

/// The single classification the system performs: either the moving
/// ball misses (or never moves), or it hits, with the contact data.
#[derive(Clone, Copy, Debug, PartialEq, Eq, Structural)]
pub enum Outcome {
    Miss,
    Hit(Collision),
}

/// `o` is the outcome the model assigns to the scenario, and every
/// field of a hit is small enough for the resolver's arithmetic.
pub open spec fn outcome_ok(p0: Vec2, p1: Vec2, v0: Vec2, o: Outcome) -> bool {
    match o {
        Outcome::Miss => !collides(p0, p1, v0),
        Outcome::Hit(c) => {
            &&& collides(p0, p1, v0)
            &&& c.contact.x == contact_x(p0, p1, v0)
            &&& c.contact.y == contact_y(p0, p1, v0)
            &&& c.speed == impact_speed(p0, p1, v0)
            &&& c.v0_after.x == keep_x(p0, p1, v0)
            &&& c.v0_after.y == keep_y(p0, p1, v0)
            &&& c.v1_after.x == transfer_x(p0, p1, v0)
            &&& c.v1_after.y == transfer_y(p0, p1, v0)
            &&& c.contact.bounded(4 * MAX_COORD as int)
            &&& c.v0_after.bounded(3 * MAX_COORD as int)
            &&& c.v1_after.bounded(2 * MAX_COORD as int)
        },
    }
}

/// Collision solver: decides whether the launched ball reaches the
/// target and, when it does, computes the full contact data.
///
/// The decision itself is exact: every comparison of the model holds of
/// the returned outcome, if and only if.
pub fn classify(p0: Vec2, p1: Vec2, v0: Vec2) -> (o: Outcome)
    requires
        p0.bounded(MAX_COORD as int),
        p1.bounded(MAX_COORD as int),
        v0.bounded(MAX_COORD as int),
    ensures
        outcome_ok(p0, p1, v0, o),
        o is Miss <==> !collides(p0, p1, v0),
{
    let sep = p0.sub(&p1);
    proof {
        lemma_mul_bound(sep.x as int, v0.x as int, 1_000_000_000int, 500_000_000int);
        lemma_mul_bound(sep.y as int, v0.y as int, 1_000_000_000int, 500_000_000int);
        lemma_mul_bound(v0.x as int, v0.x as int, 500_000_000int, 500_000_000int);
        lemma_mul_bound(v0.y as int, v0.y as int, 500_000_000int, 500_000_000int);
        lemma_mul_bound(sep.x as int, sep.x as int, 1_000_000_000int, 1_000_000_000int);
        lemma_mul_bound(sep.y as int, sep.y as int, 1_000_000_000int, 1_000_000_000int);
    }
    let a: i128 = -sep.dot(&v0);
    let m: i128 = v0.mag_sq();
    let ss: i128 = sep.mag_sq();
    if m == 0 {
        return Outcome::Miss;
    }
    if a < 0 {
        return Outcome::Miss;
    }
    proof {
        lemma_mul_bound(CONTACT_DIST_MICRO as int, CONTACT_DIST_MICRO as int, 61_500int,
            61_500int);
    }
    let r2sq: i128 = (CONTACT_DIST_MICRO as i128) * (CONTACT_DIST_MICRO as i128);
    proof {
        assert(r2sq == 3_782_250_000i128) by (nonlinear_arith)
            requires
                r2sq as int == (CONTACT_DIST_MICRO as int) * (CONTACT_DIST_MICRO as int),
                CONTACT_DIST_MICRO as int == 61_500,
        {
        }
        lemma_mul_bound(ss as int, m as int, 2_000_000_000_000_000_000int,
            500_000_000_000_000_000int);
        lemma_mul_bound(a as int, a as int, 1_000_000_000_000_000_000int,
            1_000_000_000_000_000_000int);
        lemma_mul_bound(r2sq as int, m as int, 3_782_250_000int, 500_000_000_000_000_000int);
    }
    let excess: i128 = ss * m - a * a;
    if excess > r2sq * m {
        return Outcome::Miss;
    }
    let d: i128 = r2sq * m - excess;
    if a * a < d {
        return Outcome::Miss;
    }
    let lhs: i128 = 4 * a - 5 * m;
    proof {
        lemma_mul_bound(lhs as int, lhs as int, 6_500_000_000_000_000_000int,
            6_500_000_000_000_000_000int);
    }
    if lhs > 0 && lhs * lhs > 16 * d {
        return Outcome::Miss;
    }
    // Every conjunct of the collision predicate holds from here on.
    assert(collides(p0, p1, v0));
    assert(d >= 0);
    let sf: u64 = isqrt(d as u128);
    proof {
        assert(sf as int <= a as int) by (nonlinear_arith)
            requires
                0 <= sf as int,
                0 <= a as int,
                sf as int * sf as int <= d as int,
                d as int <= a as int * a as int,
        {
        }
    }
    let cn: i128 = a - (sf as i128);
    proof {
        assert(cn == contact_shift(p0, p1, v0));
        // Contact within friction reach bounds the shift: 4*cn <= 5*m + 4.
        if lhs > 0 {
            assert(4 * a - 5 * m <= 4 * (sf as int) + 4) by (nonlinear_arith)
                requires
                    4 * a as int - 5 * m as int > 0,
                    (4 * a as int - 5 * m as int) * (4 * a as int - 5 * m as int) <= 16 * d as int,
                    (d as int) < (sf as int + 1) * (sf as int + 1),
                    0 <= sf as int,
            {
            }
        }
        assert(4 * cn <= 5 * m + 4);
        assert(1 <= m);
        assert(-(1_500_000_000i128 as int) * m as int <= v0.x as int * cn as int
            <= 1_500_000_000i128 as int * m as int) by (nonlinear_arith)
            requires
                -500_000_000 <= v0.x as int <= 500_000_000,
                0 <= cn as int,
                4 * cn as int <= 5 * m as int + 4,
                1 <= m as int,
        {
        }
        assert(-(1_500_000_000i128 as int) * m as int <= v0.y as int * cn as int
            <= 1_500_000_000i128 as int * m as int) by (nonlinear_arith)
            requires
                -500_000_000 <= v0.y as int <= 500_000_000,
                0 <= cn as int,
                4 * cn as int <= 5 * m as int + 4,
                1 <= m as int,
        {
        }
        lemma_mul_bound(v0.x as int, cn as int, 500_000_000int, 1_000_000_000_000_000_000int);
        lemma_mul_bound(v0.y as int, cn as int, 500_000_000int, 1_000_000_000_000_000_000int);
        lemma_div_range(v0.x as int * cn as int, m as int, 1_500_000_000int);
        lemma_div_range(v0.y as int * cn as int, m as int, 1_500_000_000int);
    }
    let cx: i128 = (p0.x as i128) + floor_div((v0.x as i128) * cn, m);
    let cy: i128 = (p0.y as i128) + floor_div((v0.y as i128) * cn, m);
    let k: i128 = 5 * m - 4 * cn;
    proof {
        assert(-4 <= k && k <= 5 * m);
        lemma_mul_bound(v0.x as int, k as int, 500_000_000int, 2_500_000_000_000_000_004int);
        lemma_mul_bound(v0.y as int, k as int, 500_000_000int, 2_500_000_000_000_000_004int);
        assert(-(500_000_000int) * (5 * m as int) <= v0.x as int * k as int
            <= 500_000_000int * (5 * m as int)) by (nonlinear_arith)
            requires
                -500_000_000 <= v0.x as int <= 500_000_000,
                -4 <= k as int <= 5 * m as int,
                1 <= m as int,
        {
        }
        assert(-(500_000_000int) * (5 * m as int) <= v0.y as int * k as int
            <= 500_000_000int * (5 * m as int)) by (nonlinear_arith)
            requires
                -500_000_000 <= v0.y as int <= 500_000_000,
                -4 <= k as int <= 5 * m as int,
                1 <= m as int,
        {
        }
        lemma_div_range(v0.x as int * k as int, 5 * m as int, 500_000_000int);
        lemma_div_range(v0.y as int * k as int, 5 * m as int, 500_000_000int);
    }
    let vbx: i128 = floor_div((v0.x as i128) * k, 5 * m);
    let vby: i128 = floor_div((v0.y as i128) * k, 5 * m);
    let wx: i128 = cx - (p1.x as i128);
    let wy: i128 = cy - (p1.y as i128);
    proof {
        lemma_mul_bound(vbx as int, wx as int, 500_000_000int, 2_500_000_000int);
        lemma_mul_bound(vby as int, wy as int, 500_000_000int, 2_500_000_000int);
        lemma_mul_bound(wx as int, wx as int, 2_500_000_000int, 2_500_000_000int);
        lemma_mul_bound(wy as int, wy as int, 2_500_000_000int, 2_500_000_000int);
        assert(wx as int * wx as int >= 0 && wy as int * wy as int >= 0) by (nonlinear_arith);
    }
    let dotv: i128 = vbx * wx + vby * wy;
    let ww: i128 = wx * wx + wy * wy;
    let v1x: i128;
    let v1y: i128;
    if ww == 0 {
        v1x = 0;
        v1y = 0;
    } else {
        proof {
            lemma_mul_bound(wx as int, dotv as int, 2_500_000_000int,
                5_000_000_000_000_000_000int);
            lemma_mul_bound(wy as int, dotv as int, 2_500_000_000int,
                5_000_000_000_000_000_000int);
            // The normal component of a bounded velocity is bounded:
            // |w| * |dot(vb, w)| <= 2 * bound * |w|^2.
            assert(-(1_000_000_000int) * ww as int <= wx as int * dotv as int
                <= 1_000_000_000int * ww as int) by (nonlinear_arith)
                requires
                    -500_000_000 <= vbx as int <= 500_000_000,
                    -500_000_000 <= vby as int <= 500_000_000,
                    dotv as int == vbx as int * wx as int + vby as int * wy as int,
                    ww as int == wx as int * wx as int + wy as int * wy as int,
            {
            }
            assert(-(1_000_000_000int) * ww as int <= wy as int * dotv as int
                <= 1_000_000_000int * ww as int) by (nonlinear_arith)
                requires
                    -500_000_000 <= vbx as int <= 500_000_000,
                    -500_000_000 <= vby as int <= 500_000_000,
                    dotv as int == vbx as int * wx as int + vby as int * wy as int,
                    ww as int == wx as int * wx as int + wy as int * wy as int,
            {
            }
            lemma_div_range(wx as int * dotv as int, ww as int, 1_000_000_000int);
            lemma_div_range(wy as int * dotv as int, ww as int, 1_000_000_000int);
        }
        v1x = floor_div(wx * dotv, ww);
        v1y = floor_div(wy * dotv, ww);
    }
    let v0ax: i128 = vbx - v1x;
    let v0ay: i128 = vby - v1y;
    let sm: u64 = isqrt(m as u128);
    proof {
        assert(1 <= sm as int && sm as int <= 1_000_000_000) by (nonlinear_arith)
            requires
                is_sqrt_floor(m as int, sm as int),
                1 <= m as int <= 500_000_000_000_000_000,
        {
        }
    }
    let speed: i128;
    if k <= 0 {
        speed = 0;
    } else {
        proof {
            assert(k as int <= (sm as int + 3) * (5 * sm as int)) by (nonlinear_arith)
                requires
                    k as int <= 5 * m as int,
                    (m as int) < (sm as int + 1) * (sm as int + 1),
                    1 <= sm as int,
            {
            }
            lemma_div_range(k as int, 5 * sm as int, sm as int + 3);
        }
        speed = floor_div(k, 5 * (sm as i128));
    }
    Outcome::Hit(
        Collision {
            contact: Vec2 { x: cx as i64, y: cy as i64 },
            speed: speed as i64,
            v0_after: Vec2 { x: v0ax as i64, y: v0ay as i64 },
            v1_after: Vec2 { x: v1x as i64, y: v1y as i64 },
        },
    )
}

/// Friction-limited travel of one velocity component: exactly
/// `travel(c)` micro-units.
fn travel_dist(c: i64) -> (t: i64)
    requires
        -4 * MAX_COORD as int <= c <= 4 * MAX_COORD as int,
    ensures
        t == travel(c as int),
        -5 * MAX_COORD as int <= t <= 5 * MAX_COORD as int,
{
    proof {
        lemma_div_range(5 * c as int, 4int, 5 * MAX_COORD as int);
    }
    floor_div(5 * (c as i128), 4) as i64
}

/// Motion resolver: turns the classified outcome into the two final
/// positions — plain friction-limited travel on a miss, pre-contact
/// travel plus the elastic exchange plus two friction-limited roll-outs
/// on a hit.
pub fn resolve(p0: Vec2, p1: Vec2, v0: Vec2, o: &Outcome) -> (r: (Vec2, Vec2))
    requires
        p0.bounded(MAX_COORD as int),
        p1.bounded(MAX_COORD as int),
        v0.bounded(MAX_COORD as int),
        outcome_ok(p0, p1, v0, *o),
    ensures
        r.0.x == final0_x(p0, p1, v0),
        r.0.y == final0_y(p0, p1, v0),
        r.1.x == final1_x(p0, p1, v0),
        r.1.y == final1_y(p0, p1, v0),
{
    match o {
        Outcome::Miss => {
            let roll = Vec2::new(travel_dist(v0.x), travel_dist(v0.y));
            (p0.add(&roll), p1)
        },
        Outcome::Hit(c) => {
            let roll0 = Vec2::new(travel_dist(c.v0_after.x), travel_dist(c.v0_after.y));
            let roll1 = Vec2::new(travel_dist(c.v1_after.x), travel_dist(c.v1_after.y));
            (c.contact.add(&roll0), p1.add(&roll1))
        },
    }
}

/// The whole single-shot simulation: classify, then resolve.
///
/// The first four clauses pin each output coordinate to the model; the
/// last two state the degenerate guarantees on their own: a stationary
/// ball leaves both positions untouched, and without a collision the
/// moving ball travels exactly its friction-limited displacement while
/// the target stays in place.
pub fn simulate(p0: Vec2, p1: Vec2, v0: Vec2) -> (r: (Vec2, Vec2))
    requires
        p0.bounded(MAX_COORD as int),
        p1.bounded(MAX_COORD as int),
        v0.bounded(MAX_COORD as int),
    ensures
        r.0.x == final0_x(p0, p1, v0),
        r.0.y == final0_y(p0, p1, v0),
        r.1.x == final1_x(p0, p1, v0),
        r.1.y == final1_y(p0, p1, v0),
        v0.x == 0 && v0.y == 0 ==> r.0 == p0 && r.1 == p1,
        !collides(p0, p1, v0) ==> r.0.x == p0.x + travel(v0.x as int) && r.0.y == p0.y + travel(
            v0.y as int,
        ) && r.1 == p1,
{
    let o = classify(p0, p1, v0);
    resolve(p0, p1, v0, &o)
}

/// A ball with no speed neither collides nor moves: both final
/// positions equal the initial ones.
pub proof fn lemma_stationary(p0: Vec2, p1: Vec2, v0: Vec2)
    requires
        speed_sq(v0) == 0,
    ensures
        !collides(p0, p1, v0),
        final0_x(p0, p1, v0) == p0.x,
        final0_y(p0, p1, v0) == p0.y,
        final1_x(p0, p1, v0) == p1.x,
        final1_y(p0, p1, v0) == p1.y,
{
    v0.lemma_mag_sq_zero();
}

/// A target behind the launch direction is never hit.
pub proof fn lemma_miss_when_behind(p0: Vec2, p1: Vec2, v0: Vec2)
    requires
        approach(p0, p1, v0) < 0,
    ensures
        !collides(p0, p1, v0),
{
}

/// A trajectory line passing farther from the target centre than the
/// contact distance is never a hit.
pub proof fn lemma_miss_when_off_line(p0: Vec2, p1: Vec2, v0: Vec2)
    requires
        miss_excess(p0, p1, v0) > contact_sq() * speed_sq(v0),
    ensures
        !collides(p0, p1, v0),
{
}

/// Boundary inclusivity: a trajectory exactly tangent to the collision
/// circle (the squared line-to-centre distance equals the squared
/// contact distance) is classified as a collision, never as a miss,
/// whenever the target lies ahead within friction reach.
pub proof fn lemma_tangent_hits(p0: Vec2, p1: Vec2, v0: Vec2)
    requires
        speed_sq(v0) > 0,
        approach(p0, p1, v0) >= 0,
        miss_excess(p0, p1, v0) == contact_sq() * speed_sq(v0),
        4 * approach(p0, p1, v0) <= 5 * speed_sq(v0),
    ensures
        collides(p0, p1, v0),
{
    assert(gap_sq(p0, p1, v0) == 0);
    assert(approach(p0, p1, v0) * approach(p0, p1, v0) >= 0) by (nonlinear_arith);
}

/// Elastic, equal-mass energy conservation: splitting a velocity `vb`
/// into its component along a normal `w` and the remainder preserves
/// the squared magnitude, `|v0_after|^2 + |v1_after|^2 == |vb|^2`.
/// Denominators are cleared: with `ww = |w|^2`, the vector
/// `ww * vb - w * dot(vb, w)` is `ww` times the kept velocity and
/// `w * dot(vb, w)` is `ww` times the transferred one, so the identity
/// below is the conservation law scaled by `ww^2`.
pub proof fn lemma_elastic_energy(vbx: int, vby: int, wx: int, wy: int)
    ensures
        ({
            let dotv = vbx * wx + vby * wy;
            let ww = wx * wx + wy * wy;
            (ww * vbx - wx * dotv) * (ww * vbx - wx * dotv) + (ww * vby - wy * dotv) * (ww * vby
                - wy * dotv) + (wx * dotv) * (wx * dotv) + (wy * dotv) * (wy * dotv) == ww * ww * (
            vbx * vbx + vby * vby)
        }),
{
    let q = vbx * wx + vby * wy;
    let ww = wx * wx + wy * wy;
    // Expand each squared component, then collapse the cross terms:
    // the projection pulls exactly `ww * q^2` out twice, once with each
    // sign.
    assert((ww * vbx - wx * q) * (ww * vbx - wx * q) == (ww * ww) * (vbx * vbx) - 2 * (ww * (vbx
        * (wx * q))) + (wx * q) * (wx * q)) by (nonlinear_arith);
    assert((ww * vby - wy * q) * (ww * vby - wy * q) == (ww * ww) * (vby * vby) - 2 * (ww * (vby
        * (wy * q))) + (wy * q) * (wy * q)) by (nonlinear_arith);
    assert(vbx * (wx * q) + vby * (wy * q) == q * q) by (nonlinear_arith)
        requires
            q == vbx * wx + vby * wy,
    {
    }
    assert((wx * q) * (wx * q) + (wy * q) * (wy * q) == ww * (q * q)) by (nonlinear_arith)
        requires
            ww == wx * wx + wy * wy,
    {
    }
    assert((ww * ww) * (vbx * vbx) + (ww * ww) * (vby * vby) == ww * ww * (vbx * vbx + vby * vby))
        by (nonlinear_arith);
    assert(ww * (vbx * (wx * q)) + ww * (vby * (wy * q)) == ww * (q * q)) by (nonlinear_arith)
        requires
            vbx * (wx * q) + vby * (wy * q) == q * q,
    {
    }
}

/// Energy conservation over the model itself: whenever the two
/// projection divisions are exact (the normal's squared length divides
/// both numerators, as it does in a head-on contact), the kept and the
/// transferred velocity carry exactly the impact velocity's squared
/// magnitude between them.
pub proof fn lemma_elastic_energy_model(p0: Vec2, p1: Vec2, v0: Vec2)
    requires
        normal_sq(p0, p1, v0) > 0,
        normal_x(p0, p1, v0) * normal_dot(p0, p1, v0) % normal_sq(p0, p1, v0) == 0,
        normal_y(p0, p1, v0) * normal_dot(p0, p1, v0) % normal_sq(p0, p1, v0) == 0,
    ensures
        keep_x(p0, p1, v0) * keep_x(p0, p1, v0) + keep_y(p0, p1, v0) * keep_y(p0, p1, v0)
            + transfer_x(p0, p1, v0) * transfer_x(p0, p1, v0) + transfer_y(p0, p1, v0)
            * transfer_y(p0, p1, v0) == impact_vx(p0, p1, v0) * impact_vx(p0, p1, v0) + impact_vy(
            p0,
            p1,
            v0,
        ) * impact_vy(p0, p1, v0),
{
    let vbx = impact_vx(p0, p1, v0);
    let vby = impact_vy(p0, p1, v0);
    let wx = normal_x(p0, p1, v0);
    let wy = normal_y(p0, p1, v0);
    let ww = normal_sq(p0, p1, v0);
    let q = normal_dot(p0, p1, v0);
    let tx = transfer_x(p0, p1, v0);
    let ty = transfer_y(p0, p1, v0);
    vstd::arithmetic::div_mod::lemma_fundamental_div_mod(wx * q, ww);
    vstd::arithmetic::div_mod::lemma_fundamental_div_mod(wy * q, ww);
    assert(wx * q == ww * tx);
    assert(wy * q == ww * ty);
    lemma_elastic_energy(vbx, vby, wx, wy);
    assert((ww * vbx - wx * q) * (ww * vbx - wx * q) + (ww * vby - wy * q) * (ww * vby - wy * q) + (
    wx * q) * (wx * q) + (wy * q) * (wy * q) == ww * ww * (vbx * vbx + vby * vby));
    let e = ww * ww;
    assert(e > 0) by (nonlinear_arith)
        requires
            ww > 0,
            e == ww * ww,
    {
    }
    assert((ww * vbx - wx * q) * (ww * vbx - wx * q) == e * ((vbx - tx) * (vbx - tx)))
        by (nonlinear_arith)
        requires
            wx * q == ww * tx,
            e == ww * ww,
    {
    }
    assert((ww * vby - wy * q) * (ww * vby - wy * q) == e * ((vby - ty) * (vby - ty)))
        by (nonlinear_arith)
        requires
            wy * q == ww * ty,
            e == ww * ww,
    {
    }
    assert((wx * q) * (wx * q) == e * (tx * tx)) by (nonlinear_arith)
        requires
            wx * q == ww * tx,
            e == ww * ww,
    {
    }
    assert((wy * q) * (wy * q) == e * (ty * ty)) by (nonlinear_arith)
        requires
            wy * q == ww * ty,
            e == ww * ww,
    {
    }
    assert(e * ((vbx - tx) * (vbx - tx)) + e * ((vby - ty) * (vby - ty)) + e * (tx * tx) + e * (ty
        * ty) == e * ((vbx - tx) * (vbx - tx) + (vby - ty) * (vby - ty) + tx * tx + ty * ty))
        by (nonlinear_arith);
    assert(e * ((vbx - tx) * (vbx - tx) + (vby - ty) * (vby - ty) + tx * tx + ty * ty) == e * (vbx
        * vbx + vby * vby));
    assert((vbx - tx) * (vbx - tx) + (vby - ty) * (vby - ty) + tx * tx + ty * ty == vbx * vbx + vby
        * vby) by (nonlinear_arith)
        requires
            e > 0,
            e * ((vbx - tx) * (vbx - tx) + (vby - ty) * (vby - ty) + tx * tx + ty * ty) == e * (vbx
                * vbx + vby * vby),
    {
    }
}

/// In a head-on contact — the impact velocity parallel to the collision
/// normal — the whole velocity lies along the normal: `ww` times the
/// impact velocity equals `w * dot(vb, w)`, so the transfer is total.
pub proof fn lemma_head_on_full_transfer(vbx: int, vby: int, wx: int, wy: int)
    requires
        wx * vby == wy * vbx,
    ensures
        ({
            let dotv = vbx * wx + vby * wy;
            let ww = wx * wx + wy * wy;
            ww * vbx == wx * dotv && ww * vby == wy * dotv
        }),
{
    let dotv = vbx * wx + vby * wy;
    let ww = wx * wx + wy * wy;
    assert(ww * vbx == wx * dotv && ww * vby == wy * dotv) by (nonlinear_arith)
        requires
            wx * vby == wy * vbx,
            dotv == vbx * wx + vby * wy,
            ww == wx * wx + wy * wy,
    {
    }
}

/// Head-on collision in the model: when the impact velocity is parallel
/// to the collision normal, the target receives the moving ball's whole
/// velocity, exactly, and the moving ball stops dead at the contact
/// point.
pub proof fn lemma_head_on_model(p0: Vec2, p1: Vec2, v0: Vec2)
    requires
        normal_sq(p0, p1, v0) > 0,
        normal_x(p0, p1, v0) * impact_vy(p0, p1, v0) == normal_y(p0, p1, v0) * impact_vx(
            p0,
            p1,
            v0,
        ),
    ensures
        transfer_x(p0, p1, v0) == impact_vx(p0, p1, v0),
        transfer_y(p0, p1, v0) == impact_vy(p0, p1, v0),
        keep_x(p0, p1, v0) == 0,
        keep_y(p0, p1, v0) == 0,
        collides(p0, p1, v0) ==> final0_x(p0, p1, v0) == contact_x(p0, p1, v0) && final0_y(
            p0,
            p1,
            v0,
        ) == contact_y(p0, p1, v0),
{
    let vbx = impact_vx(p0, p1, v0);
    let vby = impact_vy(p0, p1, v0);
    let wx = normal_x(p0, p1, v0);
    let wy = normal_y(p0, p1, v0);
    let ww = normal_sq(p0, p1, v0);
    let dotv = normal_dot(p0, p1, v0);
    lemma_head_on_full_transfer(vbx, vby, wx, wy);
    assert(wx * dotv == ww * vbx);
    assert(wy * dotv == ww * vby);
    assert((ww * vbx) / ww == vbx && (ww * vby) / ww == vby) by (nonlinear_arith)
        requires
            ww > 0,
    {
    }
}

} // verus!
