//! Properties of the pipeline that relate its rules to concrete geometry.
use vstd::prelude::*;
use vstd::arithmetic::div_mod::{lemma_fundamental_div_mod, lemma_div_by_multiple};
use crate::geometry::{
    Pt, pt, zero, dot, len2, perp, resized, trunc_div, angle_exceeds, within_right_angle,
    is_root, lemma_floor_sqrt, times, UNIT,
};
use crate::flock::{Config, Boid, Seed};
use crate::forces::{separation, alignment, sighted_avoidance, along, gated, push_away};
use crate::sympathy::passed;
use crate::motion::{Steer, steer_of};
use crate::seeds::{eaten, uneaten};

verus! {

/// Separation: a neighbour at distance `n` straight along an axis, inside the
/// separation radius `r`, pushes back with magnitude exactly `r - n`, which
/// falls as `n` grows; at or beyond `r` it does not push at all.
pub proof fn separation_falls_with_distance(c: Config, n: int)
    requires
        c.wf(),
        0 < n,
    ensures
        n < c.separation_radius ==> separation(c, pt(n, 0)) == pt(n - c.separation_radius, 0),
        n < c.separation_radius ==> separation(c, pt(-n, 0)) == pt(c.separation_radius - n, 0),
        n < c.separation_radius ==> len2(separation(c, pt(n, 0))) == (c.separation_radius - n) * (
        c.separation_radius - n),
        n >= c.separation_radius ==> separation(c, pt(n, 0)) == zero(),
        n >= c.separation_radius ==> separation(c, pt(-n, 0)) == zero(),
{
    let r = c.separation_radius as int;
    assert(is_root(n * n, n)) by (nonlinear_arith)
        requires
            0 < n,
    ;
    assert(len2(pt(n, 0)) == n * n);
    assert(len2(pt(-n, 0)) == n * n) by (nonlinear_arith);
    lemma_floor_sqrt(n * n, n);
    assert((n * r) / n == r) by (nonlinear_arith)
        requires
            0 < n,
    ;
    assert(-n * r <= 0) by (nonlinear_arith)
        requires
            0 < n,
            0 <= r,
    ;
    assert(-(-n * r) == n * r) by (nonlinear_arith);
    assert(trunc_div(n * r, n) == r);
    assert(trunc_div(-n * r, n) == -r) by {
        if n * r == 0 {
            assert(r == 0) by (nonlinear_arith)
                requires
                    0 < n,
                    n * r == 0,
            ;
            assert(-n * r == 0) by (nonlinear_arith)
                requires
                    r == 0,
            ;
        }
    }
    assert(0 * r == 0);
    assert(trunc_div(0 * r, n) == 0);
    if n < r {
        assert(n * n < r * r) by (nonlinear_arith)
            requires
                0 < n < r,
        ;
        assert(resized(pt(n, 0), r) == pt(r, 0));
        assert(resized(pt(-n, 0), r) == pt(-r, 0));
        assert((r - n) * (r - n) == (n - r) * (n - r) + 0 * 0) by (nonlinear_arith);
    } else {
        assert(n * n >= r * r) by (nonlinear_arith)
            requires
                0 <= r <= n,
        ;
    }
}

proof fn lemma_exact_trunc_div(a: int, n: int)
    requires
        0 < n,
        a % n == 0,
    ensures
        trunc_div(a, n) * n == a,
{
    lemma_fundamental_div_mod(a, n);
    let q = a / n;
    assert(a == q * n) by (nonlinear_arith)
        requires
            a == n * q + 0,
    ;
    if a < 0 {
        assert(q < 0) by (nonlinear_arith)
            requires
                a == q * n,
                a < 0,
                0 < n,
        ;
        assert(-a == (-q) * n) by (nonlinear_arith)
            requires
                a == q * n,
        ;
        lemma_div_by_multiple(-q, n);
    } else {
        lemma_div_by_multiple(q, n);
    }
}

/// Separation in any direction: a neighbour at an offset `d` of exact length
/// `n` inside the separation radius `r` (with the rounding of `d * r / n` exact)
/// pushes back with `(n - r) / n * d`, a force of length `r - n` against `d`.
pub proof fn separation_of_exact_length(c: Config, d: Pt, n: int)
    requires
        c.wf(),
        0 < n < c.separation_radius,
        len2(d) == n * n,
        (d.x * c.separation_radius) % n == 0,
        (d.y * c.separation_radius) % n == 0,
    ensures
        times(n, separation(c, d)) == times(n - c.separation_radius, d),
{
    let r = c.separation_radius as int;
    assert(is_root(n * n, n)) by (nonlinear_arith)
        requires
            0 < n,
    ;
    lemma_floor_sqrt(n * n, n);
    assert(n * n < r * r) by (nonlinear_arith)
        requires
            0 < n < r,
    ;
    lemma_exact_trunc_div(d.x * r, n);
    lemma_exact_trunc_div(d.y * r, n);
    let qx = trunc_div(d.x * r, n);
    let qy = trunc_div(d.y * r, n);
    assert(resized(d, r) == pt(qx, qy));
    assert(n * (d.x - qx) == (n - r) * d.x) by (nonlinear_arith)
        requires
            qx * n == d.x * r,
    ;
    assert(n * (d.y - qy) == (n - r) * d.y) by (nonlinear_arith)
        requires
            qy * n == d.y * r,
    ;
}

/// Alignment: a neighbour inside the alignment radius adds its pull exactly when
/// its heading is less than a right angle from the boid's; headings a right
/// angle apart add nothing.
pub proof fn alignment_needs_less_than_right_angle(c: Config, d: Pt, mine: Pt, theirs: Pt)
    requires
        c.wf(),
        len2(d) < c.align_radius * c.align_radius,
    ensures
        dot(theirs, mine) <= 0 ==> alignment(c, d, mine, theirs) == zero(),
        dot(theirs, mine) > 0 ==> alignment(c, d, mine, theirs) == along(theirs, c.align_pull as int),
{
}

/// Sighted avoidance: a neighbour inside the sight range and strictly inside
/// the sight cone is avoided; one strictly outside the cone is not.
pub proof fn sight_cone_limits_avoidance(c: Config, d: Pt, mine: Pt)
    requires
        c.wf(),
        len2(d) < c.sight_range * c.sight_range,
    ensures
        dot(d, mine) >= 0 && dot(d, mine) * dot(d, mine) * (UNIT * UNIT) > c.sight_cos * c.sight_cos * (
        len2(d) * len2(mine)) ==> sighted_avoidance(c, d, mine) == push_away(d, c.sight_range as int),
        dot(d, mine) < 0 || dot(d, mine) * dot(d, mine) * (UNIT * UNIT) < c.sight_cos * c.sight_cos * (
        len2(d) * len2(mine)) ==> sighted_avoidance(c, d, mine) == zero(),
{
}

/// Force gating: a force of length at most the threshold is dropped, a longer
/// one is kept as it is.
pub proof fn force_gate_threshold(c: Config, f: Pt)
    requires
        c.wf(),
    ensures
        len2(f) <= c.force_threshold * c.force_threshold ==> gated(c, f).is_none(),
        len2(f) > c.force_threshold * c.force_threshold ==> gated(c, f) == Some(f),
{
}

/// Sympathy: a force-carrying boid at exactly the separation radius or exactly
/// the alignment radius from another force-carrying boid gets nothing from it;
/// strictly between the two it gets that boid's force times the gain.
pub proof fn sympathy_band_is_open(c: Config, boids: Seq<Boid>, j: int, k: int)
    requires
        c.wf(),
        0 <= j < boids.len(),
        0 <= k < boids.len(),
        boids[j].force.is_some(),
        boids[k].force.is_some(),
    ensures
        ({
            let l = len2(crate::geometry::diff(boids[j].position@, boids[k].position@));
            &&& (l == c.separation_radius * c.separation_radius || l == c.align_radius * c.align_radius)
                ==> passed(c, boids, j, k) == zero()
            &&& (c.separation_radius * c.separation_radius < l < c.align_radius * c.align_radius)
                ==> passed(c, boids, j, k) == times(c.sympathy_gain as int, boids[j].force.unwrap().0@)
        }),
{
}

/// Steering: a force whose direction lies within the dead zone of the heading,
/// its boundary included, causes no turn; beyond it the boid turns left when
/// the force is less than a right angle from its left side, else right.
pub proof fn steering_dead_zone(c: Config, f: Pt, dir: Pt)
    requires
        c.wf(),
    ensures
        ({
            let u = resized(f, UNIT as int);
            &&& (dot(u, dir) >= 0 && dot(u, dir) * dot(u, dir) * (UNIT * UNIT) >= c.dead_zone_cos
                * c.dead_zone_cos * (len2(u) * len2(dir))) ==> steer_of(c, f, dir) == Steer::Straight
            &&& angle_exceeds(u, dir, c.dead_zone_cos as int) && within_right_angle(f, perp(dir))
                ==> steer_of(c, f, dir) == Steer::Left
            &&& angle_exceeds(u, dir, c.dead_zone_cos as int) && !within_right_angle(f, perp(dir))
                ==> steer_of(c, f, dir) == Steer::Right
        }),
{
}

/// How many of the first `k` seeds are eaten, each counted once however many
/// boids reach it.
pub open spec fn eaten_count(c: Config, boids: Seq<Boid>, seeds: Seq<Seed>, k: nat) -> nat
    decreases k,
{
    if k == 0 {
        0
    } else {
        eaten_count(c, boids, seeds, (k - 1) as nat) + if eaten(c, boids, seeds[k - 1]) {
            1nat
        } else {
            0nat
        }
    }
}

/// Seed eating removes each eaten seed exactly once, whatever the number of
/// boids within reach of it: the seeds left are the uneaten ones, and their
/// number is the number of seeds less the number of eaten seeds.
pub proof fn eating_removes_each_seed_once(c: Config, boids: Seq<Boid>, seeds: Seq<Seed>, k: nat)
    requires
        k <= seeds.len(),
    ensures
        uneaten(c, boids, seeds, k).len() + eaten_count(c, boids, seeds, k) == k,
        forall|m: int| 0 <= m < uneaten(c, boids, seeds, k).len()
            ==> !eaten(c, boids, #[trigger] uneaten(c, boids, seeds, k)[m]),
    decreases k,
{
    if k > 0 {
        eating_removes_each_seed_once(c, boids, seeds, (k - 1) as nat);
        let prev = uneaten(c, boids, seeds, (k - 1) as nat);
        assert forall|m: int| 0 <= m < uneaten(c, boids, seeds, k).len()
            implies !eaten(c, boids, #[trigger] uneaten(c, boids, seeds, k)[m]) by {
            if m < prev.len() {
                assert(uneaten(c, boids, seeds, k)[m] == prev[m]);
            }
        }
    }
}

} // verus!
