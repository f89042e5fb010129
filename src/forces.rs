//! Force accumulation: the net steering force of each boid from the shore, the
//! seeds in range and its neighbours.
use vstd::prelude::*;
use crate::geometry::{
    Pt, Vec2, WideVec, bounded, zero, plus, diff, times, len2, resized, trunc_div,
    angle_exceeds, within_right_angle, lemma_mul_abs, lemma_scaled_coord, resize,
    exceeds_angle, within_right_angle_exec, div_toward_zero, COORD_LIMIT, UNIT,
};
use crate::flock::{
    Config, Boid, Seed, Force, Flock, force_of, forces_within, compass_wf, boid_wf,
    ACCUMULATED_FORCE_LIMIT,
};

verus! {

/// The direction of heading `h`.
pub open spec fn heading_dir(compass: Seq<Vec2>, h: usize) -> Pt {
    compass[h as int]@
}

/// The push back towards the centre of a boid at `p` that is too close to the shore.
pub open spec fn wall_term(c: Config, p: Pt) -> Pt {
    let inner = c.pond_radius - c.wall_distance;
    if len2(p) > inner * inner {
        times(-c.wall_push, p)
    } else {
        zero()
    }
}

/// The pull of the seed at `s` on a boid at `p`.
pub open spec fn seed_pull(c: Config, p: Pt, s: Pt) -> Pt {
    let d = diff(p, s);
    if len2(d) < c.hunger_range * c.hunger_range {
        resized(d, c.hunger_pull as int)
    } else {
        zero()
    }
}

/// The pulls of the first `k` seeds on a boid at `p`.
pub open spec fn hunger_sum(c: Config, p: Pt, seeds: Seq<Seed>, k: nat) -> Pt
    decreases k,
{
    if k == 0 {
        zero()
    } else {
        plus(hunger_sum(c, p, seeds, (k - 1) as nat), seed_pull(c, p, seeds[k - 1].position@))
    }
}

/// `-(normalize(d) * r - d)`: a push against the offset `d` of length about
/// `r - |d|`, zero at `|d| = r`.
pub open spec fn push_away(d: Pt, r: int) -> Pt {
    diff(resized(d, r), d)
}

/// The direction `dir` (of length about [`UNIT`]) scaled to length `k`.
pub open spec fn along(dir: Pt, k: int) -> Pt {
    Pt { x: trunc_div(dir.x * k, UNIT as int), y: trunc_div(dir.y * k, UNIT as int) }
}

/// The push from a neighbour at offset `d` inside the separation radius.
pub open spec fn separation(c: Config, d: Pt) -> Pt {
    if len2(d) < c.separation_radius * c.separation_radius {
        push_away(d, c.separation_radius as int)
    } else {
        zero()
    }
}

/// The pull along the heading `theirs` of a neighbour at offset `d`, for a boid
/// heading along `mine`.
pub open spec fn alignment(c: Config, d: Pt, mine: Pt, theirs: Pt) -> Pt {
    if len2(d) < c.align_radius * c.align_radius && within_right_angle(theirs, mine) {
        along(theirs, c.align_pull as int)
    } else {
        zero()
    }
}

/// The neighbour at offset `d` is in the sight cone of a boid heading along `mine`.
pub open spec fn in_sight(c: Config, d: Pt, mine: Pt) -> bool {
    !angle_exceeds(d, mine, c.sight_cos as int)
}

/// The push from a neighbour at offset `d` that the boid sees, inside its sight range.
pub open spec fn sighted_avoidance(c: Config, d: Pt, mine: Pt) -> Pt {
    if in_sight(c, d, mine) && len2(d) < c.sight_range * c.sight_range {
        push_away(d, c.sight_range as int)
    } else {
        zero()
    }
}

/// Everything the boid `other` does to the boid `me`.
pub open spec fn neighbor_term(c: Config, compass: Seq<Vec2>, me: Boid, other: Boid) -> Pt {
    let d = diff(me.position@, other.position@);
    let mine = heading_dir(compass, me.heading);
    let theirs = heading_dir(compass, other.heading);
    plus(plus(separation(c, d), alignment(c, d, mine, theirs)), sighted_avoidance(c, d, mine))
}

/// What the first `k` boids other than boid `i` do to it.
pub open spec fn neighbor_sum(c: Config, compass: Seq<Vec2>, boids: Seq<Boid>, i: int, k: nat) -> Pt
    decreases k,
{
    if k == 0 {
        zero()
    } else {
        let prev = neighbor_sum(c, compass, boids, i, (k - 1) as nat);
        if k - 1 == i {
            prev
        } else {
            plus(prev, neighbor_term(c, compass, boids[i], boids[k - 1]))
        }
    }
}

/// The position of the closest to boid `i` among the first `k` other boids; the
/// first one on a tie, and the far point where none is closer than it.
pub open spec fn closest(c: Config, boids: Seq<Boid>, i: int, k: nat) -> Pt
    decreases k,
{
    if k == 0 {
        c.far_point@
    } else {
        let prev = closest(c, boids, i, (k - 1) as nat);
        let p = boids[i].position@;
        let q = boids[k - 1].position@;
        if k - 1 != i && len2(diff(p, q)) < len2(diff(p, prev)) {
            q
        } else {
            prev
        }
    }
}

/// The pull of boid `i` towards its closest neighbour.
pub open spec fn cohesion(c: Config, boids: Seq<Boid>, i: int) -> Pt {
    let p = boids[i].position@;
    times(c.cohesion_pull as int, diff(p, closest(c, boids, i, boids.len())))
}

/// The net force on boid `i`: shore, seeds, neighbours and cohesion.
pub open spec fn net_force(c: Config, compass: Seq<Vec2>, boids: Seq<Boid>, seeds: Seq<Seed>, i: int) -> Pt {
    let p = boids[i].position@;
    plus(
        plus(
            plus(wall_term(c, p), hunger_sum(c, p, seeds, seeds.len())),
            neighbor_sum(c, compass, boids, i, boids.len()),
        ),
        cohesion(c, boids, i),
    )
}

/// The force kept: only one longer than the threshold.
pub open spec fn gated(c: Config, f: Pt) -> Option<Pt> {
    if len2(f) > c.force_threshold * c.force_threshold {
        Some(f)
    } else {
        None
    }
}

fn wall_term_exec(c: &Config, p: Vec2) -> (r: WideVec)
    requires
        c.wf(),
        bounded(p@, COORD_LIMIT as int),
    ensures
        r@ == wall_term(*c, p@),
        bounded(r@, 0x4000_0000),
{
    let q = WideVec::from_vec(p);
    let inner = (c.pond_radius - c.wall_distance) as i128;
    proof {
        lemma_mul_abs(q.x as int, COORD_LIMIT as int, q.x as int, COORD_LIMIT as int);
        lemma_mul_abs(q.y as int, COORD_LIMIT as int, q.y as int, COORD_LIMIT as int);
        lemma_mul_abs(inner as int, COORD_LIMIT as int, inner as int, COORD_LIMIT as int);
    }
    if q.x * q.x + q.y * q.y > inner * inner {
        let k = c.wall_push as i128;
        proof {
            lemma_mul_abs(-k, 64, q.x as int, COORD_LIMIT as int);
            lemma_mul_abs(-k, 64, q.y as int, COORD_LIMIT as int);
        }
        WideVec { x: -k * q.x, y: -k * q.y }
    } else {
        WideVec { x: 0, y: 0 }
    }
}

fn seed_pull_exec(c: &Config, p: Vec2, s: Vec2) -> (r: WideVec)
    requires
        c.wf(),
        bounded(p@, COORD_LIMIT as int),
        bounded(s@, COORD_LIMIT as int),
    ensures
        r@ == seed_pull(*c, p@, s@),
        bounded(r@, COORD_LIMIT as int),
{
    let d = WideVec { x: s.x as i128 - p.x as i128, y: s.y as i128 - p.y as i128 };
    let h = c.hunger_range as i128;
    proof {
        lemma_mul_abs(d.x as int, 0x200_0000, d.x as int, 0x200_0000);
        lemma_mul_abs(d.y as int, 0x200_0000, d.y as int, 0x200_0000);
        lemma_mul_abs(h as int, COORD_LIMIT as int, h as int, COORD_LIMIT as int);
    }
    if d.x * d.x + d.y * d.y < h * h {
        resize(d, c.hunger_pull as i128)
    } else {
        WideVec { x: 0, y: 0 }
    }
}

fn push_away_exec(d: WideVec, r: i64) -> (t: WideVec)
    requires
        bounded(d@, 0x200_0000),
        0 <= r <= COORD_LIMIT,
    ensures
        t@ == push_away(d@, r as int),
        bounded(t@, 0x300_0000),
{
    let s = resize(d, r as i128);
    WideVec { x: d.x - s.x, y: d.y - s.y }
}

fn along_exec(dir: Vec2, k: i64) -> (t: WideVec)
    requires
        bounded(dir@, UNIT as int),
        0 <= k <= COORD_LIMIT,
    ensures
        t@ == along(dir@, k as int),
        bounded(t@, k as int),
{
    proof {
        lemma_mul_abs(dir.x as int, UNIT as int, k as int, COORD_LIMIT as int);
        lemma_mul_abs(dir.y as int, UNIT as int, k as int, COORD_LIMIT as int);
        lemma_scaled_coord(dir.x as int, k as int, UNIT as int);
        lemma_scaled_coord(dir.y as int, k as int, UNIT as int);
    }
    let x = div_toward_zero(dir.x as i128 * k as i128, UNIT as i128);
    let y = div_toward_zero(dir.y as i128 * k as i128, UNIT as i128);
    WideVec { x, y }
}

fn neighbor_term_exec(c: &Config, compass: &Vec<Vec2>, me: Boid, other: Boid) -> (t: WideVec)
    requires
        c.wf(),
        compass_wf(compass@),
        boid_wf(me, compass@.len() as int),
        boid_wf(other, compass@.len() as int),
    ensures
        t@ == neighbor_term(*c, compass@, me, other),
        bounded(t@, 0x800_0000),
{
    let d = WideVec {
        x: other.position.x as i128 - me.position.x as i128,
        y: other.position.y as i128 - me.position.y as i128,
    };
    let mine = compass[me.heading];
    let theirs = compass[other.heading];
    proof {
        assert(bounded(compass@[me.heading as int]@, UNIT as int));
        assert(bounded(compass@[other.heading as int]@, UNIT as int));
        lemma_mul_abs(d.x as int, 0x200_0000, d.x as int, 0x200_0000);
        lemma_mul_abs(d.y as int, 0x200_0000, d.y as int, 0x200_0000);
        lemma_mul_abs(c.separation_radius as int, COORD_LIMIT as int, c.separation_radius as int, COORD_LIMIT as int);
        lemma_mul_abs(c.align_radius as int, COORD_LIMIT as int, c.align_radius as int, COORD_LIMIT as int);
        lemma_mul_abs(c.sight_range as int, COORD_LIMIT as int, c.sight_range as int, COORD_LIMIT as int);
    }
    let l2 = d.x * d.x + d.y * d.y;
    let rs = c.separation_radius as i128;
    let sep = if l2 < rs * rs {
        push_away_exec(d, c.separation_radius)
    } else {
        WideVec { x: 0, y: 0 }
    };
    let ra = c.align_radius as i128;
    let align = if l2 < ra * ra && within_right_angle_exec(WideVec::from_vec(theirs), WideVec::from_vec(mine)) {
        along_exec(theirs, c.align_pull)
    } else {
        WideVec { x: 0, y: 0 }
    };
    let rv = c.sight_range as i128;
    let sight = if !exceeds_angle(d, WideVec::from_vec(mine), c.sight_cos) && l2 < rv * rv {
        push_away_exec(d, c.sight_range)
    } else {
        WideVec { x: 0, y: 0 }
    };
    sep.plus(align).plus(sight)
}

/// The net force on boid `i` of the flock (see [`net_force`]).
pub fn boid_net_force(flock: &Flock, i: usize) -> (f: WideVec)
    requires
        flock.wf(),
        i < flock.boids@.len(),
    ensures
        f@ == net_force(flock.config, flock.compass@, flock.boids@, flock.seeds@, i as int),
        bounded(f@, ACCUMULATED_FORCE_LIMIT as int),
{
    let c = &flock.config;
    let me = flock.boids[i];
    let p = me.position;
    proof {
        assert(boid_wf(flock.boids@[i as int], flock.compass@.len() as int));
    }
    let wall = wall_term_exec(c, p);

    let mut hunger = WideVec { x: 0, y: 0 };
    let mut k: usize = 0;
    while k < flock.seeds.len()
        invariant
            flock.wf(),
            c.wf(),
            *c == flock.config,
            bounded(p@, COORD_LIMIT as int),
            p == flock.boids@[i as int].position,
            k <= flock.seeds@.len(),
            hunger@ == hunger_sum(*c, p@, flock.seeds@, k as nat),
            bounded(hunger@, k * COORD_LIMIT),
        decreases flock.seeds@.len() - k,
    {
        proof {
            assert(bounded(flock.seeds@[k as int].position@, COORD_LIMIT as int));
        }
        let pull = seed_pull_exec(c, p, flock.seeds[k].position);
        hunger = hunger.plus(pull);
        k = k + 1;
    }

    let mut neighbors = WideVec { x: 0, y: 0 };
    let mut near: Vec2 = c.far_point;
    let mut j: usize = 0;
    while j < flock.boids.len()
        invariant
            flock.wf(),
            c.wf(),
            *c == flock.config,
            i < flock.boids@.len(),
            me == flock.boids@[i as int],
            p == me.position,
            boid_wf(me, flock.compass@.len() as int),
            j <= flock.boids@.len(),
            neighbors@ == neighbor_sum(*c, flock.compass@, flock.boids@, i as int, j as nat),
            bounded(neighbors@, j * 0x800_0000),
            near@ == closest(*c, flock.boids@, i as int, j as nat),
            bounded(near@, COORD_LIMIT as int),
        decreases flock.boids@.len() - j,
    {
        let other = flock.boids[j];
        proof {
            assert(boid_wf(flock.boids@[j as int], flock.compass@.len() as int));
        }
        if j != i {
            let t = neighbor_term_exec(c, &flock.compass, me, other);
            neighbors = neighbors.plus(t);
            let dx = other.position.x as i128 - p.x as i128;
            let dy = other.position.y as i128 - p.y as i128;
            let ex = near.x as i128 - p.x as i128;
            let ey = near.y as i128 - p.y as i128;
            proof {
                lemma_mul_abs(dx as int, 0x200_0000, dx as int, 0x200_0000);
                lemma_mul_abs(dy as int, 0x200_0000, dy as int, 0x200_0000);
                lemma_mul_abs(ex as int, 0x200_0000, ex as int, 0x200_0000);
                lemma_mul_abs(ey as int, 0x200_0000, ey as int, 0x200_0000);
            }
            if dx * dx + dy * dy < ex * ex + ey * ey {
                near = other.position;
            }
        }
        j = j + 1;
    }

    let ex = near.x as i128 - p.x as i128;
    let ey = near.y as i128 - p.y as i128;
    let k2 = c.cohesion_pull as i128;
    proof {
        lemma_mul_abs(k2 as int, 64, ex as int, 0x200_0000);
        lemma_mul_abs(k2 as int, 64, ey as int, 0x200_0000);
    }
    let pull = WideVec { x: k2 * ex, y: k2 * ey };
    wall.plus(hunger).plus(neighbors).plus(pull)
}

/// The force that a boid keeps after accumulation: `Some` exactly when it is
/// longer than the configured threshold.
pub fn gate_force(c: &Config, f: WideVec) -> (r: Option<Force>)
    requires
        c.wf(),
        bounded(f@, 0x4000_0000_0000_0000),
    ensures
        match r {
            Some(g) => gated(*c, f@) == Some(g.0@),
            None => gated(*c, f@).is_none(),
        },
{
    proof {
        lemma_mul_abs(f.x as int, 0x4000_0000_0000_0000, f.x as int, 0x4000_0000_0000_0000);
        lemma_mul_abs(f.y as int, 0x4000_0000_0000_0000, f.y as int, 0x4000_0000_0000_0000);
    }
    let t = c.force_threshold as i128;
    proof {
        lemma_mul_abs(t as int, COORD_LIMIT as int, t as int, COORD_LIMIT as int);
    }
    if f.x * f.x + f.y * f.y > t * t {
        Some(Force(f))
    } else {
        None
    }
}

/// The boid keeps its position and heading.
pub open spec fn same_place(a: Boid, b: Boid) -> bool {
    a.position == b.position && a.heading == b.heading
}

/// Force accumulation took the flock `before` to `after` (see [`boid_force_calc`]).
pub open spec fn forces_accumulated(before: Flock, after: Flock) -> bool {
    &&& after.config == before.config
    &&& after.compass@ == before.compass@
    &&& after.seeds@ == before.seeds@
    &&& after.seed_timer == before.seed_timer
    &&& after.boids@.len() == before.boids@.len()
    &&& forall|k: int| 0 <= k < before.boids@.len() ==> {
        &&& same_place(#[trigger] after.boids@[k], before.boids@[k])
        &&& force_of(after.boids@[k]) == gated(
            before.config,
            net_force(before.config, before.compass@, before.boids@, before.seeds@, k),
        )
    }
    &&& forces_within(after.boids@, ACCUMULATED_FORCE_LIMIT as int)
}

/// Force accumulation: every boid gets the force that [`net_force`] gives it on
/// the flock as it stood, kept only where it is longer than the threshold.
pub fn boid_force_calc(flock: &mut Flock)
    requires
        old(flock).wf(),
    ensures
        final(flock).wf(),
        forces_accumulated(*old(flock), *final(flock)),
{
    let mut kept: Vec<Option<Force>> = Vec::new();
    let mut i: usize = 0;
    while i < flock.boids.len()
        invariant
            flock.wf(),
            i <= flock.boids@.len(),
            kept@.len() == i,
            forall|k: int| 0 <= k < i ==> {
                &&& (match #[trigger] kept@[k] {
                    Some(g) => gated(flock.config, net_force(flock.config, flock.compass@, flock.boids@, flock.seeds@, k)) == Some(g.0@),
                    None => gated(flock.config, net_force(flock.config, flock.compass@, flock.boids@, flock.seeds@, k)).is_none(),
                })
                &&& (kept@[k].is_some() ==> bounded(kept@[k].unwrap().0@, ACCUMULATED_FORCE_LIMIT as int))
            },
        decreases flock.boids@.len() - i,
    {
        let f = boid_net_force(flock, i);
        let g = gate_force(&flock.config, f);
        kept.push(g);
        i = i + 1;
    }
    let ghost before = *flock;
    let mut i: usize = 0;
    while i < flock.boids.len()
        invariant
            before.wf(),
            flock.config == before.config,
            flock.compass@ == before.compass@,
            flock.seeds@ == before.seeds@,
            flock.seed_timer == before.seed_timer,
            flock.boids@.len() == before.boids@.len(),
            kept@.len() == before.boids@.len(),
            i <= flock.boids@.len(),
            forall|k: int| 0 <= k < before.boids@.len() ==> {
                &&& (match #[trigger] kept@[k] {
                    Some(g) => gated(before.config, net_force(before.config, before.compass@, before.boids@, before.seeds@, k)) == Some(g.0@),
                    None => gated(before.config, net_force(before.config, before.compass@, before.boids@, before.seeds@, k)).is_none(),
                })
                &&& (kept@[k].is_some() ==> bounded(kept@[k].unwrap().0@, ACCUMULATED_FORCE_LIMIT as int))
            },
            forall|k: int| 0 <= k < before.boids@.len() ==> same_place(#[trigger] flock.boids@[k], before.boids@[k]),
            forall|k: int| 0 <= k < i ==> (#[trigger] flock.boids@[k]).force == kept@[k],
            forall|k: int| i <= k < before.boids@.len() ==> (#[trigger] flock.boids@[k]) == before.boids@[k],
        decreases before.boids@.len() - i,
    {
        let mut b = flock.boids[i];
        b.force = kept[i];
        flock.boids.set(i, b);
        i = i + 1;
    }
    proof {
        assert forall|k: int| 0 <= k < flock.boids@.len() implies boid_wf(#[trigger] flock.boids@[k], flock.compass@.len() as int) by {
            assert(same_place(flock.boids@[k], before.boids@[k]));
            assert(boid_wf(before.boids@[k], before.compass@.len() as int));
        }
        assert forall|k: int| 0 <= k < flock.boids@.len() implies force_of(#[trigger] flock.boids@[k]) == gated(
                before.config,
                net_force(before.config, before.compass@, before.boids@, before.seeds@, k),
            ) by {
            assert(flock.boids@[k].force == kept@[k]);
        }
    }
}

} // verus!
