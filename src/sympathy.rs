//! Sympathy propagation: a boid that carries a force passes it on, amplified,
//! to the force-carrying boids in a band of middle distance around it.
use vstd::prelude::*;
use crate::geometry::{Pt, WideVec, bounded, zero, plus, diff, times, len2, lemma_mul_abs, COORD_LIMIT};
use crate::flock::{
    Config, Boid, Force, Flock, force_of, forces_within, boid_wf, ACCUMULATED_FORCE_LIMIT,
    FORCE_LIMIT, MAX_BOIDS,
};
use crate::forces::same_place;

verus! {

/// `q` lies strictly between the separation radius and the alignment radius of `p`.
pub open spec fn in_band(c: Config, p: Pt, q: Pt) -> bool {
    let l = len2(diff(p, q));
    c.separation_radius * c.separation_radius < l && l < c.align_radius * c.align_radius
}

/// What boid `j` passes to boid `k`: its force times the gain, where both carry
/// a force and `k` lies in the band of `j`.
pub open spec fn passed(c: Config, boids: Seq<Boid>, j: int, k: int) -> Pt {
    if boids[j].force.is_some() && boids[k].force.is_some() && in_band(c, boids[j].position@, boids[k].position@) {
        times(c.sympathy_gain as int, boids[j].force.unwrap().0@)
    } else {
        zero()
    }
}

/// What the first `n` boids pass to boid `k`.
pub open spec fn sympathy_sum(c: Config, boids: Seq<Boid>, k: int, n: nat) -> Pt
    decreases n,
{
    if n == 0 {
        zero()
    } else {
        plus(sympathy_sum(c, boids, k, (n - 1) as nat), passed(c, boids, n - 1, k))
    }
}

/// The force of boid `k` after propagation: what it carried and all that was
/// passed to it; no force where it carried none.
pub open spec fn sympathized(c: Config, boids: Seq<Boid>, k: int) -> Option<Pt> {
    match force_of(boids[k]) {
        Some(f) => Some(plus(f, sympathy_sum(c, boids, k, boids.len()))),
        None => None,
    }
}

fn sympathy_extra(flock: &Flock, k: usize) -> (e: WideVec)
    requires
        flock.wf(),
        forces_within(flock.boids@, ACCUMULATED_FORCE_LIMIT as int),
        k < flock.boids@.len(),
    ensures
        e@ == sympathy_sum(flock.config, flock.boids@, k as int, flock.boids@.len()),
        bounded(e@, MAX_BOIDS * 0x8000_0000_0000),
{
    let c = &flock.config;
    let me = flock.boids[k];
    proof {
        assert(boid_wf(flock.boids@[k as int], flock.compass@.len() as int));
    }
    let rs = c.separation_radius as i128;
    let ra = c.align_radius as i128;
    proof {
        lemma_mul_abs(rs as int, COORD_LIMIT as int, rs as int, COORD_LIMIT as int);
        lemma_mul_abs(ra as int, COORD_LIMIT as int, ra as int, COORD_LIMIT as int);
    }
    let mut e = WideVec { x: 0, y: 0 };
    let mut j: usize = 0;
    while j < flock.boids.len()
        invariant
            flock.wf(),
            forces_within(flock.boids@, ACCUMULATED_FORCE_LIMIT as int),
            *c == flock.config,
            k < flock.boids@.len(),
            me == flock.boids@[k as int],
            boid_wf(me, flock.compass@.len() as int),
            rs == c.separation_radius,
            ra == c.align_radius,
            rs * rs <= COORD_LIMIT * COORD_LIMIT,
            ra * ra <= COORD_LIMIT * COORD_LIMIT,
            j <= flock.boids@.len(),
            e@ == sympathy_sum(*c, flock.boids@, k as int, j as nat),
            bounded(e@, j * 0x8000_0000_0000),
        decreases flock.boids@.len() - j,
    {
        let other = flock.boids[j];
        proof {
            assert(boid_wf(flock.boids@[j as int], flock.compass@.len() as int));
        }
        let dx = me.position.x as i128 - other.position.x as i128;
        let dy = me.position.y as i128 - other.position.y as i128;
        proof {
            lemma_mul_abs(dx as int, 0x200_0000, dx as int, 0x200_0000);
            lemma_mul_abs(dy as int, 0x200_0000, dy as int, 0x200_0000);
        }
        let l = dx * dx + dy * dy;
        match other.force {
            Some(f) => {
                if me.force.is_some() && rs * rs < l && l < ra * ra {
                    let g = c.sympathy_gain as i128;
                    proof {
                        assert(bounded(flock.boids@[j as int].force.unwrap().0@, ACCUMULATED_FORCE_LIMIT as int));
                        lemma_mul_abs(g as int, 64, f.0.x as int, ACCUMULATED_FORCE_LIMIT as int);
                        lemma_mul_abs(g as int, 64, f.0.y as int, ACCUMULATED_FORCE_LIMIT as int);
                    }
                    e = e.plus(WideVec { x: g * f.0.x, y: g * f.0.y });
                }
            },
            None => {},
        }
        j = j + 1;
    }
    e
}

/// Sympathy propagation took the flock `before` to `after` (see [`sympathy_force_calc`]).
pub open spec fn sympathy_applied(before: Flock, after: Flock) -> bool {
    &&& after.config == before.config
    &&& after.compass@ == before.compass@
    &&& after.seeds@ == before.seeds@
    &&& after.seed_timer == before.seed_timer
    &&& after.boids@.len() == before.boids@.len()
    &&& forall|k: int| 0 <= k < before.boids@.len() ==> {
        &&& same_place(#[trigger] after.boids@[k], before.boids@[k])
        &&& force_of(after.boids@[k]) == sympathized(before.config, before.boids@, k)
    }
    &&& forces_within(after.boids@, FORCE_LIMIT as int)
}

/// Sympathy propagation: each boid that carries a force gets, on top of it, all
/// that the force-carrying boids of the flock as it stood pass to it.
pub fn sympathy_force_calc(flock: &mut Flock)
    requires
        old(flock).wf(),
        forces_within(old(flock).boids@, ACCUMULATED_FORCE_LIMIT as int),
    ensures
        final(flock).wf(),
        sympathy_applied(*old(flock), *final(flock)),
{
    let mut extra: Vec<WideVec> = Vec::new();
    let mut i: usize = 0;
    while i < flock.boids.len()
        invariant
            flock.wf(),
            forces_within(flock.boids@, ACCUMULATED_FORCE_LIMIT as int),
            i <= flock.boids@.len(),
            extra@.len() == i,
            forall|k: int| 0 <= k < i ==> {
                &&& (#[trigger] extra@[k])@ == sympathy_sum(flock.config, flock.boids@, k, flock.boids@.len())
                &&& bounded(extra@[k]@, MAX_BOIDS * 0x8000_0000_0000)
            },
        decreases flock.boids@.len() - i,
    {
        let e = sympathy_extra(flock, i);
        extra.push(e);
        i = i + 1;
    }
    let ghost before = *flock;
    let mut i: usize = 0;
    while i < flock.boids.len()
        invariant
            before.wf(),
            forces_within(before.boids@, ACCUMULATED_FORCE_LIMIT as int),
            flock.config == before.config,
            flock.compass@ == before.compass@,
            flock.seeds@ == before.seeds@,
            flock.seed_timer == before.seed_timer,
            flock.boids@.len() == before.boids@.len(),
            extra@.len() == before.boids@.len(),
            i <= flock.boids@.len(),
            forall|k: int| 0 <= k < before.boids@.len() ==> {
                &&& (#[trigger] extra@[k])@ == sympathy_sum(before.config, before.boids@, k, before.boids@.len())
                &&& bounded(extra@[k]@, MAX_BOIDS * 0x8000_0000_0000)
            },
            forall|k: int| 0 <= k < before.boids@.len() ==> same_place(#[trigger] flock.boids@[k], before.boids@[k]),
            forall|k: int| 0 <= k < i ==> {
                &&& force_of(#[trigger] flock.boids@[k]) == sympathized(before.config, before.boids@, k)
                &&& (flock.boids@[k].force.is_some() ==> bounded(flock.boids@[k].force.unwrap().0@, FORCE_LIMIT as int))
            },
            forall|k: int| i <= k < before.boids@.len() ==> (#[trigger] flock.boids@[k]) == before.boids@[k],
        decreases before.boids@.len() - i,
    {
        let mut b = flock.boids[i];
        match b.force {
            Some(f) => {
                proof {
                    assert(bounded(before.boids@[i as int].force.unwrap().0@, ACCUMULATED_FORCE_LIMIT as int));
                }
                b.force = Some(Force(f.0.plus(extra[i])));
            },
            None => {},
        }
        flock.boids.set(i, b);
        i = i + 1;
    }
    proof {
        assert forall|k: int| 0 <= k < flock.boids@.len() implies boid_wf(#[trigger] flock.boids@[k], flock.compass@.len() as int) by {
            assert(same_place(flock.boids@[k], before.boids@[k]));
            assert(boid_wf(before.boids@[k], before.compass@.len() as int));
        }
        assert forall|k: int| 0 <= k < flock.boids@.len() && (#[trigger] flock.boids@[k]).force.is_some()
            implies bounded(flock.boids@[k].force.unwrap().0@, FORCE_LIMIT as int) by {
            assert(force_of(flock.boids@[k]) == sympathized(before.config, before.boids@, k));
        }
    }
}

} // verus!
