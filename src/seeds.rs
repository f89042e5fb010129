//! The seed lifecycle: seeds drop on a repeating clock at a random place of the
//! pond, and a seed is eaten as soon as a boid comes close enough.
use vstd::prelude::*;
use rand::Rng;
use crate::geometry::{Pt, Vec2, bounded, diff, len2, lemma_mul_abs, lemma_scaled_coord, div_toward_zero, COORD_LIMIT, UNIT};
use crate::flock::{Config, Boid, Seed, SeedTimer, Flock, boid_wf, MAX_SEEDS};
use crate::forces::along;

verus! {

/// Relies on rand's `Rng::gen_range` on the thread's generator: a value drawn
/// from `0..bound`; the call panics on an empty range.
#[verifier::external_body]
fn random_below(bound: u64) -> (r: u64)
    requires
        0 < bound,
    ensures
        r < bound,
{
    rand::thread_rng().gen_range(0..bound)
}

impl SeedTimer {
    pub open spec fn new_spec(period: u64) -> SeedTimer {
        SeedTimer { period, elapsed: 0 }
    }

    /// A clock that ends a period every `period` microseconds, starting now.
    pub fn new(period: u64) -> (t: SeedTimer)
        requires
            0 < period,
        ensures
            t.wf(),
            t == SeedTimer::new_spec(period),
    {
        SeedTimer { period, elapsed: 0 }
    }

    /// Advances the clock by `dt` microseconds. Returns whether a period ended;
    /// the clock then restarts with what is left over.
    pub fn tick(&mut self, dt: u64) -> (finished: bool)
        requires
            old(self).wf(),
        ensures
            final(self).wf(),
            final(self).period == old(self).period,
            finished == (old(self).elapsed + dt >= old(self).period),
            final(self).elapsed == (old(self).elapsed + dt) % (old(self).period as int),
    {
        let total: u128 = self.elapsed as u128 + dt as u128;
        let finished = total >= self.period as u128;
        self.elapsed = (total % self.period as u128) as u64;
        finished
    }
}

/// Where a seed dropped along compass direction `dir` at distance `r` lands.
pub open spec fn drop_point(dir: Pt, r: int) -> Pt {
    along(dir, r)
}

/// The seed clock and drop for `dt` microseconds took the flock `before` to `after` (see [`drop_seeds`]).
pub open spec fn seeds_dropped(before: Flock, after: Flock, dt: u64) -> bool {
    &&& after.config == before.config
    &&& after.compass@ == before.compass@
    &&& after.boids@ == before.boids@
    &&& after.seed_timer.period == before.seed_timer.period
    &&& after.seed_timer.elapsed == (before.seed_timer.elapsed + dt) % (before.seed_timer.period as int)
    &&& ({
        let finished = before.seed_timer.elapsed + dt >= before.seed_timer.period;
        if finished && before.seeds@.len() < MAX_SEEDS {
            &&& after.seeds@.len() == before.seeds@.len() + 1
            &&& after.seeds@.drop_last() == before.seeds@
            &&& exists|a: int, r: int|
                0 <= a < before.compass@.len() && 0 <= r < before.config.drop_radius()
                && after.seeds@.last().position@ == #[trigger] drop_point(before.compass@[a]@, r)
        } else {
            after.seeds@ == before.seeds@
        }
    })
}

/// Seed clock and drop: the clock advances by `dt` microseconds; when a period
/// ends, one seed drops at a random compass direction and a random distance
/// below the pond radius less the wall distance. The distance is uniform, not
/// its square, so seeds fall more densely near the centre. A pond that already
/// holds the most seeds it can takes no more.
pub fn drop_seeds(flock: &mut Flock, dt: u64)
    requires
        old(flock).wf(),
    ensures
        final(flock).wf(),
        seeds_dropped(*old(flock), *final(flock), dt),
{
    let finished = flock.seed_timer.tick(dt);
    if finished && flock.seeds.len() < MAX_SEEDS {
        let n = flock.compass.len();
        let a = random_below(n as u64) as usize;
        let radius = flock.config.pond_radius - flock.config.wall_distance;
        let r = random_below(radius as u64) as i64;
        let dir = flock.compass[a];
        proof {
            assert(bounded(flock.compass@[a as int]@, UNIT as int));
            lemma_mul_abs(dir.x as int, UNIT as int, r as int, COORD_LIMIT as int);
            lemma_mul_abs(dir.y as int, UNIT as int, r as int, COORD_LIMIT as int);
            lemma_scaled_coord(dir.x as int, r as int, UNIT as int);
            lemma_scaled_coord(dir.y as int, r as int, UNIT as int);
        }
        let x = div_toward_zero(dir.x as i128 * r as i128, UNIT as i128);
        let y = div_toward_zero(dir.y as i128 * r as i128, UNIT as i128);
        let ghost before = flock.seeds@;
        flock.seeds.push(Seed { position: Vec2 { x: x as i64, y: y as i64 } });
        proof {
            assert(flock.seeds@.drop_last() =~= before);
            assert(flock.seeds@.last().position@ == drop_point(flock.compass@[a as int]@, r as int));
            assert forall|k: int| 0 <= k < flock.seeds@.len() implies bounded(#[trigger] flock.seeds@[k].position@, COORD_LIMIT as int) by {
                if k < before.len() {
                    assert(flock.seeds@[k] == before[k]);
                }
            }
        }
    }
}

/// Some boid lies strictly within eating range of the seed `s`.
pub open spec fn eaten(c: Config, boids: Seq<Boid>, s: Seed) -> bool {
    exists|k: int| 0 <= k < boids.len() && near_enough(c, #[trigger] boids[k], s)
}

/// Boid `b` lies strictly within eating range of the seed `s`.
pub open spec fn near_enough(c: Config, b: Boid, s: Seed) -> bool {
    len2(diff(s.position@, b.position@)) < c.eat_range * c.eat_range
}

/// The first `k` seeds, in order, less those that are eaten.
pub open spec fn uneaten(c: Config, boids: Seq<Boid>, seeds: Seq<Seed>, k: nat) -> Seq<Seed>
    decreases k,
{
    if k == 0 {
        Seq::empty()
    } else {
        let prev = uneaten(c, boids, seeds, (k - 1) as nat);
        if eaten(c, boids, seeds[k - 1]) {
            prev
        } else {
            prev.push(seeds[k - 1])
        }
    }
}

fn is_eaten(flock: &Flock, s: Seed) -> (r: bool)
    requires
        flock.wf(),
        bounded(s.position@, COORD_LIMIT as int),
    ensures
        r == eaten(flock.config, flock.boids@, s),
{
    let e = flock.config.eat_range as i128;
    proof {
        lemma_mul_abs(e as int, COORD_LIMIT as int, e as int, COORD_LIMIT as int);
    }
    let mut j: usize = 0;
    while j < flock.boids.len()
        invariant
            flock.wf(),
            bounded(s.position@, COORD_LIMIT as int),
            e == flock.config.eat_range,
            e * e <= COORD_LIMIT * COORD_LIMIT,
            j <= flock.boids@.len(),
            forall|k: int| 0 <= k < j ==> !near_enough(flock.config, #[trigger] flock.boids@[k], s),
        decreases flock.boids@.len() - j,
    {
        let b = flock.boids[j];
        proof {
            assert(boid_wf(flock.boids@[j as int], flock.compass@.len() as int));
        }
        let dx = b.position.x as i128 - s.position.x as i128;
        let dy = b.position.y as i128 - s.position.y as i128;
        proof {
            lemma_mul_abs(dx as int, 0x200_0000, dx as int, 0x200_0000);
            lemma_mul_abs(dy as int, 0x200_0000, dy as int, 0x200_0000);
        }
        if dx * dx + dy * dy < e * e {
            proof {
                assert(near_enough(flock.config, flock.boids@[j as int], s));
            }
            return true;
        }
        j = j + 1;
    }
    false
}

/// Seed eating took the flock `before` to `after` (see [`delete_seed`]).
pub open spec fn seeds_eaten(before: Flock, after: Flock) -> bool {
    &&& after.config == before.config
    &&& after.compass@ == before.compass@
    &&& after.boids@ == before.boids@
    &&& after.seed_timer == before.seed_timer
    &&& after.seeds@ == uneaten(before.config, before.boids@, before.seeds@, before.seeds@.len())
}

/// Seed eating: every seed that some boid lies strictly within eating range of
/// is removed, once, however many boids reach it; the other seeds stay, in order.
pub fn delete_seed(flock: &mut Flock)
    requires
        old(flock).wf(),
    ensures
        final(flock).wf(),
        seeds_eaten(*old(flock), *final(flock)),
{
    let mut kept: Vec<Seed> = Vec::new();
    let mut i: usize = 0;
    while i < flock.seeds.len()
        invariant
            flock.wf(),
            i <= flock.seeds@.len(),
            kept@ == uneaten(flock.config, flock.boids@, flock.seeds@, i as nat),
            kept@.len() <= i,
            forall|k: int| 0 <= k < kept@.len() ==> bounded(#[trigger] kept@[k].position@, COORD_LIMIT as int),
        decreases flock.seeds@.len() - i,
    {
        let s = flock.seeds[i];
        proof {
            assert(bounded(flock.seeds@[i as int].position@, COORD_LIMIT as int));
        }
        if !is_eaten(flock, s) {
            kept.push(s);
        }
        i = i + 1;
    }
    flock.seeds = kept;
}

} // verus!
