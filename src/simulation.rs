//! Building a flock and running whole ticks.
use vstd::prelude::*;
use crate::geometry::{Vec2, bounded, COORD_LIMIT};
use crate::flock::{
    Config, Boid, Seed, SeedTimer, Flock, compass_wf, boid_wf, no_forces, MAX_BOIDS, MAX_SEEDS,
};
use crate::forces::{boid_force_calc, forces_accumulated};
use crate::sympathy::{sympathy_force_calc, sympathy_applied};
use crate::motion::{turn_boid, move_boid, steered, swum};
use crate::seeds::{drop_seeds, delete_seed, seeds_dropped, seeds_eaten};

verus! {

/// A tick of `dt` microseconds took the flock `before` through the states `s1`
/// to `s5` to `after`, one stage at a time.
pub open spec fn ticked(
    before: Flock,
    s1: Flock,
    s2: Flock,
    s3: Flock,
    s4: Flock,
    s5: Flock,
    after: Flock,
    dt: u64,
) -> bool {
    &&& forces_accumulated(before, s1)
    &&& sympathy_applied(s1, s2)
    &&& steered(s2, s3, dt)
    &&& swum(s3, s4, dt)
    &&& seeds_dropped(s4, s5, dt)
    &&& seeds_eaten(s5, after)
}

impl Flock {
    /// An empty pond with the given configuration and compass; the seed clock
    /// starts now.
    pub fn new(config: Config, compass: Vec<Vec2>) -> (f: Flock)
        requires
            config.wf(),
            compass_wf(compass@),
        ensures
            f.wf(),
            f.config == config,
            f.compass@ == compass@,
            f.boids@.len() == 0,
            f.seeds@.len() == 0,
            f.seed_timer == SeedTimer::new_spec(config.seed_period),
    {
        Flock {
            config,
            compass,
            boids: Vec::new(),
            seeds: Vec::new(),
            seed_timer: SeedTimer::new(config.seed_period),
        }
    }

    /// Adds a boid at `position`, facing compass heading `heading`, without a force.
    pub fn add_boid(&mut self, position: Vec2, heading: usize)
        requires
            old(self).wf(),
            old(self).boids@.len() < MAX_BOIDS,
            bounded(position@, COORD_LIMIT as int),
            heading < old(self).compass@.len(),
        ensures
            final(self).wf(),
            final(self).config == old(self).config,
            final(self).compass@ == old(self).compass@,
            final(self).seeds@ == old(self).seeds@,
            final(self).seed_timer == old(self).seed_timer,
            final(self).boids@ == old(self).boids@.push(Boid { position, heading, force: None }),
    {
        let ghost before = self.boids@;
        self.boids.push(Boid { position, heading, force: None });
        proof {
            assert forall|k: int| 0 <= k < self.boids@.len() implies boid_wf(#[trigger] self.boids@[k], self.compass@.len() as int) by {
                if k < before.len() {
                    assert(self.boids@[k] == before[k]);
                }
            }
        }
    }

    /// Adds a seed at `position`.
    pub fn add_seed(&mut self, position: Vec2)
        requires
            old(self).wf(),
            old(self).seeds@.len() < MAX_SEEDS,
            bounded(position@, COORD_LIMIT as int),
        ensures
            final(self).wf(),
            final(self).config == old(self).config,
            final(self).compass@ == old(self).compass@,
            final(self).boids@ == old(self).boids@,
            final(self).seed_timer == old(self).seed_timer,
            final(self).seeds@ == old(self).seeds@.push(Seed { position }),
    {
        let ghost before = self.seeds@;
        self.seeds.push(Seed { position });
        proof {
            assert forall|k: int| 0 <= k < self.seeds@.len() implies bounded(#[trigger] self.seeds@[k].position@, COORD_LIMIT as int) by {
                if k < before.len() {
                    assert(self.seeds@[k] == before[k]);
                }
            }
        }
    }

    /// One tick of `dt` microseconds: force accumulation, sympathy propagation,
    /// steering, locomotion, then seed drop and seed eating. Between ticks no
    /// boid carries a force.
    pub fn tick(&mut self, dt: u64)
        requires
            old(self).wf(),
            no_forces(old(self).boids@),
        ensures
            final(self).wf(),
            no_forces(final(self).boids@),
            final(self).config == old(self).config,
            final(self).compass@ == old(self).compass@,
            final(self).boids@.len() == old(self).boids@.len(),
            exists|s1: Flock, s2: Flock, s3: Flock, s4: Flock, s5: Flock|
                #[trigger] ticked(*old(self), s1, s2, s3, s4, s5, *final(self), dt),
    {
        let ghost s0 = *self;
        boid_force_calc(self);
        let ghost s1 = *self;
        sympathy_force_calc(self);
        let ghost s2 = *self;
        turn_boid(self, dt);
        let ghost s3 = *self;
        move_boid(self, dt);
        let ghost s4 = *self;
        drop_seeds(self, dt);
        let ghost s5 = *self;
        delete_seed(self);
        assert(ticked(s0, s1, s2, s3, s4, s5, *self, dt));
    }
}

} // verus!
