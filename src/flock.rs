//! The simulation's state: its configuration, the boids, the seeds and the seed clock.
use vstd::prelude::*;
use crate::geometry::{Pt, Vec2, WideVec, bounded, COORD_LIMIT, UNIT};

verus! {

/// The most boids a flock may hold.
pub const MAX_BOIDS: usize = 4096;

/// The most seeds a pond may hold at once.
pub const MAX_SEEDS: usize = 65536;

/// The most directions a compass may hold.
pub const MAX_COMPASS: usize = 1_048_576;

/// The largest plain multiplier a configuration may use.
pub const FACTOR_LIMIT: i64 = 64;

/// The largest magnitude of a force coordinate right after force accumulation.
pub const ACCUMULATED_FORCE_LIMIT: i128 = 0x200_0000_0000;

/// The largest magnitude of a force coordinate that steering accepts.
pub const FORCE_LIMIT: i128 = 0x1000_0000_0000_0000;

/// Microseconds in a second.
pub const MICROS_PER_SECOND: u64 = 1_000_000;

/// The tunable constants of the simulation. Lengths are in the simulation's
/// length units, times in microseconds, cosines scaled by [`UNIT`].
#[derive(Clone, Copy, Debug)]
pub struct Config {
    /// Radius of the round pond, centred on the origin.
    pub pond_radius: i64,
    /// How far from the shore a boid starts to be pushed back.
    pub wall_distance: i64,
    /// The push back towards the centre, per unit of distance from it.
    pub wall_push: i64,
    /// How far a boid smells a seed.
    pub hunger_range: i64,
    /// Length of the pull towards each seed in range.
    pub hunger_pull: i64,
    /// Radius inside which boids push each other apart.
    pub separation_radius: i64,
    /// Radius inside which a boid aligns with similarly headed boids.
    pub align_radius: i64,
    /// Length of the pull along a neighbour's heading.
    pub align_pull: i64,
    /// Radius inside which a boid avoids the neighbours that it sees.
    pub sight_range: i64,
    /// Cosine of half the sight cone.
    pub sight_cos: i64,
    /// Multiplier of the pull towards the closest neighbour.
    pub cohesion_pull: i64,
    /// Where a boid believes its closest neighbour to be until it finds one
    /// closer: a lone boid is pulled towards this far point, hard.
    pub far_point: Vec2,
    /// A force no longer than this is dropped.
    pub force_threshold: i64,
    /// Multiplier of the force that a boid passes to boids in its sympathy band.
    pub sympathy_gain: i64,
    /// Cosine of the largest angle between force and heading that causes no turn.
    pub dead_zone_cos: i64,
    /// Turning speed, in full turns per second scaled by [`UNIT`].
    pub turn_rate: u64,
    /// Swimming speed, in length units per second.
    pub speed: i64,
    /// A seed this close to a boid is eaten.
    pub eat_range: i64,
    /// Time between two seed drops.
    pub seed_period: u64,
}

pub open spec fn is_length(v: i64) -> bool {
    0 <= v <= COORD_LIMIT
}

pub open spec fn is_factor(v: i64) -> bool {
    0 <= v <= FACTOR_LIMIT
}

pub open spec fn is_cos(v: i64) -> bool {
    0 <= v <= UNIT
}

impl Config {
    pub open spec fn wf(&self) -> bool {
        &&& is_length(self.pond_radius)
        &&& is_length(self.wall_distance)
        &&& self.wall_distance < self.pond_radius
        &&& is_factor(self.wall_push)
        &&& is_length(self.hunger_range)
        &&& is_length(self.hunger_pull)
        &&& is_length(self.separation_radius)
        &&& is_length(self.align_radius)
        &&& is_length(self.align_pull)
        &&& is_length(self.sight_range)
        &&& is_cos(self.sight_cos)
        &&& is_factor(self.cohesion_pull)
        &&& bounded(self.far_point@, COORD_LIMIT as int)
        &&& is_length(self.force_threshold)
        &&& is_factor(self.sympathy_gain)
        &&& is_cos(self.dead_zone_cos)
        &&& self.turn_rate <= UNIT
        &&& is_length(self.speed)
        &&& is_length(self.eat_range)
        &&& 0 < self.seed_period
    }

    /// The radius inside which seeds are dropped.
    pub open spec fn drop_radius(&self) -> int {
        self.pond_radius - self.wall_distance
    }
}

impl Config {
    /// The standard pond, with a thousand length units to its unit
    /// of length.
    pub open spec fn default_spec() -> Config {
        Config {
            pond_radius: 200_000,
            wall_distance: 50_000,
            wall_push: 15,
            hunger_range: 80_000,
            hunger_pull: 80_000,
            separation_radius: 25_000,
            align_radius: 25_000,
            align_pull: 15_000,
            sight_range: 20_000,
            sight_cos: 92_388,
            cohesion_pull: 2,
            far_point: Vec2 { x: 10_000_000, y: 10_000_000 },
            force_threshold: 100,
            sympathy_gain: 5,
            dead_zone_cos: 98_481,
            turn_rate: 50_000,
            speed: 20_000,
            eat_range: 5_000,
            seed_period: 5_000_000,
        }
    }
}

impl Default for Config {
    /// The pond of [`Config::default_spec`].
    fn default() -> (c: Config)
        ensures
            c.wf(),
            c == Config::default_spec(),
    {
        Config {
            pond_radius: 200_000,
            wall_distance: 50_000,
            wall_push: 15,
            hunger_range: 80_000,
            hunger_pull: 80_000,
            separation_radius: 25_000,
            align_radius: 25_000,
            align_pull: 15_000,
            sight_range: 20_000,
            sight_cos: 92_388,
            cohesion_pull: 2,
            far_point: Vec2 { x: 10_000_000, y: 10_000_000 },
            force_threshold: 100,
            sympathy_gain: 5,
            dead_zone_cos: 98_481,
            turn_rate: 50_000,
            speed: 20_000,
            eat_range: 5_000,
            seed_period: 5_000_000,
        }
    }
}

/// A force that a boid carries from force accumulation to steering.
#[derive(Clone, Copy, Debug, PartialEq, Eq, Structural)]
pub struct Force(pub WideVec);

/// A swimming agent: where it is, which way it faces, and the force it carries
/// within a tick.
#[derive(Clone, Copy, Debug, PartialEq, Eq, Structural)]
pub struct Boid {
    pub position: Vec2,
    /// Index of the boid's heading in the flock's compass.
    pub heading: usize,
    pub force: Option<Force>,
}

/// A seed floating in the pond.
#[derive(Clone, Copy, Debug, PartialEq, Eq, Structural)]
pub struct Seed {
    pub position: Vec2,
}

/// A repeating clock that tells when the next seed drops.
#[derive(Clone, Copy, Debug, PartialEq, Eq, Structural)]
pub struct SeedTimer {
    /// Time between two drops, in microseconds.
    pub period: u64,
    /// Time since the last drop, in microseconds.
    pub elapsed: u64,
}

impl SeedTimer {
    pub open spec fn wf(&self) -> bool {
        0 < self.period && self.elapsed < self.period
    }
}

/// The whole simulation: configuration, compass, boids, seeds and seed clock.
///
/// The compass is the table of headings: entry `k` is the direction of heading
/// `k`, a vector of length about [`UNIT`]; consecutive entries are equal turns
/// apart, counterclockwise.
#[derive(Debug)]
pub struct Flock {
    pub config: Config,
    pub compass: Vec<Vec2>,
    pub boids: Vec<Boid>,
    pub seeds: Vec<Seed>,
    pub seed_timer: SeedTimer,
}

/// The force a boid carries, as a mathematical vector.
pub open spec fn force_of(b: Boid) -> Option<Pt> {
    match b.force {
        Some(f) => Some(f.0@),
        None => None,
    }
}

pub open spec fn compass_wf(compass: Seq<Vec2>) -> bool {
    &&& 0 < compass.len() <= MAX_COMPASS
    &&& forall|k: int| 0 <= k < compass.len() ==> bounded(#[trigger] compass[k]@, UNIT as int)
}

pub open spec fn boid_wf(b: Boid, compass_len: int) -> bool {
    &&& bounded(b.position@, COORD_LIMIT as int)
    &&& b.heading < compass_len
}

pub open spec fn boids_wf(boids: Seq<Boid>, compass_len: int) -> bool {
    &&& boids.len() <= MAX_BOIDS
    &&& forall|k: int| 0 <= k < boids.len() ==> boid_wf(#[trigger] boids[k], compass_len)
}

pub open spec fn seeds_wf(seeds: Seq<Seed>) -> bool {
    &&& seeds.len() <= MAX_SEEDS
    &&& forall|k: int| 0 <= k < seeds.len() ==> bounded(#[trigger] seeds[k].position@, COORD_LIMIT as int)
}

/// Every force carried by a boid is within `limit` in each coordinate.
pub open spec fn forces_within(boids: Seq<Boid>, limit: int) -> bool {
    forall|k: int| 0 <= k < boids.len() && (#[trigger] boids[k]).force.is_some()
        ==> bounded(boids[k].force.unwrap().0@, limit)
}

/// No boid carries a force: the state between two ticks.
pub open spec fn no_forces(boids: Seq<Boid>) -> bool {
    forall|k: int| 0 <= k < boids.len() ==> (#[trigger] boids[k]).force.is_none()
}

impl Flock {
    pub open spec fn wf(&self) -> bool {
        &&& self.config.wf()
        &&& compass_wf(self.compass@)
        &&& boids_wf(self.boids@, self.compass@.len() as int)
        &&& seeds_wf(self.seeds@)
        &&& self.seed_timer.wf()
    }
}

} // verus!
