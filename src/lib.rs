//! A flock of ducks in a round pond, simulated on fixed-point integer geometry.
//!
//! Each tick runs, in order: force accumulation ([`boid_force_calc`]), sympathy
//! propagation ([`sympathy_force_calc`]), steering ([`turn_boid`]), locomotion
//! ([`move_boid`]) and the seed lifecycle ([`drop_seeds`], then [`delete_seed`]).
//! [`Flock::tick`] runs them all.

pub mod geometry;
pub mod flock;
pub mod forces;
pub mod sympathy;
pub mod motion;
pub mod seeds;
pub mod simulation;
pub mod laws;

pub use geometry::{Vec2, WideVec, UNIT, COORD_LIMIT, isqrt};
pub use flock::{Config, Force, Boid, Seed, SeedTimer, Flock, MAX_BOIDS, MAX_SEEDS, MAX_COMPASS};
pub use forces::{boid_net_force, gate_force, boid_force_calc};
pub use sympathy::sympathy_force_calc;
pub use motion::{Steer, steer, turn_boid, move_boid};
pub use seeds::{drop_seeds, delete_seed};
