//! Steering, which turns each force-carrying boid and clears its force, and
//! locomotion, which moves every boid along its heading.
use vstd::prelude::*;
use crate::geometry::{
    Pt, Vec2, WideVec, bounded, perp, resized, trunc_div, angle_exceeds, within_right_angle,
    resize, exceeds_angle, within_right_angle_exec, div_toward_zero, lemma_mul_abs,
    COORD_LIMIT, UNIT,
};
use crate::flock::{
    Config, Boid, Flock, boid_wf, forces_within, no_forces, FORCE_LIMIT, MAX_COMPASS,
    MICROS_PER_SECOND,
};
use crate::forces::heading_dir;

verus! {

/// Which way a boid turns.
#[derive(Clone, Copy, Debug, PartialEq, Eq, Structural)]
pub enum Steer {
    Straight,
    Left,
    Right,
}

/// The turn for a force `f` on a boid heading along `dir`: none inside the dead
/// zone; otherwise towards the left where the force is less than a right angle
/// from the boid's left side, else towards the right. The dead zone is judged on
/// the force resized to length [`UNIT`], so a force of any length can be judged.
pub open spec fn steer_of(c: Config, f: Pt, dir: Pt) -> Steer {
    if angle_exceeds(resized(f, UNIT as int), dir, c.dead_zone_cos as int) {
        if within_right_angle(f, perp(dir)) {
            Steer::Left
        } else {
            Steer::Right
        }
    } else {
        Steer::Straight
    }
}

/// The compass steps turned in `dt` microseconds, on a compass of `n` headings.
pub open spec fn turn_steps(c: Config, n: int, dt: int) -> int {
    (c.turn_rate * n * dt) / (UNIT * MICROS_PER_SECOND)
}

/// Heading `h` of a compass of `n` headings after the turn `s` of `steps` steps.
pub open spec fn turned(h: int, n: int, s: Steer, steps: int) -> int {
    match s {
        Steer::Straight => h,
        Steer::Left => (h + steps % n) % n,
        Steer::Right => (h + n - steps % n) % n,
    }
}

/// The heading of boid `b` after steering for `dt` microseconds.
pub open spec fn steered_heading(c: Config, compass: Seq<Vec2>, b: Boid, dt: int) -> int {
    match b.force {
        None => b.heading as int,
        Some(f) => turned(
            b.heading as int,
            compass.len() as int,
            steer_of(c, f.0@, heading_dir(compass, b.heading)),
            turn_steps(c, compass.len() as int, dt),
        ),
    }
}

/// `v` held inside the coordinate range.
pub open spec fn clamp(v: int) -> int {
    if v < -COORD_LIMIT {
        -COORD_LIMIT as int
    } else if v > COORD_LIMIT {
        COORD_LIMIT as int
    } else {
        v
    }
}

/// The offset travelled in `dt` microseconds at `speed` along `dir`.
pub open spec fn travel(dir: Pt, speed: int, dt: int) -> Pt {
    Pt {
        x: trunc_div(dir.x * speed * dt, UNIT * MICROS_PER_SECOND),
        y: trunc_div(dir.y * speed * dt, UNIT * MICROS_PER_SECOND),
    }
}

/// Where boid `b` is after swimming for `dt` microseconds; a boid never leaves
/// the coordinate range.
pub open spec fn moved(c: Config, compass: Seq<Vec2>, b: Boid, dt: int) -> Pt {
    let t = travel(heading_dir(compass, b.heading), c.speed as int, dt);
    Pt { x: clamp(b.position.x + t.x), y: clamp(b.position.y + t.y) }
}

/// The turn for the force `f` on a boid heading along `dir` (see [`steer_of`]).
pub fn steer(c: &Config, f: WideVec, dir: Vec2) -> (s: Steer)
    requires
        c.wf(),
        bounded(f@, FORCE_LIMIT as int),
        bounded(dir@, UNIT as int),
    ensures
        s == steer_of(*c, f@, dir@),
{
    let unit = resize(f, UNIT as i128);
    let d = WideVec::from_vec(dir);
    if exceeds_angle(unit, d, c.dead_zone_cos) {
        let left = WideVec { x: -d.y, y: d.x };
        if within_right_angle_exec(f, left) {
            Steer::Left
        } else {
            Steer::Right
        }
    } else {
        Steer::Straight
    }
}

/// Steering for `dt` microseconds took the flock `before` to `after` (see [`turn_boid`]).
pub open spec fn steered(before: Flock, after: Flock, dt: u64) -> bool {
    &&& after.config == before.config
    &&& after.compass@ == before.compass@
    &&& after.seeds@ == before.seeds@
    &&& after.seed_timer == before.seed_timer
    &&& after.boids@.len() == before.boids@.len()
    &&& forall|k: int| 0 <= k < before.boids@.len() ==> {
        &&& (#[trigger] after.boids@[k]).position == before.boids@[k].position
        &&& after.boids@[k].heading == steered_heading(
            before.config, before.compass@, before.boids@[k], dt as int)
    }
    &&& no_forces(after.boids@)
}

/// Steering: every boid that carries a force turns by the steps of this tick as
/// [`steer_of`] says, and no boid carries a force afterwards.
pub fn turn_boid(flock: &mut Flock, dt: u64)
    requires
        old(flock).wf(),
        forces_within(old(flock).boids@, FORCE_LIMIT as int),
    ensures
        final(flock).wf(),
        steered(*old(flock), *final(flock), dt),
{
    let n = flock.compass.len();
    let c = flock.config;
    proof {
        lemma_mul_abs(c.turn_rate as int, UNIT as int, n as int, MAX_COMPASS as int);
        lemma_mul_abs((c.turn_rate * n) as int, UNIT * MAX_COMPASS, dt as int, u64::MAX as int);
    }
    let den: u128 = 100_000_000_000;
    assert(den == UNIT * MICROS_PER_SECOND);
    let steps: usize = ((c.turn_rate as u128 * n as u128 * dt as u128) / den % n as u128) as usize;
    proof {
        assert(steps == turn_steps(c, n as int, dt as int) % (n as int));
    }
    let ghost before = *flock;
    let mut i: usize = 0;
    while i < flock.boids.len()
        invariant
            before.wf(),
            forces_within(before.boids@, FORCE_LIMIT as int),
            c == before.config,
            n == before.compass@.len(),
            steps == turn_steps(c, n as int, dt as int) % (n as int),
            flock.config == before.config,
            flock.compass@ == before.compass@,
            flock.seeds@ == before.seeds@,
            flock.seed_timer == before.seed_timer,
            flock.boids@.len() == before.boids@.len(),
            i <= flock.boids@.len(),
            forall|k: int| 0 <= k < i ==> {
                &&& (#[trigger] flock.boids@[k]).position == before.boids@[k].position
                &&& flock.boids@[k].heading == steered_heading(c, before.compass@, before.boids@[k], dt as int)
                &&& flock.boids@[k].force.is_none()
            },
            forall|k: int| i <= k < before.boids@.len() ==> (#[trigger] flock.boids@[k]) == before.boids@[k],
        decreases before.boids@.len() - i,
    {
        let mut b = flock.boids[i];
        proof {
            assert(boid_wf(before.boids@[i as int], n as int));
        }
        match b.force {
            Some(f) => {
                let dir = flock.compass[b.heading];
                proof {
                    assert(bounded(before.boids@[i as int].force.unwrap().0@, FORCE_LIMIT as int));
                    assert(bounded(before.compass@[b.heading as int]@, UNIT as int));
                }
                let s = steer(&c, f.0, dir);
                match s {
                    Steer::Straight => {},
                    Steer::Left => {
                        b.heading = (b.heading + steps) % n;
                    },
                    Steer::Right => {
                        b.heading = (b.heading + (n - steps)) % n;
                    },
                }
            },
            None => {},
        }
        b.force = None;
        flock.boids.set(i, b);
        i = i + 1;
    }
    proof {
        assert forall|k: int| 0 <= k < flock.boids@.len() implies boid_wf(#[trigger] flock.boids@[k], n as int) by {
            assert(boid_wf(before.boids@[k], n as int));
        }
    }
}

fn clamp_exec(v: i128) -> (r: i64)
    ensures
        r == clamp(v as int),
{
    if v < -(COORD_LIMIT as i128) {
        -COORD_LIMIT
    } else if v > COORD_LIMIT as i128 {
        COORD_LIMIT
    } else {
        v as i64
    }
}

/// Locomotion for `dt` microseconds took the flock `before` to `after` (see [`move_boid`]).
pub open spec fn swum(before: Flock, after: Flock, dt: u64) -> bool {
    &&& after.config == before.config
    &&& after.compass@ == before.compass@
    &&& after.seeds@ == before.seeds@
    &&& after.seed_timer == before.seed_timer
    &&& after.boids@.len() == before.boids@.len()
    &&& forall|k: int| 0 <= k < before.boids@.len() ==> {
        &&& (#[trigger] after.boids@[k]).position@ == moved(
            before.config, before.compass@, before.boids@[k], dt as int)
        &&& after.boids@[k].heading == before.boids@[k].heading
        &&& after.boids@[k].force == before.boids@[k].force
    }
}

/// Locomotion: every boid swims along its heading at the configured speed for
/// `dt` microseconds, held inside the coordinate range.
pub fn move_boid(flock: &mut Flock, dt: u64)
    requires
        old(flock).wf(),
    ensures
        final(flock).wf(),
        swum(*old(flock), *final(flock), dt),
{
    let ghost before = *flock;
    let c = flock.config;
    let den: i128 = UNIT as i128 * MICROS_PER_SECOND as i128;
    let mut i: usize = 0;
    while i < flock.boids.len()
        invariant
            before.wf(),
            c == before.config,
            den == UNIT * MICROS_PER_SECOND,
            flock.config == before.config,
            flock.compass@ == before.compass@,
            flock.seeds@ == before.seeds@,
            flock.seed_timer == before.seed_timer,
            flock.boids@.len() == before.boids@.len(),
            i <= flock.boids@.len(),
            forall|k: int| 0 <= k < i ==> {
                &&& (#[trigger] flock.boids@[k]).position@ == moved(c, before.compass@, before.boids@[k], dt as int)
                &&& flock.boids@[k].heading == before.boids@[k].heading
                &&& flock.boids@[k].force == before.boids@[k].force
            },
            forall|k: int| i <= k < before.boids@.len() ==> (#[trigger] flock.boids@[k]) == before.boids@[k],
        decreases before.boids@.len() - i,
    {
        let mut b = flock.boids[i];
        proof {
            assert(boid_wf(before.boids@[i as int], before.compass@.len() as int));
            assert(bounded(before.compass@[b.heading as int]@, UNIT as int));
        }
        let dir = flock.compass[b.heading];
        proof {
            lemma_mul_abs(dir.x as int, UNIT as int, c.speed as int, COORD_LIMIT as int);
            lemma_mul_abs(dir.y as int, UNIT as int, c.speed as int, COORD_LIMIT as int);
            lemma_mul_abs(dir.x * c.speed, UNIT * COORD_LIMIT, dt as int, u64::MAX as int);
            lemma_mul_abs(dir.y * c.speed, UNIT * COORD_LIMIT, dt as int, u64::MAX as int);
        }
        let tx = div_toward_zero(dir.x as i128 * c.speed as i128 * dt as i128, den);
        let ty = div_toward_zero(dir.y as i128 * c.speed as i128 * dt as i128, den);
        proof {
            assert(-(UNIT * COORD_LIMIT * u64::MAX) <= dir.x * c.speed * dt <= UNIT * COORD_LIMIT * u64::MAX);
            assert(-(UNIT * COORD_LIMIT * u64::MAX) <= tx <= UNIT * COORD_LIMIT * u64::MAX) by (nonlinear_arith)
                requires
                    -(UNIT * COORD_LIMIT * u64::MAX) <= dir.x * c.speed * dt <= UNIT * COORD_LIMIT * u64::MAX,
                    tx == trunc_div(dir.x * c.speed * dt, UNIT * MICROS_PER_SECOND),
            ;
            assert(-(UNIT * COORD_LIMIT * u64::MAX) <= ty <= UNIT * COORD_LIMIT * u64::MAX) by (nonlinear_arith)
                requires
                    -(UNIT * COORD_LIMIT * u64::MAX) <= dir.y * c.speed * dt <= UNIT * COORD_LIMIT * u64::MAX,
                    ty == trunc_div(dir.y * c.speed * dt, UNIT * MICROS_PER_SECOND),
            ;
        }
        b.position = Vec2 { x: clamp_exec(b.position.x as i128 + tx), y: clamp_exec(b.position.y as i128 + ty) };
        flock.boids.set(i, b);
        i = i + 1;
    }
    proof {
        assert forall|k: int| 0 <= k < flock.boids@.len() implies boid_wf(#[trigger] flock.boids@[k], flock.compass@.len() as int) by {
            assert(boid_wf(before.boids@[k], before.compass@.len() as int));
        }
    }
}

} // verus!
