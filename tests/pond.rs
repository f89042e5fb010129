use duck_pond::{
    boid_force_calc, boid_net_force, delete_seed, drop_seeds, gate_force, isqrt, move_boid, steer,
    sympathy_force_calc, turn_boid, Config, Flock, Force, Seed, SeedTimer, Steer, Vec2, WideVec,
    COORD_LIMIT, UNIT,
};

fn compass(n: usize) -> Vec<Vec2> {
    (0..n)
        .map(|k| {
            let a = 2.0 * std::f64::consts::PI * (k as f64) / (n as f64);
            Vec2 {
                x: (a.cos() * UNIT as f64).round() as i64,
                y: (a.sin() * UNIT as f64).round() as i64,
            }
        })
        .collect()
}

fn axes() -> Vec<Vec2> {
    vec![
        Vec2 { x: UNIT, y: 0 },
        Vec2 { x: 0, y: UNIT },
        Vec2 { x: -UNIT, y: 0 },
        Vec2 { x: 0, y: -UNIT },
    ]
}

/// A configuration in which only the rules a test sets take part.
fn quiet() -> Config {
    Config {
        wall_push: 0,
        hunger_pull: 0,
        separation_radius: 0,
        align_radius: 0,
        align_pull: 0,
        sight_range: 0,
        cohesion_pull: 0,
        ..Config::default()
    }
}

fn v(x: i64, y: i64) -> Vec2 {
    Vec2 { x, y }
}

fn w(x: i128, y: i128) -> WideVec {
    WideVec { x, y }
}

fn dist2(a: Vec2, b: Vec2) -> i128 {
    let dx = (a.x - b.x) as i128;
    let dy = (a.y - b.y) as i128;
    dx * dx + dy * dy
}

#[test]
fn integer_square_root() {
    assert_eq!(isqrt(0), 0);
    assert_eq!(isqrt(1), 1);
    assert_eq!(isqrt(15), 3);
    assert_eq!(isqrt(16), 4);
    assert_eq!(isqrt(17), 4);
    assert_eq!(isqrt(u128::MAX), u64::MAX as u128);
}

#[test]
fn two_boids_are_pushed_apart_by_separation() {
    let config = Config { separation_radius: 25_000, ..quiet() };
    let mut f = Flock::new(config, compass(3600));
    f.add_boid(v(0, 0), 0);
    f.add_boid(v(10_000, 0), 0);
    assert_eq!(boid_net_force(&f, 0), w(-15_000, 0));
    assert_eq!(boid_net_force(&f, 1), w(15_000, 0));
}

#[test]
fn separation_is_zero_at_its_radius() {
    let config = Config { separation_radius: 25_000, ..quiet() };
    let mut f = Flock::new(config, compass(3600));
    f.add_boid(v(0, 0), 0);
    f.add_boid(v(25_000, 0), 0);
    f.add_boid(v(-40_000, 0), 0);
    assert_eq!(boid_net_force(&f, 0), w(0, 0));
    let mut g = Flock::new(config, compass(3600));
    g.add_boid(v(0, 0), 0);
    g.add_boid(v(20_000, 0), 0);
    assert_eq!(boid_net_force(&g, 0), w(-5_000, 0));
}

#[test]
fn separation_in_any_direction_has_length_radius_less_distance() {
    let config = Config { separation_radius: 25_000, ..quiet() };
    let mut f = Flock::new(config, compass(3600));
    f.add_boid(v(0, 0), 0);
    f.add_boid(v(3_000, 4_000), 0);
    let push = boid_net_force(&f, 0);
    assert_eq!(push, w(-12_000, -16_000));
    assert_eq!(push.x * push.x + push.y * push.y, 20_000 * 20_000);
}

#[test]
fn two_boids_facing_away_separate_over_a_tick() {
    let mut f = Flock::new(Config::default(), compass(3600));
    f.add_boid(v(0, 0), 1800);
    f.add_boid(v(10_000, 0), 0);
    assert_eq!(boid_net_force(&f, 0), w(5_000, 0));
    assert_eq!(boid_net_force(&f, 1), w(-5_000, 0));
    let before = dist2(f.boids[0].position, f.boids[1].position);
    boid_force_calc(&mut f);
    sympathy_force_calc(&mut f);
    turn_boid(&mut f, 16_667);
    move_boid(&mut f, 16_667);
    assert_eq!(f.boids[0].heading, 1770);
    assert_eq!(f.boids[1].heading, 3570);
    let after = dist2(f.boids[0].position, f.boids[1].position);
    assert!(after > before);
}

#[test]
fn lone_boid_is_pulled_to_the_far_point() {
    let mut f = Flock::new(Config::default(), compass(3600));
    f.add_boid(v(0, 0), 0);
    assert_eq!(boid_net_force(&f, 0), w(20_000_000, 20_000_000));
    boid_force_calc(&mut f);
    assert_eq!(f.boids[0].force, Some(Force(w(20_000_000, 20_000_000))));
}

#[test]
fn alignment_needs_headings_less_than_a_right_angle_apart() {
    let config = Config { align_radius: 25_000, align_pull: 15_000, ..quiet() };
    let mut f = Flock::new(config, compass(3600));
    f.add_boid(v(0, 0), 0);
    f.add_boid(v(1_000, 0), 900);
    assert_eq!(boid_net_force(&f, 0), w(0, 0));
    let mut g = Flock::new(config, compass(3600));
    g.add_boid(v(0, 0), 0);
    g.add_boid(v(1_000, 0), 890);
    let d = g.compass[890];
    let expected = w(d.x as i128 * 15_000 / UNIT as i128, d.y as i128 * 15_000 / UNIT as i128);
    assert_eq!(boid_net_force(&g, 0), expected);
    assert!(expected.y > 14_990);
}

#[test]
fn sight_cone_boundary_follows_the_exceeds_rule() {
    let config = Config { sight_range: 10_000, sight_cos: 60_000, ..quiet() };
    let mut on = Flock::new(config, axes());
    on.add_boid(v(0, 0), 0);
    on.add_boid(v(3_000, 4_000), 0);
    // Exactly on the cone's edge the angle does not exceed the half-angle.
    assert_eq!(boid_net_force(&on, 0), w(-3_000, -4_000));
    let mut inside = Flock::new(config, axes());
    inside.add_boid(v(0, 0), 0);
    inside.add_boid(v(3_000, 3_999), 0);
    assert_ne!(boid_net_force(&inside, 0), w(0, 0));
    let mut outside = Flock::new(config, axes());
    outside.add_boid(v(0, 0), 0);
    outside.add_boid(v(3_000, 4_001), 0);
    assert_eq!(boid_net_force(&outside, 0), w(0, 0));
    let mut behind = Flock::new(config, axes());
    behind.add_boid(v(0, 0), 0);
    behind.add_boid(v(-3_000, 0), 0);
    assert_eq!(boid_net_force(&behind, 0), w(0, 0));
}

#[test]
fn force_gate_threshold() {
    let c = Config::default();
    assert_eq!(c.force_threshold, 100);
    assert_eq!(gate_force(&c, w(100, 0)), None);
    assert_eq!(gate_force(&c, w(60, -80)), None);
    assert_eq!(gate_force(&c, w(0, 0)), None);
    assert_eq!(gate_force(&c, w(100, 1)), Some(Force(w(100, 1))));
    assert_eq!(gate_force(&c, w(-101, 0)), Some(Force(w(-101, 0))));
}

#[test]
fn wall_and_seed_pulls() {
    let config = Config { wall_push: 15, ..quiet() };
    let mut f = Flock::new(config, compass(3600));
    f.add_boid(v(160_000, 0), 0);
    f.add_boid(v(0, -150_000), 0);
    assert_eq!(boid_net_force(&f, 0), w(-2_400_000, 0));
    assert_eq!(boid_net_force(&f, 1), w(0, 0));
    let config = Config { hunger_pull: 80_000, ..quiet() };
    let mut g = Flock::new(config, compass(3600));
    g.add_boid(v(0, 0), 0);
    g.add_seed(v(30_000, 40_000));
    g.add_seed(v(-10_000, 0));
    g.add_seed(v(80_000, 0));
    assert_eq!(boid_net_force(&g, 0), w(48_000 - 80_000, 64_000));
}

fn with_forces(config: Config, at: &[(i64, i64)], force: WideVec) -> Flock {
    let mut f = Flock::new(config, axes());
    for &(x, y) in at {
        f.add_boid(v(x, y), 0);
    }
    for b in f.boids.iter_mut() {
        b.force = Some(Force(force));
    }
    f
}

#[test]
fn sympathy_band_is_open_at_both_radii() {
    let config = Config { separation_radius: 25_000, align_radius: 30_000, sympathy_gain: 5, ..quiet() };
    let mut f = with_forces(config, &[(0, 0), (25_000, 0)], w(10, 0));
    sympathy_force_calc(&mut f);
    assert_eq!(f.boids[1].force, Some(Force(w(10, 0))));
    let mut g = with_forces(config, &[(0, 0), (30_000, 0)], w(10, 0));
    sympathy_force_calc(&mut g);
    assert_eq!(g.boids[1].force, Some(Force(w(10, 0))));
    let mut h = with_forces(config, &[(0, 0), (0, 27_000), (-27_000, 0)], w(10, 0));
    sympathy_force_calc(&mut h);
    assert_eq!(h.boids[0].force, Some(Force(w(110, 0))));
    assert_eq!(h.boids[1].force, Some(Force(w(60, 0))));
    assert_eq!(h.boids[2].force, Some(Force(w(60, 0))));
}

#[test]
fn sympathy_skips_boids_without_force() {
    let config = Config { separation_radius: 25_000, align_radius: 30_000, sympathy_gain: 5, ..quiet() };
    let mut f = with_forces(config, &[(0, 0), (27_000, 0)], w(10, 0));
    f.boids[1].force = None;
    sympathy_force_calc(&mut f);
    assert_eq!(f.boids[0].force, Some(Force(w(10, 0))));
    assert_eq!(f.boids[1].force, None);
}

#[test]
fn steering_dead_zone_boundary() {
    let c = Config { dead_zone_cos: 80_000, ..Config::default() };
    let ahead = v(UNIT, 0);
    assert_eq!(steer(&c, w(4_000, 3_000), ahead), Steer::Straight);
    assert_eq!(steer(&c, w(4_000, -3_000), ahead), Steer::Straight);
    assert_eq!(steer(&c, w(4_000, 3_001), ahead), Steer::Left);
    assert_eq!(steer(&c, w(4_000, -3_001), ahead), Steer::Right);
    assert_eq!(steer(&c, w(-1_000, 0), ahead), Steer::Right);
}

#[test]
fn steering_dead_zone_with_default_config() {
    let c = Config::default();
    let ahead = v(UNIT, 0);
    let at = |deg: f64| {
        let a = deg.to_radians();
        w((a.cos() * 1e6) as i128, (a.sin() * 1e6) as i128)
    };
    assert_eq!(steer(&c, at(9.9), ahead), Steer::Straight);
    assert_eq!(steer(&c, at(-9.9), ahead), Steer::Straight);
    assert_eq!(steer(&c, at(10.1), ahead), Steer::Left);
    assert_eq!(steer(&c, at(-10.1), ahead), Steer::Right);
}

#[test]
fn steering_clears_every_force() {
    let mut f = Flock::new(Config::default(), compass(3600));
    f.add_boid(v(0, 0), 0);
    f.add_boid(v(50_000, 0), 900);
    f.add_boid(v(-50_000, 0), 0);
    f.boids[0].force = Some(Force(w(1_000, 0)));
    f.boids[1].force = Some(Force(w(1_000, 0)));
    turn_boid(&mut f, 1_000_000);
    assert!(f.boids.iter().all(|b| b.force.is_none()));
    assert_eq!(f.boids[0].heading, 0);
    assert_eq!(f.boids[1].heading, (900 + 3600 - 1800) % 3600);
    assert_eq!(f.boids[2].heading, 0);
}

#[test]
fn locomotion_moves_along_heading() {
    let mut f = Flock::new(Config::default(), axes());
    f.add_boid(v(0, 0), 0);
    f.add_boid(v(5, 7), 1);
    f.add_boid(v(COORD_LIMIT - 10, 0), 0);
    move_boid(&mut f, 1_000_000);
    assert_eq!(f.boids[0].position, v(20_000, 0));
    assert_eq!(f.boids[1].position, v(5, 20_007));
    assert_eq!(f.boids[2].position, v(COORD_LIMIT, 0));
    move_boid(&mut f, 500_000);
    assert_eq!(f.boids[0].position, v(30_000, 0));
}

#[test]
fn seed_timer_repeats() {
    let mut t = SeedTimer::new(5_000_000);
    assert!(!t.tick(4_000_000));
    assert_eq!(t.elapsed, 4_000_000);
    assert!(t.tick(2_000_000));
    assert_eq!(t.elapsed, 1_000_000);
    assert!(t.tick(14_000_000));
    assert_eq!(t.elapsed, 0);
}

#[test]
fn seeds_drop_inside_the_pond() {
    let mut f = Flock::new(Config::default(), compass(360));
    drop_seeds(&mut f, 4_999_999);
    assert!(f.seeds.is_empty());
    for _ in 0..200 {
        drop_seeds(&mut f, 5_000_000);
    }
    assert_eq!(f.seeds.len(), 200);
    let r = (Config::default().pond_radius - Config::default().wall_distance) as i128;
    assert!(f.seeds.iter().all(|s| dist2(s.position, v(0, 0)) < r * r));
    assert!(f.seeds.iter().any(|s| s.position != f.seeds[0].position));
}

#[test]
fn seed_is_eaten_once_by_three_boids() {
    let mut f = Flock::new(Config::default(), compass(3600));
    f.add_seed(v(0, 0));
    f.add_seed(v(100_000, 0));
    f.add_seed(v(0, 100_000));
    f.add_boid(v(1_000, 0), 0);
    f.add_boid(v(0, -2_000), 0);
    f.add_boid(v(-3_000, 3_000), 0);
    f.add_boid(v(100_000, 5_000), 0);
    delete_seed(&mut f);
    assert_eq!(f.seeds, vec![Seed { position: v(100_000, 0) }, Seed { position: v(0, 100_000) }]);
    delete_seed(&mut f);
    assert_eq!(f.seeds.len(), 2);
}

#[test]
fn whole_tick_keeps_no_force() {
    let mut f = Flock::new(Config::default(), compass(3600));
    for i in 0..50i64 {
        f.add_boid(v(i * 3_000 - 100_000, 0), ((i * 300 + 10) % 3600) as usize);
    }
    f.add_seed(v(-97_000, 1_000));
    for _ in 0..120 {
        f.tick(16_667);
        assert!(f.boids.iter().all(|b| b.force.is_none()));
    }
    assert!(f.seeds.is_empty());
    assert_eq!(f.boids.len(), 50);
}
