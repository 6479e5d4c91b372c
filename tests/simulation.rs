use backend::force::{pair_force_exec, FMAX};
use backend::vector::{isqrt, tdiv_i64, clamp_i128};
use backend::{Frame, Lipid, Protein, Simulation, Vec3, CUTOFF, DT, JITTER, LAYER, LIMIT, SCALE, SPAN};

fn at_rest(x: i64, y: i64, z: i64) -> Lipid {
    Lipid { pos: Vec3::new(x, y, z), vel: Vec3::zeros(), force: Vec3::zeros() }
}

fn with_lipids(lipids: Vec<Lipid>) -> Simulation {
    Simulation { lipids, proteins: Vec::new(), dt: DT }
}

#[test]
fn new_seeds_two_layers_at_rest() {
    let sim = Simulation::new(200);
    assert_eq!(sim.lipids.len(), 200);
    for (i, l) in sim.lipids.iter().enumerate() {
        assert_eq!(l.vel, Vec3::zeros());
        assert_eq!(l.force, Vec3::zeros());
        assert!(-SPAN <= l.pos.x && l.pos.x < SPAN);
        assert!(-SPAN <= l.pos.y && l.pos.y < SPAN);
        let base = if i % 2 == 0 { LAYER } else { -LAYER };
        assert!(base - JITTER <= l.pos.z && l.pos.z < base + JITTER);
    }
    assert_eq!(sim.proteins.len(), 2);
    assert_eq!(sim.proteins[0], Protein { pos: Vec3::new(0, 0, 0), radius: 300_000 });
    assert_eq!(sim.proteins[1], Protein { pos: Vec3::new(SCALE, SCALE, 0), radius: 250_000 });
    assert_eq!(sim.dt, DT);
}

#[test]
fn new_draws_varied_positions() {
    let sim = Simulation::new(50);
    let first = sim.lipids[0].pos;
    assert!(sim.lipids.iter().any(|l| l.pos.x != first.x || l.pos.y != first.y));
    assert!(sim.lipids.iter().any(|l| l.pos.x != -SPAN));
}

#[test]
fn from_samples_places_by_parity() {
    let samples = vec![Vec3::new(1, 2, 3), Vec3::new(-4, 5, -6)];
    let sim = Simulation::from_samples(&samples);
    assert_eq!(sim.lipids[0], at_rest(1, 2, LAYER + 3));
    assert_eq!(sim.lipids[1], at_rest(-4, 5, -LAYER - 6));
}

#[test]
fn empty_population_steps_and_exports() {
    let mut sim = Simulation::new(0);
    sim.step();
    assert!(sim.export_positions().is_empty());
    let frame: Frame = sim.frame();
    assert!(frame.lipids.is_empty());
    assert_eq!(frame.proteins.len(), 2);
}

#[test]
fn close_pair_repels_with_exact_values() {
    let mut sim = with_lipids(vec![at_rest(0, 0, 0), at_rest(SCALE / 10, 0, 0)]);
    sim.step();
    let (a, b) = (sim.lipids[0], sim.lipids[1]);
    assert_eq!(a.force, Vec3::new(-80_000, 0, 0));
    assert_eq!(b.force, Vec3::new(80_000, 0, 0));
    assert!(a.vel.x < 0);
    assert_eq!(b.vel.x, -a.vel.x);
    assert_eq!(a.vel, Vec3::new(-800, 0, 0));
    assert_eq!(a.pos, Vec3::new(-8, 0, 0));
    assert_eq!(b.pos, Vec3::new(SCALE / 10 + 8, 0, 0));
}

#[test]
fn pair_at_cutoff_feels_nothing() {
    let mut sim = with_lipids(vec![at_rest(0, 0, 0), at_rest(CUTOFF, 0, 0)]);
    sim.step();
    assert_eq!(sim.lipids[0].force, Vec3::zeros());
    assert_eq!(sim.lipids[1].force, Vec3::zeros());
    assert_eq!(sim.lipids[0].pos, Vec3::new(0, 0, 0));
    assert_eq!(sim.lipids[1].pos, Vec3::new(CUTOFF, 0, 0));
}

#[test]
fn pair_beyond_cutoff_feels_nothing() {
    let mut sim = with_lipids(vec![at_rest(0, 0, 0), at_rest(300_000, 300_000, 300_000)]);
    sim.step();
    assert_eq!(sim.lipids[0].force, Vec3::zeros());
    assert_eq!(sim.lipids[1].force, Vec3::zeros());
}

#[test]
fn coincident_pair_is_skipped() {
    let mut sim = with_lipids(vec![at_rest(5, 5, 5), at_rest(5, 5, 5)]);
    sim.step();
    assert_eq!(sim.lipids[0].force, Vec3::zeros());
    assert_eq!(sim.lipids[1].force, Vec3::zeros());
}

#[test]
fn pair_forces_are_opposite_every_step() {
    let mut sim = with_lipids(vec![at_rest(0, 0, 0), at_rest(70_000, -30_000, 20_000)]);
    for _ in 0..20 {
        sim.step();
        let (a, b) = (sim.lipids[0].force, sim.lipids[1].force);
        assert_eq!(a, Vec3::new(-b.x, -b.y, -b.z));
    }
}

#[test]
fn pair_keeps_momentum() {
    let mut a = at_rest(0, 0, 0);
    a.vel = Vec3::new(1_000, -2_000, 500);
    let b = at_rest(120_000, 40_000, -10_000);
    let mut sim = with_lipids(vec![a, b]);
    let total = |s: &Simulation| {
        let (p, q) = (s.lipids[0].vel, s.lipids[1].vel);
        (p.x + q.x, p.y + q.y, p.z + q.z)
    };
    let before = total(&sim);
    for _ in 0..30 {
        sim.step();
        assert_eq!(total(&sim), before);
    }
}

#[test]
fn identical_states_give_identical_trajectories() {
    let seeded = Simulation::new(40);
    let mut a = with_lipids(seeded.lipids.clone());
    let mut b = with_lipids(seeded.lipids.clone());
    for _ in 0..25 {
        a.step();
        b.step();
        assert_eq!(a.lipids, b.lipids);
    }
}

#[test]
fn frame_matches_export() {
    let mut sim = Simulation::new(10);
    sim.step();
    let exported = sim.export_positions();
    let frame = sim.frame();
    assert_eq!(frame.lipids, exported);
    for (k, l) in sim.lipids.iter().enumerate() {
        assert_eq!(exported[k], [l.pos.x, l.pos.y, l.pos.z]);
    }
    assert_eq!(frame.proteins, vec![([0, 0, 0], 300_000), ([SCALE, SCALE, 0], 250_000)]);
}

#[test]
fn pair_force_at_quarter_distance() {
    let f = pair_force_exec(Vec3::new(250_000, 0, 0), Vec3::new(0, 0, 0));
    assert_eq!(f, Vec3::new(20_000, 0, 0));
    let g = pair_force_exec(Vec3::new(0, 0, 0), Vec3::new(30_000, 40_000, 0));
    assert_eq!(g, Vec3::new(-108_000, -144_000, 0));
}

#[test]
fn pair_force_is_bounded_near_floor() {
    let f = pair_force_exec(Vec3::new(11, 0, 0), Vec3::new(0, 0, 0));
    assert!(f.x > 0 && f.x <= FMAX);
    let g = pair_force_exec(Vec3::new(10, 0, 0), Vec3::new(0, 0, 0));
    assert_eq!(g, Vec3::zeros());
}

#[test]
fn integer_helpers() {
    assert_eq!(isqrt(0), 0);
    assert_eq!(isqrt(15), 3);
    assert_eq!(isqrt(16), 4);
    assert_eq!(isqrt(250_000_000_000), 500_000);
    assert_eq!(tdiv_i64(-7, 2), -3);
    assert_eq!(tdiv_i64(7, 2), 3);
    assert_eq!(clamp_i128(LIMIT as i128 + 5), LIMIT);
    assert_eq!(clamp_i128(-(LIMIT as i128) - 5), -LIMIT);
}

#[test]
fn positions_saturate_at_limit() {
    let mut l = at_rest(LIMIT, 0, 0);
    l.vel = Vec3::new(LIMIT, 0, 0);
    let mut sim = with_lipids(vec![l]);
    sim.step();
    assert_eq!(sim.lipids[0].pos.x, LIMIT);
    assert_eq!(sim.lipids[0].vel.x, LIMIT);
}

#[test]
fn population_forces_sum_to_zero() {
    let mut sim = Simulation::new(120);
    for _ in 0..3 {
        sim.step();
        let mut total = (0i64, 0i64, 0i64);
        for l in &sim.lipids {
            total.0 += l.force.x;
            total.1 += l.force.y;
            total.2 += l.force.z;
        }
        assert_eq!(total, (0, 0, 0));
        assert!(sim.lipids.iter().any(|l| l.force != Vec3::zeros()));
    }
}
