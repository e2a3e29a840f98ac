use nalgebra as na;
use neuroevo::eye::{FoodReading, FOV_ANGLE_BITS, FOV_RANGE_BITS, NEG_PI_BITS, PI_BITS, TAU_BITS, TWO_BITS};
use neuroevo::float_bits::{NEG_ONE_BITS, NEG_ZERO, ONE_BITS, POS_ZERO};
use neuroevo::sim::{
    HeadingTrig, Simulation, FOOD_RADIUS_SQ_BITS, MUT_CHANCE_BITS, MUT_COEFF_BITS,
    NEG_ROTATION_ACCEL_BITS, NEG_SPEED_ACCEL_BITS, ROTATION_ACCEL_BITS, SPEED_ACCEL_BITS,
    SPEED_MAX_BITS, SPEED_MIN_BITS,
};
use neuroevo::world::{Agent, SPEED_INIT_BITS};
use rand::rngs::StdRng;
use rand::{Rng, SeedableRng};
use std::f32::consts::{FRAC_PI_2, FRAC_PI_4, PI, TAU};

#[test]
fn constants_match_hardware_floats() {
    assert_eq!(POS_ZERO, 0.0f32.to_bits());
    assert_eq!(NEG_ZERO, (-0.0f32).to_bits());
    assert_eq!(ONE_BITS, 1.0f32.to_bits());
    assert_eq!(NEG_ONE_BITS, (-1.0f32).to_bits());
    assert_eq!(FOV_RANGE_BITS, 0.25f32.to_bits());
    assert_eq!(FOV_ANGLE_BITS, (PI + FRAC_PI_4).to_bits());
    assert_eq!(PI_BITS, PI.to_bits());
    assert_eq!(NEG_PI_BITS, (-PI).to_bits());
    assert_eq!(TAU_BITS, TAU.to_bits());
    assert_eq!(TWO_BITS, 2.0f32.to_bits());
    assert_eq!(SPEED_MIN_BITS, 0.0001f32.to_bits());
    assert_eq!(SPEED_MAX_BITS, 0.0005f32.to_bits());
    assert_eq!(SPEED_INIT_BITS, 0.0002f32.to_bits());
    assert_eq!(SPEED_ACCEL_BITS, 0.2f32.to_bits());
    assert_eq!(NEG_SPEED_ACCEL_BITS, (-0.2f32).to_bits());
    assert_eq!(ROTATION_ACCEL_BITS, FRAC_PI_2.to_bits());
    assert_eq!(NEG_ROTATION_ACCEL_BITS, (-FRAC_PI_2).to_bits());
    assert_eq!(FOOD_RADIUS_SQ_BITS, (0.01f32 * 0.01f32).to_bits());
    assert_eq!(MUT_CHANCE_BITS, 0.01f32.to_bits());
    assert_eq!(MUT_COEFF_BITS, 0.3f32.to_bits());
}

#[test]
fn agent_draws_match_the_generator() {
    let mut lib_rng = StdRng::seed_from_u64(5);
    let agent = Agent::random(&mut lib_rng);

    let mut raw_rng = StdRng::seed_from_u64(5);
    // The brain first: layers 9 -> 18 and 18 -> 2, each neuron drawing
    // its bias and then its weights from the inclusive unit range.
    for _ in 0..(18 * (1 + 9) + 2 * (1 + 18)) {
        let _: f32 = raw_rng.random_range(-1.0..=1.0);
    }
    // Then the body: the position's coordinates, then the heading from a
    // uniform full turn.
    let px: f32 = raw_rng.random();
    let py: f32 = raw_rng.random();
    let angle: f32 = raw_rng.sample(
        rand::distr::Uniform::new(0.0f32, std::f32::consts::TAU).unwrap(),
    );

    assert_eq!(agent.position().x, px.to_bits());
    assert_eq!(agent.position().y, py.to_bits());
    assert_eq!(agent.rotation(), angle.to_bits());
    assert_eq!(f32::from_bits(SPEED_INIT_BITS), 0.0002);
}

fn readings_for(sim: &Simulation) -> Vec<Vec<FoodReading>> {
    let world = sim.world();
    world
        .agents()
        .iter()
        .map(|agent| {
            let p = agent.position();
            let apos = na::Point2::new(f32::from_bits(p.x), f32::from_bits(p.y));
            world
                .inputs()
                .iter()
                .map(|food| {
                    let q = food.position();
                    let fpos = na::Point2::new(f32::from_bits(q.x), f32::from_bits(q.y));
                    let vec = fpos - apos;
                    let distance = vec.norm();
                    let angle = na::Rotation2::rotation_between(&na::Vector2::y(), &vec).angle();
                    FoodReading { distance: distance.to_bits(), angle: angle.to_bits() }
                })
                .collect()
        })
        .collect()
}

fn trigs_for(sim: &Simulation) -> Vec<HeadingTrig> {
    sim.world()
        .agents()
        .iter()
        .map(|agent| {
            let angle = f32::from_bits(agent.rotation());
            HeadingTrig { cos: angle.cos().to_bits(), sin: angle.sin().to_bits() }
        })
        .collect()
}

#[test]
fn fresh_world_has_the_configured_shape() {
    let mut rng = StdRng::seed_from_u64(42);
    let sim = Simulation::random(&mut rng);
    let world = sim.world();

    assert_eq!(world.agents().len(), 20);
    assert_eq!(world.inputs().len(), 40);
    for agent in world.agents().iter() {
        let x = f32::from_bits(agent.position().x);
        let y = f32::from_bits(agent.position().y);
        assert!((0.0..1.0).contains(&x));
        assert!((0.0..1.0).contains(&y));
        assert_eq!(agent.rotation() & 0x8000_0000, 0);
    }
    for food in world.inputs().iter() {
        let x = f32::from_bits(food.position().x);
        let y = f32::from_bits(food.position().y);
        assert!((0.0..1.0).contains(&x));
        assert!((0.0..1.0).contains(&y));
    }
}

#[test]
fn ticks_keep_the_world_sound() {
    let mut rng = StdRng::seed_from_u64(42);
    let mut sim = Simulation::random(&mut rng);

    for _ in 0..3 {
        let readings = readings_for(&sim);
        sim.process_brains(&readings);
        let trigs = trigs_for(&sim);
        sim.process_movements(&trigs);
        sim.process_collisions(&mut rng);
        sim.tick_epoch(&mut rng);
    }

    let world = sim.world();
    assert_eq!(world.agents().len(), 20);
    assert_eq!(world.inputs().len(), 40);
    let lo = f32::from_bits(SPEED_MIN_BITS);
    let hi = f32::from_bits(SPEED_MAX_BITS);
    for agent in world.agents().iter() {
        let x = f32::from_bits(agent.position().x);
        let y = f32::from_bits(agent.position().y);
        assert!((0.0..=1.0).contains(&x));
        assert!((0.0..=1.0).contains(&y));
        let rot = f32::from_bits(agent.rotation());
        assert!(rot.abs() <= std::f32::consts::PI);
        let speed = f32::from_bits(agent.speed);
        assert!((lo..=hi).contains(&speed));
    }
}

#[test]
fn generation_boundary_replaces_agents_and_keeps_food() {
    let mut rng = StdRng::seed_from_u64(9);
    let mut sim = Simulation::random(&mut rng);

    let foods_before: Vec<(u32, u32)> = sim
        .world()
        .inputs()
        .iter()
        .map(|f| (f.position().x, f.position().y))
        .collect();
    let rotations_before: Vec<u32> =
        sim.world().agents().iter().map(|a| a.rotation()).collect();

    // The generation counter alone drives the epoch; once it passes the
    // generation length the population is replaced.
    for _ in 0..2501 {
        sim.tick_epoch(&mut rng);
    }

    let world = sim.world();
    assert_eq!(world.agents().len(), 20);

    let foods_after: Vec<(u32, u32)> = world
        .inputs()
        .iter()
        .map(|f| (f.position().x, f.position().y))
        .collect();
    assert_eq!(foods_before, foods_after);

    for agent in world.agents().iter() {
        assert_eq!(agent.satiation, 0);
        assert_eq!(agent.speed, SPEED_INIT_BITS);
    }
    let rotations_after: Vec<u32> =
        world.agents().iter().map(|a| a.rotation()).collect();
    assert_ne!(rotations_before, rotations_after);
}
