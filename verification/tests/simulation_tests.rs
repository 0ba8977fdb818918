use simulation::brain::{chromosome_len, Brain, Topology};
use simulation::config::{Config, ConfigError};
use simulation::eye::Eye;
use simulation::fx::{ONE, TAU};
use simulation::rng::SimRng;
use simulation::sim::Simulation;
use simulation::world::Food;

fn small_config(population: usize, food_count: usize, generation_length: usize) -> Config {
    Config::new(
        10_000,    // food_size
        250_000,   // eye_fov_range
        1_570_796, // eye_fov_angle (quarter turn)
        9,         // eye_cells
        9,         // brain_neurons
        population,
        food_count,
        1_000, // speed_min
        5_000, // speed_max
        10_000,  // mutation_chance
        300_000, // mutation_coeff
        generation_length,
    )
    .unwrap()
}

#[test]
fn config_rejects_zero_eye_cells() {
    let r = Config::new(
        10_000, 250_000, 1_570_796, 0, 9, 40, 60, 1_000, 5_000, 10_000, 300_000, 2_500,
    );
    assert_eq!(r.unwrap_err(), ConfigError::InvalidConfig);
}

#[test]
fn config_rejects_negative_food_size() {
    let r = Config::new(
        -1, 250_000, 1_570_796, 9, 9, 40, 60, 1_000, 5_000, 10_000, 300_000, 2_500,
    );
    assert_eq!(r.unwrap_err(), ConfigError::InvalidConfig);
}

#[test]
fn config_rejects_inverted_speed_bounds() {
    let r = Config::new(
        10_000, 250_000, 1_570_796, 9, 9, 40, 60, 5_000, 1_000, 10_000, 300_000, 2_500,
    );
    assert_eq!(r.unwrap_err(), ConfigError::InvalidConfig);
}

#[test]
fn config_accepts_valid_fields() {
    let c = small_config(40, 60, 2_500);
    assert_eq!(c.eye_cells, 9);
    assert_eq!(c.population, 40);
    assert_eq!(c.food_count, 60);
    assert_eq!(c.generation_length, 2_500);
}

#[test]
fn default_config_is_valid() {
    let c = Config::default();
    assert_eq!(c.eye_cells, 9);
    assert_eq!(c.population, 40);
    assert_eq!(c.food_count, 60);
    assert_eq!(c.generation_length, 2_500);
    assert!(c.eye_fov_angle > 0 && c.eye_fov_angle <= TAU);
}

#[test]
fn chromosome_round_trip() {
    let t = Topology { inputs: 3, hidden: 2 };
    let len = chromosome_len(t);
    assert_eq!(len, 2 * (1 + 3) + 2 * (1 + 2));
    let genes: Vec<i64> = (0..len as i64).map(|g| 7 * g - 20).collect();
    let brain = Brain::from_chromosome(&genes, t).unwrap();
    let back = brain.to_chromosome();
    assert_eq!(back, genes);
}

#[test]
fn chromosome_wrong_length_is_rejected() {
    let t = Topology { inputs: 3, hidden: 2 };
    let genes: Vec<i64> = vec![0; chromosome_len(t) - 1];
    assert_eq!(
        Brain::from_chromosome(&genes, t).unwrap_err(),
        ConfigError::ChromosomeLength
    );
}

#[test]
fn zero_brain_keeps_agent_stationary() {
    let t = Topology { inputs: 9, hidden: 9 };
    let genes: Vec<i64> = vec![0; chromosome_len(t)];
    let brain = Brain::from_chromosome(&genes, t).unwrap();
    let vision: Vec<i64> = vec![500_000; 9];
    let (ds, dr) = brain.propagate(&vision);
    assert_eq!(ds, 0);
    assert_eq!(dr, 0);
    let blank: Vec<i64> = vec![0; 9];
    let (ds2, dr2) = brain.propagate(&blank);
    assert_eq!(ds2, 0);
    assert_eq!(dr2, 0);
}

#[test]
fn vision_has_one_bounded_entry_per_cell() {
    let c = small_config(40, 60, 2_500);
    let eye = Eye::from_config(&c);
    let foods = vec![
        Food { x: 600_000, y: 500_000 },
        Food { x: 520_000, y: 540_000 },
        Food { x: 100_000, y: 900_000 },
    ];
    let vision = eye.process(500_000, 500_000, 0, &foods);
    assert_eq!(vision.len(), c.eye_cells);
    for v in vision {
        assert!(0 <= v && v <= ONE);
    }
}

#[test]
fn single_cell_eye_reports_linear_falloff() {
    // One cell, food straight ahead at distance 0.1 of range 0.25:
    // energy is (250000 - 100000) * ONE / 250000 = 600000 exactly.
    let c = Config::new(
        10_000, 250_000, 1_570_796, 1, 9, 40, 60, 1_000, 5_000, 10_000, 300_000, 2_500,
    )
    .unwrap();
    let eye = Eye::from_config(&c);
    let foods = vec![Food { x: 600_000, y: 500_000 }];
    let vision = eye.process(500_000, 500_000, 0, &foods);
    assert_eq!(vision.len(), 1);
    assert_eq!(vision[0], 600_000);
}

#[test]
fn far_food_is_invisible() {
    let c = small_config(40, 60, 2_500);
    let eye = Eye::from_config(&c);
    let foods = vec![Food { x: 900_000, y: 500_000 }];
    let vision = eye.process(100_000, 500_000, 0, &foods);
    assert!(vision.iter().all(|&v| v == 0));
}

#[test]
fn positions_stay_on_torus() {
    let c = small_config(20, 30, 100);
    let mut rng = SimRng::from_seed(11);
    let mut sim = Simulation::random(c, &mut rng);
    for a in sim.world().animals() {
        assert_eq!(a.satiation(), 0);
        assert!(a.vision().iter().all(|&v| v == 0));
    }
    for _ in 0..50 {
        let _ = sim.step(&mut rng);
        for a in sim.world().animals() {
            let (x, y) = a.position();
            assert!(0 <= x && x < ONE);
            assert!(0 <= y && y < ONE);
        }
        for f in sim.world().foods() {
            let (x, y) = f.position();
            assert!(0 <= x && x < ONE);
            assert!(0 <= y && y < ONE);
        }
    }
}

#[test]
fn vision_tracks_eye_cells_after_steps() {
    let c = small_config(10, 20, 100);
    let mut rng = SimRng::from_seed(3);
    let mut sim = Simulation::random(c, &mut rng);
    for _ in 0..5 {
        let _ = sim.step(&mut rng);
    }
    for a in sim.world().animals() {
        assert_eq!(a.vision().len(), c.eye_cells);
        for &v in a.vision() {
            assert!(0 <= v && v <= ONE);
        }
    }
}

#[test]
fn generation_boundary_fires_exactly_once() {
    // 2500 steps from a fresh simulation: 2499 ticks return nothing, the
    // 2500th completes the generation.
    let c = Config::new(
        10_000, 250_000, 1_570_796, 9, 9, 40, 60, 1_000, 5_000, 10_000, 300_000, 2_500,
    )
    .unwrap();
    let mut rng = SimRng::from_seed(42);
    let mut sim = Simulation::random(c, &mut rng);
    let mut events = 0;
    for tick in 0..2_500 {
        match sim.step(&mut rng) {
            None => assert!(tick < 2_499),
            Some(stats) => {
                assert_eq!(tick, 2_499);
                assert_eq!(stats.generation, 0);
                events += 1;
            }
        }
    }
    assert_eq!(events, 1);
    assert_eq!(sim.generation(), 1);
    assert_eq!(sim.age(), 0);
}

#[test]
fn train_fast_forwards_to_the_boundary() {
    let c = small_config(15, 25, 60);
    let mut rng = SimRng::from_seed(7);
    let mut sim = Simulation::random(c, &mut rng);
    let _ = sim.step(&mut rng);
    let _ = sim.step(&mut rng);
    assert_eq!(sim.age(), 2);
    let stats = sim.train(&mut rng);
    assert_eq!(stats.generation, 0);
    assert!(stats.min_fitness * ONE as u64 <= stats.avg_fitness);
    assert!(stats.avg_fitness <= stats.max_fitness * ONE as u64);
    assert_eq!(sim.generation(), 1);
    assert_eq!(sim.age(), 0);
}

#[test]
fn evolution_preserves_counts_and_resets() {
    let c = small_config(12, 18, 40);
    let mut rng = SimRng::from_seed(9);
    let mut sim = Simulation::random(c, &mut rng);
    let _ = sim.train(&mut rng);
    assert_eq!(sim.world().animals().len(), 12);
    assert_eq!(sim.world().foods().len(), 18);
    assert_eq!(sim.generation(), 1);
    assert_eq!(sim.age(), 0);
    for a in sim.world().animals() {
        assert_eq!(a.satiation(), 0);
    }
}

#[test]
fn zero_fitness_population_still_evolves_fully() {
    // No food at all: every fitness is zero, selection degenerates to the
    // explicit uniform branch, and a full next generation still comes out.
    let c = small_config(25, 0, 30);
    let mut rng = SimRng::from_seed(5);
    let mut sim = Simulation::random(c, &mut rng);
    let stats = sim.train(&mut rng);
    assert_eq!(stats.min_fitness, 0);
    assert_eq!(stats.max_fitness, 0);
    assert_eq!(stats.avg_fitness, 0);
    assert_eq!(sim.world().animals().len(), 25);
    assert_eq!(sim.generation(), 1);
}

#[test]
fn random_brains_fit_their_topology() {
    let t = Topology { inputs: 5, hidden: 4 };
    let mut rng = SimRng::from_seed(1);
    let b = Brain::random(&mut rng, t);
    let c = b.to_chromosome();
    assert_eq!(c.len(), chromosome_len(t));
    // Seeded draws stay within the documented gene range, and do vary.
    let first = c[0];
    assert!(c.iter().any(|&g| g != first));
    for g in c {
        assert!(-ONE <= g && g <= ONE);
    }
}
