//! The immutable per-run configuration and its validation.

use vstd::prelude::*;
use crate::fx::{ONE, TAU};

verus! {

/// Why a value handed in at a construction boundary was rejected.
#[derive(Clone, Copy, Debug, PartialEq, Eq, Structural)]
pub enum ConfigError {
    /// A numeric configuration field lies outside its documented domain.
    InvalidConfig,
    /// A chromosome's length does not fit the required topology.
    ChromosomeLength,
}

/// The configuration of one run. All real-valued fields are fixed-point
/// micro-units ([`ONE`] is one); angles are micro-radians.
///
/// Fields are public so that host layers can read them; a valid value is
/// obtained through [`Config::new`] or [`Config::default`], and every
/// constructor of the core demands [`Config::wf`].
#[derive(Clone, Copy, Debug)]
pub struct Config {
    /// Radius within which an animal eats a food item; in `(0, ONE]`.
    pub food_size: i64,
    /// How far the eye sees; in `(0, ONE]`.
    pub eye_fov_range: i64,
    /// Angular width of the field of view; in `(0, TAU]` micro-radians.
    pub eye_fov_angle: i64,
    /// Number of angular sectors of the eye, and the brain's input width.
    pub eye_cells: usize,
    /// Number of neurons of the brain's hidden layer.
    pub brain_neurons: usize,
    /// Number of animals in the world; invariant across generations.
    pub population: usize,
    /// Number of food items in the world; invariant across generations.
    pub food_count: usize,
    /// Lower speed bound; `0 <= speed_min <= speed_max`.
    pub speed_min: i64,
    /// Upper speed bound, at most `ONE` (one world width per tick).
    pub speed_max: i64,
    /// Probability that a gene mutates, scaled by `ONE`.
    pub mutation_chance: i64,
    /// Largest magnitude of a mutation perturbation, in micro-units.
    pub mutation_coeff: i64,
    /// Ticks per generation; an evolution event fires when `age` reaches it.
    pub generation_length: usize,
}

impl Config {
    /// The domain of a valid configuration. The size caps are machine
    /// limits of the fixed-point core, generous against practical runs.
    pub open spec fn wf(&self) -> bool {
        &&& 0 < self.food_size <= ONE
        &&& 0 < self.eye_fov_range <= ONE
        &&& 0 < self.eye_fov_angle <= TAU
        &&& 1 <= self.eye_cells <= 1000
        &&& self.eye_cells as i64 <= self.eye_fov_angle
        &&& 1 <= self.brain_neurons <= 100
        &&& 1 <= self.population <= 10_000
        &&& self.food_count <= 10_000
        &&& 0 <= self.speed_min <= self.speed_max <= ONE
        &&& 0 <= self.mutation_chance <= ONE
        &&& 0 <= self.mutation_coeff <= ONE
        &&& 1 <= self.generation_length <= 100_000_000
    }

    /// Validate every field eagerly; a malformed configuration fails fast
    /// here, before any simulation is built from it.
    pub fn new(
        food_size: i64,
        eye_fov_range: i64,
        eye_fov_angle: i64,
        eye_cells: usize,
        brain_neurons: usize,
        population: usize,
        food_count: usize,
        speed_min: i64,
        speed_max: i64,
        mutation_chance: i64,
        mutation_coeff: i64,
        generation_length: usize,
    ) -> (r: Result<Config, ConfigError>)
        ensures
            ({
                let c = (Config {
                    food_size,
                    eye_fov_range,
                    eye_fov_angle,
                    eye_cells,
                    brain_neurons,
                    population,
                    food_count,
                    speed_min,
                    speed_max,
                    mutation_chance,
                    mutation_coeff,
                    generation_length,
                });
                match r {
                    Ok(ok) => c.wf() && ok == c,
                    Err(e) => !c.wf() && e == ConfigError::InvalidConfig,
                }
            }),
    {
        let ok = 0 < food_size && food_size <= ONE && 0 < eye_fov_range && eye_fov_range <= ONE
            && 0 < eye_fov_angle && eye_fov_angle <= TAU && 1 <= eye_cells && eye_cells <= 1000
            && eye_cells as i64 <= eye_fov_angle && 1 <= brain_neurons && brain_neurons <= 100
            && 1 <= population && population <= 10_000 && food_count <= 10_000 && 0 <= speed_min
            && speed_min <= speed_max && speed_max <= ONE && 0 <= mutation_chance
            && mutation_chance <= ONE && 0 <= mutation_coeff && mutation_coeff <= ONE
            && 1 <= generation_length && generation_length <= 100_000_000;
        if ok {
            Ok(Config {
                food_size,
                eye_fov_range,
                eye_fov_angle,
                eye_cells,
                brain_neurons,
                population,
                food_count,
                speed_min,
                speed_max,
                mutation_chance,
                mutation_coeff,
                generation_length,
            })
        } else {
            Err(ConfigError::InvalidConfig)
        }
    }
}

impl Default for Config {
    /// A ready-to-run configuration: a quarter-plus field of view of nine
    /// cells seeing a quarter of the world, forty animals, sixty foods,
    /// and twenty-five-hundred ticks per generation.
    fn default() -> (r: Config)
        ensures
            r.wf(),
            r == (Config {
                food_size: 10_000,
                eye_fov_range: 250_000,
                eye_fov_angle: 3_926_991,
                eye_cells: 9,
                brain_neurons: 9,
                population: 40,
                food_count: 60,
                speed_min: 1_000,
                speed_max: 5_000,
                mutation_chance: 10_000,
                mutation_coeff: 300_000,
                generation_length: 2_500,
            }),
    {
        Config {
            food_size: 10_000,
            eye_fov_range: 250_000,
            eye_fov_angle: 3_926_991,
            eye_cells: 9,
            brain_neurons: 9,
            population: 40,
            food_count: 60,
            speed_min: 1_000,
            speed_max: 5_000,
            mutation_chance: 10_000,
            mutation_coeff: 300_000,
            generation_length: 2_500,
        }
    }
}

} // verus!
