//! An artificial-life sandbox: a closed toroidal 2-D world of food items
//! and sensor-equipped animals whose movement is driven by a small
//! feed-forward neural controller, evolved across generations by a genetic
//! algorithm.
//!
//! All real-valued quantities (positions, angles, speeds, weights) are held
//! in fixed-point form: an `i64` counts micro-units, with [`fx::ONE`]
//! standing for the real number one and angles in micro-radians. This keeps
//! the core free of floating point and lets every step of the simulation
//! carry a proved contract.
//!
//! - [`fx`]: fixed-point scalar arithmetic (wrapping, square root, sine,
//!   cosine, arctangent).
//! - [`rng`]: the single injected random-number stream.
//! - [`config`]: the per-run configuration and its eager validation.
//! - [`eye`]: the vision sensor.
//! - [`brain`]: the neural controller and its chromosome round trip.
//! - [`world`]: food, animals, and the per-tick physics.
//! - [`ga`]: selection, crossover, mutation, and fitness statistics.
//! - [`sim`]: the orchestrator driving ticks and evolution events.

pub mod brain;
pub mod config;
pub mod eye;
pub mod fx;
pub mod ga;
pub mod rng;
pub mod sim;
pub mod world;
