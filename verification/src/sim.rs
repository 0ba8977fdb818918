//! The Simulation orchestrator: per-tick stepping and generational
//! evolution over one owned World.
//!
//! The only transitions are `step` (one physics tick, evolving at the
//! generation boundary) and `train` (fast-forward to the next boundary);
//! `random` constructs a fresh simulation at generation zero.

use vstd::prelude::*;
use crate::config::Config;
use crate::fx::ONE;
use crate::ga::{
    avg_scaled, fitness_seq, fitnesses, max_of, min_of, next_generation, offspring_of, stats_of,
};
use crate::rng::SimRng;
use crate::world::{random_foods, world_tick, World};

verus! {

/// Per-evolution summary of the outgoing population's fitness.
#[derive(Clone, Copy, Debug, PartialEq, Eq, Structural)]
pub struct Statistics {
    /// Index of the generation that just ended.
    pub generation: usize,
    /// Smallest fitness of the outgoing population.
    pub min_fitness: u64,
    /// Largest fitness of the outgoing population.
    pub max_fitness: u64,
    /// Average fitness of the outgoing population, scaled by `ONE`.
    pub avg_fitness: u64,
}

/// The simulation: one world, one configuration, and the tick and
/// generation counters. Consumers read state through the accessors and
/// drive it only through `step` and `train`.
pub struct Simulation {
    /// The configuration, read-only after construction.
    pub config: Config,
    /// The current generation's world.
    pub world: World,
    /// Ticks elapsed in the current generation; resets on evolution.
    pub age: usize,
    /// Completed evolution events; starts at zero, only ever grows.
    pub generation: usize,
    /// Specification-only record of the last outgoing population's
    /// fitness values, in animal order; empty before the first evolution.
    /// The returned [`Statistics`] summarize exactly this sequence.
    pub outgoing_fitness: Ghost<Seq<u64>>,
}

impl Simulation {
    /// The standing invariant: a valid configuration, a well-formed world,
    /// and an age strictly inside the generation.
    pub open spec fn wf(&self) -> bool {
        &&& self.config.wf()
        &&& self.world.wf(self.config)
        &&& self.age < self.config.generation_length
    }

    /// A fresh simulation: generation zero, age zero, a random world.
    pub fn random(config: Config, rng: &mut SimRng) -> (r: Simulation)
        requires
            config.wf(),
        ensures
            r.wf(),
            r.generation == 0,
            r.age == 0,
            r.config == config,
            forall|k: int|
                0 <= k < r.world.animals@.len() ==> (#[trigger] r.world.animals@[k]).satiation
                    == 0,
            forall|k: int, z: int|
                0 <= k < r.world.animals@.len() && 0 <= z < r.world.animals@[k].vision@.len()
                    ==> #[trigger] r.world.animals@[k].vision@[z] == 0,
    {
        let world = World::random(&config, rng);
        Simulation { config, world, age: 0, generation: 0, outgoing_fitness: Ghost(Seq::empty()) }
    }

    /// The configuration.
    pub fn config(&self) -> (r: &Config)
        ensures
            *r == self.config,
    {
        &self.config
    }

    /// Read-only view of the world.
    pub fn world(&self) -> (r: &World)
        ensures
            r.animals@ == self.world.animals@,
            r.foods@ == self.world.foods@,
    {
        &self.world
    }

    /// Ticks elapsed in the current generation.
    pub fn age(&self) -> (r: usize)
        ensures
            r == self.age,
    {
        self.age
    }

    /// Completed evolution events.
    pub fn generation(&self) -> (r: usize)
        ensures
            r == self.generation,
    {
        self.generation
    }

    /// One tick: the physics of every animal, then the age advances; when
    /// the tick completes the generation, evolution runs and its
    /// statistics come back. Exactly the boundary tick returns `Some`.
    pub fn step(&mut self, rng: &mut SimRng) -> (r: Option<Statistics>)
        requires
            old(self).wf(),
            old(self).generation < usize::MAX,
        ensures
            final(self).wf(),
            final(self).config == old(self).config,
            final(self).world.animals@.len() == old(self).world.animals@.len(),
            final(self).world.foods@.len() == old(self).world.foods@.len(),
            (r is None) == (old(self).age + 1 < old(self).config.generation_length),
            ({
                match r {
                    None => {
                        &&& final(self).age == old(self).age + 1
                        &&& final(self).generation == old(self).generation
                        &&& world_tick(old(self).config, old(self).world, final(self).world)
                        &&& final(self).outgoing_fitness@ == old(self).outgoing_fitness@
                        &&& forall|k: int|
                            0 <= k < final(self).world.animals@.len()
                                ==> (#[trigger] final(self).world.animals@[k]).satiation
                                >= old(self).world.animals@[k].satiation
                    },
                    Some(st) => {
                        &&& final(self).age == 0
                        &&& final(self).generation == old(self).generation + 1
                        &&& st.generation == old(self).generation
                        &&& st.min_fitness == min_of(final(self).outgoing_fitness@)
                        &&& st.max_fitness == max_of(final(self).outgoing_fitness@)
                        &&& st.avg_fitness == avg_scaled(final(self).outgoing_fitness@)
                        &&& st.min_fitness * ONE <= st.avg_fitness <= st.max_fitness * ONE
                        &&& forall|k: int|
                            0 <= k < final(self).world.animals@.len()
                                ==> (#[trigger] final(self).world.animals@[k]).satiation == 0
                        &&& exists|mid: World|
                            #![trigger fitness_seq(mid)]
                            {
                                &&& world_tick(old(self).config, old(self).world, mid)
                                &&& mid.wf(old(self).config)
                                &&& final(self).outgoing_fitness@ == fitness_seq(mid)
                                &&& forall|k: int|
                                    0 <= k < final(self).world.animals@.len() ==> offspring_of(
                                        old(self).config,
                                        mid.animals@,
                                        fitness_seq(mid),
                                        #[trigger] final(self).world.animals@[k],
                                    )
                            }
                    },
                }
            }),
    {
        self.world.step_tick(&self.config, rng);
        let ghost mid: World = self.world;
        let next_age: usize = self.age + 1;
        if next_age < self.config.generation_length {
            self.age = next_age;
            None
        } else {
            let st: Statistics = self.evolve(rng);
            proof {
                assert(world_tick(old(self).config, old(self).world, mid));
                assert(mid.wf(old(self).config));
                assert(self.outgoing_fitness@ == fitness_seq(mid));
            }
            Some(st)
        }
    }

    /// Fast-forward to the next generation boundary: step until the
    /// evolution event fires, then return its statistics. Terminates in at
    /// most `generation_length - age` steps.
    pub fn train(&mut self, rng: &mut SimRng) -> (r: Statistics)
        requires
            old(self).wf(),
            old(self).generation < usize::MAX,
        ensures
            final(self).wf(),
            final(self).config == old(self).config,
            final(self).age == 0,
            final(self).generation == old(self).generation + 1,
            r.generation == old(self).generation,
            r.min_fitness == min_of(final(self).outgoing_fitness@),
            r.max_fitness == max_of(final(self).outgoing_fitness@),
            r.avg_fitness == avg_scaled(final(self).outgoing_fitness@),
            r.min_fitness * ONE <= r.avg_fitness <= r.max_fitness * ONE,
            forall|k: int|
                0 <= k < final(self).world.animals@.len()
                    ==> (#[trigger] final(self).world.animals@[k]).satiation == 0,
            exists|outgoing: World|
                #![trigger fitness_seq(outgoing)]
                {
                    &&& outgoing.wf(old(self).config)
                    &&& final(self).outgoing_fitness@ == fitness_seq(outgoing)
                    &&& forall|k: int|
                        0 <= k < final(self).world.animals@.len() ==> offspring_of(
                            old(self).config,
                            outgoing.animals@,
                            fitness_seq(outgoing),
                            #[trigger] final(self).world.animals@[k],
                        )
                },
    {
        loop
            invariant
                self.wf(),
                self.config == old(self).config,
                self.generation == old(self).generation,
                self.generation < usize::MAX,
            decreases self.config.generation_length - self.age,
        {
            match self.step(rng) {
                Some(st) => {
                    return st;
                },
                None => {},
            }
        }
    }

    /// Freeze fitness, run selection, crossover and mutation, rebuild the
    /// world, advance the generation counter, and reset the age. The
    /// statistics describe the outgoing population exactly.
    fn evolve(&mut self, rng: &mut SimRng) -> (r: Statistics)
        requires
            old(self).wf(),
            old(self).generation < usize::MAX,
        ensures
            final(self).wf(),
            final(self).config == old(self).config,
            final(self).age == 0,
            final(self).generation == old(self).generation + 1,
            r.generation == old(self).generation,
            final(self).outgoing_fitness@ == fitness_seq(old(self).world),
            r.min_fitness == min_of(fitness_seq(old(self).world)),
            r.max_fitness == max_of(fitness_seq(old(self).world)),
            r.avg_fitness == avg_scaled(fitness_seq(old(self).world)),
            r.min_fitness * ONE <= r.avg_fitness <= r.max_fitness * ONE,
            forall|k: int|
                0 <= k < final(self).world.animals@.len()
                    ==> (#[trigger] final(self).world.animals@[k]).satiation == 0,
            forall|k: int|
                0 <= k < final(self).world.animals@.len() ==> offspring_of(
                    old(self).config,
                    old(self).world.animals@,
                    fitness_seq(old(self).world),
                    #[trigger] final(self).world.animals@[k],
                ),
    {
        let fs: Vec<u64> = fitnesses(&self.world);
        proof {
            assert forall|k: int| 0 <= k < fs@.len() implies #[trigger] fs@[k]
                <= 0xFFFF_FFFFu64 by {
                assert(fs@[k] == self.world.animals@[k].satiation as u64);
            }
        }
        let (mn, mx, avg): (u64, u64, u64) = stats_of(&fs);
        let st = Statistics {
            generation: self.generation,
            min_fitness: mn,
            max_fitness: mx,
            avg_fitness: avg,
        };
        let animals = next_generation(&self.config, &self.world, &fs, rng);
        let foods = random_foods(&self.config, rng);
        self.outgoing_fitness = Ghost(fs@);
        self.world = World { animals, foods };
        self.age = 0;
        self.generation = self.generation + 1;
        st
    }
}

} // verus!
