//! Food, Animal, and the World that owns them, with the per-tick physics.
//!
//! Per tick each animal, in stable insertion order, observes the food
//! through its eye, feeds the vision to its brain, moves on the torus, and
//! eats every food item within `food_size` of its new position; eaten food
//! respawns at a fresh random position.

use vstd::prelude::*;
use crate::brain::{all_zero, lemma_zero_brain_is_still, spec_layer, spec_neuron, Brain, Topology};
use crate::config::Config;
use crate::eye::{lemma_spec_vision_len, spec_vision, Eye};
use crate::fx::{
    clamp_i64, cos_fx, mul_abs_le, sin_fx, spec_clamp, spec_cos, spec_sin, spec_wrap_tau,
    spec_wrap_unit, wrap_tau, wrap_unit, ONE, TAU,
};
use crate::rng::SimRng;

verus! {

/// What [`scaled_step`] returns: division by `ONE` truncating toward
/// zero, confined to one world width.
pub open spec fn spec_scaled_step(p: int) -> int {
    let q = if p < 0 {
        -((-p) / (ONE as int))
    } else {
        p / (ONE as int)
    };
    spec_clamp(q, -(ONE as int), ONE as int)
}

/// Whether an animal at `(x, y)` eats a food item: squared distance
/// strictly below the squared feeding radius.
pub open spec fn eats(f: Food, x: i64, y: i64, food_size: i64) -> bool {
    (f.x - x) * (f.x - x) + (f.y - y) * (f.y - y) < food_size * food_size
}

/// How many of the foods an animal at `(x, y)` eats.
pub open spec fn eaten_count(fs: Seq<Food>, x: i64, y: i64, food_size: i64) -> int
    decreases fs.len(),
{
    if fs.len() == 0 {
        0
    } else {
        eaten_count(fs.drop_last(), x, y, food_size) + if eats(fs.last(), x, y, food_size) {
            1int
        } else {
            0int
        }
    }
}

/// The satiation counter after eating, saturating at the type's ceiling.
pub open spec fn sat_after(s: u32, eaten: int) -> int {
    if s + eaten > 0xFFFF_FFFF {
        0xFFFF_FFFF as int
    } else {
        s + eaten
    }
}

/// The per-tick pipeline of one animal that observed the food state
/// `obs`: its new vision is the sensor's exact result on its old pose,
/// the two deltas are the brain's exact outputs on that vision, speed is
/// clamped into the configured bounds, rotation wraps, the position moves
/// by the heading vector times the new speed and wraps onto the torus,
/// satiation grows by exactly the number of foods eaten at the new
/// position, and the animal keeps its brain and its eye.
pub open spec fn animal_tick(c: Config, prev: Animal, next: Animal, obs: Seq<Food>) -> bool {
    let hid = spec_layer(prev.brain.hidden@, next.vision@, true);
    let ds = spec_neuron(prev.brain.output@[0], hid, false);
    let dr = spec_neuron(prev.brain.output@[1], hid, false);
    &&& next.brain == prev.brain
    &&& next.eye == prev.eye
    &&& next.vision@ == spec_vision(prev.eye, prev.x, prev.y, prev.rotation, obs)
    &&& next.speed == spec_clamp(prev.speed + ds, c.speed_min as int, c.speed_max as int)
    &&& next.rotation == spec_wrap_tau(prev.rotation + dr)
    &&& next.x == spec_wrap_unit(
        prev.x + spec_scaled_step(spec_cos(next.rotation as int) * next.speed),
    )
    &&& next.y == spec_wrap_unit(
        prev.y + spec_scaled_step(spec_sin(next.rotation as int) * next.speed),
    )
    &&& next.satiation == sat_after(prev.satiation, eaten_count(obs, next.x, next.y, c.food_size))
}

/// What one animal's feeding does to the food state: every food it eats
/// is relocated somewhere on the torus, every other food keeps its
/// position, and none are created or destroyed.
pub open spec fn foods_tick(
    prev: Seq<Food>,
    next: Seq<Food>,
    x: i64,
    y: i64,
    food_size: i64,
) -> bool {
    &&& next.len() == prev.len()
    &&& forall|j: int|
        0 <= j < prev.len() ==> (if eats(#[trigger] prev[j], x, y, food_size) {
            next[j].wf()
        } else {
            next[j] == prev[j]
        })
}

/// The food-state chain of one tick: `trace[k]` is what animal `k`
/// observes, starting from the old foods and ending at the new ones,
/// each link transformed by that animal's feeding.
pub open spec fn tick_trace_ok(c: Config, prev: World, next: World, trace: Seq<Seq<Food>>) -> bool {
    &&& trace.len() == prev.animals@.len() + 1
    &&& trace[0] == prev.foods@
    &&& next.foods@ == trace[prev.animals@.len() as int]
    &&& forall|k: int|
        0 <= k < prev.animals@.len() ==> animal_tick(
            c,
            prev.animals@[k],
            #[trigger] next.animals@[k],
            trace[k],
        ) && foods_tick(
            trace[k],
            trace[k + 1],
            next.animals@[k].x,
            next.animals@[k].y,
            c.food_size,
        )
}

/// One whole physics tick: the animals are processed in stable insertion
/// order, each against the food state its predecessors left behind.
pub open spec fn world_tick(c: Config, prev: World, next: World) -> bool {
    &&& next.animals@.len() == prev.animals@.len()
    &&& next.foods@.len() == prev.foods@.len()
    &&& exists|trace: Seq<Seq<Food>>| tick_trace_ok(c, prev, next, trace)
}

proof fn lemma_eaten_nonneg(fs: Seq<Food>, x: i64, y: i64, food_size: i64)
    ensures
        eaten_count(fs, x, y, food_size) >= 0,
    decreases fs.len(),
{
    if fs.len() == 0 {
    } else {
        lemma_eaten_nonneg(fs.drop_last(), x, y, food_size);
    }
}

proof fn lemma_eaten_take(fs: Seq<Food>, x: i64, y: i64, food_size: i64, j: int)
    requires
        0 <= j < fs.len(),
    ensures
        eaten_count(fs.take(j + 1), x, y, food_size) == eaten_count(fs.take(j), x, y, food_size)
            + if eats(fs[j], x, y, food_size) {
            1int
        } else {
            0int
        },
{
    assert(fs.take(j + 1).drop_last() =~= fs.take(j));
    assert(fs.take(j + 1).last() == fs[j]);
}

/// The brain shape a configuration dictates: the vision vector feeds the
/// hidden layer.
pub open spec fn topology_of(c: Config) -> Topology {
    Topology { inputs: c.eye_cells, hidden: c.brain_neurons }
}

/// A point food item; eaten food is relocated, never destroyed.
#[derive(Clone, Copy, Debug)]
pub struct Food {
    /// Horizontal coordinate in `[0, ONE)` micro-units.
    pub x: i64,
    /// Vertical coordinate in `[0, ONE)` micro-units.
    pub y: i64,
}

impl Food {
    /// Food stays on the unit torus.
    pub open spec fn wf(&self) -> bool {
        0 <= self.x < ONE && 0 <= self.y < ONE
    }

    /// The position, as a pair of micro-unit coordinates.
    pub fn position(&self) -> (r: (i64, i64))
        ensures
            r.0 == self.x,
            r.1 == self.y,
    {
        (self.x, self.y)
    }

    /// A food item at a fresh uniformly random position.
    pub fn random(rng: &mut SimRng) -> (r: Food)
        ensures
            r.wf(),
    {
        let x: i64 = rng.gen_i64(0, ONE);
        let y: i64 = rng.gen_i64(0, ONE);
        Food { x, y }
    }
}

/// A sensor-equipped agent: pose, speed, its sensor and controller, the
/// fitness counter, and the last-computed vision vector.
pub struct Animal {
    /// Horizontal coordinate in `[0, ONE)` micro-units.
    pub x: i64,
    /// Vertical coordinate in `[0, ONE)` micro-units.
    pub y: i64,
    /// Heading in `[0, TAU)` micro-radians.
    pub rotation: i64,
    /// Speed in micro-units per tick, within the configured bounds.
    pub speed: i64,
    /// The vision sensor (configuration, not mutable state).
    pub eye: Eye,
    /// The neural controller, exclusively owned.
    pub brain: Brain,
    /// Foods eaten this generation; the fitness accumulator. The counter
    /// saturates at the type's ceiling instead of wrapping.
    pub satiation: u32,
    /// The last-computed sensor vector, one entry per eye cell.
    pub vision: Vec<i64>,
}

impl Animal {
    /// Well-formedness against the run's configuration.
    pub open spec fn wf(&self, c: Config) -> bool {
        &&& 0 <= self.x < ONE
        &&& 0 <= self.y < ONE
        &&& 0 <= self.rotation < TAU
        &&& c.speed_min <= self.speed <= c.speed_max
        &&& self.eye.matches(c)
        &&& self.eye.wf()
        &&& self.brain.wf(topology_of(c))
        &&& self.vision@.len() == c.eye_cells
        &&& forall|k: int| 0 <= k < self.vision@.len() ==> 0 <= #[trigger] self.vision@[k] <= ONE
    }

    /// The position, as a pair of micro-unit coordinates.
    pub fn position(&self) -> (r: (i64, i64))
        ensures
            r.0 == self.x,
            r.1 == self.y,
    {
        (self.x, self.y)
    }

    /// The heading, in micro-radians.
    pub fn rotation(&self) -> (r: i64)
        ensures
            r == self.rotation,
    {
        self.rotation
    }

    /// The fitness accumulated this generation.
    pub fn satiation(&self) -> (r: u32)
        ensures
            r == self.satiation,
    {
        self.satiation
    }

    /// The last-computed sensor vector.
    pub fn vision(&self) -> (r: &Vec<i64>)
        ensures
            r@ == self.vision@,
    {
        &self.vision
    }

    /// A fresh animal owning the given brain: random pose, random speed
    /// within bounds, zero satiation, blank vision.
    pub fn random(c: &Config, brain: Brain, rng: &mut SimRng) -> (r: Animal)
        requires
            c.wf(),
            brain.wf(topology_of(*c)),
        ensures
            r.wf(*c),
            r.satiation == 0,
            r.brain == brain,
            forall|k: int| 0 <= k < r.vision@.len() ==> #[trigger] r.vision@[k] == 0,
            c.speed_min <= r.speed <= c.speed_max,
    {
        let x: i64 = rng.gen_i64(0, ONE);
        let y: i64 = rng.gen_i64(0, ONE);
        let rotation: i64 = rng.gen_i64(0, TAU);
        let speed: i64 = rng.gen_i64(c.speed_min, c.speed_max + 1);
        let mut vision: Vec<i64> = Vec::new();
        let mut z: usize = 0;
        while z < c.eye_cells
            invariant
                z <= c.eye_cells,
                vision@.len() == z,
                forall|k: int| 0 <= k < z ==> #[trigger] vision@[k] == 0,
            decreases c.eye_cells - z,
        {
            vision.push(0);
            z = z + 1;
        }
        Animal { x, y, rotation, speed, eye: Eye::from_config(c), brain, satiation: 0, vision }
    }
}

/// The container of all animals and foods of one generation.
pub struct World {
    /// The animals, in stable insertion order.
    pub animals: Vec<Animal>,
    /// The food items, in stable insertion order.
    pub foods: Vec<Food>,
}

impl World {
    /// Every entity well-formed, and the configured counts.
    pub open spec fn wf(&self, c: Config) -> bool {
        &&& self.animals@.len() == c.population
        &&& self.foods@.len() == c.food_count
        &&& forall|k: int| 0 <= k < self.animals@.len() ==> (#[trigger] self.animals@[k]).wf(c)
        &&& forall|k: int| 0 <= k < self.foods@.len() ==> (#[trigger] self.foods@[k]).wf()
    }

    /// Read-only view of the animals.
    pub fn animals(&self) -> (r: &Vec<Animal>)
        ensures
            r@ == self.animals@,
    {
        &self.animals
    }

    /// Read-only view of the foods.
    pub fn foods(&self) -> (r: &Vec<Food>)
        ensures
            r@ == self.foods@,
    {
        &self.foods
    }

    /// A freshly randomized world sized per the configuration, with every
    /// satiation counter at zero.
    pub fn random(c: &Config, rng: &mut SimRng) -> (r: World)
        requires
            c.wf(),
        ensures
            r.wf(*c),
            forall|k: int|
                0 <= k < r.animals@.len() ==> (#[trigger] r.animals@[k]).satiation == 0,
            forall|k: int, z: int|
                0 <= k < r.animals@.len() && 0 <= z < r.animals@[k].vision@.len()
                    ==> #[trigger] r.animals@[k].vision@[z] == 0,
    {
        let t = Topology { inputs: c.eye_cells, hidden: c.brain_neurons };
        let mut animals: Vec<Animal> = Vec::new();
        let mut i: usize = 0;
        while i < c.population
            invariant
                c.wf(),
                t == topology_of(*c),
                i <= c.population,
                animals@.len() == i,
                forall|k: int| 0 <= k < i ==> (#[trigger] animals@[k]).wf(*c),
                forall|k: int| 0 <= k < i ==> (#[trigger] animals@[k]).satiation == 0,
                forall|k: int, z: int|
                    0 <= k < i && 0 <= z < animals@[k].vision@.len()
                        ==> #[trigger] animals@[k].vision@[z] == 0,
            decreases c.population - i,
        {
            let b: Brain = Brain::random(rng, t);
            let a: Animal = Animal::random(c, b, rng);
            animals.push(a);
            i = i + 1;
        }
        let foods: Vec<Food> = random_foods(c, rng);
        World { animals, foods }
    }

    /// One physics tick: each animal in order observes, decides, moves,
    /// and feeds, exactly as [`world_tick`] states; every position stays
    /// on the unit torus and the animal and food counts are untouched.
    pub(crate) fn step_tick(&mut self, c: &Config, rng: &mut SimRng)
        requires
            c.wf(),
            old(self).wf(*c),
        ensures
            final(self).wf(*c),
            final(self).animals@.len() == old(self).animals@.len(),
            world_tick(*c, *old(self), *final(self)),
            forall|k: int|
                0 <= k < final(self).animals@.len()
                    ==> (#[trigger] final(self).animals@[k]).satiation
                    >= old(self).animals@[k].satiation,
    {
        let n: usize = self.animals.len();
        let ghost mut trace: Seq<Seq<Food>> = seq![self.foods@];
        let mut i: usize = 0;
        while i < n
            invariant
                c.wf(),
                n == c.population,
                i <= n,
                self.animals@.len() == n,
                old(self).animals@.len() == n,
                old(self).foods@.len() == c.food_count,
                self.foods@.len() == c.food_count,
                trace.len() == i + 1,
                trace[0] == old(self).foods@,
                trace[i as int] == self.foods@,
                forall|k: int| 0 <= k < self.animals@.len() ==> (#[trigger] self.animals@[k]).wf(
                    *c,
                ),
                forall|k: int| 0 <= k < self.foods@.len() ==> (#[trigger] self.foods@[k]).wf(),
                forall|k: int|
                    i <= k < n ==> #[trigger] self.animals@[k] == old(self).animals@[k],
                forall|k: int|
                    0 <= k < i ==> animal_tick(
                        *c,
                        old(self).animals@[k],
                        #[trigger] self.animals@[k],
                        trace[k],
                    ) && foods_tick(
                        trace[k],
                        trace[k + 1],
                        self.animals@[k].x,
                        self.animals@[k].y,
                        c.food_size,
                    ),
                forall|k: int|
                    0 <= k < self.animals@.len() ==> (#[trigger] self.animals@[k]).satiation
                        >= old(self).animals@[k].satiation,
            decreases n - i,
        {
            let ghost obs: Seq<Food> = self.foods@;
            let ghost prev_a: Animal = self.animals@[i as int];
            // observe
            let vision: Vec<i64> = self.animals[i].eye.process(
                self.animals[i].x,
                self.animals[i].y,
                self.animals[i].rotation,
                &self.foods,
            );
            // decide
            let (ds, dr): (i64, i64) = self.animals[i].brain.propagate(&vision);
            let ns: i64 = clamp_i64(self.animals[i].speed + ds, c.speed_min, c.speed_max);
            let nr: i64 = wrap_tau(self.animals[i].rotation + dr);
            // move
            let cosv: i64 = cos_fx(nr);
            let sinv: i64 = sin_fx(nr);
            proof {
                mul_abs_le(cosv as int, ns as int, ONE as int, ONE as int);
                mul_abs_le(sinv as int, ns as int, ONE as int, ONE as int);
            }
            let px: i64 = cosv * ns;
            let py: i64 = sinv * ns;
            let mx: i64 = scaled_step(px);
            let my: i64 = scaled_step(py);
            let nx: i64 = wrap_unit(self.animals[i].x + mx);
            let ny: i64 = wrap_unit(self.animals[i].y + my);
            self.animals[i].vision = vision;
            self.animals[i].speed = ns;
            self.animals[i].rotation = nr;
            self.animals[i].x = nx;
            self.animals[i].y = ny;
            let ghost mid: Seq<Animal> = self.animals@;
            let ghost base_sat: u32 = prev_a.satiation;
            // feed
            let fs2: i64 = food_radius_sq(c);
            let m: usize = self.foods.len();
            let mut j: usize = 0;
            while j < m
                invariant
                    c.wf(),
                    fs2 == c.food_size * c.food_size,
                    j <= m,
                    i < n,
                    self.animals@.len() == n,
                    mid.len() == n,
                    self.foods@.len() == m,
                    obs.len() == m,
                    m == c.food_count,
                    mid[i as int].satiation == base_sat,
                    mid[i as int].x == nx && mid[i as int].y == ny,
                    forall|k: int| 0 <= k < n && k != i ==> #[trigger] self.animals@[k] == mid[k],
                    self.animals@[i as int].brain == mid[i as int].brain,
                    self.animals@[i as int].eye == mid[i as int].eye,
                    self.animals@[i as int].vision == mid[i as int].vision,
                    self.animals@[i as int].x == nx,
                    self.animals@[i as int].y == ny,
                    self.animals@[i as int].speed == ns,
                    self.animals@[i as int].rotation == nr,
                    self.animals@[i as int].satiation == sat_after(
                        base_sat,
                        eaten_count(obs.take(j as int), nx, ny, c.food_size),
                    ),
                    forall|k: int|
                        0 <= k < self.animals@.len() ==> (#[trigger] self.animals@[k]).wf(*c),
                    forall|k: int| 0 <= k < self.foods@.len() ==> (#[trigger] self.foods@[k]).wf(),
                    forall|jj: int| j <= jj < m ==> #[trigger] self.foods@[jj] == obs[jj],
                    forall|jj: int|
                        0 <= jj < j ==> (if eats(#[trigger] obs[jj], nx, ny, c.food_size) {
                            self.foods@[jj].wf()
                        } else {
                            self.foods@[jj] == obs[jj]
                        }),
                decreases m - j,
            {
                let f: Food = self.foods[j];
                let ddx: i64 = f.x - self.animals[i].x;
                let ddy: i64 = f.y - self.animals[i].y;
                proof {
                    mul_abs_le(ddx as int, ddx as int, ONE as int, ONE as int);
                    mul_abs_le(ddy as int, ddy as int, ONE as int, ONE as int);
                    lemma_eaten_take(obs, nx, ny, c.food_size, j as int);
                }
                let dd2: i64 = ddx * ddx + ddy * ddy;
                if dd2 < fs2 {
                    if self.animals[i].satiation < u32::MAX {
                        let s: u32 = self.animals[i].satiation;
                        self.animals[i].satiation = s + 1;
                    }
                    self.foods[j] = Food::random(rng);
                }
                j = j + 1;
            }
            proof {
                assert(obs.take(m as int) =~= obs);
                lemma_eaten_nonneg(obs, nx, ny, c.food_size);
                assert(animal_tick(*c, prev_a, self.animals@[i as int], obs));
                assert(foods_tick(obs, self.foods@, nx, ny, c.food_size));
                trace = trace.push(self.foods@);
            }
            i = i + 1;
        }
        proof {
            assert(tick_trace_ok(*c, *old(self), *self, trace));
            assert(world_tick(*c, *old(self), *self));
        }
    }
}

/// Fresh random food items, one per configured slot.
pub(crate) fn random_foods(c: &Config, rng: &mut SimRng) -> (r: Vec<Food>)
    requires
        c.wf(),
    ensures
        r@.len() == c.food_count,
        forall|k: int| 0 <= k < r@.len() ==> (#[trigger] r@[k]).wf(),
{
    let mut foods: Vec<Food> = Vec::new();
    let mut j: usize = 0;
    while j < c.food_count
        invariant
            j <= c.food_count,
            foods@.len() == j,
            forall|k: int| 0 <= k < j ==> (#[trigger] foods@[k]).wf(),
        decreases c.food_count - j,
    {
        foods.push(Food::random(rng));
        j = j + 1;
    }
    foods
}

/// A zeroed network keeps its agent stationary across a tick: with every
/// bias and weight zero both movement deltas are zero, so the heading is
/// unchanged and the speed is only re-clamped into bounds it already
/// satisfies.
pub proof fn lemma_zero_brain_still_after_tick(
    c: Config,
    prev: Animal,
    next: Animal,
    obs: Seq<Food>,
)
    requires
        c.wf(),
        prev.wf(c),
        all_zero(prev.brain),
        animal_tick(c, prev, next, obs),
    ensures
        next.rotation == prev.rotation,
        next.speed == prev.speed,
{
    lemma_spec_vision_len(prev.eye, prev.x, prev.y, prev.rotation, obs);
    lemma_zero_brain_is_still(prev.brain, next.vision@);
}

/// Toroidal containment: in a well-formed world every animal and food
/// position lies in the unit square; since `step` and `train` preserve
/// well-formedness, this holds after every tick.
pub proof fn lemma_positions_on_torus(w: World, c: Config)
    requires
        w.wf(c),
    ensures
        forall|k: int|
            0 <= k < w.animals@.len() ==> 0 <= (#[trigger] w.animals@[k]).x < ONE && 0 <= w.animals@[k].y
                < ONE,
        forall|k: int|
            0 <= k < w.foods@.len() ==> 0 <= (#[trigger] w.foods@[k]).x < ONE && 0 <= w.foods@[k].y
                < ONE,
{
}

/// Vision dimensions: in a well-formed world every animal's vision vector
/// has exactly `eye_cells` entries, each in `[0, ONE]`.
pub proof fn lemma_vision_dimensions(w: World, c: Config)
    requires
        w.wf(c),
    ensures
        forall|k: int|
            0 <= k < w.animals@.len() ==> (#[trigger] w.animals@[k]).vision@.len() == c.eye_cells,
        forall|k: int, z: int|
            0 <= k < w.animals@.len() && 0 <= z < w.animals@[k].vision@.len() ==> 0 <= #[trigger] w.animals@[k].vision@[z]
                <= ONE,
{
}

/// The squared feeding radius of a configuration.
fn food_radius_sq(c: &Config) -> (r: i64)
    requires
        c.wf(),
    ensures
        r == c.food_size * c.food_size,
{
    proof {
        mul_abs_le(c.food_size as int, c.food_size as int, ONE as int, ONE as int);
    }
    c.food_size * c.food_size
}

/// Scale a product of two micro-unit factors back to micro-units,
/// truncating toward zero; the result stays within one world width.
fn scaled_step(p: i64) -> (r: i64)
    requires
        -(1_000_000_000_000i64) <= p <= 1_000_000_000_000i64,
    ensures
        r == spec_scaled_step(p as int),
        -ONE <= r <= ONE,
{
    let mq: i64 = if p < 0 {
        let q: u64 = ((-p) as u64) / 1_000_000u64;
        proof {
            assert(q <= (-p) as u64);
        }
        -(q as i64)
    } else {
        let q: u64 = (p as u64) / 1_000_000u64;
        proof {
            assert(q <= p as u64);
        }
        q as i64
    };
    clamp_i64(mq, -ONE, ONE)
}

} // verus!
