//! The genetic algorithm: fitness-proportionate selection with an explicit
//! uniform fallback for all-zero fitness, uniform crossover, and bounded
//! gene mutation, producing exactly one offspring per population slot.

use vstd::prelude::*;
use crate::brain::{chromosome_of, lemma_chromosome_len, Brain, Topology};
use crate::config::Config;
use crate::fx::ONE;
use crate::rng::SimRng;
use crate::world::{topology_of, Animal, World};

verus! {

/// One gene lies within the mutation radius of a parent gene.
pub open spec fn gene_near(g: i64, p: i64, coeff: int) -> bool {
    p - coeff <= g <= p + coeff
}

/// A child chromosome drawn gene by gene from two parents, each gene at
/// most one mutation perturbation away from the parent gene it came from.
pub open spec fn child_genes_from(
    child: Seq<i64>,
    pa: Seq<i64>,
    pb: Seq<i64>,
    coeff: int,
) -> bool {
    &&& child.len() == pa.len()
    &&& pa.len() == pb.len()
    &&& forall|g: int|
        0 <= g < child.len() ==> gene_near(#[trigger] child[g], pa[g], coeff) || gene_near(
            child[g],
            pb[g],
            coeff,
        )
}

/// An animal bred by the genetic algorithm from the outgoing population:
/// two roulette-selected parents, each of positive fitness unless every
/// fitness is zero, combined by uniform crossover and bounded mutation.
pub open spec fn offspring_of(c: Config, parents: Seq<Animal>, fs: Seq<u64>, child: Animal) -> bool {
    exists|ia: int, ib: int|
        #![trigger parents[ia], parents[ib]]
        {
            &&& 0 <= ia < parents.len()
            &&& 0 <= ib < parents.len()
            &&& (total_of(fs) > 0 ==> fs[ia] > 0 && fs[ib] > 0)
            &&& child_genes_from(
                chromosome_of(child.brain),
                chromosome_of(parents[ia].brain),
                chromosome_of(parents[ib].brain),
                c.mutation_coeff as int,
            )
        }
}

/// Sum of a fitness sequence.
pub open spec fn total_of(s: Seq<u64>) -> int
    decreases s.len(),
{
    if s.len() == 0 {
        0
    } else {
        total_of(s.drop_last()) + s.last()
    }
}

/// Minimum of a fitness sequence (zero when empty).
pub open spec fn min_of(s: Seq<u64>) -> int
    decreases s.len(),
{
    if s.len() == 0 {
        0
    } else if s.len() == 1 {
        s[0] as int
    } else {
        let m = min_of(s.drop_last());
        if s.last() < m {
            s.last() as int
        } else {
            m
        }
    }
}

/// Maximum of a fitness sequence (zero when empty).
pub open spec fn max_of(s: Seq<u64>) -> int
    decreases s.len(),
{
    if s.len() == 0 {
        0
    } else if s.len() == 1 {
        s[0] as int
    } else {
        let m = max_of(s.drop_last());
        if s.last() > m {
            s.last() as int
        } else {
            m
        }
    }
}

/// Average fitness scaled by `ONE`, kept inside `[min, max] * ONE`.
pub open spec fn avg_scaled(s: Seq<u64>) -> int {
    let raw = total_of(s) * ONE / (s.len() as int);
    let lo = min_of(s) * ONE;
    let hi = max_of(s) * ONE;
    if raw < lo {
        lo
    } else if raw > hi {
        hi
    } else {
        raw
    }
}

/// The fitness of each animal: its satiation, in animal order.
pub open spec fn fitness_seq(w: World) -> Seq<u64> {
    Seq::new(w.animals@.len(), |k: int| w.animals@[k].satiation as u64)
}

proof fn lemma_total_take(s: Seq<u64>, i: int)
    requires
        0 <= i < s.len(),
    ensures
        total_of(s.take(i + 1)) == total_of(s.take(i)) + s[i],
{
    assert(s.take(i + 1).drop_last() =~= s.take(i));
    assert(s.take(i + 1).last() == s[i]);
}

proof fn lemma_min_take(s: Seq<u64>, i: int)
    requires
        1 <= i < s.len(),
    ensures
        min_of(s.take(i + 1)) == if s[i] < min_of(s.take(i)) {
            s[i] as int
        } else {
            min_of(s.take(i))
        },
{
    assert(s.take(i + 1).drop_last() =~= s.take(i));
    assert(s.take(i + 1).last() == s[i]);
}

proof fn lemma_max_take(s: Seq<u64>, i: int)
    requires
        1 <= i < s.len(),
    ensures
        max_of(s.take(i + 1)) == if s[i] > max_of(s.take(i)) {
            s[i] as int
        } else {
            max_of(s.take(i))
        },
{
    assert(s.take(i + 1).drop_last() =~= s.take(i));
    assert(s.take(i + 1).last() == s[i]);
}

proof fn lemma_total_upper(s: Seq<u64>)
    requires
        forall|k: int| 0 <= k < s.len() ==> #[trigger] s[k] <= 0xFFFF_FFFFu64,
    ensures
        0 <= total_of(s) <= s.len() * 0x1_0000_0000,
    decreases s.len(),
{
    if s.len() == 0 {
    } else {
        assert(forall|k: int|
            0 <= k < s.drop_last().len() ==> #[trigger] s.drop_last()[k] == s[k]);
        lemma_total_upper(s.drop_last());
        assert(s[s.len() - 1] <= 0xFFFF_FFFFu64);
        assert((s.len() - 1) * 0x1_0000_0000 + 0x1_0000_0000 == s.len() * 0x1_0000_0000)
            by (nonlinear_arith);
    }
}

/// The fitness of every animal, in animal order.
pub fn fitnesses(w: &World) -> (r: Vec<u64>)
    ensures
        r@ == fitness_seq(*w),
{
    let mut r: Vec<u64> = Vec::new();
    let mut i: usize = 0;
    while i < w.animals.len()
        invariant
            i <= w.animals@.len(),
            r@.len() == i,
            forall|k: int| 0 <= k < i ==> #[trigger] r@[k] == w.animals@[k].satiation as u64,
        decreases w.animals@.len() - i,
    {
        r.push(w.animals[i].satiation as u64);
        i = i + 1;
    }
    proof {
        assert(r@ =~= fitness_seq(*w));
    }
    r
}

/// Minimum, maximum, and average (scaled by `ONE`) of a non-empty fitness
/// vector.
pub fn stats_of(fs: &Vec<u64>) -> (r: (u64, u64, u64))
    requires
        1 <= fs@.len() <= 10_000,
        forall|k: int| 0 <= k < fs@.len() ==> #[trigger] fs@[k] <= 0xFFFF_FFFFu64,
    ensures
        r.0 == min_of(fs@),
        r.1 == max_of(fs@),
        r.2 == avg_scaled(fs@),
        r.0 * ONE <= r.2 <= r.1 * ONE,
{
    let mut mn: u64 = fs[0];
    let mut mx: u64 = fs[0];
    let mut sum: u64 = fs[0];
    proof {
        assert(total_of(Seq::<u64>::empty()) == 0);
        assert(fs@.take(1).drop_last() =~= Seq::<u64>::empty());
        assert(fs@.take(1).last() == fs@[0]);
        assert(fs@.take(1).len() == 1);
        assert(total_of(fs@.take(1)) == fs@[0]);
    }
    let mut i: usize = 1;
    while i < fs.len()
        invariant
            1 <= i <= fs@.len(),
            fs@.len() <= 10_000,
            forall|k: int| 0 <= k < fs@.len() ==> #[trigger] fs@[k] <= 0xFFFF_FFFFu64,
            mn == min_of(fs@.take(i as int)),
            mx == max_of(fs@.take(i as int)),
            sum == total_of(fs@.take(i as int)),
            sum <= (i as int) * 0x1_0000_0000,
            mn <= mx <= 0xFFFF_FFFFu64,
        decreases fs@.len() - i,
    {
        let v: u64 = fs[i];
        proof {
            lemma_total_take(fs@, i as int);
            lemma_min_take(fs@, i as int);
            lemma_max_take(fs@, i as int);
        }
        if v < mn {
            mn = v;
        }
        if v > mx {
            mx = v;
        }
        sum = sum + v;
        i = i + 1;
    }
    proof {
        assert(fs@.take(fs@.len() as int) =~= fs@);
    }
    let len64: u64 = fs.len() as u64;
    let raw: u128 = (sum as u128) * 1_000_000u128 / (len64 as u128);
    let lo: u64 = mn * 1_000_000u64;
    let hi: u64 = mx * 1_000_000u64;
    let avg: u64 = if raw < lo as u128 {
        lo
    } else if raw > hi as u128 {
        hi
    } else {
        raw as u64
    };
    (mn, mx, avg)
}

/// Roulette-wheel selection: with any nonzero total the chosen index has
/// positive fitness; with an all-zero population the draw degenerates to
/// uniform (the explicit branch), so a full next generation can always be
/// built. The result always indexes the population.
pub(crate) fn select(fs: &Vec<u64>, total: u64, rng: &mut SimRng) -> (r: usize)
    requires
        1 <= fs@.len() <= 10_000,
        forall|k: int| 0 <= k < fs@.len() ==> #[trigger] fs@[k] <= 0xFFFF_FFFFu64,
        total == total_of(fs@),
    ensures
        r < fs@.len(),
        total > 0 ==> fs@[r as int] > 0,
{
    if total == 0 {
        let u: u64 = rng.gen_u64(fs.len() as u64);
        return u as usize;
    }
    let t: u64 = rng.gen_u64(total);
    proof {
        lemma_total_upper(fs@);
    }
    let mut cum: u64 = 0;
    let mut i: usize = 0;
    while i < fs.len()
        invariant
            i <= fs@.len(),
            fs@.len() <= 10_000,
            forall|k: int| 0 <= k < fs@.len() ==> #[trigger] fs@[k] <= 0xFFFF_FFFFu64,
            total == total_of(fs@),
            total <= fs@.len() * 0x1_0000_0000,
            t < total,
            cum == total_of(fs@.take(i as int)),
            cum <= t,
        decreases fs@.len() - i,
    {
        let fi: u64 = fs[i];
        proof {
            lemma_total_take(fs@, i as int);
            lemma_total_upper(fs@.take(i as int));
            assert(forall|k: int|
                0 <= k < fs@.take(i as int).len() ==> #[trigger] fs@.take(i as int)[k] == fs@[k]);
        }
        if t < cum + fi {
            return i;
        }
        cum = cum + fi;
        i = i + 1;
    }
    proof {
        assert(fs@.take(fs@.len() as int) =~= fs@);
        assert(false);
    }
    0
}

/// One offspring chromosome: uniform crossover gene by gene, then each
/// gene mutated with the configured probability by a uniform perturbation
/// of at most `mutation_coeff`, saturating at the 64-bit ends.
pub(crate) fn crossover_mutate(
    ca: &Vec<i64>,
    cb: &Vec<i64>,
    c: &Config,
    rng: &mut SimRng,
) -> (r: Vec<i64>)
    requires
        ca@.len() == cb@.len(),
        c.wf(),
    ensures
        r@.len() == ca@.len(),
        child_genes_from(r@, ca@, cb@, c.mutation_coeff as int),
{
    let mut out: Vec<i64> = Vec::new();
    let mut i: usize = 0;
    while i < ca.len()
        invariant
            i <= ca@.len(),
            ca@.len() == cb@.len(),
            out@.len() == i,
            c.wf(),
            forall|g: int|
                0 <= g < i ==> gene_near(#[trigger] out@[g], ca@[g], c.mutation_coeff as int)
                    || gene_near(out@[g], cb@[g], c.mutation_coeff as int),
        decreases ca@.len() - i,
    {
        let coin: u64 = rng.gen_u64(2);
        let mut g: i64 = if coin == 0 {
            ca[i]
        } else {
            cb[i]
        };
        let ghost parent: i64 = g;
        let roll: i64 = rng.gen_i64(0, ONE);
        if roll < c.mutation_chance {
            let delta: i64 = rng.gen_i64(-c.mutation_coeff, c.mutation_coeff + 1);
            let s: i128 = g as i128 + delta as i128;
            g = if s > i64::MAX as i128 {
                i64::MAX
            } else if s < i64::MIN as i128 {
                i64::MIN
            } else {
                s as i64
            };
        }
        proof {
            assert(gene_near(g, parent, c.mutation_coeff as int));
        }
        out.push(g);
        i = i + 1;
    }
    out
}

/// Build the next population: two roulette-selected parents per offspring,
/// uniform crossover, mutation, and a fresh animal around the new brain.
/// A full next generation comes out whatever the fitness values, the
/// all-zero case included.
pub(crate) fn next_generation(
    c: &Config,
    world: &World,
    fs: &Vec<u64>,
    rng: &mut SimRng,
) -> (r: Vec<Animal>)
    requires
        c.wf(),
        world.wf(*c),
        fs@ == fitness_seq(*world),
    ensures
        r@.len() == c.population,
        forall|k: int| 0 <= k < r@.len() ==> (#[trigger] r@[k]).wf(*c),
        forall|k: int| 0 <= k < r@.len() ==> (#[trigger] r@[k]).satiation == 0,
        forall|k: int| 0 <= k < r@.len() ==> offspring_of(*c, world.animals@, fs@, #[trigger] r@[k]),
{
    proof {
        assert forall|k: int| 0 <= k < fs@.len() implies #[trigger] fs@[k] <= 0xFFFF_FFFFu64 by {
            assert(fs@[k] == world.animals@[k].satiation as u64);
        }
    }
    let total: u64 = total_fitness(fs);
    let t = Topology { inputs: c.eye_cells, hidden: c.brain_neurons };
    let mut out: Vec<Animal> = Vec::new();
    let mut i: usize = 0;
    while i < c.population
        invariant
            c.wf(),
            world.wf(*c),
            t == topology_of(*c),
            fs@.len() == world.animals@.len(),
            forall|k: int| 0 <= k < fs@.len() ==> #[trigger] fs@[k] <= 0xFFFF_FFFFu64,
            total == total_of(fs@),
            i <= c.population,
            out@.len() == i,
            forall|k: int| 0 <= k < i ==> (#[trigger] out@[k]).wf(*c),
            forall|k: int| 0 <= k < i ==> (#[trigger] out@[k]).satiation == 0,
            forall|k: int|
                0 <= k < i ==> offspring_of(*c, world.animals@, fs@, #[trigger] out@[k]),
        decreases c.population - i,
    {
        let ia: usize = select(fs, total, rng);
        let ib: usize = select(fs, total, rng);
        let ca: Vec<i64> = world.animals[ia].brain.to_chromosome();
        let cb: Vec<i64> = world.animals[ib].brain.to_chromosome();
        proof {
            lemma_chromosome_len(world.animals@[ia as int].brain, t);
            lemma_chromosome_len(world.animals@[ib as int].brain, t);
        }
        let child: Vec<i64> = crossover_mutate(&ca, &cb, c, rng);
        let brain: Brain = match Brain::from_chromosome(&child, t) {
            Ok(b) => b,
            Err(_) => vstd::pervasive::unreached(),
        };
        let a: Animal = Animal::random(c, brain, rng);
        proof {
            assert(chromosome_of(a.brain) == child@);
            assert(child_genes_from(
                chromosome_of(a.brain),
                chromosome_of(world.animals@[ia as int].brain),
                chromosome_of(world.animals@[ib as int].brain),
                c.mutation_coeff as int,
            ));
            assert(offspring_of(*c, world.animals@, fs@, a));
        }
        out.push(a);
        i = i + 1;
    }
    out
}

/// Sum a fitness vector.
fn total_fitness(fs: &Vec<u64>) -> (r: u64)
    requires
        fs@.len() <= 10_000,
        forall|k: int| 0 <= k < fs@.len() ==> #[trigger] fs@[k] <= 0xFFFF_FFFFu64,
    ensures
        r == total_of(fs@),
{
    let mut sum: u64 = 0;
    let mut i: usize = 0;
    while i < fs.len()
        invariant
            i <= fs@.len(),
            fs@.len() <= 10_000,
            forall|k: int| 0 <= k < fs@.len() ==> #[trigger] fs@[k] <= 0xFFFF_FFFFu64,
            sum == total_of(fs@.take(i as int)),
            sum <= (i as int) * 0x1_0000_0000,
        decreases fs@.len() - i,
    {
        proof {
            lemma_total_take(fs@, i as int);
        }
        sum = sum + fs[i];
        i = i + 1;
    }
    proof {
        assert(fs@.take(fs@.len() as int) =~= fs@);
    }
    sum
}

} // verus!
