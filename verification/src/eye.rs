//! The vision sensor: a field of view split into equal angular sectors,
//! each accumulating energy from the food items it sees.
//!
//! Energy falls off linearly with distance, `(range - dist) / range`; where
//! several foods land in one cell their energies are summed and the sum is
//! clamped to `ONE` (one is the ceiling a single cell can report). The
//! whole computation is specified exactly by [`spec_vision`], a fold of
//! [`food_signal`] over the foods in order.

use vstd::prelude::*;
use crate::config::Config;
use crate::fx::{
    atan2_fx, clamp_i64, isqrt, mul_abs_le, spec_atan2, spec_clamp, spec_isqrt, spec_wrap_tau,
    wrap_tau, ONE, PI, TAU,
};
use crate::world::Food;

verus! {

/// The vision sensor's parameters, shared by the whole population.
#[derive(Clone, Copy, Debug, PartialEq, Eq, Structural)]
pub struct Eye {
    /// How far the eye sees, in micro-units of world width.
    pub fov_range: i64,
    /// Angular width of the field of view, micro-radians.
    pub fov_angle: i64,
    /// Number of equal angular sectors, one vision entry each.
    pub cells: usize,
}

/// The angular width of one cell, at least one micro-radian.
pub open spec fn per_cell_width(e: Eye) -> int {
    let raw = (e.fov_angle as int) / (e.cells as int);
    if raw < 1 {
        1
    } else {
        raw
    }
}

/// Where one food item lands in the vision vector, and with how much
/// energy: the cell found by floor-dividing the relative angle by the
/// per-cell width (clamped to the valid range), and the linear falloff
/// `(range - dist) * ONE / range` clamped into `[0, ONE]`. A food beyond
/// `fov_range` or outside the field of view contributes nothing.
pub open spec fn food_signal(e: Eye, x: i64, y: i64, rotation: i64, f: Food) -> Option<(int, i64)> {
    let dx = f.x - x;
    let dy = f.y - y;
    let d2 = dx * dx + dy * dy;
    let r2 = e.fov_range * e.fov_range;
    if d2 <= r2 {
        let dist = spec_isqrt(d2);
        let relw = spec_wrap_tau(spec_atan2(dy as int, dx as int) - rotation);
        let rel = if relw > PI {
            relw - TAU
        } else {
            relw
        };
        let half = (e.fov_angle as int) / 2;
        if -half <= rel <= half {
            let idx = spec_clamp((rel + half) / per_cell_width(e), 0, e.cells - 1);
            let energy = spec_clamp(((e.fov_range - dist) * ONE) / (e.fov_range as int), 0,
                ONE as int);
            Some((idx, energy as i64))
        } else {
            None
        }
    } else {
        None
    }
}

/// Accumulate one food's signal into the vision vector: its energy is
/// added to its cell, the sum clamped at `ONE`.
pub open spec fn apply_signal(cells: Seq<i64>, sig: Option<(int, i64)>) -> Seq<i64> {
    match sig {
        None => cells,
        Some((idx, energy)) => {
            let nv = cells[idx] + energy;
            cells.update(
                idx,
                if nv > ONE {
                    ONE as i64
                } else {
                    nv as i64
                },
            )
        },
    }
}

/// What the sensor reports: every cell starts at zero, and the foods'
/// signals are folded in, in food order.
pub open spec fn spec_vision(e: Eye, x: i64, y: i64, rotation: i64, foods: Seq<Food>) -> Seq<i64>
    decreases foods.len(),
{
    if foods.len() == 0 {
        Seq::new(e.cells as nat, |k: int| 0i64)
    } else {
        apply_signal(
            spec_vision(e, x, y, rotation, foods.drop_last()),
            food_signal(e, x, y, rotation, foods.last()),
        )
    }
}

/// The specified vision vector always has one entry per cell.
pub proof fn lemma_spec_vision_len(e: Eye, x: i64, y: i64, rotation: i64, foods: Seq<Food>)
    requires
        e.cells >= 1,
    ensures
        spec_vision(e, x, y, rotation, foods).len() == e.cells,
    decreases foods.len(),
{
    if foods.len() == 0 {
    } else {
        lemma_spec_vision_len(e, x, y, rotation, foods.drop_last());
        let prev = spec_vision(e, x, y, rotation, foods.drop_last());
        let sig = food_signal(e, x, y, rotation, foods.last());
        match sig {
            None => {},
            Some((idx, energy)) => {
                assert(0 <= idx < prev.len());
                assert(apply_signal(prev, sig).len() == prev.len());
            },
        }
    }
}

proof fn lemma_vision_take(e: Eye, x: i64, y: i64, rotation: i64, foods: Seq<Food>, j: int)
    requires
        0 <= j < foods.len(),
    ensures
        spec_vision(e, x, y, rotation, foods.take(j + 1)) == apply_signal(
            spec_vision(e, x, y, rotation, foods.take(j)),
            food_signal(e, x, y, rotation, foods[j]),
        ),
{
    assert(foods.take(j + 1).drop_last() =~= foods.take(j));
    assert(foods.take(j + 1).last() == foods[j]);
}

impl Eye {
    /// The machine domain of a sensor.
    pub open spec fn wf(&self) -> bool {
        &&& 0 < self.fov_range <= ONE
        &&& 0 < self.fov_angle <= TAU
        &&& 1 <= self.cells <= 1000
        &&& self.cells as i64 <= self.fov_angle
    }

    /// Whether a food item lies within the sensor's range of an observer
    /// at `(x, y)`, by squared distance.
    pub open spec fn in_range(&self, x: i64, y: i64, f: Food) -> bool {
        (f.x - x) * (f.x - x) + (f.y - y) * (f.y - y) <= self.fov_range * self.fov_range
    }

    /// Whether this sensor carries exactly the configured parameters.
    pub open spec fn matches(&self, c: Config) -> bool {
        &&& self.fov_range == c.eye_fov_range
        &&& self.fov_angle == c.eye_fov_angle
        &&& self.cells == c.eye_cells
    }

    /// The sensor a configuration dictates.
    pub fn from_config(c: &Config) -> (r: Eye)
        requires
            c.wf(),
        ensures
            r.matches(*c),
            r.wf(),
    {
        Eye { fov_range: c.eye_fov_range, fov_angle: c.eye_fov_angle, cells: c.eye_cells }
    }

    /// Sense the food items from an observer pose: exactly the fold
    /// [`spec_vision`] over the foods in order. The returned vector has
    /// one entry per cell, each in `[0, ONE]`, and is all zero when no
    /// food is in range.
    pub fn process(&self, x: i64, y: i64, rotation: i64, foods: &Vec<Food>) -> (r: Vec<i64>)
        requires
            self.wf(),
            0 <= x < ONE,
            0 <= y < ONE,
            0 <= rotation < TAU,
            forall|k: int| 0 <= k < foods@.len() ==> (#[trigger] foods@[k]).wf(),
        ensures
            r@ == spec_vision(*self, x, y, rotation, foods@),
            r@.len() == self.cells,
            forall|k: int| 0 <= k < r@.len() ==> 0 <= #[trigger] r@[k] <= ONE,
            (forall|k: int| 0 <= k < foods@.len() ==> !self.in_range(x, y, #[trigger] foods@[k]))
                ==> forall|k: int| 0 <= k < r@.len() ==> #[trigger] r@[k] == 0,
    {
        let mut cells: Vec<i64> = Vec::new();
        let mut z: usize = 0;
        while z < self.cells
            invariant
                z <= self.cells,
                cells@.len() == z,
                forall|k: int| 0 <= k < z ==> #[trigger] cells@[k] == 0,
            decreases self.cells - z,
        {
            cells.push(0);
            z = z + 1;
        }
        proof {
            assert(cells@ =~= Seq::new(self.cells as nat, |k: int| 0i64));
            assert(foods@.take(0) =~= Seq::<Food>::empty());
        }
        let per_cell_raw: i64 = self.fov_angle / (self.cells as i64);
        let per_cell: i64 = if per_cell_raw < 1 {
            1
        } else {
            per_cell_raw
        };
        let half: i64 = self.fov_angle / 2;
        let mut j: usize = 0;
        while j < foods.len()
            invariant
                j <= foods@.len(),
                self.wf(),
                0 <= x < ONE,
                0 <= y < ONE,
                0 <= rotation < TAU,
                forall|k: int| 0 <= k < foods@.len() ==> (#[trigger] foods@[k]).wf(),
                per_cell == per_cell_width(*self),
                1 <= per_cell,
                half == (self.fov_angle as int) / 2,
                0 <= half <= TAU,
                cells@.len() == self.cells,
                cells@ == spec_vision(*self, x, y, rotation, foods@.take(j as int)),
                forall|k: int| 0 <= k < cells@.len() ==> 0 <= #[trigger] cells@[k] <= ONE,
                (forall|k: int|
                    0 <= k < foods@.len() ==> !self.in_range(x, y, #[trigger] foods@[k]))
                    ==> forall|k: int| 0 <= k < cells@.len() ==> #[trigger] cells@[k] == 0,
            decreases foods@.len() - j,
        {
            let ghost prev: Seq<i64> = cells@;
            let ghost sig = food_signal(*self, x, y, rotation, foods@[j as int]);
            let f: Food = foods[j];
            let dx: i64 = f.x - x;
            let dy: i64 = f.y - y;
            proof {
                mul_abs_le(dx as int, dx as int, ONE as int, ONE as int);
                mul_abs_le(dy as int, dy as int, ONE as int, ONE as int);
                mul_abs_le(self.fov_range as int, self.fov_range as int, ONE as int, ONE as int);
                assert(dx * dx >= 0) by (nonlinear_arith);
                assert(dy * dy >= 0) by (nonlinear_arith);
                assert(self.fov_range * self.fov_range >= 0) by (nonlinear_arith);
            }
            let d2: i64 = dx * dx + dy * dy;
            let r2: i64 = self.fov_range * self.fov_range;
            if d2 <= r2 {
                let dist_u: u64 = isqrt(d2 as u64);
                proof {
                    assert(dist_u <= 2_000_000) by (nonlinear_arith)
                        requires
                            dist_u * dist_u <= 2_000_000_000_000int,
                            0 <= dist_u,
                    ;
                    assert(dist_u as int <= self.fov_range as int) by (nonlinear_arith)
                        requires
                            (dist_u as int) * (dist_u as int) <= d2 as int,
                            d2 as int <= (self.fov_range as int) * (self.fov_range as int),
                            0 <= dist_u as int,
                            0 < self.fov_range as int,
                    ;
                    assert(d2 as u64 as int == d2 as int);
                    assert(dist_u as int == spec_isqrt(d2 as int));
                }
                let dist: i64 = dist_u as i64;
                let rel0: i64 = atan2_fx(dy, dx) - rotation;
                let relw: i64 = wrap_tau(rel0);
                let rel: i64 = if relw > PI {
                    relw - TAU
                } else {
                    relw
                };
                if -half <= rel && rel <= half {
                    let idx0: i64 = (rel + half) / per_cell;
                    let idx: usize = clamp_i64(idx0, 0, self.cells as i64 - 1) as usize;
                    let energy: i64 = clamp_i64(
                        ((self.fov_range - dist) * ONE) / self.fov_range,
                        0,
                        ONE,
                    );
                    proof {
                        assert(sig == Some((idx as int, energy)));
                    }
                    let cur: i64 = cells[idx];
                    let mut nv: i64 = cur + energy;
                    if nv > ONE {
                        nv = ONE;
                    }
                    cells[idx] = nv;
                    proof {
                        assert(cells@ =~= apply_signal(prev, sig));
                    }
                } else {
                    proof {
                        assert(sig is None);
                    }
                }
            } else {
                proof {
                    assert(sig is None);
                }
            }
            proof {
                lemma_vision_take(*self, x, y, rotation, foods@, j as int);
            }
            j = j + 1;
        }
        proof {
            assert(foods@.take(foods@.len() as int) =~= foods@);
        }
        cells
    }
}

} // verus!
