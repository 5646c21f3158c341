//! Multi-fidelity single-objective functions.
//!
//! Evaluating one of these functions does not return a single number but a
//! finite sequence of `(cost, estimate)` pairs ordered from the cheapest,
//! coarsest estimate to the most expensive, most accurate one. The cost
//! bookkeeping — the geometric cost schedule, the non-decreasing order, the
//! maximum cost known without draining a sequence — is verified here; the
//! estimates themselves are carried as an opaque value type `V`, so a caller
//! can thread through whatever numeric representation it evaluates the
//! underlying formulas in.
use crate::Interval;
use crate::fixed::UNIT;
use vstd::arithmetic::power::pow;
use vstd::prelude::*;

verus! {

/// Resource expenditure for obtaining one fidelity-tagged estimate.
/// Valid costs are non-zero.
pub type Cost = u64;

/// A valid cost schedule: every cost is non-zero and costs never decrease
/// from one fidelity step to the next.
pub open spec fn cost_schedule_valid<V>(s: Seq<(Cost, V)>) -> bool {
    &&& forall|i: int| 0 <= i < s.len() ==> (#[trigger] s[i]).0 >= 1
    &&& forall|i: int, j: int|
        0 <= i <= j < s.len() ==> (#[trigger] s[i]).0 <= (#[trigger] s[j]).0
}

/// In a valid schedule, no cost exceeds the last one; draining a sequence
/// and keeping the final cost therefore yields the maximum cost.
pub proof fn lemma_schedule_last_is_max<V>(s: Seq<(Cost, V)>, i: int)
    requires
        cost_schedule_valid(s),
        0 <= i < s.len(),
    ensures
        s[i].0 <= s.last().0,
{
}

/// A finite, forward-only, single-pass sequence of `(Cost, value)` pairs
/// produced by one evaluation call. It is produced anew per call, owned
/// exclusively by the caller, and not restartable: once a pair has been
/// pulled it is gone, and a fully drained sequence yields nothing more.
#[derive(Debug)]
pub struct Outputs<V> {
    items: Vec<(Cost, V)>,
}

impl<V> View for Outputs<V> {
    type V = Seq<(Cost, V)>;

    /// The pairs still to be pulled, in pull order.
    closed spec fn view(&self) -> Seq<(Cost, V)> {
        self.items@
    }
}

impl<V> Outputs<V> {
    /// Wraps an ordered, finite list of `(cost, value)` pairs. Producers
    /// must present a valid (non-zero, non-decreasing) cost schedule.
    pub fn new(items: Vec<(Cost, V)>) -> (r: Outputs<V>)
        requires
            cost_schedule_valid(items@),
        ensures
            r@ == items@,
    {
        Outputs { items }
    }

    /// How many pairs are still to be pulled.
    pub fn remaining(&self) -> (n: usize)
        ensures
            n == self@.len(),
    {
        self.items.len()
    }

    /// Pulls the next (cheapest remaining) pair. Yields nothing once the
    /// sequence is exhausted, and an exhausted sequence stays exhausted.
    pub fn next(&mut self) -> (r: Option<(Cost, V)>)
        ensures
            old(self)@.len() == 0 ==> r is None && final(self)@ == old(self)@,
            old(self)@.len() > 0 ==> r == Some(old(self)@.first()) && final(self)@ == old(
                self,
            )@.drop_first(),
    {
        if self.items.len() == 0 {
            None
        } else {
            let e = self.items.remove(0);
            proof {
                assert(old(self)@.remove(0) =~= old(self)@.drop_first());
            }
            Some(e)
        }
    }

    /// The expensive fallback for learning the maximum cost: consume the
    /// whole sequence and report the last pair's cost. Afterwards the
    /// sequence is exhausted.
    pub fn drain_last_cost(&mut self) -> (r: Option<Cost>)
        ensures
            final(self)@.len() == 0,
            old(self)@.len() == 0 ==> r is None,
            old(self)@.len() > 0 ==> r == Some(old(self)@.last().0),
            cost_schedule_valid(old(self)@) ==> forall|i: int|
                0 <= i < old(self)@.len() ==> (#[trigger] old(self)@[i]).0 <= old(
                self)@.last().0,
    {
        proof {
            if cost_schedule_valid(self@) {
                assert forall|i: int| 0 <= i < self@.len() implies (#[trigger] self@[i]).0
                    <= self@.last().0 by {
                    lemma_schedule_last_is_max(self@, i);
                }
            }
        }
        if self.items.len() == 0 {
            None
        } else {
            let last = &self.items[self.items.len() - 1];
            let c = last.0;
            self.items.clear();
            Some(c)
        }
    }
}

/// Currin exponential function (2 fidelity): a cheap finite-difference
/// blend of the expensive formula at cost `1`, then the expensive formula
/// itself at cost `cost_factor`.
#[derive(Debug)]
pub struct CurrinExponential {
    cost_factor: u64,
}

impl CurrinExponential {
    pub closed spec fn spec_cost_factor(&self) -> int {
        self.cost_factor as int
    }

    pub open spec fn well_formed(&self) -> bool {
        self.spec_cost_factor() >= 1
    }

    /// The cost billed for the high-fidelity estimate; also the maximum cost.
    pub open spec fn spec_max_cost(&self) -> int {
        self.spec_cost_factor()
    }

    pub fn new(cost_factor: u64) -> (r: CurrinExponential)
        requires
            cost_factor >= 1,
        ensures
            r.spec_cost_factor() == cost_factor,
            r.well_formed(),
    {
        CurrinExponential { cost_factor }
    }

    pub fn cost_factor(&self) -> (r: u64)
        ensures
            r == self.spec_cost_factor(),
    {
        self.cost_factor
    }

    /// Input domain: the unit square.
    pub fn input_domain(&self) -> (r: Vec<Interval>)
        ensures
            r@.len() == 2,
            forall|i: int|
                0 <= i < r@.len() ==> (#[trigger] r@[i]).spec_min() == 0 && r@[i].spec_max()
                    == UNIT,
    {
        let mut r: Vec<Interval> = Vec::new();
        r.push(Interval::new_unchecked(0, UNIT));
        r.push(Interval::new_unchecked(0, UNIT));
        r
    }

    /// Pairs the caller's two fidelity estimates — the cheap approximation
    /// first, the expensive one second — with their costs, cheapest first.
    pub fn evaluate_with<V>(&self, low: V, high: V) -> (r: Outputs<V>)
        requires
            self.well_formed(),
        ensures
            r@.len() == 2,
            r@[0].0 == 1 && r@[0].1 == low,
            r@[1].0 == self.spec_cost_factor() && r@[1].1 == high,
            cost_schedule_valid(r@),
            r@.last().0 == self.spec_max_cost(),
    {
        let mut items: Vec<(Cost, V)> = Vec::new();
        items.push((1, low));
        items.push((self.cost_factor, high));
        Outputs::new(items)
    }

    /// Fast path: the maximum cost is the cost factor; no evaluation needs
    /// to be drained to learn it.
    pub fn max_cost(&self) -> (r: Cost)
        ensures
            r as int == self.spec_max_cost(),
    {
        self.cost_factor
    }
}

impl Default for CurrinExponential {
    fn default() -> (r: CurrinExponential)
        ensures
            r.spec_cost_factor() == 10,
            r.well_formed(),
    {
        CurrinExponential::new(10)
    }
}

/// Park function (2 fidelity): a cheap approximation at cost `1`, then
/// the expensive formula at cost `cost_factor`.
#[derive(Debug)]
pub struct Park {
    cost_factor: u64,
}

impl Park {
    pub closed spec fn spec_cost_factor(&self) -> int {
        self.cost_factor as int
    }

    pub open spec fn well_formed(&self) -> bool {
        self.spec_cost_factor() >= 1
    }

    pub open spec fn spec_max_cost(&self) -> int {
        self.spec_cost_factor()
    }

    pub fn new(cost_factor: u64) -> (r: Park)
        requires
            cost_factor >= 1,
        ensures
            r.spec_cost_factor() == cost_factor,
            r.well_formed(),
    {
        Park { cost_factor }
    }

    pub fn cost_factor(&self) -> (r: u64)
        ensures
            r == self.spec_cost_factor(),
    {
        self.cost_factor
    }

    /// Input domain: the unit hypercube in four dimensions.
    pub fn input_domain(&self) -> (r: Vec<Interval>)
        ensures
            r@.len() == 4,
            forall|i: int|
                0 <= i < r@.len() ==> (#[trigger] r@[i]).spec_min() == 0 && r@[i].spec_max()
                    == UNIT,
    {
        let mut r: Vec<Interval> = Vec::new();
        r.push(Interval::new_unchecked(0, UNIT));
        r.push(Interval::new_unchecked(0, UNIT));
        r.push(Interval::new_unchecked(0, UNIT));
        r.push(Interval::new_unchecked(0, UNIT));
        r
    }

    /// Pairs the caller's two fidelity estimates — the cheap approximation
    /// first, the expensive one second — with their costs, cheapest first.
    pub fn evaluate_with<V>(&self, low: V, high: V) -> (r: Outputs<V>)
        requires
            self.well_formed(),
        ensures
            r@.len() == 2,
            r@[0].0 == 1 && r@[0].1 == low,
            r@[1].0 == self.spec_cost_factor() && r@[1].1 == high,
            cost_schedule_valid(r@),
            r@.last().0 == self.spec_max_cost(),
    {
        let mut items: Vec<(Cost, V)> = Vec::new();
        items.push((1, low));
        items.push((self.cost_factor, high));
        Outputs::new(items)
    }

    pub fn max_cost(&self) -> (r: Cost)
        ensures
            r as int == self.spec_max_cost(),
    {
        self.cost_factor
    }
}

impl Default for Park {
    fn default() -> (r: Park)
        ensures
            r.spec_cost_factor() == 10,
            r.well_formed(),
    {
        Park::new(10)
    }
}

/// Borehole function (2 fidelity).
#[derive(Debug)]
pub struct Borehole {
    cost_factor: u64,
}

impl Borehole {
    pub closed spec fn spec_cost_factor(&self) -> int {
        self.cost_factor as int
    }

    pub open spec fn well_formed(&self) -> bool {
        self.spec_cost_factor() >= 1
    }

    pub open spec fn spec_max_cost(&self) -> int {
        self.spec_cost_factor()
    }

    pub fn new(cost_factor: u64) -> (r: Borehole)
        requires
            cost_factor >= 1,
        ensures
            r.spec_cost_factor() == cost_factor,
            r.well_formed(),
    {
        Borehole { cost_factor }
    }

    pub fn cost_factor(&self) -> (r: u64)
        ensures
            r == self.spec_cost_factor(),
    {
        self.cost_factor
    }

    /// Input domain: the eight physical parameter ranges of the borehole
    /// model, as fixed-point values.
    pub fn input_domain(&self) -> (r: Vec<Interval>)
        ensures
            r@.len() == 8,
            forall|i: int| 0 <= i < r@.len() ==> (#[trigger] r@[i]).well_formed(),
            r@[0].spec_min() == 500_000 && r@[0].spec_max() == 1_500_000,
            r@[1].spec_min() == 1_000_000_000 && r@[1].spec_max() == 500_000_000_000,
            r@[2].spec_min() == 630_700_000_000 && r@[2].spec_max() == 1_156_000_000_000,
            r@[3].spec_min() == 9_900_000_000 && r@[3].spec_max() == 11_100_000_000,
            r@[4].spec_min() == 631_000_000 && r@[4].spec_max() == 1_160_000_000,
            r@[5].spec_min() == 7_000_000_000 && r@[5].spec_max() == 8_200_000_000,
            r@[6].spec_min() == 11_200_000_000 && r@[6].spec_max() == 16_800_000_000,
            r@[7].spec_min() == 98_550_000_000 && r@[7].spec_max() == 120_450_000_000,
    {
        let mut r: Vec<Interval> = Vec::new();
        r.push(Interval::new_unchecked(500_000, 1_500_000));
        r.push(Interval::new_unchecked(1_000_000_000, 500_000_000_000));
        r.push(Interval::new_unchecked(630_700_000_000, 1_156_000_000_000));
        r.push(Interval::new_unchecked(9_900_000_000, 11_100_000_000));
        r.push(Interval::new_unchecked(631_000_000, 1_160_000_000));
        r.push(Interval::new_unchecked(7_000_000_000, 8_200_000_000));
        r.push(Interval::new_unchecked(11_200_000_000, 16_800_000_000));
        r.push(Interval::new_unchecked(98_550_000_000, 120_450_000_000));
        r
    }

    /// Pairs the caller's two fidelity estimates — the cheap approximation
    /// first, the expensive one second — with their costs, cheapest first.
    pub fn evaluate_with<V>(&self, low: V, high: V) -> (r: Outputs<V>)
        requires
            self.well_formed(),
        ensures
            r@.len() == 2,
            r@[0].0 == 1 && r@[0].1 == low,
            r@[1].0 == self.spec_cost_factor() && r@[1].1 == high,
            cost_schedule_valid(r@),
            r@.last().0 == self.spec_max_cost(),
    {
        let mut items: Vec<(Cost, V)> = Vec::new();
        items.push((1, low));
        items.push((self.cost_factor, high));
        Outputs::new(items)
    }

    pub fn max_cost(&self) -> (r: Cost)
        ensures
            r as int == self.spec_max_cost(),
    {
        self.cost_factor
    }
}

impl Default for Borehole {
    fn default() -> (r: Borehole)
        ensures
            r.spec_cost_factor() == 10,
            r.well_formed(),
    {
        Borehole::new(10)
    }
}

/// Hartmann-3D function (multi fidelity): one estimate per fidelity tier
/// `1..=max_fidelity`, tier `m` billed `cost_factor^(m - 1)`; higher
/// fidelity is geometrically more expensive.
#[derive(Debug, Clone)]
pub struct Hartmann3d {
    max_fidelity: u8,
    cost_factor: u64,
}

impl Hartmann3d {
    pub closed spec fn spec_max_fidelity(&self) -> int {
        self.max_fidelity as int
    }

    pub closed spec fn spec_cost_factor(&self) -> int {
        self.cost_factor as int
    }

    /// Well-formed: at least one tier, a non-zero cost factor, and the
    /// most expensive tier's cost representable in a `Cost`.
    pub open spec fn well_formed(&self) -> bool {
        &&& self.spec_max_fidelity() >= 1
        &&& self.spec_cost_factor() >= 1
        &&& pow(self.spec_cost_factor(), (self.spec_max_fidelity() - 1) as nat) <= u64::MAX as int
    }

    /// The cost of the highest fidelity tier: `cost_factor^(max_fidelity - 1)`.
    pub open spec fn spec_max_cost(&self) -> int {
        pow(self.spec_cost_factor(), (self.spec_max_fidelity() - 1) as nat)
    }

    pub fn new(max_fidelity: u8, cost_factor: u64) -> (r: Hartmann3d)
        requires
            max_fidelity >= 1,
            cost_factor >= 1,
            pow(cost_factor as int, (max_fidelity - 1) as nat) <= u64::MAX as int,
        ensures
            r.spec_max_fidelity() == max_fidelity,
            r.spec_cost_factor() == cost_factor,
            r.well_formed(),
    {
        Hartmann3d { max_fidelity, cost_factor }
    }

    pub fn max_fidelity(&self) -> (r: u8)
        ensures
            r == self.spec_max_fidelity(),
    {
        self.max_fidelity
    }

    pub fn cost_factor(&self) -> (r: u64)
        ensures
            r == self.spec_cost_factor(),
    {
        self.cost_factor
    }

    /// The per-tier weight for summand `i`: the base weight shifted by a
    /// per-summand delta for each tier below the maximum, so the four
    /// weights drift toward their true values as fidelity rises.
    pub open spec fn spec_alpha(&self, m: int, i: int) -> int {
        spec_alpha_table(i) + (self.spec_max_fidelity() - m) * spec_alpha_delta(i)
    }

    /// The fixed-point weight `alpha` used by tier `m` in summand `i`.
    pub fn alpha(&self, m: u8, i: usize) -> (r: i64)
        requires
            1 <= m <= self.spec_max_fidelity(),
            i < 4,
        ensures
            r as int == self.spec_alpha(m as int, i as int),
    {
        alpha_for(self.max_fidelity, m, i)
    }

    /// Input domain: the unit cube.
    pub fn input_domain(&self) -> (r: Vec<Interval>)
        ensures
            r@.len() == 3,
            forall|i: int|
                0 <= i < r@.len() ==> (#[trigger] r@[i]).spec_min() == 0 && r@[i].spec_max()
                    == UNIT,
    {
        let mut r: Vec<Interval> = Vec::new();
        r.push(Interval::new_unchecked(0, UNIT));
        r.push(Interval::new_unchecked(0, UNIT));
        r.push(Interval::new_unchecked(0, UNIT));
        r
    }

    /// The full cost schedule, one cost per fidelity tier:
    /// `[cost_factor^0, cost_factor^1, ...]`.
    pub fn costs(&self) -> (r: Vec<Cost>)
        requires
            self.well_formed(),
        ensures
            r@.len() == self.spec_max_fidelity(),
            forall|m: int|
                0 <= m < r@.len() ==> (#[trigger] r@[m]) as int == pow(
                    self.spec_cost_factor(),
                    m as nat,
                ),
    {
        geometric_costs(self.max_fidelity, self.cost_factor)
    }

    /// Pairs the caller's per-tier estimates, lowest fidelity first, with
    /// the geometric cost schedule.
    pub fn evaluate_with<V>(&self, values: Vec<V>) -> (r: Outputs<V>)
        requires
            self.well_formed(),
            values@.len() == self.spec_max_fidelity(),
        ensures
            r@.len() == self.spec_max_fidelity(),
            forall|m: int|
                0 <= m < r@.len() ==> (#[trigger] r@[m]).0 as int == pow(
                    self.spec_cost_factor(),
                    m as nat,
                ) && r@[m].1 == values@[m],
            cost_schedule_valid(r@),
            r@.last().0 as int == self.spec_max_cost(),
    {
        let costs = self.costs();
        proof {
            assert forall|i: int| 0 <= i < costs@.len() implies (#[trigger] costs@[i]) >= 1 by {
                vstd::arithmetic::power::lemma_pow_positive(self.spec_cost_factor(), i as nat);
            }
            assert forall|i: int, j: int|
                0 <= i <= j < costs@.len() implies (#[trigger] costs@[i]) <= (#[trigger] costs@[
                j]) by {
                vstd::arithmetic::power::lemma_pow_increases(
                    self.spec_cost_factor() as nat,
                    i as nat,
                    j as nat,
                );
            }
        }
        pair_with_costs(costs, values)
    }

    /// Fast path: the maximum cost is the last tier's cost, known without
    /// draining an evaluation.
    pub fn max_cost(&self) -> (r: Cost)
        requires
            self.well_formed(),
        ensures
            r as int == self.spec_max_cost(),
    {
        let costs = self.costs();
        let i = costs.len() - 1;
        costs[i]
    }
}

impl Default for Hartmann3d {
    fn default() -> (r: Hartmann3d)
        ensures
            r.spec_max_fidelity() == 3,
            r.spec_cost_factor() == 10,
            r.well_formed(),
    {
        proof {
            reveal_with_fuel(pow, 4);
            assert(pow(10, 2) == 100);
        }
        Hartmann3d::new(3, 10)
    }
}

/// Hartmann-6D function (multi fidelity); same cost model as
/// [`Hartmann3d`], over a six-dimensional domain.
#[derive(Debug, Clone)]
pub struct Hartmann6d {
    max_fidelity: u8,
    cost_factor: u64,
}

impl Hartmann6d {
    pub closed spec fn spec_max_fidelity(&self) -> int {
        self.max_fidelity as int
    }

    pub closed spec fn spec_cost_factor(&self) -> int {
        self.cost_factor as int
    }

    /// Well-formed: at least one tier, a non-zero cost factor, and the
    /// most expensive tier's cost representable in a `Cost`.
    pub open spec fn well_formed(&self) -> bool {
        &&& self.spec_max_fidelity() >= 1
        &&& self.spec_cost_factor() >= 1
        &&& pow(self.spec_cost_factor(), (self.spec_max_fidelity() - 1) as nat) <= u64::MAX as int
    }

    /// The cost of the highest fidelity tier: `cost_factor^(max_fidelity - 1)`.
    pub open spec fn spec_max_cost(&self) -> int {
        pow(self.spec_cost_factor(), (self.spec_max_fidelity() - 1) as nat)
    }

    pub fn new(max_fidelity: u8, cost_factor: u64) -> (r: Hartmann6d)
        requires
            max_fidelity >= 1,
            cost_factor >= 1,
            pow(cost_factor as int, (max_fidelity - 1) as nat) <= u64::MAX as int,
        ensures
            r.spec_max_fidelity() == max_fidelity,
            r.spec_cost_factor() == cost_factor,
            r.well_formed(),
    {
        Hartmann6d { max_fidelity, cost_factor }
    }

    pub fn max_fidelity(&self) -> (r: u8)
        ensures
            r == self.spec_max_fidelity(),
    {
        self.max_fidelity
    }

    pub fn cost_factor(&self) -> (r: u64)
        ensures
            r == self.spec_cost_factor(),
    {
        self.cost_factor
    }

    /// The per-tier weight for summand `i`; see [`Hartmann3d::spec_alpha`].
    pub open spec fn spec_alpha(&self, m: int, i: int) -> int {
        spec_alpha_table(i) + (self.spec_max_fidelity() - m) * spec_alpha_delta(i)
    }

    /// The fixed-point weight `alpha` used by tier `m` in summand `i`.
    pub fn alpha(&self, m: u8, i: usize) -> (r: i64)
        requires
            1 <= m <= self.spec_max_fidelity(),
            i < 4,
        ensures
            r as int == self.spec_alpha(m as int, i as int),
    {
        alpha_for(self.max_fidelity, m, i)
    }

    /// Input domain: the unit hypercube in six dimensions.
    pub fn input_domain(&self) -> (r: Vec<Interval>)
        ensures
            r@.len() == 6,
            forall|i: int|
                0 <= i < r@.len() ==> (#[trigger] r@[i]).spec_min() == 0 && r@[i].spec_max()
                    == UNIT,
    {
        let mut r: Vec<Interval> = Vec::new();
        r.push(Interval::new_unchecked(0, UNIT));
        r.push(Interval::new_unchecked(0, UNIT));
        r.push(Interval::new_unchecked(0, UNIT));
        r.push(Interval::new_unchecked(0, UNIT));
        r.push(Interval::new_unchecked(0, UNIT));
        r.push(Interval::new_unchecked(0, UNIT));
        r
    }

    /// The full cost schedule, one cost per fidelity tier:
    /// `[cost_factor^0, cost_factor^1, ...]`.
    pub fn costs(&self) -> (r: Vec<Cost>)
        requires
            self.well_formed(),
        ensures
            r@.len() == self.spec_max_fidelity(),
            forall|m: int|
                0 <= m < r@.len() ==> (#[trigger] r@[m]) as int == pow(
                    self.spec_cost_factor(),
                    m as nat,
                ),
    {
        geometric_costs(self.max_fidelity, self.cost_factor)
    }

    /// Pairs the caller's per-tier estimates, lowest fidelity first, with
    /// the geometric cost schedule.
    pub fn evaluate_with<V>(&self, values: Vec<V>) -> (r: Outputs<V>)
        requires
            self.well_formed(),
            values@.len() == self.spec_max_fidelity(),
        ensures
            r@.len() == self.spec_max_fidelity(),
            forall|m: int|
                0 <= m < r@.len() ==> (#[trigger] r@[m]).0 as int == pow(
                    self.spec_cost_factor(),
                    m as nat,
                ) && r@[m].1 == values@[m],
            cost_schedule_valid(r@),
            r@.last().0 as int == self.spec_max_cost(),
    {
        let costs = self.costs();
        proof {
            assert forall|i: int| 0 <= i < costs@.len() implies (#[trigger] costs@[i]) >= 1 by {
                vstd::arithmetic::power::lemma_pow_positive(self.spec_cost_factor(), i as nat);
            }
            assert forall|i: int, j: int|
                0 <= i <= j < costs@.len() implies (#[trigger] costs@[i]) <= (#[trigger] costs@[
                j]) by {
                vstd::arithmetic::power::lemma_pow_increases(
                    self.spec_cost_factor() as nat,
                    i as nat,
                    j as nat,
                );
            }
        }
        pair_with_costs(costs, values)
    }

    /// Fast path: the maximum cost is the last tier's cost, known without
    /// draining an evaluation.
    pub fn max_cost(&self) -> (r: Cost)
        requires
            self.well_formed(),
        ensures
            r as int == self.spec_max_cost(),
    {
        let costs = self.costs();
        let i = costs.len() - 1;
        costs[i]
    }
}

impl Default for Hartmann6d {
    fn default() -> (r: Hartmann6d)
        ensures
            r.spec_max_fidelity() == 4,
            r.spec_cost_factor() == 10,
            r.well_formed(),
    {
        proof {
            reveal_with_fuel(pow, 5);
            assert(pow(10, 3) == 1000);
        }
        Hartmann6d::new(4, 10)
    }
}

/// Base weights of the four Hartmann summands (`1.0, 1.2, 3.0, 3.2` in
/// fixed point).
pub open spec fn spec_alpha_table(i: int) -> int {
    if i == 0 {
        10_000_000
    } else if i == 1 {
        12_000_000
    } else if i == 2 {
        30_000_000
    } else {
        32_000_000
    }
}

/// Per-tier drift of the four Hartmann summand weights
/// (`0.01, -0.01, -0.1, 0.1` in fixed point).
pub open spec fn spec_alpha_delta(i: int) -> int {
    if i == 0 {
        100_000
    } else if i == 1 {
        -100_000
    } else if i == 2 {
        -1_000_000
    } else {
        1_000_000
    }
}

fn alpha_for(max_fidelity: u8, m: u8, i: usize) -> (r: i64)
    requires
        1 <= m <= max_fidelity,
        i < 4,
    ensures
        r as int == spec_alpha_table(i as int) + (max_fidelity - m) * spec_alpha_delta(i as int),
{
    let base: i64 = if i == 0 {
        10_000_000
    } else if i == 1 {
        12_000_000
    } else if i == 2 {
        30_000_000
    } else {
        32_000_000
    };
    let delta: i64 = if i == 0 {
        100_000
    } else if i == 1 {
        -100_000
    } else if i == 2 {
        -1_000_000
    } else {
        1_000_000
    };
    let gap: i64 = (max_fidelity - m) as i64;
    base + gap * delta
}

/// `[factor^0, factor^1, ..., factor^(tiers - 1)]`.
fn geometric_costs(tiers: u8, factor: u64) -> (r: Vec<Cost>)
    requires
        tiers >= 1,
        factor >= 1,
        pow(factor as int, (tiers - 1) as nat) <= u64::MAX as int,
    ensures
        r@.len() == tiers,
        forall|m: int| 0 <= m < r@.len() ==> (#[trigger] r@[m]) as int == pow(factor as int, m as nat),
{
    let mut r: Vec<Cost> = Vec::new();
    let mut c: u64 = 1;
    let mut m: u8 = 0;
    proof {
        vstd::arithmetic::power::lemma_pow0(factor as int);
        vstd::arithmetic::power::lemma_pow_positive(factor as int, 0);
    }
    while m < tiers
        invariant
            m <= tiers,
            tiers >= 1,
            factor >= 1,
            pow(factor as int, (tiers - 1) as nat) <= u64::MAX as int,
            m < tiers ==> c as int == pow(factor as int, m as nat),
            r@.len() == m,
            forall|k: int|
                0 <= k < r@.len() ==> (#[trigger] r@[k]) as int == pow(factor as int, k as nat),
        decreases tiers - m,
    {
        r.push(c);
        m = m + 1;
        if m < tiers {
            proof {
                reveal_with_fuel(pow, 2);
                vstd::arithmetic::power::lemma_pow_increases(factor as nat, m as nat, (tiers
                    - 1) as nat);
                assert(pow(factor as int, m as nat) == (factor as int) * pow(
                    factor as int,
                    (m - 1) as nat,
                ));
                assert((c as int) * (factor as int) == (factor as int) * (c as int))
                    by (nonlinear_arith);
            }
            c = c * factor;
        }
    }
    r
}

/// Zips a cost schedule with per-tier values, cheapest tier first.
fn pair_with_costs<V>(costs: Vec<Cost>, values: Vec<V>) -> (r: Outputs<V>)
    requires
        costs@.len() == values@.len(),
        forall|i: int| 0 <= i < costs@.len() ==> (#[trigger] costs@[i]) >= 1,
        forall|i: int, j: int|
            0 <= i <= j < costs@.len() ==> (#[trigger] costs@[i]) <= (#[trigger] costs@[j]),
    ensures
        r@.len() == costs@.len(),
        forall|m: int|
            0 <= m < r@.len() ==> (#[trigger] r@[m]).0 == costs@[m] && r@[m].1 == values@[m],
        cost_schedule_valid(r@),
{
    let ghost all_values = values@;
    let mut rest = values;
    let mut items: Vec<(Cost, V)> = Vec::new();
    let mut m: usize = 0;
    let n = costs.len();
    while m < n
        invariant
            m <= n,
            n == costs@.len(),
            all_values.len() == n,
            rest@ == all_values.skip(m as int),
            items@.len() == m,
            forall|k: int|
                0 <= k < items@.len() ==> (#[trigger] items@[k]).0 == costs@[k] && items@[k].1
                    == all_values[k],
            forall|i: int| 0 <= i < costs@.len() ==> (#[trigger] costs@[i]) >= 1,
            forall|i: int, j: int|
                0 <= i <= j < costs@.len() ==> (#[trigger] costs@[i]) <= (#[trigger] costs@[j]),
        decreases n - m,
    {
        let c = costs[m];
        let v = rest.remove(0);
        proof {
            assert(all_values.skip(m as int).remove(0) =~= all_values.skip(m as int + 1));
            assert(v == all_values.skip(m as int)[0]);
            assert(v == all_values[m as int]);
        }
        items.push((c, v));
        m = m + 1;
    }
    Outputs::new(items)
}

} // verus!

