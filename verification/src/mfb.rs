//! Multi-fidelity benchmark construction by error injection.
//!
//! A cheap "true" objective is perturbed by a pluggable error model to
//! emulate cheaper, less faithful approximations. Three independent model
//! families exist: resolution error (a deterministic oscillatory bias),
//! stochastic error (a normally distributed perturbation), and instability
//! error (a rare lump penalty). Each is parameterized by a fidelity level
//! and decays as fidelity rises.
//!
//! Fidelity levels are fixed-point values in thousandths, ranging over
//! `[0, 10000)` real units. All other quantities (coordinates, error
//! terms, probabilities) use the crate-wide scale [`UNIT`].
//!
//! The two effectful ingredients stay with the caller: transcendental
//! factors (the cosine of an oscillation argument) enter as fixed-point
//! inputs bounded by one, and random draws enter as explicit arguments, so
//! every function here is deterministic and verified for every value the
//! caller's randomness source may produce.
use crate::fixed::{COORD_LIMIT, MAX_DIMENSION, UNIT, abs, fixmul, fixmul_spec, lemma_fixmul_bounded,
    quot_trunc};
use vstd::prelude::*;

verus! {

/// A fidelity level in fixed-point thousandths: `1000` stands for a
/// fidelity of `1.0`. The conventional range is `[0, 10000)` real units;
/// lower values mean cheaper, noisier evaluation.
pub type FidelityLevel = i64;

/// Upper bound (exclusive) of the valid fidelity range, in thousandths.
pub const FIDELITY_LIMIT: i64 = 10_000_000;

/// The conventional fidelity range `[0, 10000)`, in thousandths.
pub open spec fn fidelity_valid(phi: int) -> bool {
    0 <= phi < FIDELITY_LIMIT as int
}

/// Largest magnitude accepted for the wrapped objective's true value.
pub const VALUE_LIMIT: i64 = 1_000_000_000_000_000_000;

/// How the resource cost of one estimate depends on the fidelity level.
pub trait Cost: Sized {
    /// The cost charged at fidelity `phi`, as a mathematical integer.
    spec fn cost_spec(&self, phi: int) -> int;

    /// The cost charged at fidelity `phi`.
    fn cost(&self, phi: FidelityLevel) -> (r: u64)
        requires
            fidelity_valid(phi as int),
        ensures
            r as int == self.cost_spec(phi as int),
    ;
}

/// Cost equal to the fidelity level itself, truncated to whole units.
#[derive(Debug)]
pub struct LinearCost;

impl Cost for LinearCost {
    open spec fn cost_spec(&self, phi: int) -> int {
        phi / 1000
    }

    fn cost(&self, phi: FidelityLevel) -> (r: u64) {
        (phi as u64) / 1000
    }
}

/// Cost growing with the fourth power of the fidelity level:
/// `(0.001 * phi)^4`, truncated to whole units.
#[derive(Debug)]
pub struct NonLinearCost;

impl Cost for NonLinearCost {
    open spec fn cost_spec(&self, phi: int) -> int {
        (phi * phi * phi * phi) / 1_000_000_000_000_000_000_000_000
    }

    fn cost(&self, phi: FidelityLevel) -> (r: u64) {
        let p: u128 = phi as u128;
        proof {
            assert(p * p < 100_000_000_000_000) by (nonlinear_arith)
                requires
                    p < 10_000_000,
            ;
        }
        let p2: u128 = p * p;
        proof {
            assert(p2 * p2 < 10_000_000_000_000_000_000_000_000_000) by (nonlinear_arith)
                requires
                    p2 < 100_000_000_000_000,
            ;
            assert(p2 as int == (phi as int) * (phi as int));
        }
        let p4: u128 = p2 * p2;
        proof {
            assert(p4 as int == (phi as int) * (phi as int) * (phi as int) * (phi as int))
                by (nonlinear_arith)
                requires
                    p4 == p2 * p2,
                    p2 as int == (phi as int) * (phi as int),
            ;
            vstd::arithmetic::div_mod::lemma_div_is_ordered(
                p4 as int,
                10_000_000_000_000_000_000_000_000_000,
                1_000_000_000_000_000_000_000_000,
            );
        }
        (p4 / 1_000_000_000_000_000_000_000_000u128) as u64
    }
}

/// Both built-in cost models charge non-decreasing costs as fidelity
/// rises, so a sorted level list always yields a valid cost schedule.
pub proof fn lemma_linear_cost_monotone(c: LinearCost, phi1: int, phi2: int)
    requires
        0 <= phi1 <= phi2,
    ensures
        c.cost_spec(phi1) <= c.cost_spec(phi2),
{
    vstd::arithmetic::div_mod::lemma_div_is_ordered(phi1, phi2, 1000);
}

/// See [`lemma_linear_cost_monotone`].
pub proof fn lemma_nonlinear_cost_monotone(c: NonLinearCost, phi1: int, phi2: int)
    requires
        0 <= phi1 <= phi2,
    ensures
        c.cost_spec(phi1) <= c.cost_spec(phi2),
{
    assert(phi1 * phi1 * phi1 * phi1 <= phi2 * phi2 * phi2 * phi2) by (nonlinear_arith)
        requires
            0 <= phi1 <= phi2,
    ;
    vstd::arithmetic::div_mod::lemma_div_is_ordered(
        phi1 * phi1 * phi1 * phi1,
        phi2 * phi2 * phi2 * phi2,
        1_000_000_000_000_000_000_000_000,
    );
}

/// A deterministic oscillatory bias emulating coarse sampling resolution.
///
/// The aggregate error for a point `xs` at fidelity `phi` is
/// `sum_i a(x_i, phi) * cos(w(phi) * x_i + b(phi) + pi)`: an amplitude
/// per coordinate times an oscillation factor. The amplitude `a` is
/// verified here in fixed point; the oscillation factor — a cosine, hence
/// within `[-1, 1]` — is computed by the caller and handed in, as is the
/// decay profile `theta` from which the caller derives the frequency
/// `w = 10 * pi * theta` and offset `b = 0.5 * pi * theta`.
pub trait ResolutionError: Sized {
    /// Which coordinates the model accepts.
    spec fn x_ok(&self, x: int) -> bool;

    /// The model's fidelity-decay profile, in fixed point.
    spec fn theta_spec(&self, phi: int) -> int;

    /// The oscillation amplitude at coordinate `x` and fidelity `phi`.
    spec fn a_spec(&self, x: int, phi: int) -> int;

    /// Law: `theta` lies within `[0, 1]` and bounds the amplitude's
    /// magnitude.
    proof fn lemma_a_within_theta(&self, x: int, phi: int)
        requires
            fidelity_valid(phi),
            self.x_ok(x),
        ensures
            0 <= self.theta_spec(phi) <= UNIT as int,
            abs(self.a_spec(x, phi)) <= self.theta_spec(phi),
    ;

    /// Law: `theta` never increases as fidelity rises.
    proof fn lemma_theta_decay(&self, phi_lo: int, phi_hi: int)
        requires
            fidelity_valid(phi_lo),
            fidelity_valid(phi_hi),
            phi_lo <= phi_hi,
        ensures
            self.theta_spec(phi_hi) <= self.theta_spec(phi_lo),
    ;

    /// The decay profile at fidelity `phi`.
    fn theta(&self, phi: FidelityLevel) -> (r: i64)
        requires
            fidelity_valid(phi as int),
        ensures
            r as int == self.theta_spec(phi as int),
    ;

    /// The oscillation amplitude at coordinate `x` and fidelity `phi`.
    fn a(&self, x: i64, phi: FidelityLevel) -> (r: i64)
        requires
            fidelity_valid(phi as int),
            self.x_ok(x as int),
        ensures
            r as int == self.a_spec(x as int, phi as int),
    ;
}

/// Every coordinate of `xs` is acceptable to the model `e`.
pub open spec fn xs_ok_for<E: ResolutionError>(e: E, xs: Seq<i64>) -> bool {
    forall|i: int| 0 <= i < xs.len() ==> e.x_ok((#[trigger] xs[i]) as int)
}

/// Oscillation factors are fixed-point cosines: each within `[-1, 1]`.
pub open spec fn oscillations_ok(osc: Seq<i64>) -> bool {
    forall|i: int| 0 <= i < osc.len() ==> -(UNIT as int) <= (#[trigger] osc[i]) <= UNIT as int
}

/// The aggregate resolution error: the sum over coordinates of the
/// model's amplitude times the caller-supplied oscillation factor.
pub open spec fn resolution_error_spec<E: ResolutionError>(
    e: E,
    xs: Seq<i64>,
    phi: int,
    osc: Seq<i64>,
) -> int
    decreases xs.len(),
{
    if xs.len() == 0 {
        0
    } else {
        resolution_error_spec(e, xs.drop_last(), phi, osc.drop_last()) + fixmul_spec(
            e.a_spec(xs.last() as int, phi),
            osc.last() as int,
        )
    }
}

/// The aggregate resolution error stays within an amplitude envelope of
/// `dimension * theta(phi)`.
pub proof fn lemma_resolution_error_bound<E: ResolutionError>(
    e: E,
    xs: Seq<i64>,
    phi: int,
    osc: Seq<i64>,
)
    requires
        fidelity_valid(phi),
        osc.len() == xs.len(),
        xs_ok_for(e, xs),
        oscillations_ok(osc),
    ensures
        abs(resolution_error_spec(e, xs, phi, osc)) <= xs.len() * e.theta_spec(phi),
    decreases xs.len(),
{
    if xs.len() == 0 {
    } else {
        assert(xs_ok_for(e, xs.drop_last()) && oscillations_ok(osc.drop_last())) by {
            assert(forall|i: int|
                0 <= i < xs.drop_last().len() ==> (#[trigger] xs.drop_last()[i]) == xs[i]);
            assert(forall|i: int|
                0 <= i < osc.drop_last().len() ==> (#[trigger] osc.drop_last()[i]) == osc[i]);
        }
        lemma_resolution_error_bound(e, xs.drop_last(), phi, osc.drop_last());
        e.lemma_a_within_theta(xs.last() as int, phi);
        lemma_fixmul_bounded(e.a_spec(xs.last() as int, phi), osc.last() as int);
        assert((xs.len() - 1) * e.theta_spec(phi) + e.theta_spec(phi) == xs.len() * e.theta_spec(
            phi,
        )) by (nonlinear_arith);
    }
}

/// Monotonic decay of the injected resolution error: for any
/// decaying-amplitude model, the error at the higher fidelity is confined
/// to a band around zero no wider than the band that confines the error at
/// the lower fidelity, whatever admissible oscillation factors each
/// evaluation produced.
pub proof fn lemma_resolution_error_decay<E: ResolutionError>(
    e: E,
    xs: Seq<i64>,
    phi_lo: int,
    phi_hi: int,
    osc_lo: Seq<i64>,
    osc_hi: Seq<i64>,
)
    requires
        fidelity_valid(phi_lo),
        fidelity_valid(phi_hi),
        phi_lo <= phi_hi,
        osc_lo.len() == xs.len(),
        osc_hi.len() == xs.len(),
        xs_ok_for(e, xs),
        oscillations_ok(osc_lo),
        oscillations_ok(osc_hi),
    ensures
        abs(resolution_error_spec(e, xs, phi_hi, osc_hi)) <= xs.len() * e.theta_spec(phi_hi),
        xs.len() * e.theta_spec(phi_hi) <= xs.len() * e.theta_spec(phi_lo),
        abs(resolution_error_spec(e, xs, phi_lo, osc_lo)) <= xs.len() * e.theta_spec(phi_lo),
{
    lemma_resolution_error_bound(e, xs, phi_hi, osc_hi);
    lemma_resolution_error_bound(e, xs, phi_lo, osc_lo);
    e.lemma_theta_decay(phi_lo, phi_hi);
    assert(xs.len() * e.theta_spec(phi_hi) <= xs.len() * e.theta_spec(phi_lo))
        by (nonlinear_arith)
        requires
            e.theta_spec(phi_hi) <= e.theta_spec(phi_lo),
            xs.len() >= 0,
    ;
}

/// Computes the aggregate resolution error of model `e` at point `xs` and
/// fidelity `phi`, given the oscillation factors `oscillations` (the
/// cosines of the per-coordinate oscillation arguments, in fixed point).
pub fn resolution_error<E: ResolutionError>(
    e: &E,
    xs: &Vec<i64>,
    phi: FidelityLevel,
    oscillations: &Vec<i64>,
) -> (r: i64)
    requires
        fidelity_valid(phi as int),
        oscillations@.len() == xs@.len(),
        xs@.len() <= MAX_DIMENSION,
        xs_ok_for(*e, xs@),
        oscillations_ok(oscillations@),
    ensures
        r as int == resolution_error_spec(*e, xs@, phi as int, oscillations@),
        abs(r as int) <= xs@.len() * (UNIT as int),
{
    let mut acc: i64 = 0;
    let mut i: usize = 0;
    let n = xs.len();
    while i < n
        invariant
            i <= n,
            n == xs@.len(),
            n <= MAX_DIMENSION,
            oscillations@.len() == xs@.len(),
            fidelity_valid(phi as int),
            xs_ok_for(*e, xs@),
            oscillations_ok(oscillations@),
            acc as int == resolution_error_spec(
                *e,
                xs@.take(i as int),
                phi as int,
                oscillations@.take(i as int),
            ),
            abs(acc as int) <= i * (UNIT as int),
        decreases n - i,
    {
        let amp = e.a(xs[i], phi);
        proof {
            e.lemma_a_within_theta(xs@[i as int] as int, phi as int);
            assert(abs((amp as int) * (oscillations@[i as int] as int)) <= (UNIT as int) * (
            i64::MAX as int)) by (nonlinear_arith)
                requires
                    abs(amp as int) <= UNIT as int,
                    abs(oscillations@[i as int] as int) <= UNIT as int,
            ;
        }
        let term = fixmul(amp, oscillations[i]);
        proof {
            lemma_fixmul_bounded(amp as int, oscillations@[i as int] as int);
            let xst = xs@.take(i as int + 1);
            let osct = oscillations@.take(i as int + 1);
            assert(xst.drop_last() =~= xs@.take(i as int));
            assert(osct.drop_last() =~= oscillations@.take(i as int));
            assert(xst.last() == xs@[i as int]);
            assert(osct.last() == oscillations@[i as int]);
        }
        acc = acc + term;
        i = i + 1;
    }
    proof {
        assert(xs@.take(n as int) =~= xs@);
        assert(oscillations@.take(n as int) =~= oscillations@);
    }
    acc
}

/// A randomly sampled perturbation emulating measurement noise: one draw
/// from a normal distribution with mean `mu(xs, phi)` and standard
/// deviation `sigma(phi)`.
///
/// The draw itself is the framework's only true non-determinism; it stays
/// with the caller, which owns or receives the randomness source, draws a
/// standard normal `z`, and obtains the error as `mu + sigma * z` through
/// [`stochastic_error`] — verified for every value of `z`.
pub trait StochasticError: Sized {
    /// Which points the model accepts.
    spec fn xs_ok(&self, xs: Seq<i64>) -> bool;

    /// The perturbation's mean at point `xs` and fidelity `phi`.
    spec fn mu_spec(&self, xs: Seq<i64>, phi: int) -> int;

    /// The perturbation's standard deviation at fidelity `phi`.
    spec fn sigma_spec(&self, phi: int) -> int;

    /// Law: the mean's magnitude stays below a crate-wide ceiling, so
    /// composing it with the scaled draw cannot overflow.
    proof fn lemma_mu_bound(&self, xs: Seq<i64>, phi: int)
        requires
            fidelity_valid(phi),
            self.xs_ok(xs),
        ensures
            abs(self.mu_spec(xs, phi)) <= VALUE_LIMIT as int,
    ;

    /// Law: the spread is non-negative, at most one, and never increases
    /// as fidelity rises.
    proof fn lemma_sigma_decay(&self, phi_lo: int, phi_hi: int)
        requires
            fidelity_valid(phi_lo),
            fidelity_valid(phi_hi),
            phi_lo <= phi_hi,
        ensures
            0 <= self.sigma_spec(phi_hi),
            self.sigma_spec(phi_hi) <= self.sigma_spec(phi_lo),
            self.sigma_spec(phi_lo) <= UNIT as int,
    ;

    /// The perturbation's mean at point `xs` and fidelity `phi`.
    fn mu(&self, xs: &Vec<i64>, phi: FidelityLevel) -> (r: i64)
        requires
            fidelity_valid(phi as int),
            self.xs_ok(xs@),
        ensures
            r as int == self.mu_spec(xs@, phi as int),
    ;

    /// The perturbation's standard deviation at fidelity `phi`.
    fn sigma(&self, phi: FidelityLevel) -> (r: i64)
        requires
            fidelity_valid(phi as int),
        ensures
            r as int == self.sigma_spec(phi as int),
    ;
}

/// Largest magnitude accepted for a standard normal draw: one hundred
/// standard deviations, in fixed point.
pub const DRAW_LIMIT: i64 = 1_000_000_000;

/// One stochastic-error outcome: the caller draws `z` from the standard
/// normal distribution and the error is `mu(xs, phi) + sigma(phi) * z` —
/// the location-scale form of one sample from `Normal(mu, sigma)`.
pub fn stochastic_error<E: StochasticError>(
    e: &E,
    xs: &Vec<i64>,
    phi: FidelityLevel,
    z: i64,
) -> (r: i64)
    requires
        fidelity_valid(phi as int),
        e.xs_ok(xs@),
        -DRAW_LIMIT <= z <= DRAW_LIMIT,
    ensures
        r as int == e.mu_spec(xs@, phi as int) + fixmul_spec(e.sigma_spec(phi as int), z as int),
{
    let m = e.mu(xs, phi);
    let s = e.sigma(phi);
    proof {
        e.lemma_mu_bound(xs@, phi as int);
        e.lemma_sigma_decay(phi as int, phi as int);
    }
    location_scale(m, s, z)
}

/// One location-scale sample: `mu + sigma * z`, the form of one draw from
/// `Normal(mu, sigma)` given a standard normal `z`, for callers whose
/// mean and spread are computed elsewhere.
pub fn location_scale(mu: i64, sigma: i64, z: i64) -> (r: i64)
    requires
        abs(mu as int) <= VALUE_LIMIT as int,
        0 <= sigma <= UNIT,
        -DRAW_LIMIT <= z <= DRAW_LIMIT,
    ensures
        r as int == mu + fixmul_spec(sigma as int, z as int),
{
    proof {
        assert(abs((sigma as int) * (z as int)) <= (UNIT as int) * (i64::MAX as int))
            by (nonlinear_arith)
            requires
                0 <= sigma as int <= UNIT as int,
                abs(z as int) <= DRAW_LIMIT as int,
        ;
    }
    let t = fixmul(sigma, z);
    proof {
        lemma_fixmul_bounded(z as int, sigma as int);
        assert((sigma as int) * (z as int) == (z as int) * (sigma as int)) by (nonlinear_arith);
        assert(abs(t as int) <= abs(z as int));
    }
    mu + t
}

/// The aggregate proximity of `xs` to the stored global optimum:
/// `sum_i (1 - |x_i - opt_i|)`, in fixed point.
pub open spec fn gamma_spec(opt: Seq<i64>, xs: Seq<i64>) -> int
    decreases xs.len(),
{
    if xs.len() == 0 {
        0
    } else {
        gamma_spec(opt.drop_last(), xs.drop_last()) + (UNIT as int - abs(
            xs.last() as int - opt.last() as int,
        ))
    }
}

/// Coordinates within the crate-wide coordinate ceiling.
pub open spec fn coords_bounded(xs: Seq<i64>) -> bool {
    forall|i: int| 0 <= i < xs.len() ==> abs((#[trigger] xs[i]) as int) <= COORD_LIMIT as int
}

proof fn lemma_gamma_bound(opt: Seq<i64>, xs: Seq<i64>)
    requires
        opt.len() == xs.len(),
        coords_bounded(opt),
        coords_bounded(xs),
    ensures
        abs(gamma_spec(opt, xs)) <= xs.len() * (UNIT as int + 2 * COORD_LIMIT as int),
    decreases xs.len(),
{
    if xs.len() > 0 {
        assert(coords_bounded(opt.drop_last()) && coords_bounded(xs.drop_last())) by {
            assert(forall|i: int|
                0 <= i < opt.drop_last().len() ==> (#[trigger] opt.drop_last()[i]) == opt[i]);
            assert(forall|i: int|
                0 <= i < xs.drop_last().len() ==> (#[trigger] xs.drop_last()[i]) == xs[i]);
        }
        lemma_gamma_bound(opt.drop_last(), xs.drop_last());
        assert((xs.len() - 1) * (UNIT as int + 2 * COORD_LIMIT as int) + (UNIT as int + 2
            * COORD_LIMIT as int) == xs.len() * (UNIT as int + 2 * COORD_LIMIT as int))
            by (nonlinear_arith);
    }
}

/// Computes the aggregate proximity `gamma` of `xs` to `opt`.
fn gamma_of(opt: &Vec<i64>, xs: &Vec<i64>) -> (r: i64)
    requires
        opt@.len() == xs@.len(),
        xs@.len() <= MAX_DIMENSION,
        coords_bounded(opt@),
        coords_bounded(xs@),
    ensures
        r as int == gamma_spec(opt@, xs@),
        abs(r as int) <= xs@.len() * (UNIT as int + 2 * COORD_LIMIT as int),
{
    let mut acc: i64 = 0;
    let mut i: usize = 0;
    let n = xs.len();
    while i < n
        invariant
            i <= n,
            n == xs@.len(),
            n <= MAX_DIMENSION,
            opt@.len() == xs@.len(),
            coords_bounded(opt@),
            coords_bounded(xs@),
            acc as int == gamma_spec(opt@.take(i as int), xs@.take(i as int)),
            abs(acc as int) <= i * (UNIT as int + 2 * COORD_LIMIT as int),
        decreases n - i,
    {
        let x = xs[i];
        let o = opt[i];
        let d: i64 = if x >= o {
            x - o
        } else {
            o - x
        };
        let term: i64 = UNIT - d;
        proof {
            let optt = opt@.take(i as int + 1);
            let xst = xs@.take(i as int + 1);
            assert(optt.drop_last() =~= opt@.take(i as int));
            assert(xst.drop_last() =~= xs@.take(i as int));
            assert(xst.last() == xs@[i as int]);
            assert(optt.last() == opt@[i as int]);
            let b = UNIT as int + 2 * COORD_LIMIT as int;
            assert(abs(term as int) <= b);
            assert((i as int) * b + b == (i as int + 1) * b) by (nonlinear_arith);
            assert((i as int) * b <= 1000 * b) by (nonlinear_arith)
                requires
                    0 <= i as int <= 1000,
                    b > 0,
            ;
        }
        acc = acc + term;
        i = i + 1;
    }
    proof {
        assert(opt@.take(n as int) =~= opt@);
        assert(xs@.take(n as int) =~= xs@);
    }
    acc
}

/// Stochastic error with zero mean and linearly decaying spread:
/// `sigma(phi) = 0.1 * (1 - 0.0001 * phi)`.
#[derive(Debug)]
pub struct StochasticError1;

impl StochasticError for StochasticError1 {
    open spec fn xs_ok(&self, xs: Seq<i64>) -> bool {
        true
    }

    open spec fn mu_spec(&self, xs: Seq<i64>, phi: int) -> int {
        0
    }

    open spec fn sigma_spec(&self, phi: int) -> int {
        (UNIT as int - phi) / 10
    }

    proof fn lemma_mu_bound(&self, xs: Seq<i64>, phi: int) {
    }

    proof fn lemma_sigma_decay(&self, phi_lo: int, phi_hi: int) {
        vstd::arithmetic::div_mod::lemma_div_pos_is_pos(UNIT as int - phi_hi, 10);
        vstd::arithmetic::div_mod::lemma_div_is_ordered(
            UNIT as int - phi_hi,
            UNIT as int - phi_lo,
            10,
        );
        vstd::arithmetic::div_mod::lemma_div_is_ordered(UNIT as int - phi_lo, UNIT as int, 10);
    }

    fn mu(&self, xs: &Vec<i64>, phi: FidelityLevel) -> (r: i64) {
        0
    }

    fn sigma(&self, phi: FidelityLevel) -> (r: i64) {
        (((UNIT - phi) as u64) / 10) as i64
    }
}

/// Stochastic error whose mean measures aggregate proximity of the point
/// to a stored global optimum — `mu = (0.1 * theta / n) * gamma(xs)` with
/// `theta` decaying linearly — and whose spread is `0.1 * theta`.
#[derive(Debug)]
pub struct StochasticError3 {
    global_optimum: Vec<i64>,
}

impl StochasticError3 {
    pub closed spec fn spec_global_optimum(&self) -> Seq<i64> {
        self.global_optimum@
    }

    /// The stored optimum is non-empty, of tractable dimension, and within
    /// the coordinate ceiling.
    pub open spec fn well_formed(&self) -> bool {
        &&& 1 <= self.spec_global_optimum().len() <= MAX_DIMENSION as int
        &&& coords_bounded(self.spec_global_optimum())
    }

    pub fn new(global_optimum: Vec<i64>) -> (r: StochasticError3)
        requires
            1 <= global_optimum@.len() <= MAX_DIMENSION as int,
            coords_bounded(global_optimum@),
        ensures
            r.spec_global_optimum() == global_optimum@,
            r.well_formed(),
    {
        StochasticError3 { global_optimum }
    }

    /// The configured optimum vector.
    pub fn global_optimum(&self) -> (r: &Vec<i64>)
        ensures
            r@ == self.spec_global_optimum(),
    {
        &self.global_optimum
    }
}

impl StochasticError for StochasticError3 {
    open spec fn xs_ok(&self, xs: Seq<i64>) -> bool {
        &&& self.well_formed()
        &&& xs.len() == self.spec_global_optimum().len()
        &&& coords_bounded(xs)
    }

    open spec fn mu_spec(&self, xs: Seq<i64>, phi: int) -> int {
        quot_trunc(
            (UNIT as int - phi) * gamma_spec(self.spec_global_optimum(), xs),
            10 * xs.len() * (UNIT as int),
        )
    }

    open spec fn sigma_spec(&self, phi: int) -> int {
        (UNIT as int - phi) / 10
    }

    proof fn lemma_mu_bound(&self, xs: Seq<i64>, phi: int) {
        lemma_mu3_bound(self.spec_global_optimum(), xs, phi);
    }

    proof fn lemma_sigma_decay(&self, phi_lo: int, phi_hi: int) {
        vstd::arithmetic::div_mod::lemma_div_pos_is_pos(UNIT as int - phi_hi, 10);
        vstd::arithmetic::div_mod::lemma_div_is_ordered(
            UNIT as int - phi_hi,
            UNIT as int - phi_lo,
            10,
        );
        vstd::arithmetic::div_mod::lemma_div_is_ordered(UNIT as int - phi_lo, UNIT as int, 10);
    }

    fn mu(&self, xs: &Vec<i64>, phi: FidelityLevel) -> (r: i64) {
        let g = gamma_of(&self.global_optimum, xs);
        let t: i64 = UNIT - phi;
        let n: usize = xs.len();
        let gm: u128 = crate::fixed::magnitude(g);
        proof {
            lemma_mu3_arith(t as int, g as int, n as int);
            assert((t as int) * (gm as int) <= 30_000_000_000_000_000_000_000_000int)
                by (nonlinear_arith)
                requires
                    0 <= gm as int <= 3_000_000_000_000_000_000int,
                    0 <= t as int <= UNIT as int,
            ;
        }
        let num: u128 = (t as u128) * gm;
        let den: u128 = 10u128 * (n as u128) * (UNIT as u128);
        proof {
            assert(num as int == abs((t as int) * (g as int)));
            assert(den as int == 10 * (n as int) * (UNIT as int));
        }
        let q: u128 = num / den;
        if g >= 0 {
            proof {
                assert((t as int) * (g as int) >= 0) by (nonlinear_arith)
                    requires
                        t as int >= 0,
                        g as int >= 0,
                ;
            }
            q as i64
        } else {
            proof {
                assert((t as int) * (g as int) < 0) by (nonlinear_arith)
                    requires
                        t as int >= 1,
                        (g as int) < 0,
                ;
            }
            -(q as i64)
        }
    }

    fn sigma(&self, phi: FidelityLevel) -> (r: i64) {
        (((UNIT - phi) as u64) / 10) as i64
    }
}

/// Arithmetic facts shared by the proximity-mean computation: the scaled
/// numerator and denominator stay in range, and the quotient is bounded.
proof fn lemma_mu3_arith(t: int, g: int, n: int)
    requires
        1 <= t <= UNIT as int,
        1 <= n <= MAX_DIMENSION as int,
        abs(g) <= n * (UNIT as int + 2 * COORD_LIMIT as int),
    ensures
        t * abs(g) == abs(t * g),
        abs(g) <= MAX_DIMENSION as int * (UNIT as int + 2 * COORD_LIMIT as int),
        t * abs(g) <= 30_000_000_000_000_000_000_000_000int,
        10 * n * (UNIT as int) >= 100_000_000,
        10 * n * (UNIT as int) <= 100_000_000_000,
        abs(t * g) / (10 * n * (UNIT as int)) <= 300_000_000_000_000_000int,
        abs(quot_trunc(t * g, 10 * n * (UNIT as int))) == abs(t * g) / (10 * n * (UNIT as int)),
{
    assert(t * abs(g) == abs(t * g)) by (nonlinear_arith)
        requires
            t >= 0,
    ;
    assert(abs(g) <= MAX_DIMENSION as int * (UNIT as int + 2 * COORD_LIMIT as int))
        by (nonlinear_arith)
        requires
            abs(g) <= n * (UNIT as int + 2 * COORD_LIMIT as int),
            1 <= n <= MAX_DIMENSION as int,
    ;
    assert(t * abs(g) <= 30_000_000_000_000_000_000_000_000int) by (nonlinear_arith)
        requires
            0 <= abs(g) <= 3_000_000_000_000_000_000int,
            1 <= t <= UNIT as int,
    ;
    assert(10 * n * (UNIT as int) >= 100_000_000 && 10 * n * (UNIT as int)
        <= 100_000_000_000) by (nonlinear_arith)
        requires
            1 <= n <= MAX_DIMENSION as int,
    ;
    let den = 10 * n * (UNIT as int);
    vstd::arithmetic::div_mod::lemma_div_is_ordered_by_denominator(abs(t * g), 100_000_000, den);
    vstd::arithmetic::div_mod::lemma_div_is_ordered(
        abs(t * g),
        30_000_000_000_000_000_000_000_000int,
        100_000_000,
    );
    vstd::arithmetic::div_mod::lemma_div_pos_is_pos(abs(t * g), den);
    if t * g >= 0 {
        assert(abs(quot_trunc(t * g, den)) == abs(t * g) / den);
    } else {
        assert(abs(quot_trunc(t * g, den)) == abs(t * g) / den);
    }
}

/// The proximity mean stays within the crate-wide value ceiling.
proof fn lemma_mu3_bound(opt: Seq<i64>, xs: Seq<i64>, phi: int)
    requires
        fidelity_valid(phi),
        1 <= opt.len() <= MAX_DIMENSION as int,
        xs.len() == opt.len(),
        coords_bounded(opt),
        coords_bounded(xs),
    ensures
        abs(
            quot_trunc((UNIT as int - phi) * gamma_spec(opt, xs), 10 * xs.len() * (UNIT as int)),
        ) <= VALUE_LIMIT as int,
{
    lemma_gamma_bound(opt, xs);
    lemma_mu3_arith(UNIT as int - phi, gamma_spec(opt, xs), xs.len() as int);
}

/// A rare, large lump perturbation emulating sporadic simulation failure:
/// with probability `p(phi)` the error equals a lump penalty `l(xs)`,
/// otherwise zero. The failure probability decays with fidelity.
///
/// The uniform draw deciding whether the spike fires stays with the
/// caller: it draws from `[0, 1)` and obtains the outcome through
/// [`instability_error`], verified for every value of the draw.
pub trait InstabilityError: Sized {
    /// The failure probability at fidelity `phi`, in fixed point.
    spec fn p_spec(&self, phi: int) -> int;

    /// The lump penalty for a point of dimension `n`, in fixed point.
    spec fn l_spec(&self, n: int) -> int;

    /// Law: the failure probability lies within `[0, 1]` and never
    /// increases as fidelity rises.
    proof fn lemma_p_decay(&self, phi_lo: int, phi_hi: int)
        requires
            fidelity_valid(phi_lo),
            fidelity_valid(phi_hi),
            phi_lo <= phi_hi,
        ensures
            0 <= self.p_spec(phi_hi),
            self.p_spec(phi_hi) <= self.p_spec(phi_lo),
            self.p_spec(phi_lo) <= UNIT as int,
    ;

    /// The failure probability at fidelity `phi`.
    fn p(&self, phi: FidelityLevel) -> (r: i64)
        requires
            fidelity_valid(phi as int),
        ensures
            r as int == self.p_spec(phi as int),
    ;

    /// The lump penalty for a point of dimension `n`.
    fn l(&self, n: usize) -> (r: i64)
        requires
            1 <= n <= MAX_DIMENSION,
        ensures
            r as int == self.l_spec(n as int),
    ;
}

/// One instability-error outcome: the caller draws `draw` uniformly from
/// `[0, 1)` (fixed point) and the spike fires exactly when the draw falls
/// at or below the failure probability.
pub fn instability_error<E: InstabilityError>(
    e: &E,
    dimension: usize,
    phi: FidelityLevel,
    draw: i64,
) -> (r: i64)
    requires
        fidelity_valid(phi as int),
        1 <= dimension <= MAX_DIMENSION,
        0 <= draw < UNIT,
    ensures
        r as int == if draw as int <= e.p_spec(phi as int) {
            e.l_spec(dimension as int)
        } else {
            0
        },
{
    lump_outcome(e.p(phi), e.l(dimension), draw)
}

/// One lump-or-nothing outcome: the penalty `l` exactly when the uniform
/// draw falls at or below the failure probability `p`, for callers whose
/// probability is computed elsewhere.
pub fn lump_outcome(p: i64, l: i64, draw: i64) -> (r: i64)
    requires
        0 <= draw < UNIT,
    ensures
        r == if draw <= p {
            l
        } else {
            0
        },
{
    if draw <= p {
        l
    } else {
        0
    }
}

/// Instability error with linearly decaying failure probability
/// `p(phi) = 0.1 * (1 - 0.0001 * phi)` and lump penalty `10 * dimension`.
#[derive(Debug)]
pub struct InstabilityError1;

impl InstabilityError for InstabilityError1 {
    open spec fn p_spec(&self, phi: int) -> int {
        (UNIT as int - phi) / 10
    }

    open spec fn l_spec(&self, n: int) -> int {
        10 * n * (UNIT as int)
    }

    proof fn lemma_p_decay(&self, phi_lo: int, phi_hi: int) {
        vstd::arithmetic::div_mod::lemma_div_pos_is_pos(UNIT as int - phi_hi, 10);
        vstd::arithmetic::div_mod::lemma_div_is_ordered(
            UNIT as int - phi_hi,
            UNIT as int - phi_lo,
            10,
        );
        vstd::arithmetic::div_mod::lemma_div_is_ordered(UNIT as int - phi_lo, UNIT as int, 10);
    }

    fn p(&self, phi: FidelityLevel) -> (r: i64) {
        (((UNIT - phi) as u64) / 10) as i64
    }

    fn l(&self, n: usize) -> (r: i64) {
        proof {
            assert(10 * (n as int) * (UNIT as int) <= 100_000_000_000int) by (nonlinear_arith)
                requires
                    1 <= n as int <= 1000,
            ;
        }
        10 * (n as i64) * UNIT
    }
}

/// Error-injection multi-fidelity wrapper: composes a wrapped objective
/// `F`, a resolution error model `E`, a cost model `C`, and the list of
/// fidelity levels at which estimates are produced. Evaluating yields one
/// `(cost, true value + error)` pair per level, cheapest level first.
#[derive(Debug)]
pub struct Mfb<F, E, C> {
    f: F,
    e: E,
    c: C,
    levels: Vec<FidelityLevel>,
}

/// The fidelity levels are valid, listed cheapest first under the cost
/// model `c`, and each is billed a non-zero cost.
pub open spec fn levels_ok<C: Cost>(c: C, levels: Seq<i64>) -> bool {
    &&& forall|i: int| 0 <= i < levels.len() ==> fidelity_valid((#[trigger] levels[i]) as int)
    &&& forall|i: int| 0 <= i < levels.len() ==> c.cost_spec((#[trigger] levels[i]) as int) >= 1
    &&& forall|i: int, j: int|
        0 <= i <= j < levels.len() ==> c.cost_spec((#[trigger] levels[i]) as int) <= c.cost_spec(
            (#[trigger] levels[j]) as int,
        )
}

impl<F, E, C> Mfb<F, E, C> {
    pub closed spec fn spec_objective(&self) -> F {
        self.f
    }

    pub closed spec fn spec_error_model(&self) -> E {
        self.e
    }

    pub closed spec fn spec_cost_model(&self) -> C {
        self.c
    }

    pub closed spec fn spec_levels(&self) -> Seq<i64> {
        self.levels@
    }

    pub fn new(f: F, e: E, c: C, levels: Vec<FidelityLevel>) -> (r: Mfb<F, E, C>)
        ensures
            r.spec_objective() == f,
            r.spec_error_model() == e,
            r.spec_cost_model() == c,
            r.spec_levels() == levels@,
    {
        Mfb { f, e, c, levels }
    }

    /// The wrapped objective; evaluating it is the caller's business.
    pub fn objective(&self) -> (r: &F)
        ensures
            *r == self.spec_objective(),
    {
        &self.f
    }

    /// The configured resolution error model.
    pub fn error_model(&self) -> (r: &E)
        ensures
            *r == self.spec_error_model(),
    {
        &self.e
    }

    /// The configured cost model.
    pub fn cost_model(&self) -> (r: &C)
        ensures
            *r == self.spec_cost_model(),
    {
        &self.c
    }

    /// The configured fidelity levels, cheapest first.
    pub fn levels(&self) -> (r: &Vec<FidelityLevel>)
        ensures
            r@ == self.spec_levels(),
    {
        &self.levels
    }
}

impl<F, E: ResolutionError, C: Cost> Mfb<F, E, C> {
    /// Evaluates the wrapped benchmark at point `xs`: one estimate per
    /// configured fidelity level, cheapest first, each the true value of
    /// the wrapped objective at `xs` plus the resolution error at that
    /// level. The caller supplies the true value and, per level, the
    /// oscillation factors of the error model (see [`ResolutionError`]).
    pub fn evaluate_with(
        &self,
        xs: &Vec<i64>,
        true_value: i64,
        oscillations: &Vec<Vec<i64>>,
    ) -> (r: crate::mfso::Outputs<i64>)
        requires
            1 <= xs@.len() <= MAX_DIMENSION,
            xs_ok_for(self.spec_error_model(), xs@),
            oscillations@.len() == self.spec_levels().len(),
            forall|l: int|
                0 <= l < oscillations@.len() ==> (#[trigger] oscillations@[l])@.len() == xs@.len()
                    && oscillations_ok(oscillations@[l]@),
            levels_ok(self.spec_cost_model(), self.spec_levels()),
            -VALUE_LIMIT <= true_value <= VALUE_LIMIT,
        ensures
            r@.len() == self.spec_levels().len(),
            forall|l: int|
                0 <= l < r@.len() ==> (#[trigger] r@[l]).0 as int == self.spec_cost_model()
                    .cost_spec(self.spec_levels()[l] as int) && r@[l].1 as int == true_value
                    + resolution_error_spec(
                    self.spec_error_model(),
                    xs@,
                    self.spec_levels()[l] as int,
                    oscillations@[l]@,
                ),
            crate::mfso::cost_schedule_valid(r@),
    {
        let mut items: Vec<(u64, i64)> = Vec::new();
        let mut l: usize = 0;
        let n = self.levels.len();
        while l < n
            invariant
                l <= n,
                n == self.spec_levels().len(),
                1 <= xs@.len() <= MAX_DIMENSION,
                xs_ok_for(self.spec_error_model(), xs@),
                oscillations@.len() == self.spec_levels().len(),
                forall|k: int|
                    0 <= k < oscillations@.len() ==> (#[trigger] oscillations@[k])@.len()
                        == xs@.len() && oscillations_ok(oscillations@[k]@),
                levels_ok(self.spec_cost_model(), self.spec_levels()),
                -VALUE_LIMIT <= true_value <= VALUE_LIMIT,
                items@.len() == l,
                forall|k: int|
                    0 <= k < items@.len() ==> (#[trigger] items@[k]).0 as int
                        == self.spec_cost_model().cost_spec(self.spec_levels()[k] as int)
                        && items@[k].1 as int == true_value + resolution_error_spec(
                        self.spec_error_model(),
                        xs@,
                        self.spec_levels()[k] as int,
                        oscillations@[k]@,
                    ),
            decreases n - l,
        {
            let phi = self.levels[l];
            let cost = self.c.cost(phi);
            let osc = &oscillations[l];
            let err = resolution_error(&self.e, xs, phi, osc);
            proof {
                assert(abs(err as int) <= 1000 * (UNIT as int)) by (nonlinear_arith)
                    requires
                        abs(err as int) <= xs@.len() * (UNIT as int),
                        xs@.len() <= 1000,
                ;
            }
            let value = true_value + err;
            items.push((cost, value));
            l = l + 1;
        }
        crate::mfso::Outputs::new(items)
    }
}

impl<F, E, C: Cost> Mfb<F, E, C> {
    /// Like [`Mfb::evaluate_with`], but takes the per-level error terms
    /// themselves, already aggregated, for error models whose decay is
    /// computed outside the verified core (the exponentially decaying
    /// variants): the summing and the cost pairing are still verified.
    /// Each error term must lie within the resolution-error envelope of
    /// one unit per coordinate at the largest dimension.
    pub fn evaluate_with_errors(&self, true_value: i64, errors: &Vec<i64>) -> (r:
        crate::mfso::Outputs<i64>)
        requires
            errors@.len() == self.spec_levels().len(),
            forall|l: int|
                0 <= l < errors@.len() ==> abs((#[trigger] errors@[l]) as int) <= MAX_DIMENSION * (
                UNIT as int),
            levels_ok(self.spec_cost_model(), self.spec_levels()),
            -VALUE_LIMIT <= true_value <= VALUE_LIMIT,
        ensures
            r@.len() == self.spec_levels().len(),
            forall|l: int|
                0 <= l < r@.len() ==> (#[trigger] r@[l]).0 as int == self.spec_cost_model()
                    .cost_spec(self.spec_levels()[l] as int) && r@[l].1 as int == true_value
                    + errors@[l],
            crate::mfso::cost_schedule_valid(r@),
    {
        let mut items: Vec<(u64, i64)> = Vec::new();
        let mut l: usize = 0;
        let n = self.levels.len();
        while l < n
            invariant
                l <= n,
                n == self.spec_levels().len(),
                errors@.len() == self.spec_levels().len(),
                forall|k: int|
                    0 <= k < errors@.len() ==> abs((#[trigger] errors@[k]) as int) <= MAX_DIMENSION
                        * (UNIT as int),
                levels_ok(self.spec_cost_model(), self.spec_levels()),
                -VALUE_LIMIT <= true_value <= VALUE_LIMIT,
                items@.len() == l,
                forall|k: int|
                    0 <= k < items@.len() ==> (#[trigger] items@[k]).0 as int
                        == self.spec_cost_model().cost_spec(self.spec_levels()[k] as int)
                        && items@[k].1 as int == true_value + errors@[k],
            decreases n - l,
        {
            let phi = self.levels[l];
            let cost = self.c.cost(phi);
            let value = true_value + errors[l];
            items.push((cost, value));
            l = l + 1;
        }
        crate::mfso::Outputs::new(items)
    }
}

/// The modified Rastrigin objective: a cheap separable test function over
/// the hypercube `[-1, 1]^n`, suited as the true objective wrapped by
/// [`Mfb`]. Its formula `sum_i (x_i^2 + 1 - cos(10 * pi * x_i))` is
/// transcendental and lives with the caller; the configured input domain
/// lives here.
#[derive(Debug)]
pub struct ModifiedRastrigin {
    input_domain: Vec<crate::Interval>,
}

impl ModifiedRastrigin {
    pub closed spec fn spec_input_domain(&self) -> Seq<crate::Interval> {
        self.input_domain@
    }

    pub fn new(dimensions: usize) -> (r: ModifiedRastrigin)
        requires
            dimensions >= 1,
        ensures
            r.spec_input_domain().len() == dimensions,
            forall|i: int|
                0 <= i < r.spec_input_domain().len() ==> (#[trigger] r.spec_input_domain()[
                i]).spec_min() == -UNIT && r.spec_input_domain()[i].spec_max() == UNIT,
    {
        let mut input_domain: Vec<crate::Interval> = Vec::new();
        let mut i: usize = 0;
        while i < dimensions
            invariant
                i <= dimensions,
                input_domain@.len() == i,
                forall|k: int|
                    0 <= k < input_domain@.len() ==> (#[trigger] input_domain@[k]).spec_min()
                        == -UNIT && input_domain@[k].spec_max() == UNIT,
            decreases dimensions - i,
        {
            input_domain.push(crate::Interval::new_unchecked(-UNIT, UNIT));
            i = i + 1;
        }
        ModifiedRastrigin { input_domain }
    }

    pub fn input_domain(&self) -> (r: &Vec<crate::Interval>)
        ensures
            r@ == self.spec_input_domain(),
    {
        &self.input_domain
    }

    /// The number of coordinates the objective accepts.
    pub fn dimension(&self) -> (r: usize)
        ensures
            r == self.spec_input_domain().len(),
    {
        self.input_domain.len()
    }
}

/// The sum of amplitude-weighted oscillation factors,
/// `sum_i amplitudes[i] * oscillations[i]` in fixed point.
pub open spec fn weighted_oscillation_sum_spec(amps: Seq<i64>, osc: Seq<i64>) -> int
    decreases amps.len(),
{
    if amps.len() == 0 {
        0
    } else {
        weighted_oscillation_sum_spec(amps.drop_last(), osc.drop_last()) + fixmul_spec(
            amps.last() as int,
            osc.last() as int,
        )
    }
}

/// Amplitudes of at most one, in magnitude.
pub open spec fn amplitudes_ok(amps: Seq<i64>) -> bool {
    forall|i: int| 0 <= i < amps.len() ==> abs((#[trigger] amps[i]) as int) <= UNIT as int
}

/// The aggregation shared by every resolution error model, for callers
/// that compute their per-coordinate amplitudes elsewhere: the sum of
/// amplitudes times oscillation factors, confined to one unit per
/// coordinate.
pub fn weighted_oscillation_sum(amplitudes: &Vec<i64>, oscillations: &Vec<i64>) -> (r: i64)
    requires
        oscillations@.len() == amplitudes@.len(),
        amplitudes@.len() <= MAX_DIMENSION,
        amplitudes_ok(amplitudes@),
        oscillations_ok(oscillations@),
    ensures
        r as int == weighted_oscillation_sum_spec(amplitudes@, oscillations@),
        abs(r as int) <= amplitudes@.len() * (UNIT as int),
{
    let mut acc: i64 = 0;
    let mut i: usize = 0;
    let n = amplitudes.len();
    while i < n
        invariant
            i <= n,
            n == amplitudes@.len(),
            n <= MAX_DIMENSION,
            oscillations@.len() == amplitudes@.len(),
            amplitudes_ok(amplitudes@),
            oscillations_ok(oscillations@),
            acc as int == weighted_oscillation_sum_spec(
                amplitudes@.take(i as int),
                oscillations@.take(i as int),
            ),
            abs(acc as int) <= i * (UNIT as int),
        decreases n - i,
    {
        let amp = amplitudes[i];
        proof {
            assert(abs((amp as int) * (oscillations@[i as int] as int)) <= (UNIT as int) * (
            i64::MAX as int)) by (nonlinear_arith)
                requires
                    abs(amp as int) <= UNIT as int,
                    abs(oscillations@[i as int] as int) <= UNIT as int,
            ;
        }
        let term = fixmul(amp, oscillations[i]);
        proof {
            lemma_fixmul_bounded(amp as int, oscillations@[i as int] as int);
            let ampt = amplitudes@.take(i as int + 1);
            let osct = oscillations@.take(i as int + 1);
            assert(ampt.drop_last() =~= amplitudes@.take(i as int));
            assert(osct.drop_last() =~= oscillations@.take(i as int));
            assert(ampt.last() == amplitudes@[i as int]);
            assert(osct.last() == oscillations@[i as int]);
        }
        acc = acc + term;
        i = i + 1;
    }
    proof {
        assert(amplitudes@.take(n as int) =~= amplitudes@);
        assert(oscillations@.take(n as int) =~= oscillations@);
    }
    acc
}

/// Resolution error with linear fidelity decay:
/// `theta(phi) = 1 - 0.0001 * phi`, a constant amplitude `theta` across
/// coordinates.
#[derive(Debug)]
pub struct ResolutionError1;

impl ResolutionError for ResolutionError1 {
    open spec fn x_ok(&self, x: int) -> bool {
        true
    }

    open spec fn theta_spec(&self, phi: int) -> int {
        UNIT as int - phi
    }

    open spec fn a_spec(&self, x: int, phi: int) -> int {
        self.theta_spec(phi)
    }

    proof fn lemma_a_within_theta(&self, x: int, phi: int) {
    }

    proof fn lemma_theta_decay(&self, phi_lo: int, phi_hi: int) {
    }

    fn theta(&self, phi: FidelityLevel) -> (r: i64) {
        UNIT - phi
    }

    fn a(&self, x: i64, phi: FidelityLevel) -> (r: i64) {
        UNIT - phi
    }
}

/// The piecewise linear/constant decay profile of [`ResolutionError3`]:
/// linear descents of slope `-0.0002` alternate with plateaus of width
/// `1000`, from `1.0` at fidelity `0` down to `0` from `9000` up. The
/// `0.4` plateau spans the whole band `[5000, 7000)`, stepping down to
/// `0.2` at `7000`. Only defined on the valid fidelity range.
pub open spec fn resolution3_theta(phi: int) -> int {
    if phi < 1_000_000 {
        10_000_000 - 2 * phi
    } else if phi < 2_000_000 {
        8_000_000
    } else if phi < 3_000_000 {
        12_000_000 - 2 * phi
    } else if phi < 4_000_000 {
        6_000_000
    } else if phi < 5_000_000 {
        14_000_000 - 2 * phi
    } else if phi < 7_000_000 {
        4_000_000
    } else if phi < 8_000_000 {
        2_000_000
    } else if phi < 9_000_000 {
        18_000_000 - 2 * phi
    } else {
        0
    }
}

/// On the whole band `[6000, 7000)` of real fidelity units, the piecewise
/// profile of [`ResolutionError3`] sits on the `0.4` plateau.
pub proof fn lemma_resolution3_plateau(phi: int)
    requires
        6_000_000 <= phi < 7_000_000,
    ensures
        resolution3_theta(phi) == 4_000_000,
{
}

/// Resolution error with a piecewise linear/constant decay profile; valid
/// only on the fidelity range `[0, 10000)` — a level outside it is a
/// contract violation, refused rather than clamped.
#[derive(Debug)]
pub struct ResolutionError3;

impl ResolutionError3 {
    /// The decay profile with the validity check made: yields the profile
    /// value exactly on the valid fidelity range and fails — refuses,
    /// never clamps — on every level outside it.
    pub fn theta_checked(&self, phi: FidelityLevel) -> (r: Option<i64>)
        ensures
            r is Some <==> fidelity_valid(phi as int),
            r is Some ==> r->Some_0 as int == resolution3_theta(phi as int),
    {
        if 0 <= phi && phi < FIDELITY_LIMIT {
            Some(self.theta(phi))
        } else {
            None
        }
    }
}

impl ResolutionError for ResolutionError3 {
    open spec fn x_ok(&self, x: int) -> bool {
        true
    }

    open spec fn theta_spec(&self, phi: int) -> int {
        resolution3_theta(phi)
    }

    open spec fn a_spec(&self, x: int, phi: int) -> int {
        self.theta_spec(phi)
    }

    proof fn lemma_a_within_theta(&self, x: int, phi: int) {
    }

    proof fn lemma_theta_decay(&self, phi_lo: int, phi_hi: int) {
    }

    fn theta(&self, phi: FidelityLevel) -> (r: i64) {
        if phi < 1_000_000 {
            10_000_000 - 2 * phi
        } else if phi < 2_000_000 {
            8_000_000
        } else if phi < 3_000_000 {
            12_000_000 - 2 * phi
        } else if phi < 4_000_000 {
            6_000_000
        } else if phi < 5_000_000 {
            14_000_000 - 2 * phi
        } else if phi < 7_000_000 {
            4_000_000
        } else if phi < 8_000_000 {
            2_000_000
        } else if phi < 9_000_000 {
            18_000_000 - 2 * phi
        } else {
            0
        }
    }

    fn a(&self, x: i64, phi: FidelityLevel) -> (r: i64) {
        self.theta(phi)
    }
}

/// Resolution error with linear fidelity decay whose amplitude is also
/// weighted by proximity to a configured global optimum:
/// `a(x, phi) = theta(phi) * psi(x)` with `psi(x) = 1 - |x - optimum|`,
/// deliberately biasing the error down near the known optimum.
#[derive(Debug)]
pub struct ResolutionError4 {
    global_minimum: i64,
}

impl ResolutionError4 {
    pub closed spec fn spec_global_minimum(&self) -> int {
        self.global_minimum as int
    }

    pub fn new(global_minimum: i64) -> (r: ResolutionError4)
        requires
            -COORD_LIMIT <= global_minimum <= COORD_LIMIT,
        ensures
            r.spec_global_minimum() == global_minimum,
    {
        ResolutionError4 { global_minimum }
    }

    /// The configured optimum location.
    pub fn global_minimum(&self) -> (r: i64)
        ensures
            r == self.spec_global_minimum(),
    {
        self.global_minimum
    }

    /// Proximity weight `1 - |x - optimum|`, in fixed point.
    pub open spec fn psi_spec(&self, x: int) -> int {
        UNIT as int - abs(x - self.spec_global_minimum())
    }

    /// The proximity weight at coordinate `x`.
    pub fn psi(&self, x: i64) -> (r: i64)
        requires
            self.x_ok(x as int),
        ensures
            r as int == self.psi_spec(x as int),
    {
        let d: i64 = if x >= self.global_minimum {
            x - self.global_minimum
        } else {
            self.global_minimum - x
        };
        UNIT - d
    }
}

impl ResolutionError for ResolutionError4 {
    /// The model works within one unit's width of the configured optimum,
    /// where the proximity weight stays within `[-1, 1]`.
    open spec fn x_ok(&self, x: int) -> bool {
        self.spec_global_minimum() - 2 * (UNIT as int) <= x <= self.spec_global_minimum() + 2 * (
        UNIT as int)
    }

    open spec fn theta_spec(&self, phi: int) -> int {
        UNIT as int - phi
    }

    open spec fn a_spec(&self, x: int, phi: int) -> int {
        fixmul_spec(self.theta_spec(phi), self.psi_spec(x))
    }

    proof fn lemma_a_within_theta(&self, x: int, phi: int) {
        lemma_fixmul_bounded(self.theta_spec(phi), self.psi_spec(x));
    }

    proof fn lemma_theta_decay(&self, phi_lo: int, phi_hi: int) {
    }

    fn theta(&self, phi: FidelityLevel) -> (r: i64) {
        UNIT - phi
    }

    fn a(&self, x: i64, phi: FidelityLevel) -> (r: i64) {
        let t = self.theta(phi);
        let p = self.psi(x);
        proof {
            assert(abs((t as int) * (p as int)) <= (UNIT as int) * (i64::MAX as int))
                by (nonlinear_arith)
                requires
                    abs(t as int) <= UNIT as int,
                    abs(p as int) <= UNIT as int,
            ;
        }
        fixmul(t, p)
    }
}

} // verus!
