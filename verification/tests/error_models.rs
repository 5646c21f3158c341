use mfbench::fixed::UNIT;
use mfbench::mfb::{
    Cost, FidelityLevel, InstabilityError, InstabilityError1, LinearCost, Mfb, ModifiedRastrigin,
    NonLinearCost, ResolutionError, ResolutionError1, ResolutionError3, ResolutionError4,
    StochasticError, StochasticError1, StochasticError3, instability_error, location_scale,
    lump_outcome, resolution_error, stochastic_error, weighted_oscillation_sum,
};

#[test]
fn linear_cost_truncates_to_whole_units() {
    let c = LinearCost;
    assert_eq!(c.cost(5_500_000), 5500);
    assert_eq!(c.cost(5_500_499), 5500);
    assert_eq!(c.cost(1_000), 1);
    assert_eq!(c.cost(999), 0);
}

#[test]
fn nonlinear_cost_is_the_fourth_power_of_a_thousandth() {
    let c = NonLinearCost;
    assert_eq!(c.cost(5_000_000), 625);
    assert_eq!(c.cost(0), 0);
    assert_eq!(c.cost(9_999_999), 9999);
    assert_eq!(c.cost(1_000_000), 1);
}

#[test]
fn resolution1_theta_decays_linearly() {
    let e = ResolutionError1;
    assert_eq!(e.theta(0), UNIT);
    assert_eq!(e.theta(4_000_000), 6_000_000);
    assert_eq!(e.theta(9_999_999), 1);
    assert!(e.theta(9_000_000) < e.theta(1_000_000));
    assert_eq!(e.a(123, 4_000_000), 6_000_000);
}

#[test]
fn resolution3_theta_alternates_descents_and_plateaus() {
    let e = ResolutionError3;
    assert_eq!(e.theta(0), 10_000_000);
    assert_eq!(e.theta(500_000), 9_000_000);
    assert_eq!(e.theta(999_999), 8_000_002);
    assert_eq!(e.theta(1_500_000), 8_000_000);
    assert_eq!(e.theta(2_500_000), 7_000_000);
    assert_eq!(e.theta(3_500_000), 6_000_000);
    assert_eq!(e.theta(4_500_000), 5_000_000);
    assert_eq!(e.theta(5_500_000), 4_000_000);
    assert_eq!(e.theta(7_500_000), 2_000_000);
    assert_eq!(e.theta(8_500_000), 1_000_000);
    assert_eq!(e.theta(9_000_000), 0);
    assert_eq!(e.theta(9_500_000), 0);
    assert_eq!(e.theta(9_999_999), 0);
}

#[test]
fn resolution3_theta_checked_refuses_out_of_range_levels() {
    let e = ResolutionError3;
    // In range: the profile value, never clamped.
    assert_eq!(e.theta_checked(0), Some(10_000_000));
    assert_eq!(e.theta_checked(6_500_000), Some(4_000_000));
    assert_eq!(e.theta_checked(9_999_999), Some(0));
    // Outside the valid range the level is refused outright.
    assert_eq!(e.theta_checked(-1), None);
    assert_eq!(e.theta_checked(10_000_000), None);
    assert_eq!(e.theta_checked(i64::MAX), None);
    assert_eq!(e.theta_checked(i64::MIN), None);
}

#[test]
fn resolution3_theta_sits_on_the_plateau_between_6000_and_7000() {
    let e = ResolutionError3;
    // 0.4, across the whole band of real fidelity 6000 up to 7000.
    assert_eq!(e.theta(6_000_000), 4_000_000);
    assert_eq!(e.theta(6_500_000), 4_000_000);
    assert_eq!(e.theta(6_999_999), 4_000_000);
}

#[test]
fn resolution4_amplitude_shrinks_near_the_configured_optimum() {
    let e = ResolutionError4::new(0);
    assert_eq!(e.psi(0), UNIT);
    assert_eq!(e.psi(5_000_000), 5_000_000);
    assert_eq!(e.psi(-5_000_000), 5_000_000);
    // At the optimum the amplitude equals theta itself.
    assert_eq!(e.a(0, 0), UNIT);
    assert_eq!(e.a(0, 4_000_000), 6_000_000);
    // Half a unit away it is halved.
    assert_eq!(e.a(5_000_000, 0), 5_000_000);
    // Exactly one unit away it vanishes.
    assert_eq!(e.a(UNIT, 0), 0);
}

#[test]
fn resolution_error_sums_amplitudes_times_oscillations() {
    let e = ResolutionError1;
    let xs = vec![0i64, 0];
    // Oscillation factors of +1 and +1: the error is twice theta.
    assert_eq!(resolution_error(&e, &xs, 0, &vec![UNIT, UNIT]), 2 * UNIT);
    // Opposed oscillation factors cancel.
    assert_eq!(resolution_error(&e, &xs, 0, &vec![-UNIT, UNIT]), 0);
    // A zero oscillation factor contributes nothing.
    assert_eq!(resolution_error(&e, &xs, 4_000_000, &vec![0, UNIT]), 6_000_000);
}

#[test]
fn resolution_error_band_narrows_as_fidelity_rises() {
    let e = ResolutionError1;
    let xs = vec![0i64];
    let phi_low: FidelityLevel = 0;
    let phi_high: FidelityLevel = 9_000_000;
    // Worst-case oscillation factors at both fidelities.
    let err_low = resolution_error(&e, &xs, phi_low, &vec![UNIT]);
    let err_high = resolution_error(&e, &xs, phi_high, &vec![UNIT]);
    assert!(err_high.abs() <= err_low.abs());
    assert_eq!(err_low, UNIT);
    assert_eq!(err_high, 1_000_000);
}

#[test]
fn weighted_oscillation_sum_mixes_amplitudes_and_factors() {
    // 0.5 * 1 + 1 * (-0.5) = 0.
    assert_eq!(weighted_oscillation_sum(&vec![5_000_000, UNIT], &vec![UNIT, -5_000_000]), 0);
    // 0.3 * 0.5 = 0.15.
    assert_eq!(weighted_oscillation_sum(&vec![3_000_000], &vec![5_000_000]), 1_500_000);
    assert_eq!(weighted_oscillation_sum(&vec![], &vec![]), 0);
}

#[test]
fn stochastic1_is_zero_mean_with_decaying_spread() {
    let e = StochasticError1;
    assert_eq!(e.mu(&vec![1, 2, 3], 0), 0);
    assert_eq!(e.sigma(0), 1_000_000);
    assert_eq!(e.sigma(5_000_000), 500_000);
    assert!(e.sigma(9_000_000) < e.sigma(1_000_000));
}

#[test]
fn stochastic3_mean_tracks_proximity_to_the_optimum() {
    let e = StochasticError3::new(vec![0i64, 0]);
    // At the optimum itself: mu = (0.1 * theta / 2) * 2 = 0.1.
    assert_eq!(e.mu(&vec![0, 0], 0), 1_000_000);
    // One coordinate a full unit off halves gamma.
    assert_eq!(e.mu(&vec![UNIT, 0], 0), 500_000);
    // Far from the optimum gamma and hence the mean turn negative.
    assert_eq!(e.mu(&vec![3 * UNIT, 3 * UNIT], 0), -2_000_000);
    // The spread matches the zero-mean variant.
    assert_eq!(e.sigma(0), 1_000_000);
}

#[test]
fn stochastic_error_is_mean_plus_scaled_draw() {
    let e = StochasticError1;
    let xs = vec![0i64];
    // A draw two standard deviations out at the lowest fidelity.
    assert_eq!(stochastic_error(&e, &xs, 0, 2 * UNIT), 2_000_000);
    // A zero draw gives exactly the mean.
    assert_eq!(stochastic_error(&e, &xs, 0, 0), 0);
    let biased = StochasticError3::new(vec![0i64]);
    // mu = 0.1 * gamma = 0.1, plus sigma * z with sigma = 0.1.
    assert_eq!(stochastic_error(&biased, &vec![0i64], 0, UNIT), 1_000_000 + 1_000_000);
    assert_eq!(stochastic_error(&biased, &vec![0i64], 0, -UNIT), 0);
}

#[test]
fn location_scale_forms_a_normal_sample() {
    // 0.5 + 0.2 * 1.5 = 0.8.
    assert_eq!(location_scale(5_000_000, 2_000_000, 15_000_000), 8_000_000);
    // A negative draw pulls below the mean.
    assert_eq!(location_scale(5_000_000, 2_000_000, -15_000_000), 2_000_000);
    // Zero spread collapses to the mean whatever the draw.
    assert_eq!(location_scale(-7, 0, UNIT), -7);
}

#[test]
fn lump_outcome_fires_at_or_below_the_threshold() {
    assert_eq!(lump_outcome(1_000_000, 42, 1_000_000), 42);
    assert_eq!(lump_outcome(1_000_000, 42, 1_000_001), 0);
    assert_eq!(lump_outcome(0, 42, 0), 42);
}

#[test]
fn instability_spikes_only_at_or_below_the_failure_probability() {
    let e = InstabilityError1;
    assert_eq!(e.p(0), 1_000_000);
    assert_eq!(e.p(5_000_000), 500_000);
    assert!(e.p(9_000_000) < e.p(1_000_000));
    // The lump penalty is ten times the dimension.
    assert_eq!(e.l(2), 200_000_000);
    // A draw below the threshold fires the spike; one above does not.
    assert_eq!(instability_error(&e, 2, 0, 500_000), 200_000_000);
    assert_eq!(instability_error(&e, 2, 0, 1_000_000), 200_000_000);
    assert_eq!(instability_error(&e, 2, 0, 1_000_001), 0);
}

#[test]
fn mfb_injects_the_resolution_error_per_level() {
    let f = ModifiedRastrigin::new(1);
    let mfb = Mfb::new(f, ResolutionError1, LinearCost, vec![1_000_000, 5_000_000]);
    assert_eq!(mfb.objective().dimension(), 1);
    let xs = vec![0i64];
    let oscillations = vec![vec![UNIT], vec![UNIT]];
    let mut o = mfb.evaluate_with(&xs, 0, &oscillations);
    // Costs come from the linear cost model; values are the true value
    // plus theta at each level.
    assert_eq!(o.next(), Some((1000, 9_000_000)));
    assert_eq!(o.next(), Some((5000, 5_000_000)));
    assert_eq!(o.next(), None);
}

#[test]
fn mfb_composes_externally_aggregated_errors() {
    let f = ModifiedRastrigin::new(1);
    let mfb = Mfb::new(f, ResolutionError1, LinearCost, vec![1_000_000, 5_000_000]);
    let mut o = mfb.evaluate_with_errors(UNIT, &vec![-5, 7]);
    assert_eq!(o.next(), Some((1000, UNIT - 5)));
    assert_eq!(o.next(), Some((5000, UNIT + 7)));
    assert_eq!(o.next(), None);
}

#[test]
fn optimum_biased_models_expose_their_configuration() {
    let e3 = StochasticError3::new(vec![3, -4]);
    assert_eq!(e3.global_optimum(), &vec![3, -4]);
    let e4 = ResolutionError4::new(5);
    assert_eq!(e4.global_minimum(), 5);
}

#[test]
fn mfb_offsets_the_true_value() {
    let f = ModifiedRastrigin::new(1);
    let mfb = Mfb::new(f, ResolutionError1, NonLinearCost, vec![5_000_000, 9_000_000]);
    let xs = vec![0i64];
    let oscillations = vec![vec![-UNIT], vec![0]];
    let mut o = mfb.evaluate_with(&xs, 42 * UNIT, &oscillations);
    assert_eq!(o.next(), Some((625, 42 * UNIT - 5_000_000)));
    assert_eq!(o.next(), Some((6561, 42 * UNIT)));
    assert_eq!(o.next(), None);
}
