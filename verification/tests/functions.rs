use mfbench::fixed::UNIT;
use mfbench::mfso::{Borehole, CurrinExponential, Hartmann3d, Hartmann6d, Park};

#[test]
fn currin_outputs_pair_costs_with_estimates() {
    let f = CurrinExponential::new(10);
    assert_eq!(f.cost_factor(), 10);
    let mut o = f.evaluate_with(1.5f64, 2.5f64);
    assert_eq!(o.next(), Some((1, 1.5)));
    assert_eq!(o.next(), Some((10, 2.5)));
    assert_eq!(o.next(), None);
    assert_eq!(f.max_cost(), 10);
}

#[test]
fn currin_domain_is_unit_square() {
    let f = CurrinExponential::default();
    let d = f.input_domain();
    assert_eq!(d.len(), 2);
    for i in d.iter() {
        assert_eq!(i.min(), 0);
        assert_eq!(i.max(), UNIT);
    }
}

#[test]
fn park_bills_one_for_the_cheap_estimate() {
    let f = Park::new(40);
    let mut o = f.evaluate_with(-1.0f64, -2.0f64);
    assert_eq!(o.next(), Some((1, -1.0)));
    assert_eq!(o.next(), Some((40, -2.0)));
    assert_eq!(o.next(), None);
    assert_eq!(f.max_cost(), 40);
    assert_eq!(f.input_domain().len(), 4);
    // The geometric cost law holds for any non-zero factor.
    let cheap = Park::new(5);
    let mut o2 = cheap.evaluate_with(0.5f64, 1.5f64);
    assert_eq!(o2.next(), Some((1, 0.5)));
    assert_eq!(o2.next(), Some((5, 1.5)));
}

#[test]
fn borehole_domain_matches_the_physical_ranges() {
    let f = Borehole::new(10);
    let d = f.input_domain();
    assert_eq!(d.len(), 8);
    assert_eq!((d[0].min(), d[0].max()), (500_000, 1_500_000));
    assert_eq!((d[1].min(), d[1].max()), (1_000_000_000, 500_000_000_000));
    assert_eq!((d[2].min(), d[2].max()), (630_700_000_000, 1_156_000_000_000));
    assert_eq!((d[3].min(), d[3].max()), (9_900_000_000, 11_100_000_000));
    assert_eq!((d[4].min(), d[4].max()), (631_000_000, 1_160_000_000));
    assert_eq!((d[5].min(), d[5].max()), (7_000_000_000, 8_200_000_000));
    assert_eq!((d[6].min(), d[6].max()), (11_200_000_000, 16_800_000_000));
    assert_eq!((d[7].min(), d[7].max()), (98_550_000_000, 120_450_000_000));
    assert_eq!(f.max_cost(), 10);
}

#[test]
fn hartmann3d_costs_are_exactly_the_powers_of_the_factor() {
    let f = Hartmann3d::new(3, 10);
    assert_eq!(f.costs(), vec![1, 10, 100]);
    // The maximum cost is known without draining an evaluation.
    assert_eq!(f.max_cost(), 100);
    // And it equals the cost of the last pair of an evaluation.
    let mut o = f.evaluate_with(vec![7i64, 8, 9]);
    assert_eq!(o.next(), Some((1, 7)));
    assert_eq!(o.next(), Some((10, 8)));
    assert_eq!(o.next(), Some((100, 9)));
    assert_eq!(o.next(), None);
}

#[test]
fn hartmann3d_drained_last_cost_agrees_with_max_cost() {
    let f = Hartmann3d::new(3, 10);
    let mut o = f.evaluate_with(vec![0.0f64, 0.0, 0.0]);
    assert_eq!(o.drain_last_cost(), Some(f.max_cost()));
    assert_eq!(o.next(), None);
}

#[test]
fn hartmann3d_alpha_drifts_below_the_top_tier() {
    let f = Hartmann3d::new(3, 10);
    // At the top tier the weights are the base table: 1.0, 1.2, 3.0, 3.2.
    assert_eq!(f.alpha(3, 0), 10_000_000);
    assert_eq!(f.alpha(3, 1), 12_000_000);
    assert_eq!(f.alpha(3, 2), 30_000_000);
    assert_eq!(f.alpha(3, 3), 32_000_000);
    // Two tiers below, each weight has drifted by twice its delta.
    assert_eq!(f.alpha(1, 0), 10_200_000);
    assert_eq!(f.alpha(1, 1), 11_800_000);
    assert_eq!(f.alpha(1, 2), 28_000_000);
    assert_eq!(f.alpha(1, 3), 34_000_000);
    assert_eq!(f.input_domain().len(), 3);
}

#[test]
fn hartmann6d_has_four_default_tiers() {
    let f = Hartmann6d::default();
    assert_eq!(f.max_fidelity(), 4);
    assert_eq!(f.cost_factor(), 10);
    assert_eq!(f.costs(), vec![1, 10, 100, 1000]);
    assert_eq!(f.max_cost(), 1000);
    assert_eq!(f.input_domain().len(), 6);
    let mut o = f.evaluate_with(vec![1i64, 2, 3, 4]);
    assert_eq!(o.drain_last_cost(), Some(1000));
}

#[test]
fn hartmann3d_with_unit_cost_factor_stays_flat() {
    let f = Hartmann3d::new(3, 1);
    assert_eq!(f.costs(), vec![1, 1, 1]);
    assert_eq!(f.max_cost(), 1);
}
