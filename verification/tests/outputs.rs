use mfbench::mfso::Outputs;

#[test]
fn outputs_yields_pairs_in_order() {
    let mut o = Outputs::new(vec![(1u64, 5i64), (3, 7), (9, 11)]);
    assert_eq!(o.remaining(), 3);
    assert_eq!(o.next(), Some((1, 5)));
    assert_eq!(o.next(), Some((3, 7)));
    assert_eq!(o.remaining(), 1);
    assert_eq!(o.next(), Some((9, 11)));
    assert_eq!(o.next(), None);
}

#[test]
fn outputs_is_exhausted_after_one_full_drain() {
    let mut o = Outputs::new(vec![(1u64, 10i64), (2, 20)]);
    let mut pulled: usize = 0;
    while o.next().is_some() {
        pulled += 1;
    }
    assert_eq!(pulled, 2);
    // A second pass over the same sequence yields nothing at all.
    assert_eq!(o.next(), None);
    assert_eq!(o.next(), None);
    assert_eq!(o.remaining(), 0);
}

#[test]
fn outputs_carries_float_estimates() {
    let mut o = Outputs::new(vec![(1u64, 0.5f64), (10, 0.25)]);
    assert_eq!(o.next(), Some((1, 0.5)));
    assert_eq!(o.next(), Some((10, 0.25)));
    assert_eq!(o.next(), None);
}

#[test]
fn drain_last_cost_reports_the_final_cost_and_exhausts() {
    let mut o = Outputs::new(vec![(1u64, 5i64), (3, 7), (9, 11)]);
    assert_eq!(o.drain_last_cost(), Some(9));
    assert_eq!(o.remaining(), 0);
    assert_eq!(o.next(), None);

    let mut empty: Outputs<i64> = Outputs::new(vec![]);
    assert_eq!(empty.drain_last_cost(), None);
}
