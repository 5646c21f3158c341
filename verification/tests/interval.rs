use mfbench::Interval;
use mfbench::fixed::{UNIT, fixmul};
use mfbench::mfb::ModifiedRastrigin;
use mfbench::property::Property;

#[test]
fn interval_new_accepts_ordered_bounds() {
    let i = Interval::new(3, 5).unwrap();
    assert_eq!(i.min(), 3);
    assert_eq!(i.max(), 5);
    let point = Interval::new(4, 4).unwrap();
    assert_eq!(point.min(), 4);
    assert_eq!(point.max(), 4);
}

#[test]
fn interval_new_rejects_inverted_bounds() {
    assert!(Interval::new(5, 3).is_none());
    assert!(Interval::new(1, -1).is_none());
}

#[test]
fn interval_new_unchecked_keeps_bounds() {
    let i = Interval::new_unchecked(-UNIT, UNIT);
    assert_eq!(i.min(), -UNIT);
    assert_eq!(i.max(), UNIT);
}

#[test]
fn fixmul_is_exact_on_unit_factors() {
    assert_eq!(fixmul(UNIT, UNIT), UNIT);
    assert_eq!(fixmul(-UNIT / 2, UNIT), -UNIT / 2);
    assert_eq!(fixmul(3_000_000, 5_000_000), 1_500_000);
}

#[test]
fn fixmul_truncates_toward_zero() {
    assert_eq!(fixmul(3, 3_333_333), 0);
    assert_eq!(fixmul(-1, 1), 0);
    assert_eq!(fixmul(-3, 3_333_333), 0);
    assert_eq!(fixmul(-15_000_000, 1), -1);
}

#[test]
fn modified_rastrigin_domain_is_unit_hypercube() {
    let f = ModifiedRastrigin::new(3);
    assert_eq!(f.dimension(), 3);
    let domain = f.input_domain();
    assert_eq!(domain.len(), 3);
    for i in domain.iter() {
        assert_eq!(i.min(), -UNIT);
        assert_eq!(i.max(), UNIT);
    }
}

#[test]
fn property_variants_are_ordered_and_comparable() {
    assert_eq!(Property::Convex, Property::Convex);
    assert_ne!(Property::Convex, Property::Separable);
    assert!(Property::Continous < Property::Multimodal);
    let p = Property::Differentiable;
    assert_eq!(p.clone(), p);
}
