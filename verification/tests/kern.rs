use dsx::kern::GracePeriod;

#[test]
fn grace_period_waits_for_every_other_core() {
    let mut g = GracePeriod::new(&[5, 7, 9], 1);
    assert_eq!(g.core_count(), 3);
    assert!(g.is_pending(0));
    assert!(!g.is_pending(1));
    assert!(!g.is_complete());
    g.observe(0, 5);
    assert!(g.is_pending(0));
    g.observe(0, 6);
    assert!(!g.is_pending(0));
    g.observe(2, 10);
    assert!(g.is_complete());
    g.observe(2, 0);
    assert!(g.is_complete());
}

#[test]
fn grace_period_of_only_caller_is_complete() {
    let g = GracePeriod::new(&[0], 0);
    assert!(g.is_complete());
    let g = GracePeriod::new(&[], 3);
    assert!(g.is_complete());
}
