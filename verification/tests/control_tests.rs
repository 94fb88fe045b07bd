use gear_trading::control::{order_units, ControlPolicy};

#[test]
fn reconciliation_orders_the_difference() {
    assert_eq!(order_units(500, 0), Some(500));
    assert_eq!(order_units(0, 500), Some(-500));
    assert_eq!(order_units(-100_000, 100_000), Some(-200_000));
    assert_eq!(order_units(42, 42), None);
}

#[test]
fn default_policy() {
    let p = ControlPolicy::new(String::from("EUR_USD"));
    assert_eq!(p.interval_secs, 15);
    assert_eq!(p.max_iterations, 10_000);
    assert_eq!(p.instrument, String::from("EUR_USD"));
    assert!(!p.finished(10_000));
    assert!(p.finished(10_001));
}
