use oracles::purger::config::{
    is_stale, stale_cutoff, PurgerConfig, BEACON_STALE_PERIOD, DB_POLL_TIME, ENTROPY_STALE_PERIOD,
    PURGER_DB_POOL_SIZE, PURGER_WORKERS, WITNESS_STALE_PERIOD,
};

#[test]
fn reference_values() {
    assert_eq!(BEACON_STALE_PERIOD, 5400);
    assert_eq!(WITNESS_STALE_PERIOD, 6300);
    assert_eq!(ENTROPY_STALE_PERIOD, 6300);
    assert_eq!(DB_POLL_TIME, 2100);
    assert_eq!(PURGER_WORKERS, 40);
    assert_eq!(PURGER_DB_POOL_SIZE, 200);
}

#[test]
fn offsets_are_ordered() {
    assert_eq!(WITNESS_STALE_PERIOD, ENTROPY_STALE_PERIOD);
    assert!(ENTROPY_STALE_PERIOD > BEACON_STALE_PERIOD);
    assert_eq!(WITNESS_STALE_PERIOD - BEACON_STALE_PERIOD, 900);
}

#[test]
fn periods_add_the_base_to_each_offset() {
    let config = PurgerConfig::new(1000).unwrap();
    assert_eq!(config.base_stale_period(), 1000);
    assert_eq!(config.beacon_stale_period(), 6400);
    assert_eq!(config.witness_stale_period(), 7300);
    assert_eq!(config.entropy_stale_period(), 7300);
    assert_eq!(config.poll_interval(), 2100);
    assert_eq!(config.workers(), 40);

    let config = PurgerConfig::new(-6300).unwrap();
    assert_eq!(config.beacon_stale_period(), -900);
    assert_eq!(config.witness_stale_period(), 0);
}

#[test]
fn base_period_must_leave_room_for_the_offsets() {
    assert!(PurgerConfig::new(i64::MAX).is_none());
    assert!(PurgerConfig::new(i64::MAX - 6299).is_none());
    let largest = PurgerConfig::new(i64::MAX - 6300).unwrap();
    assert_eq!(largest.entropy_stale_period(), i64::MAX);
    assert_eq!(largest.beacon_stale_period(), i64::MAX - 900);
    assert!(PurgerConfig::new(i64::MIN).is_some());
}

#[test]
fn limits_must_not_be_zero() {
    assert!(PurgerConfig::with_limits(0, 0, 40).is_none());
    assert!(PurgerConfig::with_limits(0, 2100, 0).is_none());
    assert!(PurgerConfig::with_limits(i64::MAX, 2100, 40).is_none());
    let config = PurgerConfig::with_limits(5, 60, 3).unwrap();
    assert_eq!(config.base_stale_period(), 5);
    assert_eq!(config.poll_interval(), 60);
    assert_eq!(config.workers(), 3);
}

#[test]
fn staleness_boundary_is_inclusive() {
    let now = 1_000_000;
    for base in [0i64, 77, -300] {
        let period = PurgerConfig::new(base).unwrap().beacon_stale_period();
        assert!(!is_stale(now, now - (base + 5400 - 1), period));
        assert!(is_stale(now, now - (base + 5400), period));
        assert!(is_stale(now, now - (base + 5400 + 1), period));
    }
}

#[test]
fn staleness_does_not_overflow() {
    assert!(is_stale(i64::MAX, i64::MIN, i64::MAX));
    assert!(!is_stale(i64::MIN, i64::MAX, i64::MIN));
    assert!(is_stale(0, 0, 0));
    assert!(is_stale(0, 0, i64::MIN));
    assert!(!is_stale(0, 0, 1));
    assert!(!is_stale(5, 10, 0));
}

#[test]
fn cutoff_is_now_less_period_where_it_fits() {
    assert_eq!(stale_cutoff(10_000, 5400), Some(4600));
    assert_eq!(stale_cutoff(0, 5400), Some(-5400));
    assert_eq!(stale_cutoff(i64::MIN, 1), None);
    assert_eq!(stale_cutoff(i64::MIN, 0), Some(i64::MIN));
    assert_eq!(stale_cutoff(i64::MAX, -1), None);
    assert_eq!(stale_cutoff(-1, i64::MIN), Some(i64::MAX));
    assert_eq!(stale_cutoff(0, i64::MIN), None);
}

#[test]
fn cutoff_and_staleness_agree() {
    let now = 50_000;
    let period = 6300;
    let cutoff = stale_cutoff(now, period).unwrap();
    for received in [cutoff - 1, cutoff, cutoff + 1, now, 0] {
        assert_eq!(received <= cutoff, is_stale(now, received, period));
    }
}
