use oracles::balances::{Balance, BalanceSufficiency, OrgChange};

#[test]
fn new_balance_has_nothing_burned_and_is_enabled() {
    let balance = Balance::new(7);
    assert_eq!(balance, Balance { balance: 7, burned: 0, enabled: true });
}

#[test]
fn sufficient_reports_a_flip_to_enabled() {
    let mut enabled = false;
    let outcome = BalanceSufficiency::sufficient(&mut enabled);
    assert!(enabled);
    assert_eq!(outcome, BalanceSufficiency::Sufficient { enable: true });
    let outcome = BalanceSufficiency::sufficient(&mut enabled);
    assert!(enabled);
    assert_eq!(outcome, BalanceSufficiency::Sufficient { enable: false });
    assert!(outcome.is_sufficient());
}

#[test]
fn insufficient_reports_a_flip_to_disabled() {
    let mut enabled = true;
    let outcome = BalanceSufficiency::insufficient(&mut enabled);
    assert!(!enabled);
    assert_eq!(outcome, BalanceSufficiency::Insufficient { disable: true });
    let outcome = BalanceSufficiency::insufficient(&mut enabled);
    assert!(!enabled);
    assert_eq!(outcome, BalanceSufficiency::Insufficient { disable: false });
    assert!(!outcome.is_sufficient());
}

#[test]
fn org_changes_only_on_a_flip() {
    assert_eq!(BalanceSufficiency::Sufficient { enable: true }.org_change(), OrgChange::Enable);
    assert_eq!(BalanceSufficiency::Sufficient { enable: false }.org_change(), OrgChange::Keep);
    assert_eq!(BalanceSufficiency::Insufficient { disable: true }.org_change(), OrgChange::Disable);
    assert_eq!(BalanceSufficiency::Insufficient { disable: false }.org_change(), OrgChange::Keep);
}

#[test]
fn debit_burns_while_the_balance_covers() {
    let mut balance = Balance::new(10);
    assert_eq!(balance.debit_if_sufficient(4), BalanceSufficiency::Sufficient { enable: false });
    assert_eq!(balance, Balance { balance: 10, burned: 4, enabled: true });
    assert_eq!(balance.debit_if_sufficient(6), BalanceSufficiency::Sufficient { enable: false });
    assert_eq!(balance, Balance { balance: 10, burned: 10, enabled: true });
    assert_eq!(balance.debit_if_sufficient(1), BalanceSufficiency::Insufficient { disable: true });
    assert_eq!(balance, Balance { balance: 10, burned: 10, enabled: false });
    assert_eq!(balance.debit_if_sufficient(1), BalanceSufficiency::Insufficient { disable: false });
    assert_eq!(balance.debit_if_sufficient(0), BalanceSufficiency::Sufficient { enable: true });
    assert_eq!(balance, Balance { balance: 10, burned: 10, enabled: true });
}

#[test]
fn debit_does_not_overflow() {
    let mut balance = Balance { balance: u64::MAX, burned: u64::MAX, enabled: true };
    assert!(!balance.is_covering(1));
    assert!(balance.is_covering(0));
    assert_eq!(
        balance.debit_if_sufficient(u64::MAX),
        BalanceSufficiency::Insufficient { disable: true }
    );
    assert_eq!(balance.burned, u64::MAX);
    let mut balance = Balance { balance: u64::MAX, burned: 1, enabled: false };
    assert_eq!(
        balance.debit_if_sufficient(u64::MAX - 1),
        BalanceSufficiency::Sufficient { enable: true }
    );
    assert_eq!(balance.burned, u64::MAX);
}

#[test]
fn lookup_is_needed_when_nothing_is_cached_or_the_cache_falls_short() {
    assert!(Balance::needs_lookup(None, 0));
    let cached = Balance { balance: 10, burned: 5, enabled: true };
    assert!(!Balance::needs_lookup(Some(&cached), 5));
    assert!(Balance::needs_lookup(Some(&cached), 6));
}

#[test]
fn looked_up_balance_replaces_the_cached_one() {
    assert_eq!(Balance::looked_up(None, 9), Balance { balance: 9, burned: 0, enabled: true });
    let cached = Balance { balance: 10, burned: 5, enabled: false };
    assert_eq!(
        Balance::looked_up(Some(cached), 100),
        Balance { balance: 100, burned: 5, enabled: false }
    );
}

#[test]
fn pending_burn_counts_as_burned() {
    assert_eq!(
        Balance::with_pending_burn(50, 20),
        Balance { balance: 50, burned: 20, enabled: true }
    );
    assert_eq!(Balance::with_pending_burn(0, 0).burned, 0);
    assert_eq!(Balance::with_pending_burn(0, i64::MAX).burned, i64::MAX as u64);
    assert_eq!(Balance::with_pending_burn(0, -1).burned, u64::MAX);
    assert_eq!(Balance::with_pending_burn(0, i64::MIN).burned, 1u64 << 63);
}
