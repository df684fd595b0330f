use goblin_gov::claims::{Claim, Claims};
use goblin_gov::coin::Coin;
use goblin_gov::ledger::{
    get_total_staked_per_address_at, insert_stake, remove_stake, LedgerError, SnapshotLedger,
};
use goblin_gov::staking::{
    calculate_release_date, get_staking_amount_from_funds, Config, Staking, StakingError,
};

const S: u64 = 1_000_000_000;

fn coin(denom: &str, amount: u128) -> Coin {
    Coin { denom: denom.to_string(), amount }
}

fn staking(lock_period: u64) -> Staking {
    Staking::new(Config { denom: "ugob".to_string(), lock_period })
}

#[test]
fn unstake_then_withdraw_before_and_after_release() {
    let a = "alice".to_string();
    let t: u64 = 1_000_000 * S;
    let mut s = staking(100);
    s.execute_stake(&a, &vec![coin("ugob", 80)], 1).unwrap();
    s.execute_unstake(&a, 50, 2, t).unwrap();
    let q = s.query_claims(&a, t).unwrap();
    assert_eq!(q.locked.0, vec![Claim { amount: 50, release: t + 100 * S }]);
    assert_eq!(q.total_locked, 50);
    assert_eq!(q.total_released, 0);

    let paid = s.execute_withdraw(&a, t + 50 * S).unwrap();
    assert_eq!(paid.amount, 0);
    assert_eq!(paid.denom, "ugob");
    let q = s.query_claims(&a, t + 50 * S).unwrap();
    assert_eq!(q.locked.0, vec![Claim { amount: 50, release: t + 100 * S }]);

    let paid = s.execute_withdraw(&a, t + 150 * S).unwrap();
    assert_eq!(paid.amount, 50);
    let q = s.query_claims(&a, t + 150 * S).unwrap();
    assert_eq!(q.total, 0);
    assert!(q.locked.0.is_empty());
    assert!(q.released.0.is_empty());
    assert_eq!(s.query_staked_per_address(&a), 30);
}

#[test]
fn claim_released_exactly_at_release_time() {
    let c = Claim { amount: 5, release: 100 };
    assert!(!c.is_released(99));
    assert!(c.is_released(100));
    assert!(c.is_released(101));
}

#[test]
fn withdraw_twice_pays_once() {
    let a = "alice".to_string();
    let mut s = staking(10);
    s.execute_stake(&a, &vec![coin("ugob", 100)], 1).unwrap();
    s.execute_unstake(&a, 30, 2, 0).unwrap();
    s.execute_unstake(&a, 20, 3, 50 * S).unwrap();
    assert_eq!(s.execute_withdraw(&a, 20 * S).unwrap().amount, 30);
    assert_eq!(s.execute_withdraw(&a, 20 * S).unwrap().amount, 0);
    let q = s.query_claims(&a, 20 * S).unwrap();
    assert_eq!(q.locked.0, vec![Claim { amount: 20, release: 60 * S }]);
}

#[test]
fn withdraw_without_claims_pays_zero() {
    let mut s = staking(10);
    let paid = s.execute_withdraw(&"nobody".to_string(), 5).unwrap();
    assert_eq!(paid.amount, 0);
}

#[test]
fn stake_zero_is_refused() {
    let a = "alice".to_string();
    let mut s = staking(10);
    assert_eq!(s.execute_stake(&a, &vec![], 1), Err(StakingError::InsufficientFunds));
    assert_eq!(
        s.execute_stake(&a, &vec![coin("other", 5)], 1),
        Err(StakingError::InsufficientFunds)
    );
    assert_eq!(s.query_total_staked(), 0);
}

#[test]
fn stake_counts_only_staking_denom() {
    let funds = vec![coin("ugob", 5), coin("other", 7), coin("ugob", 6)];
    assert_eq!(get_staking_amount_from_funds(&"ugob".to_string(), &funds), Ok(11));
    let big = vec![coin("ugob", u128::MAX), coin("ugob", 1)];
    assert_eq!(
        get_staking_amount_from_funds(&"ugob".to_string(), &big),
        Err(StakingError::Overflow)
    );
}

#[test]
fn unstake_more_than_staked_is_refused() {
    let a = "alice".to_string();
    let mut s = staking(10);
    s.execute_stake(&a, &vec![coin("ugob", 10)], 1).unwrap();
    assert_eq!(s.execute_unstake(&a, 11, 2, 0), Err(StakingError::InsufficientStake));
    assert_eq!(s.query_staked_per_address(&a), 10);
    assert!(s.query_claims(&a, 0).unwrap().locked.0.is_empty());
}

#[test]
fn unstake_release_overflow_is_refused() {
    let a = "alice".to_string();
    let mut s = staking(10);
    s.execute_stake(&a, &vec![coin("ugob", 10)], 1).unwrap();
    assert_eq!(s.execute_unstake(&a, 5, 2, u64::MAX - 5), Err(StakingError::Overflow));
    assert_eq!(s.query_staked_per_address(&a), 10);
    assert_eq!(calculate_release_date(100, 7), Ok(100 * S + 7));
    assert_eq!(calculate_release_date(u64::MAX / S + 1, 0), Err(StakingError::Overflow));
}

#[test]
fn stake_history_by_height() {
    let a = "alice".to_string();
    let b = "bob".to_string();
    let mut s = staking(10);
    s.execute_stake(&a, &vec![coin("ugob", 10)], 5).unwrap();
    s.execute_stake(&b, &vec![coin("ugob", 7)], 6).unwrap();
    s.execute_stake(&a, &vec![coin("ugob", 3)], 6).unwrap();
    s.execute_unstake(&a, 4, 9, 0).unwrap();
    assert_eq!(s.query_staked_at_per_address(&a, 4), 0);
    assert_eq!(s.query_staked_at_per_address(&a, 5), 10);
    assert_eq!(s.query_staked_at_per_address(&a, 6), 13);
    assert_eq!(s.query_staked_at_per_address(&a, 8), 13);
    assert_eq!(s.query_staked_at_per_address(&a, 9), 9);
    assert_eq!(s.query_total_staked_at(4), 0);
    assert_eq!(s.query_total_staked_at(5), 10);
    assert_eq!(s.query_total_staked_at(6), 20);
    assert_eq!(s.query_total_staked_at(100), 16);
    assert_eq!(s.query_total_staked(), 16);
}

#[test]
fn total_equals_sum_of_balances_at_every_height() {
    let names = ["a", "b", "c"];
    let mut l = SnapshotLedger::new();
    let ops: [(usize, i64, u64); 7] =
        [(0, 10, 1), (1, 5, 1), (0, -3, 2), (2, 8, 4), (1, -5, 4), (2, 2, 4), (0, 1, 7)];
    for (who, delta, h) in ops.iter() {
        let addr = names[*who].to_string();
        if *delta >= 0 {
            insert_stake(&mut l, &addr, *delta as u128, *h).unwrap();
        } else {
            remove_stake(&mut l, &addr, (-*delta) as u128, *h).unwrap();
        }
    }
    for h in 0..10u64 {
        let sum: u128 = names
            .iter()
            .map(|n| get_total_staked_per_address_at(&l, &n.to_string(), h))
            .sum();
        assert_eq!(l.total_at(h), sum);
    }
    assert_eq!(l.balance_at(&"a".to_string(), 3), 7);
    assert_eq!(l.balance_at(&"b".to_string(), 4), 0);
}

#[test]
fn same_height_changes_overwrite() {
    let a = "a".to_string();
    let mut l = SnapshotLedger::new();
    insert_stake(&mut l, &a, 4, 3).unwrap();
    insert_stake(&mut l, &a, 6, 3).unwrap();
    assert_eq!(l.accounts[0].val.len(), 1);
    assert_eq!(l.balance_at(&a, 3), 10);
    assert_eq!(l.total.len(), 1);
}

#[test]
fn ledger_errors() {
    let a = "a".to_string();
    let mut l = SnapshotLedger::new();
    assert_eq!(remove_stake(&mut l, &a, 1, 1), Err(LedgerError::Underflow));
    insert_stake(&mut l, &a, u128::MAX, 1).unwrap();
    assert_eq!(insert_stake(&mut l, &a, 1, 2), Err(LedgerError::Overflow));
    assert_eq!(l.balance(&a), u128::MAX);
}

#[test]
fn claims_partition_and_total() {
    let mut c = Claims::new();
    c.add(Claim { amount: 1, release: 10 });
    c.add(Claim { amount: 2, release: 20 });
    c.add(Claim { amount: 4, release: 5 });
    let (rel, loc) = c.partition(10);
    assert_eq!(rel.0, vec![Claim { amount: 1, release: 10 }, Claim { amount: 4, release: 5 }]);
    assert_eq!(loc.0, vec![Claim { amount: 2, release: 20 }]);
    assert_eq!(c.total(), Some(7));
    let mut big = Claims::new();
    big.add(Claim { amount: u128::MAX, release: 0 });
    big.add(Claim { amount: 1, release: 0 });
    assert_eq!(big.total(), None);
}
