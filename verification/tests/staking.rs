use staking::contract::{CrossContract, CustodyDirection, StakeError};
use staking::record::{RemoteOutcome, Stake, StakeState};
use staking::reward::accrued;

fn fresh() -> CrossContract {
    // reward rate: 1 unit per unit of time
    CrossContract::new("ft.test".to_string(), "nft.test".to_string(), 1)
}

fn staked_contract(owner: &str, asset: &str, at: u64) -> CrossContract {
    let mut c = fresh();
    let owner = owner.to_string();
    let asset = asset.to_string();
    c.stake(&owner, &asset, at).unwrap();
    c.confirm_stake(&owner, &asset, RemoteOutcome::Success).unwrap();
    c
}

#[test]
fn accrual_formula_exact() {
    assert_eq!(accrued(100, 1, 150), 50);
    assert_eq!(accrued(100, 3, 150), 150);
    assert_eq!(accrued(7, 0, 1000), 0);
    assert_eq!(accrued(0, u64::MAX, u64::MAX), (u64::MAX as u128) * (u64::MAX as u128));
}

#[test]
fn accrual_clock_anomaly_is_zero() {
    assert_eq!(accrued(200, 5, 100), 0);
}

#[test]
fn stake_request_describes_custody_transfer() {
    let mut c = fresh();
    let alice = "alice".to_string();
    let t1 = "T1".to_string();
    let act = c.stake(&alice, &t1, 100).unwrap();
    assert_eq!(act.account, "alice");
    assert_eq!(act.asset_id, "T1");
    assert_eq!(act.direction, CustodyDirection::IntoCustody);
    let page = c.list_stakes(&alice, 0, 10);
    assert_eq!(page.len(), 1);
    assert_eq!(page[0].state, StakeState::Pending);
    assert_eq!(page[0].staked_at, 100);
    assert_eq!(page[0].last_claim_at, 100);
}

#[test]
fn double_stake_rejected() {
    let mut c = fresh();
    let alice = "alice".to_string();
    let t1 = "T1".to_string();
    c.stake(&alice, &t1, 100).unwrap();
    // still pending: blocked
    assert_eq!(c.stake(&alice, &t1, 101).unwrap_err(), StakeError::AlreadyStaked);
    c.confirm_stake(&alice, &t1, RemoteOutcome::Success).unwrap();
    // staked: still blocked
    assert_eq!(c.stake(&alice, &t1, 102).unwrap_err(), StakeError::AlreadyStaked);
    // a different asset or a different account is not blocked
    c.stake(&alice, &"T2".to_string(), 103).unwrap();
    c.stake(&"bob".to_string(), &t1, 103).unwrap();
}

#[test]
fn stake_again_after_successful_unstake() {
    let mut c = staked_contract("alice", "T1", 100);
    let alice = "alice".to_string();
    let t1 = "T1".to_string();
    c.unstake(&alice, &t1).unwrap();
    c.confirm_unstake(&alice, &t1, RemoteOutcome::Success).unwrap();
    assert_eq!(c.list_stakes(&alice, 0, 10).len(), 0);
    c.stake(&alice, &t1, 200).unwrap();
}

#[test]
fn claim_scenario_pays_and_settles() {
    // alice stakes "T1" at t=100 with rate 1; claimable at t=150 is 50;
    // a confirmed claim at t=150 pays 50, sets last_claim_at=150, and a
    // further query at t=150 reads 0.
    let mut c = staked_contract("alice", "T1", 100);
    let alice = "alice".to_string();
    let t1 = "T1".to_string();
    assert_eq!(c.get_claimable(&alice, &t1, 150), 50);
    let pay = c.claim(&alice, &t1, 150).unwrap();
    assert_eq!(pay.receiver, "alice");
    assert_eq!(pay.amount, 50);
    assert_eq!(pay.claimed_until, 150);
    c.confirm_claim(&alice, &t1, pay.claimed_until, RemoteOutcome::Success).unwrap();
    assert_eq!(c.get_claimable(&alice, &t1, 150), 0);
    assert_eq!(c.list_stakes(&alice, 0, 10)[0].last_claim_at, 150);
}

#[test]
fn unconfirmed_claim_does_not_double_pay() {
    // two claims in immediate succession, no confirmation between them:
    // both see the same window and the same amount
    let mut c = staked_contract("alice", "T1", 100);
    let alice = "alice".to_string();
    let t1 = "T1".to_string();
    let first = c.claim(&alice, &t1, 150).unwrap();
    let second = c.claim(&alice, &t1, 150).unwrap();
    assert_eq!(first.amount, 50);
    assert_eq!(second.amount, 50);
    assert_eq!(c.list_stakes(&alice, 0, 10)[0].last_claim_at, 100);
    // a failed payout leaves the entitlement too
    assert_eq!(
        c.confirm_claim(&alice, &t1, 150, RemoteOutcome::Failed).unwrap_err(),
        StakeError::RemoteCallFailed
    );
    assert_eq!(c.get_claimable(&alice, &t1, 150), 50);
}

#[test]
fn stale_claim_confirmation_does_not_regress() {
    let mut c = staked_contract("alice", "T1", 100);
    let alice = "alice".to_string();
    let t1 = "T1".to_string();
    c.claim(&alice, &t1, 150).unwrap();
    c.claim(&alice, &t1, 160).unwrap();
    // the later payout settles first
    c.confirm_claim(&alice, &t1, 160, RemoteOutcome::Success).unwrap();
    // the older confirmation arrives afterwards: nothing moves backwards
    c.confirm_claim(&alice, &t1, 150, RemoteOutcome::Success).unwrap();
    assert_eq!(c.list_stakes(&alice, 0, 10)[0].last_claim_at, 160);
}

#[test]
fn nothing_staked_reads_zero_not_error() {
    let c = fresh();
    let bob = "bob".to_string();
    let t9 = "T9".to_string();
    // no record at all: an informational zero, not an error
    assert_eq!(c.get_claimable(&bob, &t9, 1000), 0);
    // but a claim, which must dispatch a payout, reports the miss
    assert_eq!(c.claim(&bob, &t9, 1000).unwrap_err(), StakeError::NotFound);
}

#[test]
fn unstake_by_stranger_fails_without_mutation() {
    // bob never staked "T1": the request is refused synchronously, no
    // custody transfer is described, and the ledger is untouched
    let mut c = staked_contract("alice", "T1", 100);
    let bob = "bob".to_string();
    let t1 = "T1".to_string();
    assert_eq!(c.unstake(&bob, &t1).unwrap_err(), StakeError::NotFound);
    let page = c.list_stakes(&"alice".to_string(), 0, 10);
    assert_eq!(page.len(), 1);
    assert_eq!(page[0].state, StakeState::Staked);
}

#[test]
fn unstake_wrong_state_rejected() {
    let mut c = fresh();
    let alice = "alice".to_string();
    let t1 = "T1".to_string();
    c.stake(&alice, &t1, 100).unwrap();
    // pending custody transfer: a second operation must not race it
    assert_eq!(c.unstake(&alice, &t1).unwrap_err(), StakeError::InvalidState);
    c.confirm_stake(&alice, &t1, RemoteOutcome::Success).unwrap();
    c.unstake(&alice, &t1).unwrap();
    // already unstaking: ditto
    assert_eq!(c.unstake(&alice, &t1).unwrap_err(), StakeError::InvalidState);
}

#[test]
fn failed_stake_retained_and_retriable() {
    // a stake whose custody transfer is confirmed as failed leaves the
    // record in Failed, visible to list_stakes, not silently removed
    let mut c = fresh();
    let alice = "alice".to_string();
    let t1 = "T1".to_string();
    c.stake(&alice, &t1, 100).unwrap();
    assert_eq!(
        c.confirm_stake(&alice, &t1, RemoteOutcome::Failed).unwrap_err(),
        StakeError::RemoteCallFailed
    );
    let page = c.list_stakes(&alice, 0, 10);
    assert_eq!(page.len(), 1);
    assert_eq!(page[0].state, StakeState::Failed);
    // a failed record accrues nothing and cannot be claimed
    assert_eq!(c.get_claimable(&alice, &t1, 500), 0);
    assert_eq!(c.claim(&alice, &t1, 500).unwrap_err(), StakeError::InvalidState);
    // but the stake can be retried in place
    c.stake(&alice, &t1, 200).unwrap();
    let page = c.list_stakes(&alice, 0, 10);
    assert_eq!(page.len(), 1);
    assert_eq!(page[0].state, StakeState::Pending);
    assert_eq!(page[0].staked_at, 200);
}

#[test]
fn budget_exhaustion_reported_and_absorbing() {
    let mut c = staked_contract("alice", "T1", 100);
    let alice = "alice".to_string();
    let t1 = "T1".to_string();
    c.unstake(&alice, &t1).unwrap();
    assert_eq!(
        c.confirm_unstake(&alice, &t1, RemoteOutcome::BudgetExhausted).unwrap_err(),
        StakeError::BudgetExhausted
    );
    assert_eq!(c.list_stakes(&alice, 0, 10)[0].state, StakeState::Failed);
    // the failure is absorbing: no further confirmation applies
    assert_eq!(
        c.confirm_unstake(&alice, &t1, RemoteOutcome::Success).unwrap_err(),
        StakeError::InvalidState
    );
}

#[test]
fn confirmation_applies_once() {
    let mut c = fresh();
    let alice = "alice".to_string();
    let t1 = "T1".to_string();
    c.stake(&alice, &t1, 100).unwrap();
    c.confirm_stake(&alice, &t1, RemoteOutcome::Success).unwrap();
    // the same outcome reported again is refused, not applied twice
    assert_eq!(
        c.confirm_stake(&alice, &t1, RemoteOutcome::Success).unwrap_err(),
        StakeError::InvalidState
    );
    assert_eq!(
        c.confirm_stake(&"carol".to_string(), &t1, RemoteOutcome::Success).unwrap_err(),
        StakeError::NotFound
    );
}

#[test]
fn unstake_full_lifecycle() {
    let mut c = staked_contract("alice", "T1", 100);
    let alice = "alice".to_string();
    let t1 = "T1".to_string();
    let act = c.unstake(&alice, &t1).unwrap();
    assert_eq!(act.account, "alice");
    assert_eq!(act.asset_id, "T1");
    assert_eq!(act.direction, CustodyDirection::OutOfCustody);
    assert_eq!(c.list_stakes(&alice, 0, 10)[0].state, StakeState::Unstaking);
    c.confirm_unstake(&alice, &t1, RemoteOutcome::Success).unwrap();
    assert_eq!(c.list_stakes(&alice, 0, 10).len(), 0);
}

#[test]
fn reconcile_checks_ownership() {
    let mut c = fresh();
    let alice = "alice".to_string();
    let bob = "bob".to_string();
    let t1 = "T1".to_string();
    c.stake(&alice, &t1, 100).unwrap();
    // bob cannot reconcile alice's stuck record
    assert_eq!(
        c.reconcile(&bob, &alice, &t1, RemoteOutcome::Success).unwrap_err(),
        StakeError::NotOwner
    );
    assert_eq!(c.list_stakes(&alice, 0, 10)[0].state, StakeState::Pending);
    // alice can: the missed confirmation is applied
    c.reconcile(&alice, &alice, &t1, RemoteOutcome::Success).unwrap();
    assert_eq!(c.list_stakes(&alice, 0, 10)[0].state, StakeState::Staked);
}

#[test]
fn reconcile_stuck_unstake() {
    let mut c = staked_contract("alice", "T1", 100);
    let alice = "alice".to_string();
    let t1 = "T1".to_string();
    c.unstake(&alice, &t1).unwrap();
    c.reconcile(&alice, &alice, &t1, RemoteOutcome::Success).unwrap();
    assert_eq!(c.list_stakes(&alice, 0, 10).len(), 0);
    // a record awaiting no confirmation cannot be reconciled
    let mut c = staked_contract("alice", "T1", 100);
    assert_eq!(
        c.reconcile(&alice, &alice, &t1, RemoteOutcome::Success).unwrap_err(),
        StakeError::InvalidState
    );
}

#[test]
fn listing_is_paginated_and_scoped() {
    let mut c = fresh();
    let alice = "alice".to_string();
    let bob = "bob".to_string();
    for (asset, t) in [("A", 10u64), ("B", 20), ("C", 30)] {
        let asset = asset.to_string();
        c.stake(&alice, &asset, t).unwrap();
        c.confirm_stake(&alice, &asset, RemoteOutcome::Success).unwrap();
    }
    c.stake(&bob, &"D".to_string(), 40).unwrap();
    let all = c.list_stakes(&alice, 0, 10);
    assert_eq!(all.len(), 3);
    assert_eq!(all[0].asset_id, "A");
    assert_eq!(all[1].asset_id, "B");
    assert_eq!(all[2].asset_id, "C");
    assert!(all.iter().all(|r| r.owner == "alice"));
    let middle = c.list_stakes(&alice, 1, 1);
    assert_eq!(middle.len(), 1);
    assert_eq!(middle[0].asset_id, "B");
    assert_eq!(c.list_stakes(&alice, 3, 5).len(), 0);
    assert_eq!(c.list_stakes(&alice, 0, 0).len(), 0);
    assert_eq!(c.list_stakes(&bob, 0, 10).len(), 1);
    assert_eq!(c.list_stakes(&"carol".to_string(), 0, 10).len(), 0);
}

#[test]
fn accrual_monotone_in_time() {
    let c = staked_contract("alice", "T1", 100);
    let alice = "alice".to_string();
    let t1 = "T1".to_string();
    let mut last = 0u128;
    for now in [100u64, 101, 150, 1000, 1_000_000] {
        let cur = c.get_claimable(&alice, &t1, now);
        assert!(cur >= last);
        last = cur;
    }
}

#[test]
fn configuration_is_kept() {
    let c = fresh();
    assert_eq!(*c.ft_account(), "ft.test");
    assert_eq!(*c.nft_account(), "nft.test");
    assert_eq!(c.rate(), 1);
}

#[test]
fn snapshot_round_trip() {
    let mut c = staked_contract("alice", "T1", 100);
    let alice = "alice".to_string();
    c.stake(&alice, &"T2".to_string(), 120).unwrap();
    let records = c.snapshot();
    assert_eq!(records.len(), 2);
    let rebuilt = CrossContract::from_records(
        "ft.test".to_string(),
        "nft.test".to_string(),
        1,
        records,
    )
    .unwrap();
    assert_eq!(rebuilt.get_claimable(&alice, &"T1".to_string(), 150), 50);
    let page = rebuilt.list_stakes(&alice, 0, 10);
    assert_eq!(page.len(), 2);
    assert_eq!(page[0].asset_id, "T1");
    assert_eq!(page[1].state, StakeState::Pending);
}

#[test]
fn from_records_rejects_malformed_ledgers() {
    let rec = |owner: &str, asset: &str, staked_at: u64, last: u64, state: StakeState| Stake {
        owner: owner.to_string(),
        asset_id: asset.to_string(),
        staked_at,
        last_claim_at: last,
        state,
    };
    // duplicate (owner, asset) key
    let dup = vec![
        rec("alice", "T1", 10, 10, StakeState::Staked),
        rec("alice", "T1", 20, 20, StakeState::Pending),
    ];
    assert!(CrossContract::from_records("ft".to_string(), "nft".to_string(), 1, dup).is_none());
    // the transient Released state must not be stored
    let released = vec![rec("alice", "T1", 10, 10, StakeState::Released)];
    assert!(
        CrossContract::from_records("ft".to_string(), "nft".to_string(), 1, released).is_none()
    );
    // a claim settled before the stake
    let skewed = vec![rec("alice", "T1", 10, 5, StakeState::Staked)];
    assert!(
        CrossContract::from_records("ft".to_string(), "nft".to_string(), 1, skewed).is_none()
    );
    // the same asset under two owners is fine
    let ok = vec![
        rec("alice", "T1", 10, 10, StakeState::Staked),
        rec("bob", "T1", 20, 20, StakeState::Failed),
    ];
    assert!(CrossContract::from_records("ft".to_string(), "nft".to_string(), 1, ok).is_some());
}
