//! The contract facade and transfer orchestrator.
//!
//! Every operation that needs a remote call returns a description of the
//! call to dispatch; the ledger mutation that depends on the call's outcome
//! is applied only by the matching confirmation operation, exactly once.

use vstd::prelude::*;

use crate::ledger::{
    has_rec, is_rec, lemma_push_keeps_wf, lemma_rec_idx_is, lemma_remove_clears_key,
    lemma_update_keeps_wf, rec_at, rec_idx, wf_records, Ledger,
};
use crate::record::{lifecycle_edge, RemoteOutcome, Stake, StakeState, StakeV};
use crate::reward::{accrued, accrued_spec};

verus! {

/// Why an operation was refused.  Validation errors are detected
/// synchronously, before any remote call is dispatched; the remote errors
/// are reported only by a confirmation.
#[derive(Clone, Copy, PartialEq, Eq, Structural, Debug)]
pub enum StakeError {
    /// No record exists for the given owner and asset.
    NotFound,
    /// A live record for this asset already exists for this account.
    AlreadyStaked,
    /// The caller does not own the record it tries to act on.
    NotOwner,
    /// The record's state does not permit the operation.
    InvalidState,
    /// The external contract confirmed the call as failed.
    RemoteCallFailed,
    /// The execution budget ran out before the remote call chain completed.
    BudgetExhausted,
}

/// Which way a custody transfer moves the asset.
#[derive(Clone, Copy, PartialEq, Eq, Structural, Debug)]
pub enum CustodyDirection {
    /// From the owner's account into the contract's custody.
    IntoCustody,
    /// From the contract's custody back to the owner's account.
    OutOfCustody,
}

/// A custody transfer the caller must dispatch to the non-fungible asset
/// contract, then report back through the matching confirmation.
#[derive(Debug)]
pub struct CustodyTransfer {
    /// The account on the non-contract side of the transfer.
    pub account: String,
    /// The asset to move.
    pub asset_id: String,
    /// Which way the asset moves.
    pub direction: CustodyDirection,
}

/// A reward payout the caller must dispatch to the fungible asset contract.
/// `claimed_until` must be handed back unchanged to the confirmation, so
/// that the settlement covers exactly the window that was paid.
#[derive(Debug)]
pub struct RewardTransfer {
    /// The account the reward is paid to.
    pub receiver: String,
    /// The amount owed for the settled window.
    pub amount: u128,
    /// The timestamp through which this payout settles the accrual.
    pub claimed_until: u64,
}

/// A live record: one in any state but `Failed`.  Such a record blocks a new
/// stake of the same asset by the same account.
pub open spec fn blocked(s: Seq<StakeV>, owner: Seq<char>, asset_id: Seq<char>) -> bool {
    has_rec(s, owner, asset_id) && rec_at(s, owner, asset_id).state != StakeState::Failed
}

/// The record a newly accepted stake request creates: pending confirmation,
/// with both timestamps at the time of acceptance.
pub open spec fn fresh_rec(owner: Seq<char>, asset_id: Seq<char>, now: u64) -> StakeV {
    StakeV {
        owner: owner,
        asset_id: asset_id,
        staked_at: now,
        last_claim_at: now,
        state: StakeState::Pending,
    }
}

/// The ledger after a stake request for `(owner, asset_id)` is accepted at
/// `now`: a fresh pending record, either replacing a failed one or appended.
pub open spec fn stake_post(
    s: Seq<StakeV>,
    owner: Seq<char>,
    asset_id: Seq<char>,
    now: u64,
) -> Seq<StakeV> {
    if has_rec(s, owner, asset_id) {
        s.update(rec_idx(s, owner, asset_id), fresh_rec(owner, asset_id, now))
    } else {
        s.push(fresh_rec(owner, asset_id, now))
    }
}

/// The ledger after the record for `(owner, asset_id)` moves to state `st`.
pub open spec fn set_rec_state(
    s: Seq<StakeV>,
    owner: Seq<char>,
    asset_id: Seq<char>,
    st: StakeState,
) -> Seq<StakeV> {
    s.update(
        rec_idx(s, owner, asset_id),
        StakeV { state: st, ..rec_at(s, owner, asset_id) },
    )
}

/// The ledger after a claim on `(owner, asset_id)` settles through time `t`.
pub open spec fn settle_post(
    s: Seq<StakeV>,
    owner: Seq<char>,
    asset_id: Seq<char>,
    t: u64,
) -> Seq<StakeV> {
    s.update(
        rec_idx(s, owner, asset_id),
        StakeV { last_claim_at: t, ..rec_at(s, owner, asset_id) },
    )
}

/// What a query or a claim sees as claimable: the accrued reward of the
/// record for `(owner, asset_id)` while it is `Staked`, and zero when no
/// such record exists or it is in any other state.
pub open spec fn claimable_spec(
    s: Seq<StakeV>,
    owner: Seq<char>,
    asset_id: Seq<char>,
    rate: u64,
    now: u64,
) -> int {
    if has_rec(s, owner, asset_id) && rec_at(s, owner, asset_id).state == StakeState::Staked {
        accrued_spec(rec_at(s, owner, asset_id).last_claim_at, rate, now)
    } else {
        0
    }
}

/// The views of a sequence of records, in order.
pub open spec fn stake_views(s: Seq<Stake>) -> Seq<StakeV> {
    Seq::new(s.len(), |i: int| s[i]@)
}

/// One account's records, in ledger order.
pub open spec fn stakes_of(s: Seq<StakeV>, owner: Seq<char>) -> Seq<StakeV> {
    s.filter(|r: StakeV| r.owner == owner)
}

/// The page of a listing: records `start .. start + limit` of it, clipped
/// to its length.
pub open spec fn page_of(s: Seq<StakeV>, start: int, limit: int) -> Seq<StakeV> {
    let lo = if start < s.len() { start } else { s.len() as int };
    let hi = if start + limit < s.len() { start + limit } else { s.len() as int };
    s.subrange(lo, hi)
}

/// Filtering one more record keeps the listing, or appends the record,
/// depending on its owner.
proof fn lemma_stakes_of_push(s: Seq<StakeV>, owner: Seq<char>, x: StakeV)
    ensures
        stakes_of(s.push(x), owner) == if x.owner == owner {
            stakes_of(s, owner).push(x)
        } else {
            stakes_of(s, owner)
        },
{
    reveal(Seq::filter);
    assert(s.push(x).drop_last() =~= s);
    assert(s.push(x).last() == x);
}

/// The staking contract: immutable configuration and the stake ledger.
pub struct CrossContract {
    nft_account: String,
    ft_account: String,
    rate: u64,
    ledger: Ledger,
}

impl View for CrossContract {
    type V = Seq<StakeV>;

    closed spec fn view(&self) -> Seq<StakeV> {
        self.ledger@
    }
}

/// The construction-time configuration survives every operation unchanged.
pub open spec fn same_config(pre: CrossContract, post: CrossContract) -> bool {
    &&& post.spec_nft_account() == pre.spec_nft_account()
    &&& post.spec_ft_account() == pre.spec_ft_account()
    &&& post.spec_rate() == pre.spec_rate()
}

impl CrossContract {
    /// The identifier of the external non-fungible custody contract.
    pub closed spec fn spec_nft_account(&self) -> Seq<char> {
        self.nft_account@
    }

    /// The identifier of the external fungible reward contract.
    pub closed spec fn spec_ft_account(&self) -> Seq<char> {
        self.ft_account@
    }

    /// The fixed per-unit-time reward rate.
    pub closed spec fn spec_rate(&self) -> u64 {
        self.rate
    }

    /// The contract's invariant: a well-formed ledger.
    pub open spec fn wf(&self) -> bool {
        wf_records(self@)
    }

    /// Sets up the contract with the identifiers of the two external asset
    /// contracts and the reward rate; all three are immutable afterward.
    /// The ledger starts empty.
    pub fn new(ft_account: String, nft_account: String, rate: u64) -> (r: CrossContract)
        ensures
            r@ == Seq::<StakeV>::empty(),
            r.wf(),
            r.spec_ft_account() == ft_account@,
            r.spec_nft_account() == nft_account@,
            r.spec_rate() == rate,
    {
        CrossContract { nft_account, ft_account, rate, ledger: Ledger::new() }
    }

    /// Rebuilds a contract from stored records, as the host hands them
    /// back: accepted only when the records are well-formed — no two share
    /// an `(owner, asset_id)` key, none stores the transient `Released`
    /// state, and none settles a claim before its stake.
    pub fn from_records(
        ft_account: String,
        nft_account: String,
        rate: u64,
        records: Vec<Stake>,
    ) -> (r: Option<CrossContract>)
        ensures
            match r {
                Some(c) => {
                    &&& wf_records(stake_views(records@))
                    &&& c@ == stake_views(records@)
                    &&& c.wf()
                    &&& c.spec_ft_account() == ft_account@
                    &&& c.spec_nft_account() == nft_account@
                    &&& c.spec_rate() == rate
                },
                None => !wf_records(stake_views(records@)),
            },
    {
        let ghost full = stake_views(records@);
        let n = records.len();
        let mut led = Ledger::new();
        let mut i: usize = 0;
        proof {
            assert(records@.take(0) =~= Seq::<Stake>::empty());
            assert(led@ =~= stake_views(records@.take(0)));
        }
        while i < n
            invariant
                i <= n,
                n == records@.len(),
                full == stake_views(records@),
                led.wf(),
                led@ == stake_views(records@.take(i as int)),
            decreases n - i,
        {
            let rec = &records[i];
            proof {
                assert(full[i as int] == records@[i as int]@);
            }
            if rec.staked_at > rec.last_claim_at || rec.state == StakeState::Released {
                proof {
                    if wf_records(full) {
                        assert(full[i as int].state != StakeState::Released);
                        assert(full[i as int].staked_at <= full[i as int].last_claim_at);
                    }
                }
                return None;
            }
            match led.find_idx(&rec.owner, &rec.asset_id) {
                Some(j) => {
                    proof {
                        assert(led@[j as int] == records@[j as int]@);
                        assert(full[j as int].owner == full[i as int].owner
                            && full[j as int].asset_id == full[i as int].asset_id);
                        if wf_records(full) {
                            assert(!(full[j as int].owner == full[i as int].owner
                                && full[j as int].asset_id == full[i as int].asset_id));
                        }
                    }
                    return None;
                },
                None => {
                    led.put(rec.clone());
                    proof {
                        assert(records@.take(i + 1) =~= records@.take(i as int).push(
                            records@[i as int],
                        ));
                        assert(led@ =~= stake_views(records@.take(i + 1)));
                    }
                },
            }
            i += 1;
        }
        proof {
            assert(records@.take(n as int) =~= records@);
        }
        Some(CrossContract { nft_account, ft_account, rate, ledger: led })
    }

    /// Every stored record, in ledger order — the counterpart of
    /// `from_records`, for the host to persist.
    pub fn snapshot(&self) -> (r: Vec<Stake>)
        ensures
            stake_views(r@) == self@,
    {
        let n = self.ledger.len();
        let mut out: Vec<Stake> = Vec::new();
        let mut i: usize = 0;
        proof {
            assert(stake_views(out@) =~= self@.take(0));
        }
        while i < n
            invariant
                i <= n,
                n == self@.len(),
                stake_views(out@) == self@.take(i as int),
            decreases n - i,
        {
            let ghost pre = out@;
            out.push(self.ledger.get(i).clone());
            proof {
                assert(self@.take(i + 1) =~= self@.take(i as int).push(self@[i as int]));
                assert(stake_views(out@) =~= stake_views(pre).push(self@[i as int]));
            }
            i += 1;
        }
        proof {
            assert(self@.take(n as int) =~= self@);
        }
        out
    }

    /// Accepts a stake request: records a fresh `Pending` stake for
    /// `(caller, asset_id)` and describes the custody transfer the caller
    /// must dispatch.  Refused with `AlreadyStaked` while a live record for
    /// the same key exists; a `Failed` record is restarted in place, so a
    /// failed stake can be retried.
    pub fn stake(&mut self, caller: &String, asset_id: &String, now: u64) -> (r: Result<
        CustodyTransfer,
        StakeError,
    >)
        requires
            old(self).wf(),
        ensures
            final(self).wf(),
            same_config(*old(self), *final(self)),
            match r {
                Ok(act) => {
                    &&& !blocked(old(self)@, caller@, asset_id@)
                    &&& final(self)@ == stake_post(old(self)@, caller@, asset_id@, now)
                    &&& has_rec(final(self)@, caller@, asset_id@)
                    &&& rec_at(final(self)@, caller@, asset_id@) == fresh_rec(
                        caller@,
                        asset_id@,
                        now,
                    )
                    &&& act.account@ == caller@
                    &&& act.asset_id@ == asset_id@
                    &&& act.direction == CustodyDirection::IntoCustody
                },
                Err(e) => {
                    &&& e == StakeError::AlreadyStaked
                    &&& blocked(old(self)@, caller@, asset_id@)
                    &&& final(self)@ == old(self)@
                },
            },
    {
        match self.ledger.find_idx(caller, asset_id) {
            Some(i) => {
                proof {
                    lemma_rec_idx_is(self@, caller@, asset_id@, i as int);
                }
                if self.ledger.get(i).state != StakeState::Failed {
                    return Err(StakeError::AlreadyStaked);
                }
                self.ledger.restart(i, now);
                proof {
                    lemma_rec_idx_is(self@, caller@, asset_id@, i as int);
                }
                Ok(
                    CustodyTransfer {
                        account: caller.clone(),
                        asset_id: asset_id.clone(),
                        direction: CustodyDirection::IntoCustody,
                    },
                )
            },
            None => {
                let rec = Stake {
                    owner: caller.clone(),
                    asset_id: asset_id.clone(),
                    staked_at: now,
                    last_claim_at: now,
                    state: StakeState::Pending,
                };
                self.ledger.put(rec);
                proof {
                    lemma_rec_idx_is(self@, caller@, asset_id@, old(self)@.len() as int);
                }
                Ok(
                    CustodyTransfer {
                        account: caller.clone(),
                        asset_id: asset_id.clone(),
                        direction: CustodyDirection::IntoCustody,
                    },
                )
            },
        }
    }

    /// Accepts a withdrawal request for the caller's own `Staked` record:
    /// moves it to `Unstaking` and describes the custody transfer returning
    /// the asset.  Refused with `NotFound` when no record for
    /// `(caller, asset_id)` exists, and with `InvalidState` when the record
    /// is not `Staked` (in particular while another transfer is in flight).
    pub fn unstake(&mut self, caller: &String, asset_id: &String) -> (r: Result<
        CustodyTransfer,
        StakeError,
    >)
        requires
            old(self).wf(),
        ensures
            final(self).wf(),
            same_config(*old(self), *final(self)),
            match r {
                Ok(act) => {
                    &&& has_rec(old(self)@, caller@, asset_id@)
                    &&& rec_at(old(self)@, caller@, asset_id@).state == StakeState::Staked
                    &&& lifecycle_edge(
                        rec_at(old(self)@, caller@, asset_id@).state,
                        StakeState::Unstaking,
                    )
                    &&& final(self)@ == set_rec_state(
                        old(self)@,
                        caller@,
                        asset_id@,
                        StakeState::Unstaking,
                    )
                    &&& has_rec(final(self)@, caller@, asset_id@)
                    &&& rec_at(final(self)@, caller@, asset_id@) == (StakeV {
                        state: StakeState::Unstaking,
                        ..rec_at(old(self)@, caller@, asset_id@)
                    })
                    &&& act.account@ == caller@
                    &&& act.asset_id@ == asset_id@
                    &&& act.direction == CustodyDirection::OutOfCustody
                },
                Err(StakeError::NotFound) => {
                    &&& !has_rec(old(self)@, caller@, asset_id@)
                    &&& final(self)@ == old(self)@
                },
                Err(StakeError::InvalidState) => {
                    &&& has_rec(old(self)@, caller@, asset_id@)
                    &&& rec_at(old(self)@, caller@, asset_id@).state != StakeState::Staked
                    &&& final(self)@ == old(self)@
                },
                Err(_) => false,
            },
    {
        match self.ledger.find_idx(caller, asset_id) {
            Some(i) => {
                proof {
                    lemma_rec_idx_is(self@, caller@, asset_id@, i as int);
                }
                if self.ledger.get(i).state != StakeState::Staked {
                    return Err(StakeError::InvalidState);
                }
                self.ledger.set_state(i, StakeState::Unstaking);
                proof {
                    lemma_rec_idx_is(self@, caller@, asset_id@, i as int);
                }
                Ok(
                    CustodyTransfer {
                        account: caller.clone(),
                        asset_id: asset_id.clone(),
                        direction: CustodyDirection::OutOfCustody,
                    },
                )
            },
            None => Err(StakeError::NotFound),
        }
    }

    /// Computes the caller's accrued reward on a `Staked` record and
    /// describes the reward payout to dispatch.  The ledger is untouched:
    /// the last settled claim advances only when the payout is confirmed, so
    /// an unconfirmed claim can be retried without losing the entitlement.
    pub fn claim(&self, caller: &String, asset_id: &String, now: u64) -> (r: Result<
        RewardTransfer,
        StakeError,
    >)
        requires
            self.wf(),
        ensures
            match r {
                Ok(act) => {
                    &&& has_rec(self@, caller@, asset_id@)
                    &&& rec_at(self@, caller@, asset_id@).state == StakeState::Staked
                    &&& act.receiver@ == caller@
                    &&& act.claimed_until == now
                    &&& act.amount as int == claimable_spec(
                        self@,
                        caller@,
                        asset_id@,
                        self.spec_rate(),
                        now,
                    )
                },
                Err(StakeError::NotFound) => !has_rec(self@, caller@, asset_id@),
                Err(StakeError::InvalidState) => {
                    &&& has_rec(self@, caller@, asset_id@)
                    &&& rec_at(self@, caller@, asset_id@).state != StakeState::Staked
                },
                Err(_) => false,
            },
    {
        match self.ledger.find_idx(caller, asset_id) {
            Some(i) => {
                proof {
                    lemma_rec_idx_is(self@, caller@, asset_id@, i as int);
                }
                let rec = self.ledger.get(i);
                if rec.state != StakeState::Staked {
                    return Err(StakeError::InvalidState);
                }
                let amount = accrued(rec.last_claim_at, self.rate, now);
                Ok(RewardTransfer { receiver: caller.clone(), amount, claimed_until: now })
            },
            None => Err(StakeError::NotFound),
        }
    }

    /// Read-only query: the reward accrued so far on the caller's `Staked`
    /// record, and zero — an informational result, not an error — when no
    /// record exists, when it is in another state, or when the clock reads
    /// earlier than the last settled claim.
    pub fn get_claimable(&self, caller: &String, asset_id: &String, now: u64) -> (r: u128)
        requires
            self.wf(),
        ensures
            r as int == claimable_spec(self@, caller@, asset_id@, self.spec_rate(), now),
    {
        match self.ledger.find_idx(caller, asset_id) {
            Some(i) => {
                proof {
                    lemma_rec_idx_is(self@, caller@, asset_id@, i as int);
                }
                let rec = self.ledger.get(i);
                if rec.state == StakeState::Staked {
                    accrued(rec.last_claim_at, self.rate, now)
                } else {
                    0
                }
            },
            None => 0,
        }
    }

    /// Applies the confirmed outcome of the custody transfer a `stake`
    /// dispatched: `Success` moves the `Pending` record to `Staked`; a
    /// confirmed failure or budget exhaustion moves it to `Failed` and
    /// surfaces the matching error, retaining the record for retry.  A
    /// record not in `Pending` is refused with `InvalidState`, so one
    /// outcome is never applied twice.
    pub fn confirm_stake(&mut self, owner: &String, asset_id: &String, outcome: RemoteOutcome)
        -> (r: Result<(), StakeError>)
        requires
            old(self).wf(),
        ensures
            final(self).wf(),
            same_config(*old(self), *final(self)),
            match r {
                Ok(()) => {
                    &&& has_rec(old(self)@, owner@, asset_id@)
                    &&& rec_at(old(self)@, owner@, asset_id@).state == StakeState::Pending
                    &&& outcome == RemoteOutcome::Success
                    &&& final(self)@ == set_rec_state(
                        old(self)@,
                        owner@,
                        asset_id@,
                        StakeState::Staked,
                    )
                    &&& has_rec(final(self)@, owner@, asset_id@)
                    &&& rec_at(final(self)@, owner@, asset_id@) == (StakeV {
                        state: StakeState::Staked,
                        ..rec_at(old(self)@, owner@, asset_id@)
                    })
                    &&& lifecycle_edge(
                        rec_at(old(self)@, owner@, asset_id@).state,
                        StakeState::Staked,
                    )
                },
                Err(StakeError::RemoteCallFailed) => {
                    &&& has_rec(old(self)@, owner@, asset_id@)
                    &&& rec_at(old(self)@, owner@, asset_id@).state == StakeState::Pending
                    &&& outcome == RemoteOutcome::Failed
                    &&& final(self)@ == set_rec_state(
                        old(self)@,
                        owner@,
                        asset_id@,
                        StakeState::Failed,
                    )
                    &&& has_rec(final(self)@, owner@, asset_id@)
                    &&& rec_at(final(self)@, owner@, asset_id@) == (StakeV {
                        state: StakeState::Failed,
                        ..rec_at(old(self)@, owner@, asset_id@)
                    })
                    &&& lifecycle_edge(
                        rec_at(old(self)@, owner@, asset_id@).state,
                        StakeState::Failed,
                    )
                },
                Err(StakeError::BudgetExhausted) => {
                    &&& has_rec(old(self)@, owner@, asset_id@)
                    &&& rec_at(old(self)@, owner@, asset_id@).state == StakeState::Pending
                    &&& outcome == RemoteOutcome::BudgetExhausted
                    &&& final(self)@ == set_rec_state(
                        old(self)@,
                        owner@,
                        asset_id@,
                        StakeState::Failed,
                    )
                    &&& has_rec(final(self)@, owner@, asset_id@)
                    &&& rec_at(final(self)@, owner@, asset_id@) == (StakeV {
                        state: StakeState::Failed,
                        ..rec_at(old(self)@, owner@, asset_id@)
                    })
                    &&& lifecycle_edge(
                        rec_at(old(self)@, owner@, asset_id@).state,
                        StakeState::Failed,
                    )
                },
                Err(StakeError::NotFound) => {
                    &&& !has_rec(old(self)@, owner@, asset_id@)
                    &&& final(self)@ == old(self)@
                },
                Err(StakeError::InvalidState) => {
                    &&& has_rec(old(self)@, owner@, asset_id@)
                    &&& rec_at(old(self)@, owner@, asset_id@).state != StakeState::Pending
                    &&& final(self)@ == old(self)@
                },
                Err(_) => false,
            },
    {
        match self.ledger.find_idx(owner, asset_id) {
            Some(i) => {
                proof {
                    lemma_rec_idx_is(self@, owner@, asset_id@, i as int);
                }
                if self.ledger.get(i).state != StakeState::Pending {
                    return Err(StakeError::InvalidState);
                }
                let r = match outcome {
                    RemoteOutcome::Success => {
                        self.ledger.set_state(i, StakeState::Staked);
                        Ok(())
                    },
                    RemoteOutcome::Failed => {
                        self.ledger.set_state(i, StakeState::Failed);
                        Err(StakeError::RemoteCallFailed)
                    },
                    RemoteOutcome::BudgetExhausted => {
                        self.ledger.set_state(i, StakeState::Failed);
                        Err(StakeError::BudgetExhausted)
                    },
                };
                proof {
                    lemma_rec_idx_is(self@, owner@, asset_id@, i as int);
                }
                r
            },
            None => Err(StakeError::NotFound),
        }
    }

    /// Applies the confirmed outcome of the custody transfer an `unstake`
    /// dispatched: `Success` releases the record — custody is back with the
    /// owner, so the record leaves the ledger; a confirmed failure or budget
    /// exhaustion moves it to `Failed` and retains it.  A record not in
    /// `Unstaking` is refused with `InvalidState`, so one outcome is never
    /// applied twice.
    pub fn confirm_unstake(&mut self, owner: &String, asset_id: &String, outcome: RemoteOutcome)
        -> (r: Result<(), StakeError>)
        requires
            old(self).wf(),
        ensures
            final(self).wf(),
            same_config(*old(self), *final(self)),
            match r {
                Ok(()) => {
                    &&& has_rec(old(self)@, owner@, asset_id@)
                    &&& rec_at(old(self)@, owner@, asset_id@).state == StakeState::Unstaking
                    &&& outcome == RemoteOutcome::Success
                    &&& final(self)@ == old(self)@.remove(rec_idx(old(self)@, owner@, asset_id@))
                    &&& !has_rec(final(self)@, owner@, asset_id@)
                    &&& lifecycle_edge(
                        rec_at(old(self)@, owner@, asset_id@).state,
                        StakeState::Released,
                    )
                },
                Err(StakeError::RemoteCallFailed) => {
                    &&& has_rec(old(self)@, owner@, asset_id@)
                    &&& rec_at(old(self)@, owner@, asset_id@).state == StakeState::Unstaking
                    &&& outcome == RemoteOutcome::Failed
                    &&& final(self)@ == set_rec_state(
                        old(self)@,
                        owner@,
                        asset_id@,
                        StakeState::Failed,
                    )
                    &&& has_rec(final(self)@, owner@, asset_id@)
                    &&& rec_at(final(self)@, owner@, asset_id@) == (StakeV {
                        state: StakeState::Failed,
                        ..rec_at(old(self)@, owner@, asset_id@)
                    })
                    &&& lifecycle_edge(
                        rec_at(old(self)@, owner@, asset_id@).state,
                        StakeState::Failed,
                    )
                },
                Err(StakeError::BudgetExhausted) => {
                    &&& has_rec(old(self)@, owner@, asset_id@)
                    &&& rec_at(old(self)@, owner@, asset_id@).state == StakeState::Unstaking
                    &&& outcome == RemoteOutcome::BudgetExhausted
                    &&& final(self)@ == set_rec_state(
                        old(self)@,
                        owner@,
                        asset_id@,
                        StakeState::Failed,
                    )
                    &&& has_rec(final(self)@, owner@, asset_id@)
                    &&& rec_at(final(self)@, owner@, asset_id@) == (StakeV {
                        state: StakeState::Failed,
                        ..rec_at(old(self)@, owner@, asset_id@)
                    })
                    &&& lifecycle_edge(
                        rec_at(old(self)@, owner@, asset_id@).state,
                        StakeState::Failed,
                    )
                },
                Err(StakeError::NotFound) => {
                    &&& !has_rec(old(self)@, owner@, asset_id@)
                    &&& final(self)@ == old(self)@
                },
                Err(StakeError::InvalidState) => {
                    &&& has_rec(old(self)@, owner@, asset_id@)
                    &&& rec_at(old(self)@, owner@, asset_id@).state != StakeState::Unstaking
                    &&& final(self)@ == old(self)@
                },
                Err(_) => false,
            },
    {
        match self.ledger.find_idx(owner, asset_id) {
            Some(i) => {
                proof {
                    lemma_rec_idx_is(self@, owner@, asset_id@, i as int);
                }
                if self.ledger.get(i).state != StakeState::Unstaking {
                    return Err(StakeError::InvalidState);
                }
                match outcome {
                    RemoteOutcome::Success => {
                        let ghost pre = self@;
                        self.ledger.remove(i);
                        proof {
                            lemma_remove_clears_key(pre, i as int);
                        }
                        Ok(())
                    },
                    RemoteOutcome::Failed => {
                        self.ledger.set_state(i, StakeState::Failed);
                        proof {
                            lemma_rec_idx_is(self@, owner@, asset_id@, i as int);
                        }
                        Err(StakeError::RemoteCallFailed)
                    },
                    RemoteOutcome::BudgetExhausted => {
                        self.ledger.set_state(i, StakeState::Failed);
                        proof {
                            lemma_rec_idx_is(self@, owner@, asset_id@, i as int);
                        }
                        Err(StakeError::BudgetExhausted)
                    },
                }
            },
            None => Err(StakeError::NotFound),
        }
    }

    /// Applies the confirmed outcome of the reward payout a `claim`
    /// dispatched.  On `Success` the record's accrual window settles through
    /// `claimed_until`, the timestamp the payout carried — unless a later
    /// claim already settled further, in which case nothing regresses; so
    /// confirming the same payout twice settles it once.  On a confirmed
    /// failure or budget exhaustion the ledger is untouched: the last
    /// settled claim stays where it was, the entitlement is not lost, and
    /// the claim can be retried.
    pub fn confirm_claim(
        &mut self,
        owner: &String,
        asset_id: &String,
        claimed_until: u64,
        outcome: RemoteOutcome,
    ) -> (r: Result<(), StakeError>)
        requires
            old(self).wf(),
        ensures
            final(self).wf(),
            same_config(*old(self), *final(self)),
            match r {
                Ok(()) => {
                    &&& has_rec(old(self)@, owner@, asset_id@)
                    &&& rec_at(old(self)@, owner@, asset_id@).state == StakeState::Staked
                    &&& outcome == RemoteOutcome::Success
                    &&& if claimed_until
                        >= rec_at(old(self)@, owner@, asset_id@).last_claim_at {
                        final(self)@ == settle_post(old(self)@, owner@, asset_id@, claimed_until)
                    } else {
                        final(self)@ == old(self)@
                    }
                    &&& has_rec(final(self)@, owner@, asset_id@)
                    &&& rec_at(final(self)@, owner@, asset_id@) == (StakeV {
                        last_claim_at: if claimed_until
                            >= rec_at(old(self)@, owner@, asset_id@).last_claim_at {
                            claimed_until
                        } else {
                            rec_at(old(self)@, owner@, asset_id@).last_claim_at
                        },
                        ..rec_at(old(self)@, owner@, asset_id@)
                    })
                },
                Err(StakeError::RemoteCallFailed) => {
                    &&& has_rec(old(self)@, owner@, asset_id@)
                    &&& rec_at(old(self)@, owner@, asset_id@).state == StakeState::Staked
                    &&& outcome == RemoteOutcome::Failed
                    &&& final(self)@ == old(self)@
                },
                Err(StakeError::BudgetExhausted) => {
                    &&& has_rec(old(self)@, owner@, asset_id@)
                    &&& rec_at(old(self)@, owner@, asset_id@).state == StakeState::Staked
                    &&& outcome == RemoteOutcome::BudgetExhausted
                    &&& final(self)@ == old(self)@
                },
                Err(StakeError::NotFound) => {
                    &&& !has_rec(old(self)@, owner@, asset_id@)
                    &&& final(self)@ == old(self)@
                },
                Err(StakeError::InvalidState) => {
                    &&& has_rec(old(self)@, owner@, asset_id@)
                    &&& rec_at(old(self)@, owner@, asset_id@).state != StakeState::Staked
                    &&& final(self)@ == old(self)@
                },
                Err(_) => false,
            },
    {
        match self.ledger.find_idx(owner, asset_id) {
            Some(i) => {
                proof {
                    lemma_rec_idx_is(self@, owner@, asset_id@, i as int);
                }
                let rec = self.ledger.get(i);
                if rec.state != StakeState::Staked {
                    return Err(StakeError::InvalidState);
                }
                match outcome {
                    RemoteOutcome::Success => {
                        if claimed_until >= rec.last_claim_at {
                            self.ledger.settle_claim(i, claimed_until);
                        }
                        proof {
                            lemma_rec_idx_is(self@, owner@, asset_id@, i as int);
                        }
                        Ok(())
                    },
                    RemoteOutcome::Failed => Err(StakeError::RemoteCallFailed),
                    RemoteOutcome::BudgetExhausted => Err(StakeError::BudgetExhausted),
                }
            },
            None => Err(StakeError::NotFound),
        }
    }

    /// Reconciliation for a record stuck awaiting a confirmation that never
    /// arrived: the record's owner reports the remote contract's
    /// authoritative outcome, and the missed confirmation is applied — as
    /// `confirm_stake` for a `Pending` record, as `confirm_unstake` for an
    /// `Unstaking` one.  Refused with `NotOwner` when the caller is not the
    /// record's owner, and with `InvalidState` when the record awaits no
    /// confirmation.
    pub fn reconcile(
        &mut self,
        caller: &String,
        owner: &String,
        asset_id: &String,
        outcome: RemoteOutcome,
    ) -> (r: Result<(), StakeError>)
        requires
            old(self).wf(),
        ensures
            final(self).wf(),
            same_config(*old(self), *final(self)),
            match r {
                Ok(()) => {
                    &&& caller@ == owner@
                    &&& has_rec(old(self)@, owner@, asset_id@)
                    &&& outcome == RemoteOutcome::Success
                    &&& (rec_at(old(self)@, owner@, asset_id@).state == StakeState::Pending
                        || rec_at(old(self)@, owner@, asset_id@).state == StakeState::Unstaking)
                    &&& (rec_at(old(self)@, owner@, asset_id@).state == StakeState::Pending
                        ==> final(self)@ == set_rec_state(
                        old(self)@,
                        owner@,
                        asset_id@,
                        StakeState::Staked,
                    ))
                    &&& (rec_at(old(self)@, owner@, asset_id@).state == StakeState::Unstaking
                        ==> final(self)@ == old(self)@.remove(
                        rec_idx(old(self)@, owner@, asset_id@),
                    ))
                },
                Err(StakeError::NotOwner) => {
                    &&& caller@ != owner@
                    &&& final(self)@ == old(self)@
                },
                Err(StakeError::NotFound) => {
                    &&& caller@ == owner@
                    &&& !has_rec(old(self)@, owner@, asset_id@)
                    &&& final(self)@ == old(self)@
                },
                Err(StakeError::InvalidState) => {
                    &&& caller@ == owner@
                    &&& has_rec(old(self)@, owner@, asset_id@)
                    &&& rec_at(old(self)@, owner@, asset_id@).state != StakeState::Pending
                    &&& rec_at(old(self)@, owner@, asset_id@).state != StakeState::Unstaking
                    &&& final(self)@ == old(self)@
                },
                Err(StakeError::RemoteCallFailed) => {
                    &&& caller@ == owner@
                    &&& has_rec(old(self)@, owner@, asset_id@)
                    &&& outcome == RemoteOutcome::Failed
                    &&& (rec_at(old(self)@, owner@, asset_id@).state == StakeState::Pending
                        || rec_at(old(self)@, owner@, asset_id@).state == StakeState::Unstaking)
                    &&& final(self)@ == set_rec_state(
                        old(self)@,
                        owner@,
                        asset_id@,
                        StakeState::Failed,
                    )
                },
                Err(StakeError::BudgetExhausted) => {
                    &&& caller@ == owner@
                    &&& has_rec(old(self)@, owner@, asset_id@)
                    &&& outcome == RemoteOutcome::BudgetExhausted
                    &&& (rec_at(old(self)@, owner@, asset_id@).state == StakeState::Pending
                        || rec_at(old(self)@, owner@, asset_id@).state == StakeState::Unstaking)
                    &&& final(self)@ == set_rec_state(
                        old(self)@,
                        owner@,
                        asset_id@,
                        StakeState::Failed,
                    )
                },
                Err(_) => false,
            },
    {
        if !(*caller == *owner) {
            return Err(StakeError::NotOwner);
        }
        match self.ledger.find_idx(owner, asset_id) {
            Some(i) => {
                proof {
                    lemma_rec_idx_is(self@, owner@, asset_id@, i as int);
                }
                let st = self.ledger.get(i).state;
                if st == StakeState::Pending {
                    self.confirm_stake(owner, asset_id, outcome)
                } else if st == StakeState::Unstaking {
                    self.confirm_unstake(owner, asset_id, outcome)
                } else {
                    Err(StakeError::InvalidState)
                }
            },
            None => Err(StakeError::NotFound),
        }
    }

    /// Read-only query: one page of the owner's records, in ledger order —
    /// records `start .. start + limit` of the owner's listing, clipped to
    /// its length.  Every record is visible here whatever its state, so a
    /// `Failed` stake is never silently lost.
    pub fn list_stakes(&self, owner: &String, start: usize, limit: usize) -> (r: Vec<Stake>)
        requires
            self.wf(),
        ensures
            stake_views(r@) == page_of(stakes_of(self@, owner@), start as int, limit as int),
    {
        let n = self.ledger.len();
        let mut all: Vec<Stake> = Vec::new();
        let mut i: usize = 0;
        proof {
            assert(self@.take(0) =~= Seq::<StakeV>::empty());
            reveal(Seq::filter);
            assert(stake_views(all@) =~= stakes_of(self@.take(0), owner@));
        }
        while i < n
            invariant
                i <= n,
                n == self@.len(),
                stake_views(all@) == stakes_of(self@.take(i as int), owner@),
            decreases n - i,
        {
            let rec = self.ledger.get(i);
            let ghost pre_all = all@;
            if rec.owner == *owner {
                all.push(rec.clone());
            }
            proof {
                assert(self@.take(i + 1) =~= self@.take(i as int).push(self@[i as int]));
                lemma_stakes_of_push(self@.take(i as int), owner@, self@[i as int]);
                if self@[i as int].owner == owner@ {
                    assert(stake_views(all@) =~= stake_views(pre_all).push(self@[i as int]));
                }
                assert(stake_views(all@) == stakes_of(self@.take(i + 1), owner@));
            }
            i += 1;
        }
        proof {
            assert(self@.take(n as int) =~= self@);
        }
        let ghost listing = stakes_of(self@, owner@);
        let f_len = all.len();
        let lo = if start < f_len {
            start
        } else {
            f_len
        };
        let room = f_len - lo;
        let width = if limit < room {
            limit
        } else {
            room
        };
        let hi = lo + width;
        let mut out: Vec<Stake> = Vec::new();
        let mut j = lo;
        proof {
            assert(stake_views(out@) =~= listing.subrange(lo as int, lo as int));
        }
        while j < hi
            invariant
                lo <= j <= hi <= f_len,
                f_len == listing.len(),
                stake_views(all@) == listing,
                stake_views(out@) == listing.subrange(lo as int, j as int),
            decreases hi - j,
        {
            let ghost pre_out = out@;
            out.push(all[j].clone());
            proof {
                assert(all@[j as int]@ == listing[j as int]);
                assert(stake_views(out@) =~= stake_views(pre_out).push(listing[j as int]));
                assert(listing.subrange(lo as int, j + 1) =~= listing.subrange(
                    lo as int,
                    j as int,
                ).push(listing[j as int]));
            }
            j += 1;
        }
        proof {
            assert(listing.subrange(lo as int, hi as int) =~= page_of(
                listing,
                start as int,
                limit as int,
            ));
        }
        out
    }

    /// The identifier of the external non-fungible custody contract.
    pub fn nft_account(&self) -> (r: &String)
        ensures
            r@ == self.spec_nft_account(),
    {
        &self.nft_account
    }

    /// The identifier of the external fungible reward contract.
    pub fn ft_account(&self) -> (r: &String)
        ensures
            r@ == self.spec_ft_account(),
    {
        &self.ft_account
    }

    /// The fixed per-unit-time reward rate.
    pub fn rate(&self) -> (r: u64)
        ensures
            r == self.spec_rate(),
    {
        self.rate
    }
}

/// Law: staking an asset twice for the same account without an intervening
/// successful unstake is refused.  Once a stake request is accepted, the
/// ledger holds a record for that `(owner, asset_id)` in the non-`Failed`
/// state `Pending`, which is exactly the condition under which `stake`
/// answers `AlreadyStaked`; only the removal of the record (a confirmed
/// unstake) or its confirmed failure lifts that block.
pub proof fn lemma_stake_blocks_restake(
    s: Seq<StakeV>,
    owner: Seq<char>,
    asset_id: Seq<char>,
    now: u64,
)
    requires
        wf_records(s),
        !blocked(s, owner, asset_id),
    ensures
        wf_records(stake_post(s, owner, asset_id, now)),
        blocked(stake_post(s, owner, asset_id, now), owner, asset_id),
{
    let post = stake_post(s, owner, asset_id, now);
    let f = fresh_rec(owner, asset_id, now);
    if has_rec(s, owner, asset_id) {
        let i = rec_idx(s, owner, asset_id);
        assert(0 <= i < s.len() && is_rec(s[i], owner, asset_id));
        lemma_update_keeps_wf(s, post, i);
        lemma_rec_idx_is(post, owner, asset_id, i);
    } else {
        lemma_push_keeps_wf(s, f);
        lemma_rec_idx_is(post, owner, asset_id, s.len() as int);
    }
}

/// Law: the accrual window advances only through a confirmed settlement.
/// After a claim's payout is confirmed through time `t`, the record's
/// claimable amount measures from `t` — in particular it is zero when
/// queried at `t` itself; until then the ledger, and with it the amount any
/// further claim computes, stays exactly as it was.
pub proof fn lemma_settlement_resets_accrual(
    s: Seq<StakeV>,
    owner: Seq<char>,
    asset_id: Seq<char>,
    rate: u64,
    t: u64,
    now: u64,
)
    requires
        wf_records(s),
        has_rec(s, owner, asset_id),
        rec_at(s, owner, asset_id).state == StakeState::Staked,
        rec_at(s, owner, asset_id).staked_at <= t,
    ensures
        wf_records(settle_post(s, owner, asset_id, t)),
        claimable_spec(settle_post(s, owner, asset_id, t), owner, asset_id, rate, now)
            == accrued_spec(t, rate, now),
        claimable_spec(settle_post(s, owner, asset_id, t), owner, asset_id, rate, t) == 0,
{
    let post = settle_post(s, owner, asset_id, t);
    let i = rec_idx(s, owner, asset_id);
    assert(0 <= i < s.len() && is_rec(s[i], owner, asset_id));
    lemma_update_keeps_wf(s, post, i);
    lemma_rec_idx_is(post, owner, asset_id, i);
}

} // verus!
