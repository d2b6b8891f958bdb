//! The per-asset stake record and its lifecycle.

use vstd::prelude::*;

verus! {

/// Where one locked asset stands in its life.
///
/// `Released` is never stored in the ledger: a record reaches it only at the
/// moment it is removed, on the confirmed return of custody.
#[derive(Clone, Copy, PartialEq, Eq, Structural, Debug)]
pub enum StakeState {
    /// Accepted locally; the custody transfer into the contract is in flight.
    Pending,
    /// Custody transfer confirmed; the asset is held and accrues reward.
    Staked,
    /// A withdrawal was requested; the return transfer is in flight.
    Unstaking,
    /// Custody was confirmed as returned; the record leaves the ledger.
    Released,
    /// A remote call was confirmed as failed; kept for retry or reconciliation.
    Failed,
}

/// The definitive outcome the host reports for a dispatched remote call.
#[derive(Clone, Copy, PartialEq, Eq, Structural, Debug)]
pub enum RemoteOutcome {
    /// The remote contract completed the call.
    Success,
    /// The remote contract rejected or failed the call.
    Failed,
    /// The execution budget ran out before the call chain completed.
    BudgetExhausted,
}

/// One locked asset instance.
#[derive(Debug)]
pub struct Stake {
    /// The staker, the true owner of all entitlements of this record.
    pub owner: String,
    /// The locked non-fungible unit.
    pub asset_id: String,
    /// Logical timestamp at which the stake request was accepted.
    pub staked_at: u64,
    /// Logical timestamp of the most recent settled claim.
    pub last_claim_at: u64,
    /// Lifecycle position.
    pub state: StakeState,
}

/// The mathematical image of a [`Stake`].
pub ghost struct StakeV {
    pub owner: Seq<char>,
    pub asset_id: Seq<char>,
    pub staked_at: u64,
    pub last_claim_at: u64,
    pub state: StakeState,
}

impl View for Stake {
    type V = StakeV;

    open spec fn view(&self) -> StakeV {
        StakeV {
            owner: self.owner@,
            asset_id: self.asset_id@,
            staked_at: self.staked_at,
            last_claim_at: self.last_claim_at,
            state: self.state,
        }
    }
}

impl Clone for Stake {
    fn clone(&self) -> (r: Stake)
        ensures
            r@ == self@,
    {
        Stake {
            owner: self.owner.clone(),
            asset_id: self.asset_id.clone(),
            staked_at: self.staked_at,
            last_claim_at: self.last_claim_at,
            state: self.state,
        }
    }
}

/// The state transitions the lifecycle allows: forward along
/// `Pending -> Staked -> Unstaking -> Released`, or into the absorbing
/// `Failed` state from a state that awaits a remote confirmation.
pub open spec fn lifecycle_edge(pre: StakeState, post: StakeState) -> bool {
    ||| (pre == StakeState::Pending && post == StakeState::Staked)
    ||| (pre == StakeState::Staked && post == StakeState::Unstaking)
    ||| (pre == StakeState::Unstaking && post == StakeState::Released)
    ||| (pre == StakeState::Pending && post == StakeState::Failed)
    ||| (pre == StakeState::Unstaking && post == StakeState::Failed)
}

/// What a confirmed remote outcome does to a record in a given state:
/// `None` when the state awaits no confirmation, otherwise the state the
/// record moves to.
pub open spec fn confirm_next(st: StakeState, oc: RemoteOutcome) -> Option<StakeState> {
    match st {
        StakeState::Pending => {
            if oc == RemoteOutcome::Success {
                Some(StakeState::Staked)
            } else {
                Some(StakeState::Failed)
            }
        },
        StakeState::Unstaking => {
            if oc == RemoteOutcome::Success {
                Some(StakeState::Released)
            } else {
                Some(StakeState::Failed)
            }
        },
        _ => None,
    }
}

/// Law: every state change a confirmation applies follows the lifecycle
/// `Pending -> Staked -> Unstaking -> Released`, or falls into `Failed` from
/// `Pending` or `Unstaking`; no other transition is reachable through a
/// confirmation.
pub proof fn lemma_confirmation_follows_lifecycle(st: StakeState, oc: RemoteOutcome)
    ensures
        confirm_next(st, oc) matches Some(post) ==> lifecycle_edge(st, post),
{
}

} // verus!
