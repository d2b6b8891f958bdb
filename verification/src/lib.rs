//! A custodial staking ledger with confirmation-gated state transitions.
//!
//! An account deposits a unique asset into the contract's custody and, while
//! it is deposited, accrues a reward proportional to elapsed time, redeemable
//! on demand; the asset can later be withdrawn back to its owner.  All value
//! movement happens through asynchronous calls to two external asset-holding
//! contracts, so every ledger mutation that depends on a remote outcome is
//! split into a request step (which records the in-flight state and describes
//! the remote call to dispatch) and a confirmation step (which applies the
//! outcome exactly once).

pub mod contract;
pub mod ledger;
pub mod record;
pub mod reward;
