//! The ledger store: every stake record, keyed by `(owner, asset_id)`.

use vstd::prelude::*;

use crate::record::{Stake, StakeState, StakeV};

verus! {

/// Whether a record belongs to the given `(owner, asset_id)` key.
pub open spec fn is_rec(r: StakeV, owner: Seq<char>, asset_id: Seq<char>) -> bool {
    r.owner == owner && r.asset_id == asset_id
}

/// Whether the ledger holds a record for the given key.
pub open spec fn has_rec(s: Seq<StakeV>, owner: Seq<char>, asset_id: Seq<char>) -> bool {
    exists|i: int| 0 <= i < s.len() && is_rec(s[i], owner, asset_id)
}

/// The position of the record for the given key; meaningful only when
/// `has_rec` holds, and then unique by well-formedness.
pub open spec fn rec_idx(s: Seq<StakeV>, owner: Seq<char>, asset_id: Seq<char>) -> int {
    choose|i: int| 0 <= i < s.len() && is_rec(s[i], owner, asset_id)
}

/// The record for the given key; meaningful only when `has_rec` holds.
pub open spec fn rec_at(s: Seq<StakeV>, owner: Seq<char>, asset_id: Seq<char>) -> StakeV {
    s[rec_idx(s, owner, asset_id)]
}

/// Well-formedness of the stored records: no two records share an
/// `(owner, asset_id)` key, the transient `Released` state is never stored,
/// and a claim is never settled earlier than the stake itself.
pub open spec fn wf_records(s: Seq<StakeV>) -> bool {
    &&& forall|i: int, j: int|
        0 <= i < j < s.len() ==> !(#[trigger] s[i].owner == #[trigger] s[j].owner
            && s[i].asset_id == s[j].asset_id)
    &&& forall|i: int| 0 <= i < s.len() ==> (#[trigger] s[i].state) != StakeState::Released
    &&& forall|i: int| 0 <= i < s.len() ==> (#[trigger] s[i].staked_at) <= s[i].last_claim_at
}

/// In a well-formed ledger any two positions holding the same key coincide.
pub proof fn lemma_key_unique(s: Seq<StakeV>, i: int, j: int)
    requires
        wf_records(s),
        0 <= i < s.len(),
        0 <= j < s.len(),
        s[i].owner == s[j].owner,
        s[i].asset_id == s[j].asset_id,
    ensures
        i == j,
{
}

/// In a well-formed ledger, `rec_idx` is the one position holding the key.
pub proof fn lemma_rec_idx_is(s: Seq<StakeV>, owner: Seq<char>, asset_id: Seq<char>, i: int)
    requires
        wf_records(s),
        0 <= i < s.len(),
        is_rec(s[i], owner, asset_id),
    ensures
        has_rec(s, owner, asset_id),
        rec_idx(s, owner, asset_id) == i,
        rec_at(s, owner, asset_id) == s[i],
{
    assert(has_rec(s, owner, asset_id));
    let j = rec_idx(s, owner, asset_id);
    lemma_key_unique(s, i, j);
}

/// Removing a position removes its key: no other record carries it.
pub proof fn lemma_remove_clears_key(s: Seq<StakeV>, i: int)
    requires
        wf_records(s),
        0 <= i < s.len(),
    ensures
        !has_rec(s.remove(i), s[i].owner, s[i].asset_id),
{
    let post = s.remove(i);
    assert forall|j: int| 0 <= j < post.len() implies !is_rec(
        #[trigger] post[j],
        s[i].owner,
        s[i].asset_id,
    ) by {
        let j0 = if j < i { j } else { j + 1 };
        assert(post[j] == s[j0]);
        if is_rec(post[j], s[i].owner, s[i].asset_id) {
            lemma_key_unique(s, i, j0);
        }
    }
}

/// The persistent store of stake records.
///
/// Every mutation is keyed by `(owner, asset_id)`; the flat representation
/// keeps each record's `owner` field as its key, so the key and the record
/// can never disagree.
pub struct Ledger {
    records: Vec<Stake>,
}

impl View for Ledger {
    type V = Seq<StakeV>;

    closed spec fn view(&self) -> Seq<StakeV> {
        self.records@.map_values(|r: Stake| r@)
    }
}

impl Ledger {
    /// The store's invariant.
    pub open spec fn wf(&self) -> bool {
        wf_records(self@)
    }

    /// An empty store.
    pub fn new() -> (r: Ledger)
        ensures
            r@ == Seq::<StakeV>::empty(),
            r.wf(),
    {
        let l = Ledger { records: Vec::new() };
        proof {
            assert(l@ =~= Seq::<StakeV>::empty());
        }
        l
    }

    /// How many records the store holds, over all accounts.
    pub fn len(&self) -> (r: usize)
        ensures
            r == self@.len(),
    {
        self.records.len()
    }

    /// Point lookup: the position of the record for `(owner, asset_id)`,
    /// or `None` when no such record exists.
    pub fn find_idx(&self, owner: &String, asset_id: &String) -> (r: Option<usize>)
        ensures
            match r {
                Some(i) => {
                    &&& i < self@.len()
                    &&& is_rec(self@[i as int], owner@, asset_id@)
                    &&& has_rec(self@, owner@, asset_id@)
                },
                None => !has_rec(self@, owner@, asset_id@),
            },
    {
        let n = self.records.len();
        let mut i: usize = 0;
        while i < n
            invariant
                n == self@.len(),
                i <= n,
                forall|j: int| 0 <= j < i ==> !is_rec(self@[j], owner@, asset_id@),
            decreases n - i,
        {
            if self.records[i].owner == *owner && self.records[i].asset_id == *asset_id {
                return Some(i);
            }
            i += 1;
        }
        None
    }

    /// A reference to the record at a known position.
    pub fn get(&self, i: usize) -> (r: &Stake)
        requires
            i < self@.len(),
        ensures
            r@ == self@[i as int],
    {
        &self.records[i]
    }

    /// Inserts a record for a key not yet present.
    pub fn put(&mut self, rec: Stake)
        requires
            old(self).wf(),
            !has_rec(old(self)@, rec@.owner, rec@.asset_id),
            rec@.state != StakeState::Released,
            rec@.staked_at <= rec@.last_claim_at,
        ensures
            final(self)@ == old(self)@.push(rec@),
            final(self).wf(),
    {
        let ghost pre = self@;
        let ghost recv = rec@;
        self.records.push(rec);
        proof {
            assert(self@ =~= pre.push(recv));
            lemma_push_keeps_wf(pre, recv);
        }
    }

    /// Moves the record at a known position to a new lifecycle state.
    pub fn set_state(&mut self, i: usize, st: StakeState)
        requires
            old(self).wf(),
            i < old(self)@.len(),
            st != StakeState::Released,
        ensures
            final(self)@ == old(self)@.update(
                i as int,
                StakeV { state: st, ..old(self)@[i as int] },
            ),
            final(self).wf(),
    {
        self.records[i].state = st;
        proof {
            assert(self@ =~= old(self)@.update(i as int, self@[i as int]));
            lemma_update_keeps_wf(old(self)@, self@, i as int);
        }
    }

    /// Settles a claim on the record at a known position: advances its
    /// last-settled-claim timestamp.
    pub fn settle_claim(&mut self, i: usize, t: u64)
        requires
            old(self).wf(),
            i < old(self)@.len(),
            old(self)@[i as int].staked_at <= t,
        ensures
            final(self)@ == old(self)@.update(
                i as int,
                StakeV { last_claim_at: t, ..old(self)@[i as int] },
            ),
            final(self).wf(),
    {
        self.records[i].last_claim_at = t;
        proof {
            assert(self@ =~= old(self)@.update(i as int, self@[i as int]));
            lemma_update_keeps_wf(old(self)@, self@, i as int);
        }
    }

    /// Restarts the record at a known position as a fresh pending stake:
    /// both timestamps move to `now` and the state returns to `Pending`.
    /// The key is untouched.
    pub fn restart(&mut self, i: usize, now: u64)
        requires
            old(self).wf(),
            i < old(self)@.len(),
        ensures
            final(self)@ == old(self)@.update(
                i as int,
                StakeV {
                    staked_at: now,
                    last_claim_at: now,
                    state: StakeState::Pending,
                    ..old(self)@[i as int]
                },
            ),
            final(self).wf(),
    {
        self.records[i].staked_at = now;
        self.records[i].last_claim_at = now;
        self.records[i].state = StakeState::Pending;
        proof {
            assert(self@ =~= old(self)@.update(i as int, self@[i as int]));
            lemma_update_keeps_wf(old(self)@, self@, i as int);
        }
    }

    /// Removes the record at a known position, preserving the order of the
    /// remaining records.
    pub fn remove(&mut self, i: usize)
        requires
            old(self).wf(),
            i < old(self)@.len(),
        ensures
            final(self)@ == old(self)@.remove(i as int),
            final(self).wf(),
    {
        let ghost pre = self@;
        self.records.remove(i);
        proof {
            assert(self@ =~= pre.remove(i as int));
            assert forall|a: int, b: int|
                0 <= a < b < self@.len() implies !(#[trigger] self@[a].owner
                == #[trigger] self@[b].owner && self@[a].asset_id == self@[b].asset_id) by {
                let a0 = if a < i as int { a } else { a + 1 };
                let b0 = if b < i as int { b } else { b + 1 };
                assert(self@[a] == pre[a0]);
                assert(self@[b] == pre[b0]);
            }
        }
    }
}

/// Appending a record whose key is not yet present keeps the store
/// well-formed.
pub proof fn lemma_push_keeps_wf(s: Seq<StakeV>, rec: StakeV)
    requires
        wf_records(s),
        !has_rec(s, rec.owner, rec.asset_id),
        rec.state != StakeState::Released,
        rec.staked_at <= rec.last_claim_at,
    ensures
        wf_records(s.push(rec)),
{
    let post = s.push(rec);
    assert forall|i: int, j: int|
        0 <= i < j < post.len() implies !(#[trigger] post[i].owner == #[trigger] post[j].owner
        && post[i].asset_id == post[j].asset_id) by {
        if j == s.len() {
            if post[i].owner == rec.owner && post[i].asset_id == rec.asset_id {
                assert(is_rec(s[i], rec.owner, rec.asset_id));
                assert(has_rec(s, rec.owner, rec.asset_id));
            }
        }
    }
}

/// A key-preserving update of one position keeps the store well-formed,
/// provided the updated record neither stores `Released` nor settles a claim
/// before its stake.
pub proof fn lemma_update_keeps_wf(pre: Seq<StakeV>, post: Seq<StakeV>, i: int)
    requires
        wf_records(pre),
        0 <= i < pre.len(),
        post == pre.update(i, post[i]),
        post[i].owner == pre[i].owner,
        post[i].asset_id == pre[i].asset_id,
        post[i].state != StakeState::Released,
        post[i].staked_at <= post[i].last_claim_at,
    ensures
        wf_records(post),
{
    assert forall|a: int, b: int|
        0 <= a < b < post.len() implies !(#[trigger] post[a].owner == #[trigger] post[b].owner
        && post[a].asset_id == post[b].asset_id) by {
        assert(post[a].owner == pre[a].owner && post[a].asset_id == pre[a].asset_id);
        assert(post[b].owner == pre[b].owner && post[b].asset_id == pre[b].asset_id);
    }
}

} // verus!
