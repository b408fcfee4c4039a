use vstd::prelude::*;
use crate::sum::sum_counts;
use crate::types::{AccountId, Asset, AssetId, Error, NULL_ACCOUNT};

verus! {

/// The identifiers of `s` strictly increase.
pub open spec fn sorted_by_id(s: Seq<Asset>) -> bool {
    forall|i: int, j: int| 0 <= i < j < s.len() ==> #[trigger] s[i].id < #[trigger] s[j].id
}

/// Some element of `s` has identifier `id`.
pub open spec fn holds_id(s: Seq<Asset>, id: AssetId) -> bool {
    exists|i: int| 0 <= i < s.len() && #[trigger] s[i].id == id
}

/// The abstract state of a registry: its five indices and its two ceilings.
pub struct LedgerView {
    /// Assets currently in existence.
    pub total: u128,
    /// Assets burned over the registry's lifetime.
    pub burned: u128,
    /// Live asset count recorded per account.
    pub counts: Map<AccountId, u64>,
    /// Each account's assets, sorted by identifier.
    pub holdings: Map<AccountId, Seq<Asset>>,
    /// The owner of each existing asset.
    pub owners: Map<AssetId, AccountId>,
    /// The ceiling on `total`.
    pub limit: u128,
    /// The ceiling on any one account's count.
    pub user_limit: u64,
}

impl LedgerView {
    /// The number of assets recorded for `a` (zero when absent).
    pub open spec fn count(self, a: AccountId) -> u64 {
        if self.counts.contains_key(a) {
            self.counts[a]
        } else {
            0
        }
    }

    /// The assets held by `a` (empty when absent).
    pub open spec fn assets(self, a: AccountId) -> Seq<Asset> {
        if self.holdings.contains_key(a) {
            self.holdings[a]
        } else {
            Seq::empty()
        }
    }

    /// The owner of `id`, or the null account when it does not exist.
    pub open spec fn owner(self, id: AssetId) -> AccountId {
        if self.owners.contains_key(id) {
            self.owners[id]
        } else {
            NULL_ACCOUNT
        }
    }

    /// The indices agree with one another and respect both ceilings.
    pub open spec fn consistent(self) -> bool {
        &&& self.counts.dom().finite()
        &&& self.owners.dom().finite()
        &&& forall|id: AssetId| #[trigger]
            self.owners.contains_key(id) ==> self.owners[id] != NULL_ACCOUNT
        &&& forall|a: AccountId| #[trigger] sorted_by_id(self.assets(a))
        &&& forall|a: AccountId, i: int|
            0 <= i < self.assets(a).len() ==> self.owners.contains_key(
                #[trigger] self.assets(a)[i].id,
            ) && self.owners[self.assets(a)[i].id] == a
        &&& forall|id: AssetId| #[trigger]
            self.owners.contains_key(id) ==> holds_id(self.assets(self.owners[id]), id)
        &&& forall|a: AccountId| #[trigger] self.count(a) == self.assets(a).len()
        &&& self.total == sum_counts(self.counts)
        &&& self.total == self.owners.dom().len()
        &&& self.total <= self.limit
        &&& forall|a: AccountId| #[trigger] self.count(a) <= self.user_limit
    }

    /// What minting `id` to `owner` returns from this state.
    pub open spec fn mint_outcome(self, owner: AccountId, id: AssetId) -> Result<AssetId, Error> {
        if self.owners.contains_key(id) {
            Err(Error::AssetExists)
        } else if self.count(owner) >= self.user_limit {
            Err(Error::TooManyAssetsForAccount)
        } else if self.total >= self.limit {
            Err(Error::TooManyAssets)
        } else {
            Ok(id)
        }
    }

    /// What burning `id` returns from this state.
    pub open spec fn burn_outcome(self, id: AssetId) -> Result<(), Error> {
        if !self.owners.contains_key(id) {
            Err(Error::NonexistentAsset)
        } else {
            Ok(())
        }
    }

    /// What transferring `id` to `dest` returns from this state.
    pub open spec fn transfer_outcome(self, dest: AccountId, id: AssetId) -> Result<(), Error> {
        if !self.owners.contains_key(id) {
            Err(Error::NonexistentAsset)
        } else if self.count(dest) >= self.user_limit {
            Err(Error::TooManyAssetsForAccount)
        } else {
            Ok(())
        }
    }

    /// `post` is this state after `asset` was minted to `owner`.
    pub open spec fn minted(self, post: LedgerView, owner: AccountId, asset: Asset) -> bool {
        &&& post.total == self.total + 1
        &&& post.burned == self.burned
        &&& post.limit == self.limit
        &&& post.user_limit == self.user_limit
        &&& post.counts == self.counts.insert(owner, (self.count(owner) + 1) as u64)
        &&& post.owners == self.owners.insert(asset.id, owner)
        &&& exists|k: int|
            0 <= k <= self.assets(owner).len() && post.assets(owner) == self.assets(owner).insert(
                k,
                asset,
            )
        &&& forall|a: AccountId| a != owner ==> #[trigger] post.assets(a) == self.assets(a)
    }

    /// `post` is this state after the existing asset `id` was burned.
    pub open spec fn burned_from(self, post: LedgerView, id: AssetId) -> bool {
        let o = self.owners[id];
        &&& post.total == self.total - 1
        &&& post.burned == (if self.burned == u128::MAX {
            0
        } else {
            self.burned + 1
        })
        &&& post.limit == self.limit
        &&& post.user_limit == self.user_limit
        &&& post.counts == self.counts.insert(o, (self.count(o) - 1) as u64)
        &&& post.owners == self.owners.remove(id)
        &&& exists|k: int|
            0 <= k < self.assets(o).len() && #[trigger] self.assets(o)[k].id == id
                && post.assets(o) == self.assets(o).remove(k)
        &&& forall|a: AccountId| a != o ==> #[trigger] post.assets(a) == self.assets(a)
    }

    /// `post` is this state after the existing asset `id` moved to `dest`.
    pub open spec fn transferred(self, post: LedgerView, dest: AccountId, id: AssetId) -> bool {
        let o = self.owners[id];
        if o == dest {
            post == self
        } else {
            &&& post.total == self.total
            &&& post.burned == self.burned
            &&& post.limit == self.limit
            &&& post.user_limit == self.user_limit
            &&& post.counts == self.counts.insert(o, (self.count(o) - 1) as u64).insert(
                dest,
                (self.count(dest) + 1) as u64,
            )
            &&& post.owners == self.owners.insert(id, dest)
            &&& exists|k: int, j: int|
                0 <= k < self.assets(o).len() && #[trigger] self.assets(o)[k].id == id
                    && post.assets(o) == self.assets(o).remove(k) && 0 <= j <= self.assets(
                    dest,
                ).len() && post.assets(dest) == #[trigger] self.assets(dest).insert(
                    j,
                    self.assets(o)[k],
                )
            &&& forall|a: AccountId|
                a != o && a != dest ==> #[trigger] post.assets(a) == self.assets(a)
        }
    }
}

} // verus!
