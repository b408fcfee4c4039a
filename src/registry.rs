use std::collections::HashMap;
use vstd::prelude::*;
use crate::model::{holds_id, sorted_by_id, LedgerView};
use crate::search::{position_of, search_by_id};
use crate::steps::{lemma_burn_step, lemma_mint_step, lemma_transfer_step};
use crate::sum::lemma_sum_counts_empty;
use crate::types::{AccountId, Asset, AssetId, Error, NULL_ACCOUNT};

verus! {

broadcast use vstd::std_specs::hash::group_hash_axioms;

/// The asset registry: the five indices and the two configured ceilings.
pub struct Registry {
    total: u128,
    burned: u128,
    counts: HashMap<AccountId, u64>,
    holdings: HashMap<AccountId, Vec<Asset>>,
    owners: HashMap<AssetId, AccountId>,
    limit: u128,
    user_limit: u64,
}

/// The collections of a holdings map, as sequences.
pub closed spec fn holdings_view(m: Map<AccountId, Vec<Asset>>) -> Map<AccountId, Seq<Asset>> {
    Map::new(|a: AccountId| m.contains_key(a), |a: AccountId| m[a]@)
}

proof fn lemma_holdings_view_insert(m: Map<AccountId, Vec<Asset>>, a: AccountId, v: Vec<Asset>)
    ensures
        holdings_view(m.insert(a, v)) == holdings_view(m).insert(a, v@),
{
    assert(holdings_view(m.insert(a, v)) =~= holdings_view(m).insert(a, v@));
}

impl View for Registry {
    type V = LedgerView;

    closed spec fn view(&self) -> LedgerView {
        LedgerView {
            total: self.total,
            burned: self.burned,
            counts: self.counts@,
            holdings: holdings_view(self.holdings@),
            owners: self.owners@,
            limit: self.limit,
            user_limit: self.user_limit,
        }
    }
}

impl Registry {
    /// The registry's indices are mutually consistent.
    pub open spec fn wf(&self) -> bool {
        self@.consistent()
    }

    /// An empty registry with the global ceiling `limit` and the per-account
    /// ceiling `user_limit`.
    pub fn new(limit: u128, user_limit: u64) -> (r: Registry)
        ensures
            r.wf(),
            r@.total == 0,
            r@.burned == 0,
            r@.limit == limit,
            r@.user_limit == user_limit,
            r@.counts == Map::<AccountId, u64>::empty(),
            r@.holdings == Map::<AccountId, Seq<Asset>>::empty(),
            r@.owners == Map::<AssetId, AccountId>::empty(),
    {
        let r = Registry {
            total: 0,
            burned: 0,
            counts: HashMap::new(),
            holdings: HashMap::new(),
            owners: HashMap::new(),
            limit,
            user_limit,
        };
        proof {
            lemma_sum_counts_empty();
            assert(r@.counts == Map::<u64, u64>::empty());
            assert(r@.holdings =~= Map::<AccountId, Seq<Asset>>::empty());
            assert(r@.owners.dom() =~= Set::<AssetId>::empty());
        }
        r
    }

    /// The number of assets in existence.
    pub fn total(&self) -> (r: u128)
        ensures
            r == self@.total,
    {
        self.total
    }

    /// The number of assets burned so far (wrapping past the largest value).
    pub fn burned(&self) -> (r: u128)
        ensures
            r == self@.burned,
    {
        self.burned
    }

    /// The global ceiling on live assets.
    pub fn commodity_limit(&self) -> (r: u128)
        ensures
            r == self@.limit,
    {
        self.limit
    }

    /// The ceiling on the assets of one account.
    pub fn user_commodity_limit(&self) -> (r: u64)
        ensures
            r == self@.user_limit,
    {
        self.user_limit
    }

    /// The number of assets that `account` holds.
    pub fn total_for_account(&self, account: AccountId) -> (r: u64)
        ensures
            r == self@.count(account),
    {
        match self.counts.get(&account) {
            Some(c) => *c,
            None => 0,
        }
    }

    /// The owner of `id`, or `NULL_ACCOUNT` when no such asset exists.
    pub fn owner_of(&self, id: AssetId) -> (r: AccountId)
        ensures
            r == self@.owner(id),
    {
        match self.owners.get(&id) {
            Some(o) => *o,
            None => NULL_ACCOUNT,
        }
    }

    /// A copy of the assets that `account` holds, in order of identifier.
    pub fn assets_for_account(&self, account: AccountId) -> (r: Vec<Asset>)
        ensures
            r@.len() == self@.assets(account).len(),
            forall|i: int|
                0 <= i < r@.len() ==> #[trigger] r@[i].id == self@.assets(account)[i].id
                    && r@[i].info@ == self@.assets(account)[i].info@,
    {
        let mut out: Vec<Asset> = Vec::new();
        match self.holdings.get(&account) {
            Some(list) => {
                let mut i: usize = 0;
                while i < list.len()
                    invariant
                        i <= list@.len(),
                        list@ == self@.assets(account),
                        out@.len() == i,
                        forall|j: int|
                            0 <= j < i ==> #[trigger] out@[j].id == list@[j].id && out@[j].info@
                                == list@[j].info@,
                    decreases list@.len() - i,
                {
                    out.push(list[i].duplicate());
                    i = i + 1;
                }
            },
            None => {},
        }
        out
    }

    /// Creates the asset `id` with payload `info` and gives it to `owner`.
    ///
    /// `id` is the digest of `info` under the host's identifier deriver. The
    /// checks run in this order and the first that fails wins, leaving the
    /// registry unchanged: the identifier is taken, the owner is at its
    /// ceiling, the registry is at its ceiling.
    pub fn mint(&mut self, owner: AccountId, id: AssetId, info: Vec<u8>) -> (r: Result<
        AssetId,
        Error,
    >)
        requires
            old(self).wf(),
            owner != NULL_ACCOUNT,
        ensures
            final(self).wf(),
            r == old(self)@.mint_outcome(owner, id),
            r is Ok ==> old(self)@.minted(final(self)@, owner, (Asset { id: id, info: info })),
            r is Err ==> final(self)@ == old(self)@,
    {
        if self.owners.contains_key(&id) {
            return Err(Error::AssetExists);
        }
        let count = self.total_for_account(owner);
        if count >= self.user_limit {
            return Err(Error::TooManyAssetsForAccount);
        }
        if self.total >= self.limit {
            return Err(Error::TooManyAssets);
        }
        let ghost pre = self@;
        let mut list = self.take_assets(owner);
        let ghost mut pos: int = 0;
        match search_by_id(&list, id) {
            Ok(i) => {
                // Unreachable: every held identifier has an owner, and `id` has none.
                proof {
                    assert(pre.owners.contains_key(pre.assets(owner)[i as int].id));
                }
            },
            Err(i) => {
                list.insert(i, Asset { id, info });
                proof {
                    pos = i as int;
                }
            },
        }
        self.put_assets(owner, list);
        self.counts.insert(owner, count + 1);
        self.total = self.total + 1;
        self.owners.insert(id, owner);
        proof {
            assert forall|a: AccountId| a != owner implies #[trigger] self@.assets(a) == pre.assets(a) by {}
            lemma_mint_step(pre, self@, owner, Asset { id, info }, pos);
        }
        Ok(id)
    }

    /// Destroys the asset `id`, removing it from every index.
    ///
    /// Fails with `NonexistentAsset`, leaving the registry unchanged, when
    /// `id` has no owner. Whether the caller may burn it is decided before.
    pub fn burn(&mut self, id: AssetId) -> (r: Result<(), Error>)
        requires
            old(self).wf(),
        ensures
            final(self).wf(),
            r == old(self)@.burn_outcome(id),
            r is Ok ==> old(self)@.burned_from(final(self)@, id),
            r is Err ==> final(self)@ == old(self)@,
    {
        let owner = self.owner_of(id);
        if owner == NULL_ACCOUNT {
            return Err(Error::NonexistentAsset);
        }
        let ghost pre = self@;
        let count = self.total_for_account(owner);
        let mut list = self.take_assets(owner);
        proof {
            assert(holds_id(pre.assets(owner), id));
            assert(sorted_by_id(pre.assets(owner)));
        }
        let pos = position_of(&list, id);
        let _gone = list.remove(pos);
        self.put_assets(owner, list);
        proof {
            assert(pre.count(owner) == pre.assets(owner).len());
            assert(pre.owners.dom().contains(id));
            assert(pre.owners.dom().remove(id).len() == pre.owners.dom().len() - 1);
        }
        self.counts.insert(owner, count - 1);
        self.total = self.total - 1;
        self.burned = self.burned.wrapping_add(1);
        self.owners.remove(&id);
        proof {
            assert forall|a: AccountId| a != owner implies #[trigger] self@.assets(a) == pre.assets(a) by {}
            lemma_burn_step(pre, self@, id, pos as int);
        }
        Ok(())
    }

    /// Moves the asset `id` to `dest`.
    ///
    /// The checks run in this order and the first that fails wins, leaving
    /// the registry unchanged: `id` has no owner (`NonexistentAsset`), `dest`
    /// is at its ceiling (`TooManyAssetsForAccount`). A transfer to the
    /// current owner changes nothing. Whether the caller may move it is
    /// decided before.
    pub fn transfer(&mut self, dest: AccountId, id: AssetId) -> (r: Result<(), Error>)
        requires
            old(self).wf(),
            dest != NULL_ACCOUNT,
        ensures
            final(self).wf(),
            r == old(self)@.transfer_outcome(dest, id),
            r is Ok ==> old(self)@.transferred(final(self)@, dest, id),
            r is Err ==> final(self)@ == old(self)@,
    {
        let owner = self.owner_of(id);
        if owner == NULL_ACCOUNT {
            return Err(Error::NonexistentAsset);
        }
        let dest_count = self.total_for_account(dest);
        if dest_count >= self.user_limit {
            return Err(Error::TooManyAssetsForAccount);
        }
        if owner == dest {
            return Ok(());
        }
        let ghost pre = self@;
        let owner_count = self.total_for_account(owner);
        let mut from = self.take_assets(owner);
        proof {
            assert(holds_id(pre.assets(owner), id));
            assert(sorted_by_id(pre.assets(owner)));
        }
        let pos = position_of(&from, id);
        let asset = from.remove(pos);
        self.put_assets(owner, from);
        let mut to = self.take_assets(dest);
        proof {
            assert(sorted_by_id(pre.assets(dest)));
        }
        let ghost mut at: int = 0;
        match search_by_id(&to, id) {
            Ok(i) => {
                // Unreachable: what `dest` holds is owned by `dest`, and `id` is not.
                proof {
                    assert(pre.owners[pre.assets(dest)[i as int].id] == dest);
                }
            },
            Err(i) => {
                to.insert(i, asset);
                proof {
                    at = i as int;
                }
            },
        }
        self.put_assets(dest, to);
        proof {
            assert(pre.count(owner) == pre.assets(owner).len());
        }
        self.counts.insert(owner, owner_count - 1);
        self.counts.insert(dest, dest_count + 1);
        self.owners.insert(id, dest);
        proof {
            assert forall|a: AccountId| a != owner && a != dest implies #[trigger] self@.assets(a)
                == pre.assets(a) by {}
            lemma_transfer_step(pre, self@, dest, id, pos as int, at);
        }
        Ok(())
    }

    /// Takes the collection of `account` out of the holdings index.
    fn take_assets(&mut self, account: AccountId) -> (r: Vec<Asset>)
        ensures
            r@ == old(self)@.assets(account),
            final(self)@ == (LedgerView { holdings: old(self)@.holdings.remove(account), ..old(self)@ }),
    {
        let r = match self.holdings.remove(&account) {
            Some(v) => v,
            None => Vec::new(),
        };
        proof {
            assert(holdings_view(self.holdings@) =~= holdings_view(old(self).holdings@).remove(account));
        }
        r
    }

    /// Stores `list` as the collection of `account`.
    fn put_assets(&mut self, account: AccountId, list: Vec<Asset>)
        ensures
            final(self)@ == (LedgerView {
                holdings: old(self)@.holdings.insert(account, list@),
                ..old(self)@
            }),
    {
        self.holdings.insert(account, list);
        proof {
            lemma_holdings_view_insert(old(self).holdings@, account, list);
        }
    }
}

} // verus!
