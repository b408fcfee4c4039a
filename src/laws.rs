use vstd::prelude::*;
use crate::model::{holds_id, LedgerView};
use crate::sum::sum_counts;
use crate::types::{AccountId, Asset, AssetId, Error, NULL_ACCOUNT};

verus! {

/// No account's collection holds `id` once `id` has no owner.
proof fn lemma_unowned_nowhere(v: LedgerView, id: AssetId, a: AccountId)
    requires
        v.consistent(),
        !v.owners.contains_key(id),
    ensures
        !holds_id(v.assets(a), id),
{
    if holds_id(v.assets(a), id) {
        let i = choose|i: int| 0 <= i < v.assets(a).len() && #[trigger] v.assets(a)[i].id == id;
        assert(v.owners.contains_key(v.assets(a)[i].id));
    }
}

/// Minting the same identifier twice: the second attempt fails with
/// `AssetExists`, whatever its owner or payload, and the total grows by one
/// only.
pub proof fn lemma_mint_twice(
    pre: LedgerView,
    mid: LedgerView,
    post: LedgerView,
    first_owner: AccountId,
    second_owner: AccountId,
    first: Asset,
    second: Asset,
    r1: Result<AssetId, Error>,
    r2: Result<AssetId, Error>,
)
    requires
        pre.consistent(),
        first.id == second.id,
        r1 == pre.mint_outcome(first_owner, first.id),
        r1 is Ok,
        pre.minted(mid, first_owner, first),
        r2 == mid.mint_outcome(second_owner, second.id),
        r2 is Ok ==> mid.minted(post, second_owner, second),
        r2 is Err ==> post == mid,
    ensures
        r2 == Err::<AssetId, Error>(Error::AssetExists),
        post.total == pre.total + 1,
{
    assert(mid.owners.contains_key(first.id));
}

/// In every consistent state, hence after any sequence of mints, burns and
/// transfers, the live total is the sum of the per-account counts, and each
/// account's count is the length of its collection.
pub proof fn lemma_counters_consistent(v: LedgerView)
    requires
        v.consistent(),
    ensures
        v.total == sum_counts(v.counts),
        forall|a: AccountId| #[trigger] v.count(a) == v.assets(a).len(),
{
}

/// Minting to `a` makes `a` the owner; a transfer to `b` then makes `b` the
/// owner, with the asset in `b`'s collection and no longer in `a`'s.
pub proof fn lemma_ownership_round_trip(
    pre: LedgerView,
    mid: LedgerView,
    post: LedgerView,
    a: AccountId,
    b: AccountId,
    x: Asset,
    r1: Result<AssetId, Error>,
    r2: Result<(), Error>,
)
    requires
        pre.consistent(),
        a != NULL_ACCOUNT,
        b != NULL_ACCOUNT,
        r1 == pre.mint_outcome(a, x.id),
        r1 is Ok,
        pre.minted(mid, a, x),
        mid.consistent(),
        r2 == mid.transfer_outcome(b, x.id),
        r2 is Ok ==> mid.transferred(post, b, x.id),
        r2 is Err ==> post == mid,
        post.consistent(),
    ensures
        mid.owner(x.id) == a,
        holds_id(mid.assets(a), x.id),
        mid.count(b) < mid.user_limit ==> r2 is Ok,
        r2 is Ok ==> post.owner(x.id) == b && holds_id(post.assets(b), x.id),
        r2 is Ok && a != b ==> !holds_id(post.assets(a), x.id),
{
    assert(mid.owners.contains_key(x.id));
    if r2 is Ok {
        assert(post.owners.contains_key(x.id));
        assert(holds_id(post.assets(post.owners[x.id]), x.id));
        if a != b && holds_id(post.assets(a), x.id) {
            let i = choose|i: int|
                0 <= i < post.assets(a).len() && #[trigger] post.assets(a)[i].id == x.id;
            assert(post.owners[post.assets(a)[i].id] == a);
        }
    }
}

/// After a successful burn of `id`, it has no owner, no collection holds it,
/// the total fell by one and the burned count rose by one (wrapping).
pub proof fn lemma_burn_removes(pre: LedgerView, post: LedgerView, id: AssetId, a: AccountId)
    requires
        pre.consistent(),
        pre.burn_outcome(id) is Ok,
        pre.burned_from(post, id),
        post.consistent(),
    ensures
        post.owner(id) == NULL_ACCOUNT,
        !holds_id(post.assets(a), id),
        post.total == pre.total - 1,
        post.burned == (if pre.burned == u128::MAX {
            0
        } else {
            pre.burned + 1
        }),
{
    lemma_unowned_nowhere(post, id, a);
}

/// Once the total has reached the global ceiling, minting a new identifier
/// to an account with room fails with `TooManyAssets` and changes nothing.
pub proof fn lemma_global_ceiling(
    pre: LedgerView,
    post: LedgerView,
    owner: AccountId,
    x: Asset,
    r: Result<AssetId, Error>,
)
    requires
        pre.consistent(),
        pre.total == pre.limit,
        !pre.owners.contains_key(x.id),
        pre.count(owner) < pre.user_limit,
        r == pre.mint_outcome(owner, x.id),
        r is Ok ==> pre.minted(post, owner, x),
        r is Err ==> post == pre,
    ensures
        r == Err::<AssetId, Error>(Error::TooManyAssets),
        post == pre,
{
}

/// Once an account holds as many assets as one account may, minting a new
/// identifier to it, or transferring an existing asset to it, fails with
/// `TooManyAssetsForAccount` and changes nothing.
pub proof fn lemma_account_ceiling(
    pre: LedgerView,
    mint_post: LedgerView,
    transfer_post: LedgerView,
    a: AccountId,
    fresh: Asset,
    moved: AssetId,
    rm: Result<AssetId, Error>,
    rt: Result<(), Error>,
)
    requires
        pre.consistent(),
        pre.count(a) == pre.user_limit,
        !pre.owners.contains_key(fresh.id),
        pre.owners.contains_key(moved),
        rm == pre.mint_outcome(a, fresh.id),
        rm is Ok ==> pre.minted(mint_post, a, fresh),
        rm is Err ==> mint_post == pre,
        rt == pre.transfer_outcome(a, moved),
        rt is Ok ==> pre.transferred(transfer_post, a, moved),
        rt is Err ==> transfer_post == pre,
    ensures
        rm == Err::<AssetId, Error>(Error::TooManyAssetsForAccount),
        mint_post == pre,
        rt == Err::<(), Error>(Error::TooManyAssetsForAccount),
        transfer_post == pre,
{
}

/// Burning or transferring an identifier that has no owner, never minted or
/// already burned, fails with `NonexistentAsset` and changes nothing.
pub proof fn lemma_nonexistent_target(
    pre: LedgerView,
    burn_post: LedgerView,
    transfer_post: LedgerView,
    dest: AccountId,
    id: AssetId,
    rb: Result<(), Error>,
    rt: Result<(), Error>,
)
    requires
        pre.consistent(),
        pre.owner(id) == NULL_ACCOUNT,
        rb == pre.burn_outcome(id),
        rb is Ok ==> pre.burned_from(burn_post, id),
        rb is Err ==> burn_post == pre,
        rt == pre.transfer_outcome(dest, id),
        rt is Ok ==> pre.transferred(transfer_post, dest, id),
        rt is Err ==> transfer_post == pre,
    ensures
        rb == Err::<(), Error>(Error::NonexistentAsset),
        burn_post == pre,
        rt == Err::<(), Error>(Error::NonexistentAsset),
        transfer_post == pre,
{
}

} // verus!
