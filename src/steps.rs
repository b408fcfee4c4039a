use vstd::prelude::*;
use crate::model::{holds_id, sorted_by_id, LedgerView};
use crate::sum::lemma_sum_counts_insert;
use crate::types::{AccountId, Asset, AssetId, NULL_ACCOUNT};

verus! {

/// `pos` is where `id` belongs in the sorted collection `s`: every identifier
/// before it is smaller and every one from it on is larger.
pub open spec fn insert_point(s: Seq<Asset>, pos: int, id: AssetId) -> bool {
    &&& 0 <= pos <= s.len()
    &&& forall|j: int| 0 <= j < pos ==> #[trigger] s[j].id < id
    &&& forall|j: int| pos <= j < s.len() ==> #[trigger] s[j].id > id
}

proof fn lemma_insert_sorted(s: Seq<Asset>, pos: int, x: Asset)
    requires
        sorted_by_id(s),
        insert_point(s, pos, x.id),
    ensures
        sorted_by_id(s.insert(pos, x)),
{
    let t = s.insert(pos, x);
    assert forall|i: int, j: int| 0 <= i < j < t.len() implies #[trigger] t[i].id < #[trigger] t[j].id by {
        if i < pos {
            assert(t[i] == s[i]);
        } else if i > pos {
            assert(t[i] == s[i - 1]);
        }
        if j < pos {
            assert(t[j] == s[j]);
        } else if j > pos {
            assert(t[j] == s[j - 1]);
        }
    }
}

proof fn lemma_remove_sorted(s: Seq<Asset>, k: int)
    requires
        sorted_by_id(s),
        0 <= k < s.len(),
    ensures
        sorted_by_id(s.remove(k)),
{
    let t = s.remove(k);
    assert forall|i: int, j: int| 0 <= i < j < t.len() implies #[trigger] t[i].id < #[trigger] t[j].id by {
        if i < k {
            assert(t[i] == s[i]);
        } else {
            assert(t[i] == s[i + 1]);
        }
        if j < k {
            assert(t[j] == s[j]);
        } else {
            assert(t[j] == s[j + 1]);
        }
    }
}

/// A mint that passed its checks leads from a consistent state to a
/// consistent state.
pub proof fn lemma_mint_step(pre: LedgerView, post: LedgerView, owner: AccountId, x: Asset, pos: int)
    requires
        pre.consistent(),
        owner != NULL_ACCOUNT,
        pre.mint_outcome(owner, x.id) is Ok,
        insert_point(pre.assets(owner), pos, x.id),
        post.total == pre.total + 1,
        post.burned == pre.burned,
        post.limit == pre.limit,
        post.user_limit == pre.user_limit,
        post.counts == pre.counts.insert(owner, (pre.count(owner) + 1) as u64),
        post.owners == pre.owners.insert(x.id, owner),
        post.assets(owner) == pre.assets(owner).insert(pos, x),
        forall|a: AccountId| a != owner ==> #[trigger] post.assets(a) == pre.assets(a),
    ensures
        post.consistent(),
        pre.minted(post, owner, x),
{
    let s = pre.assets(owner);
    let t = post.assets(owner);
    lemma_sum_counts_insert(pre.counts, owner, (pre.count(owner) + 1) as u64);
    assert(post.owners.dom() =~= pre.owners.dom().insert(x.id));
    assert(post.counts.dom() =~= pre.counts.dom().insert(owner));
    assert forall|a: AccountId| #[trigger] post.count(a) == post.assets(a).len() by {
        if a != owner {
            assert(post.assets(a) == pre.assets(a));
            assert(pre.count(a) == pre.assets(a).len());
        }
    }
    assert forall|a: AccountId| #[trigger] sorted_by_id(post.assets(a)) by {
        if a == owner {
            lemma_insert_sorted(s, pos, x);
        } else {
            assert(post.assets(a) == pre.assets(a));
        }
    }
    assert forall|a: AccountId, i: int| 0 <= i < post.assets(a).len() implies post.owners.contains_key(
        #[trigger] post.assets(a)[i].id,
    ) && post.owners[post.assets(a)[i].id] == a by {
        if a == owner {
            if i < pos {
                assert(t[i] == s[i]);
            } else if i > pos {
                assert(t[i] == s[i - 1]);
            }
        } else {
            assert(post.assets(a) == pre.assets(a));
            assert(pre.owners.contains_key(pre.assets(a)[i].id));
        }
    }
    assert forall|id: AssetId| #[trigger] post.owners.contains_key(id) implies holds_id(
        post.assets(post.owners[id]),
        id,
    ) by {
        if id == x.id {
            assert(t[pos].id == id);
        } else {
            let o = pre.owners[id];
            assert(holds_id(pre.assets(o), id));
            let k = choose|k: int| 0 <= k < pre.assets(o).len() && #[trigger] pre.assets(o)[k].id == id;
            if o == owner {
                if k < pos {
                    assert(t[k].id == id);
                } else {
                    assert(t[k + 1].id == id);
                }
            } else {
                assert(post.assets(o) == pre.assets(o));
                assert(post.assets(o)[k].id == id);
            }
        }
    }
    assert forall|a: AccountId| #[trigger] post.count(a) <= post.user_limit by {
        if a != owner {
            assert(pre.count(a) <= pre.user_limit);
        }
    }
    assert(post.assets(owner) == pre.assets(owner).insert(pos, x));
}

/// Two positions of a sorted collection with the same identifier coincide.
proof fn lemma_sorted_unique(s: Seq<Asset>, i: int, k: int)
    requires
        sorted_by_id(s),
        0 <= i < s.len(),
        0 <= k < s.len(),
        s[i].id == s[k].id,
    ensures
        i == k,
{
    if i < k {
        assert(s[i].id < s[k].id);
    } else if k < i {
        assert(s[k].id < s[i].id);
    }
}

/// A burn of an existing asset leads from a consistent state to a
/// consistent state.
pub proof fn lemma_burn_step(pre: LedgerView, post: LedgerView, id: AssetId, k: int)
    requires
        pre.consistent(),
        pre.owners.contains_key(id),
        0 <= k < pre.assets(pre.owners[id]).len(),
        pre.assets(pre.owners[id])[k].id == id,
        post.total == pre.total - 1,
        post.burned == (if pre.burned == u128::MAX {
            0
        } else {
            pre.burned + 1
        }),
        post.limit == pre.limit,
        post.user_limit == pre.user_limit,
        post.counts == pre.counts.insert(
            pre.owners[id],
            (pre.count(pre.owners[id]) - 1) as u64,
        ),
        post.owners == pre.owners.remove(id),
        post.assets(pre.owners[id]) == pre.assets(pre.owners[id]).remove(k),
        forall|a: AccountId| a != pre.owners[id] ==> #[trigger] post.assets(a) == pre.assets(a),
    ensures
        post.consistent(),
        pre.burned_from(post, id),
{
    let o = pre.owners[id];
    let s = pre.assets(o);
    let t = post.assets(o);
    assert(pre.count(o) == s.len());
    assert(pre.counts.contains_key(o));
    lemma_sum_counts_insert(pre.counts, o, (pre.count(o) - 1) as u64);
    assert(post.owners.dom() =~= pre.owners.dom().remove(id));
    assert(post.counts.dom() =~= pre.counts.dom());
    assert forall|a: AccountId| #[trigger] post.count(a) == post.assets(a).len() by {
        if a != o {
            assert(post.assets(a) == pre.assets(a));
            assert(pre.count(a) == pre.assets(a).len());
        }
    }
    assert forall|a: AccountId| #[trigger] sorted_by_id(post.assets(a)) by {
        if a == o {
            lemma_remove_sorted(s, k);
        } else {
            assert(post.assets(a) == pre.assets(a));
        }
    }
    assert forall|a: AccountId, i: int| 0 <= i < post.assets(a).len() implies post.owners.contains_key(
        #[trigger] post.assets(a)[i].id,
    ) && post.owners[post.assets(a)[i].id] == a by {
        if a == o {
            let i0 = if i < k { i } else { i + 1 };
            assert(t[i] == s[i0]);
            if s[i0].id == id {
                lemma_sorted_unique(s, i0, k);
            }
            assert(pre.owners.contains_key(pre.assets(a)[i0].id));
        } else {
            assert(post.assets(a) == pre.assets(a));
            assert(pre.owners.contains_key(pre.assets(a)[i].id));
        }
    }
    assert forall|id2: AssetId| #[trigger] post.owners.contains_key(id2) implies holds_id(
        post.assets(post.owners[id2]),
        id2,
    ) by {
        let o2 = pre.owners[id2];
        assert(holds_id(pre.assets(o2), id2));
        let k2 = choose|k2: int| 0 <= k2 < pre.assets(o2).len() && #[trigger] pre.assets(o2)[k2].id == id2;
        if o2 == o {
            if k2 < k {
                assert(t[k2].id == id2);
            } else {
                assert(k2 != k);
                assert(t[k2 - 1].id == id2);
            }
        } else {
            assert(post.assets(o2) == pre.assets(o2));
            assert(post.assets(o2)[k2].id == id2);
        }
    }
    assert forall|a: AccountId| #[trigger] post.count(a) <= post.user_limit by {
        assert(pre.count(a) <= pre.user_limit);
    }
}

/// A transfer of an existing asset to another account with room leads from
/// a consistent state to a consistent state.
pub proof fn lemma_transfer_step(
    pre: LedgerView,
    post: LedgerView,
    dest: AccountId,
    id: AssetId,
    k: int,
    j: int,
)
    requires
        pre.consistent(),
        dest != NULL_ACCOUNT,
        pre.transfer_outcome(dest, id) is Ok,
        pre.owners[id] != dest,
        0 <= k < pre.assets(pre.owners[id]).len(),
        pre.assets(pre.owners[id])[k].id == id,
        insert_point(pre.assets(dest), j, id),
        post.total == pre.total,
        post.burned == pre.burned,
        post.limit == pre.limit,
        post.user_limit == pre.user_limit,
        post.counts == pre.counts.insert(
            pre.owners[id],
            (pre.count(pre.owners[id]) - 1) as u64,
        ).insert(dest, (pre.count(dest) + 1) as u64),
        post.owners == pre.owners.insert(id, dest),
        post.assets(pre.owners[id]) == pre.assets(pre.owners[id]).remove(k),
        post.assets(dest) == pre.assets(dest).insert(j, pre.assets(pre.owners[id])[k]),
        forall|a: AccountId|
            a != pre.owners[id] && a != dest ==> #[trigger] post.assets(a) == pre.assets(a),
    ensures
        post.consistent(),
        pre.transferred(post, dest, id),
{
    let o = pre.owners[id];
    let s = pre.assets(o);
    let t = post.assets(o);
    let d = pre.assets(dest);
    let e = post.assets(dest);
    let x = s[k];
    assert(pre.count(o) == s.len());
    assert(pre.counts.contains_key(o));
    let mid = pre.counts.insert(o, (pre.count(o) - 1) as u64);
    lemma_sum_counts_insert(pre.counts, o, (pre.count(o) - 1) as u64);
    lemma_sum_counts_insert(mid, dest, (pre.count(dest) + 1) as u64);
    assert(mid.dom() =~= pre.counts.dom());
    assert(post.owners.dom() =~= pre.owners.dom());
    assert(post.counts.dom() =~= pre.counts.dom().insert(dest));
    assert forall|a: AccountId| #[trigger] post.count(a) == post.assets(a).len() by {
        if a != o && a != dest {
            assert(post.assets(a) == pre.assets(a));
            assert(pre.count(a) == pre.assets(a).len());
        } else if a == dest {
            assert(pre.count(dest) == d.len());
        }
    }
    assert forall|a: AccountId| #[trigger] sorted_by_id(post.assets(a)) by {
        if a == o {
            lemma_remove_sorted(s, k);
        } else if a == dest {
            lemma_insert_sorted(d, j, x);
        } else {
            assert(post.assets(a) == pre.assets(a));
        }
    }
    assert forall|a: AccountId, i: int| 0 <= i < post.assets(a).len() implies post.owners.contains_key(
        #[trigger] post.assets(a)[i].id,
    ) && post.owners[post.assets(a)[i].id] == a by {
        if a == o {
            let i0 = if i < k { i } else { i + 1 };
            assert(t[i] == s[i0]);
            if s[i0].id == id {
                lemma_sorted_unique(s, i0, k);
            }
            assert(pre.owners.contains_key(pre.assets(a)[i0].id));
        } else if a == dest {
            if i < j {
                assert(e[i] == d[i]);
                assert(pre.owners.contains_key(d[i].id));
            } else if i > j {
                assert(e[i] == d[i - 1]);
                assert(pre.owners.contains_key(d[i - 1].id));
            }
        } else {
            assert(post.assets(a) == pre.assets(a));
            assert(pre.owners.contains_key(pre.assets(a)[i].id));
        }
    }
    assert forall|id2: AssetId| #[trigger] post.owners.contains_key(id2) implies holds_id(
        post.assets(post.owners[id2]),
        id2,
    ) by {
        if id2 == id {
            assert(e[j].id == id);
        } else {
            let o2 = pre.owners[id2];
            assert(holds_id(pre.assets(o2), id2));
            let k2 = choose|k2: int|
                0 <= k2 < pre.assets(o2).len() && #[trigger] pre.assets(o2)[k2].id == id2;
            if o2 == o {
                if k2 < k {
                    assert(t[k2].id == id2);
                } else {
                    assert(t[k2 - 1].id == id2);
                }
            } else if o2 == dest {
                if k2 < j {
                    assert(e[k2].id == id2);
                } else {
                    assert(e[k2 + 1].id == id2);
                }
            } else {
                assert(post.assets(o2) == pre.assets(o2));
                assert(post.assets(o2)[k2].id == id2);
            }
        }
    }
    assert forall|a: AccountId| #[trigger] post.count(a) <= post.user_limit by {
        assert(pre.count(a) <= pre.user_limit);
    }
}

} // verus!
