use vstd::prelude::*;
use crate::model::{holds_id, sorted_by_id};
use crate::types::{Asset, AssetId};

verus! {

/// Binary search of a sorted collection by identifier: `Ok` with the
/// position of `id`, or `Err` with the position where it would be inserted.
pub fn search_by_id(list: &Vec<Asset>, id: AssetId) -> (r: Result<usize, usize>)
    requires
        sorted_by_id(list@),
    ensures
        match r {
            Ok(i) => i < list@.len() && list@[i as int].id == id,
            Err(i) => {
                &&& i <= list@.len()
                &&& forall|j: int| 0 <= j < i ==> #[trigger] list@[j].id < id
                &&& forall|j: int| i <= j < list@.len() ==> #[trigger] list@[j].id > id
            },
        },
{
    let mut lo: usize = 0;
    let mut hi: usize = list.len();
    while lo < hi
        invariant
            lo <= hi <= list@.len(),
            sorted_by_id(list@),
            forall|j: int| 0 <= j < lo ==> #[trigger] list@[j].id < id,
            forall|j: int| hi <= j < list@.len() ==> #[trigger] list@[j].id > id,
        decreases hi - lo,
    {
        let mid: usize = lo + (hi - lo) / 2;
        let m = list[mid].id;
        if m == id {
            return Ok(mid);
        } else if m < id {
            lo = mid + 1;
        } else {
            hi = mid;
        }
    }
    Err(lo)
}

/// The position of `id` in a sorted collection that holds it.
pub fn position_of(list: &Vec<Asset>, id: AssetId) -> (r: usize)
    requires
        sorted_by_id(list@),
        holds_id(list@, id),
    ensures
        r < list@.len(),
        list@[r as int].id == id,
{
    match search_by_id(list, id) {
        Ok(i) => i,
        Err(i) => {
            proof {
                let k = choose|k: int| 0 <= k < list@.len() && #[trigger] list@[k].id == id;
                if k < i {
                    assert(list@[k].id < id);
                } else {
                    assert(list@[k].id > id);
                }
            }
            i
        },
    }
}

} // verus!
