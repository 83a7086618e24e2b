//! Facts about sequences that several modules share.
use vstd::prelude::*;

use crate::ids::Uuid;

verus! {

/// `i` is where `id` first stands in `ids`.
pub open spec fn first_at(ids: Seq<Uuid>, id: Uuid, i: int) -> bool {
    &&& 0 <= i < ids.len()
    &&& ids[i] == id
    &&& forall|j: int| 0 <= j < i ==> ids[j] != id
}

/// Where `id` first stands in `ids`, if it does.
pub open spec fn pos(ids: Seq<Uuid>, id: Uuid) -> Option<int> {
    if exists|i: int| first_at(ids, id, i) {
        Some(choose|i: int| first_at(ids, id, i))
    } else {
        None
    }
}

/// The first occurrence is unique.
pub proof fn lemma_pos_some(ids: Seq<Uuid>, id: Uuid, i: int)
    requires
        first_at(ids, id, i),
    ensures
        pos(ids, id) == Some(i),
{
    let k = choose|k: int| first_at(ids, id, k);
    assert(first_at(ids, id, k));
    if k < i {
        assert(ids[k] != id);
    }
    if i < k {
        assert(ids[i] != id);
    }
}

/// What does not occur has no first occurrence.
pub proof fn lemma_pos_none(ids: Seq<Uuid>, id: Uuid)
    requires
        forall|j: int| 0 <= j < ids.len() ==> ids[j] != id,
    ensures
        pos(ids, id) is None,
{
}

/// What `pos` finds is the first occurrence, and it finds every id that occurs.
pub proof fn lemma_pos(ids: Seq<Uuid>, id: Uuid)
    ensures
        pos(ids, id) matches Some(i) ==> first_at(ids, id, i),
        pos(ids, id) is None ==> forall|j: int| 0 <= j < ids.len() ==> ids[j] != id,
    decreases ids.len(),
{
    if pos(ids, id) is None {
        assert forall|j: int| 0 <= j < ids.len() implies ids[j] != id by {
            if ids[j] == id {
                lemma_occurs(ids, id, j);
            }
        }
    }
}

proof fn lemma_occurs(ids: Seq<Uuid>, id: Uuid, j: int)
    requires
        0 <= j < ids.len(),
        ids[j] == id,
    ensures
        exists|i: int| first_at(ids, id, i),
    decreases j,
{
    if exists|k: int| 0 <= k < j && ids[k] == id {
        let k = choose|k: int| 0 <= k < j && ids[k] == id;
        lemma_occurs(ids, id, k);
    } else {
        assert(first_at(ids, id, j));
    }
}

/// The first `i + 1` items are the first `i` and the next.
pub proof fn lemma_take_step<A>(s: Seq<A>, i: int)
    requires
        0 <= i < s.len(),
    ensures
        s.take(i + 1).drop_last() == s.take(i),
        s.take(i + 1).last() == s[i],
{
    assert(s.take(i + 1).drop_last() =~= s.take(i));
}

} // verus!
