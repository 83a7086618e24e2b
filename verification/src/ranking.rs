//! Ordering by recency: newest first, and in the order given where the times are equal.
use vstd::prelude::*;

verus! {

/// Something at a place of a list, with its time.
#[derive(Clone, Copy, Debug, PartialEq, Eq, Structural)]
pub struct Ranked {
    pub at: u64,
    pub index: usize,
}

/// An ordered list with one more put in its place, behind what is as new.
pub open spec fn placed(ranks: Seq<Ranked>, rank: Ranked) -> Seq<Ranked>
    decreases ranks.len(),
{
    if ranks.len() == 0 || ranks.last().at >= rank.at {
        ranks.push(rank)
    } else {
        placed(ranks.drop_last(), rank).push(ranks.last())
    }
}

/// A list ordered by recency.
pub open spec fn newest_first(ranks: Seq<Ranked>) -> Seq<Ranked>
    decreases ranks.len(),
{
    if ranks.len() == 0 {
        ranks
    } else {
        placed(newest_first(ranks.drop_last()), ranks.last())
    }
}

/// Nothing stands before something newer.
pub open spec fn descending(ranks: Seq<Ranked>) -> bool {
    forall|i: int, j: int| 0 <= i < j < ranks.len() ==> (#[trigger] ranks[i]).at >= (#[trigger] ranks[j]).at
}

/// What is as new stands in the order of the places.
pub open spec fn stable(ranks: Seq<Ranked>) -> bool {
    forall|i: int, j: int|
        0 <= i < j < ranks.len() && (#[trigger] ranks[i]).at == (#[trigger] ranks[j]).at ==> ranks[i].index < ranks[j].index
}

proof fn lemma_placed(ranks: Seq<Ranked>, rank: Ranked)
    requires
        descending(ranks),
        stable(ranks),
        forall|i: int| 0 <= i < ranks.len() ==> (#[trigger] ranks[i]).index < rank.index,
    ensures
        descending(placed(ranks, rank)),
        stable(placed(ranks, rank)),
        placed(ranks, rank).len() == ranks.len() + 1,
        placed(ranks, rank).to_multiset() == ranks.to_multiset().insert(rank),
        forall|i: int|
            0 <= i < placed(ranks, rank).len() ==> (#[trigger] placed(ranks, rank)[i] == rank || ranks.contains(
                placed(ranks, rank)[i],
            )),
    decreases ranks.len(),
{
    broadcast use vstd::seq_lib::group_to_multiset_ensures;

    let after = placed(ranks, rank);
    if ranks.len() == 0 || ranks.last().at >= rank.at {
        assert forall|i: int| 0 <= i < after.len() implies (#[trigger] after[i] == rank || ranks.contains(after[i])) by {
            if i < ranks.len() {
                assert(after[i] == ranks[i]);
            }
        }
    } else {
        let front = ranks.drop_last();
        lemma_placed(front, rank);
        let inner = placed(front, rank);
        assert(ranks =~= front.push(ranks.last()));
        assert(after.to_multiset() =~= ranks.to_multiset().insert(rank));
        assert forall|i: int| 0 <= i < after.len() implies (#[trigger] after[i] == rank || ranks.contains(after[i])) by {
            if i < inner.len() {
                assert(after[i] == inner[i]);
                if inner[i] != rank {
                    let k = front.index_of(inner[i]);
                    assert(ranks[k] == front[k]);
                }
            } else {
                assert(after[i] == ranks[ranks.len() - 1]);
            }
        }
        assert forall|i: int, j: int| 0 <= i < j < after.len() implies (#[trigger] after[i]).at >= (
        #[trigger] after[j]).at && (after[i].at == after[j].at ==> after[i].index < after[j].index) by {
            if j == inner.len() {
                assert(after[i] == inner[i]);
                if inner[i] != rank {
                    let k = front.index_of(inner[i]);
                    assert(ranks[k] == front[k]);
                    assert(ranks[k].at >= ranks[ranks.len() - 1].at);
                }
            } else {
                assert(after[i] == inner[i] && after[j] == inner[j]);
            }
        }
    }
}

/// The places grow along a list.
pub open spec fn numbered_up(ranks: Seq<Ranked>) -> bool {
    forall|i: int, j: int| 0 <= i < j < ranks.len() ==> (#[trigger] ranks[i]).index < (#[trigger] ranks[j]).index
}

/// Ordering by recency moves entries and drops or adds none, puts nothing before
/// something newer, and keeps the order of what is as new.
pub proof fn ordering_is_stable(ranks: Seq<Ranked>)
    requires
        numbered_up(ranks),
    ensures
        descending(newest_first(ranks)),
        stable(newest_first(ranks)),
        newest_first(ranks).len() == ranks.len(),
        newest_first(ranks).to_multiset() == ranks.to_multiset(),
        forall|i: int| 0 <= i < ranks.len() ==> ranks.contains(#[trigger] newest_first(ranks)[i]),
    decreases ranks.len(),
{
    broadcast use vstd::seq_lib::group_to_multiset_ensures;

    if ranks.len() > 0 {
        let front = ranks.drop_last();
        let last = ranks.last();
        ordering_is_stable(front);
        let inner = newest_first(front);
        assert forall|i: int| 0 <= i < inner.len() implies (#[trigger] inner[i]).index < last.index by {
            let k = front.index_of(inner[i]);
            assert(ranks[k] == front[k]);
            assert(ranks[k].index < ranks[ranks.len() - 1].index);
        }
        lemma_placed(inner, last);
        assert(ranks =~= front.push(last));
        let after = newest_first(ranks);
        assert forall|i: int| 0 <= i < ranks.len() implies ranks.contains(#[trigger] after[i]) by {
            if after[i] != last {
                assert(inner.contains(after[i]));
                let k = inner.index_of(after[i]);
                assert(front.contains(inner[k]));
                let m = front.index_of(inner[k]);
                assert(ranks[m] == front[m]);
            } else {
                assert(ranks[ranks.len() - 1] == last);
            }
        }
    }
}

fn place(ranks: &mut Vec<Ranked>, rank: Ranked)
    ensures
        final(ranks)@ == placed(old(ranks)@, rank),
{
    let ghost before = ranks@;
    let mut i: usize = ranks.len();
    assert(before.take(i as int) =~= before);
    assert(before.skip(i as int) =~= Seq::empty());
    assert(placed(before, rank) =~= placed(before.take(i as int), rank) + before.skip(i as int));
    while i > 0 && ranks[i - 1].at < rank.at
        invariant
            i <= before.len(),
            ranks@ == before,
            placed(before, rank) == placed(before.take(i as int), rank) + before.skip(i as int),
        decreases i,
    {
        assert(before.take(i as int).drop_last() =~= before.take(i - 1));
        assert(before.take(i as int).last() == before[i - 1]);
        assert(placed(before.take(i as int), rank) + before.skip(i as int) =~= placed(before.take(i - 1), rank)
            + before.skip(i - 1));
        i = i - 1;
    }
    assert(placed(before.take(i as int), rank) == before.take(i as int).push(rank));
    ranks.insert(i, rank);
    assert(ranks@ =~= before.take(i as int).push(rank) + before.skip(i as int));
}

/// Orders a list by recency.
pub fn order(ranks: &Vec<Ranked>) -> (r: Vec<Ranked>)
    ensures
        r@ == newest_first(ranks@),
{
    let mut r: Vec<Ranked> = Vec::new();
    let mut i: usize = 0;
    assert(ranks@.take(0) =~= Seq::empty());
    while i < ranks.len()
        invariant
            i <= ranks@.len(),
            r@ == newest_first(ranks@.take(i as int)),
        decreases ranks@.len() - i,
    {
        assert(ranks@.take(i + 1).drop_last() =~= ranks@.take(i as int));
        place(&mut r, ranks[i]);
        i = i + 1;
    }
    assert(ranks@.take(i as int) =~= ranks@);
    r
}

} // verus!
