//! Putting moves in order of promise.

use crate::chess_types::ChessMove;
use vstd::prelude::*;

verus! {

/// A move with the key by which it is ordered: the smaller, the earlier.
#[derive(Clone, Copy, Debug, PartialEq, Eq, Structural)]
pub struct KeyedMove {
    pub key: u32,
    pub mv: ChessMove,
}

/// An ordered sequence with one more item: the item stands behind every
/// item whose key is not above its own.
pub open spec fn inserted_by_key(sorted: Seq<KeyedMove>, item: KeyedMove) -> Seq<KeyedMove>
    decreases sorted.len(),
{
    if sorted.len() == 0 {
        seq![item]
    } else if sorted.last().key <= item.key {
        sorted.push(item)
    } else {
        inserted_by_key(sorted.drop_last(), item).push(sorted.last())
    }
}

/// The items in the order of their keys, items with the same key in the
/// order in which they came.
pub open spec fn sorted_by_key(items: Seq<KeyedMove>) -> Seq<KeyedMove>
    decreases items.len(),
{
    if items.len() == 0 {
        Seq::empty()
    } else {
        inserted_by_key(sorted_by_key(items.drop_last()), items.last())
    }
}

/// Whether the keys never fall along the sequence.
pub open spec fn keys_ascend(items: Seq<KeyedMove>) -> bool {
    forall|i: int, j: int| 0 <= i < j < items.len() ==> items[i].key <= items[j].key
}

/// The moves of a sequence of keyed moves.
pub open spec fn moves_of(items: Seq<KeyedMove>) -> Seq<ChessMove> {
    items.map_values(|item: KeyedMove| item.mv)
}

/// Inserting keeps the length plus one, the items, and the order.
pub proof fn lemma_inserted_by_key(sorted: Seq<KeyedMove>, item: KeyedMove)
    ensures
        inserted_by_key(sorted, item).len() == sorted.len() + 1,
        inserted_by_key(sorted, item).to_multiset() == sorted.to_multiset().insert(item),
        keys_ascend(sorted) ==> keys_ascend(inserted_by_key(sorted, item)),
        forall|k: int|
            0 <= k < inserted_by_key(sorted, item).len() ==> #[trigger] inserted_by_key(
                sorted,
                item,
            )[k] == item || sorted.contains(inserted_by_key(sorted, item)[k]),
    decreases sorted.len(),
{
    broadcast use vstd::seq_lib::group_to_multiset_ensures;

    let out = inserted_by_key(sorted, item);
    if sorted.len() == 0 {
        assert(out =~= Seq::<KeyedMove>::empty().push(item));
        assert(sorted =~= Seq::<KeyedMove>::empty());
    } else if sorted.last().key <= item.key {
        assert forall|k: int| 0 <= k < out.len() implies #[trigger] out[k] == item
            || sorted.contains(out[k]) by {
            if k < sorted.len() {
                assert(sorted[k] == out[k]);
            }
        }
    } else {
        let rest = sorted.drop_last();
        let inner = inserted_by_key(rest, item);
        lemma_inserted_by_key(rest, item);
        assert(sorted =~= rest.push(sorted.last()));
        assert(rest.push(sorted.last()).to_multiset() == rest.to_multiset().insert(sorted.last()));
        assert(out.to_multiset() =~= sorted.to_multiset().insert(item));
        assert forall|k: int| 0 <= k < out.len() implies #[trigger] out[k] == item
            || sorted.contains(out[k]) by {
            if k < inner.len() {
                if inner[k] != item {
                    assert(rest.contains(inner[k]));
                    let w = choose|w: int| 0 <= w < rest.len() && rest[w] == inner[k];
                    assert(sorted[w] == inner[k]);
                }
            } else {
                assert(sorted[sorted.len() - 1] == out[k]);
            }
        }
        if keys_ascend(sorted) {
            assert(keys_ascend(rest)) by {
                assert forall|i: int, j: int| 0 <= i < j < rest.len() implies rest[i].key
                    <= rest[j].key by {
                    assert(sorted[i].key <= sorted[j].key);
                }
            }
            assert forall|i: int, j: int| 0 <= i < j < out.len() implies out[i].key
                <= out[j].key by {
                if j == out.len() - 1 {
                    if inner[i] != item {
                        assert(rest.contains(inner[i]));
                        let w = choose|w: int| 0 <= w < rest.len() && rest[w] == inner[i];
                        assert(sorted[w].key <= sorted[sorted.len() - 1].key);
                    }
                }
            }
        }
    }
}

/// Sorting keeps the length and the items, and puts the keys in order.
pub proof fn lemma_sorted_by_key(items: Seq<KeyedMove>)
    ensures
        sorted_by_key(items).len() == items.len(),
        sorted_by_key(items).to_multiset() == items.to_multiset(),
        keys_ascend(sorted_by_key(items)),
        forall|k: int|
            0 <= k < items.len() ==> items.contains(#[trigger] sorted_by_key(items)[k]),
    decreases items.len(),
{
    broadcast use vstd::seq_lib::group_to_multiset_ensures;

    if items.len() == 0 {
        assert(items =~= Seq::<KeyedMove>::empty());
    } else {
        let rest = items.drop_last();
        lemma_sorted_by_key(rest);
        lemma_inserted_by_key(sorted_by_key(rest), items.last());
        assert(items =~= rest.push(items.last()));
        let out = sorted_by_key(items);
        assert forall|k: int| 0 <= k < items.len() implies items.contains(#[trigger] out[k]) by {
            if out[k] == items.last() {
                assert(items[items.len() - 1] == out[k]);
            } else {
                let inner = sorted_by_key(rest);
                assert(inner.contains(out[k]));
                let w = choose|w: int| 0 <= w < inner.len() && inner[w] == out[k];
                assert(rest.contains(inner[w]));
                let v = choose|v: int| 0 <= v < rest.len() && rest[v] == inner[w];
                assert(items[v] == out[k]);
            }
        }
    }
}

/// Puts one more item into an ordered sequence.
fn insert_by_key(sorted: &mut Vec<KeyedMove>, item: KeyedMove)
    ensures
        final(sorted)@ == inserted_by_key(old(sorted)@, item),
{
    // The items behind the place of the new one, last first.
    let mut behind: Vec<KeyedMove> = Vec::new();
    loop
        invariant
            sorted@.len() + behind@.len() == old(sorted)@.len(),
            sorted@ == old(sorted)@.subrange(0, sorted@.len() as int),
            forall|k: int|
                0 <= k < behind@.len() ==> behind@[k] == old(sorted)@[old(sorted)@.len() - 1 - k],
            forall|k: int| 0 <= k < behind@.len() ==> behind@[k].key > item.key,
        ensures
            sorted@.len() == 0 || sorted@.last().key <= item.key,
        decreases sorted@.len(),
    {
        let n = sorted.len();
        if n == 0 || sorted[n - 1].key <= item.key {
            break ;
        }
        let last = sorted.pop();
        match last {
            Some(moved) => {
                behind.push(moved);
            },
            None => {},
        }
    }
    let ghost prefix = sorted@;
    sorted.push(item);
    proof {
        lemma_inserted_at(prefix, item);
    }
    let ghost full = old(sorted)@;
    while behind.len() > 0
        invariant
            sorted@.len() + behind@.len() == full.len() + 1,
            sorted@ == inserted_by_key(full.subrange(0, sorted@.len() - 1), item),
            forall|k: int| 0 <= k < behind@.len() ==> behind@[k] == full[full.len() - 1 - k],
            forall|k: int| 0 <= k < behind@.len() ==> behind@[k].key > item.key,
        decreases behind@.len(),
    {
        let ghost m = sorted@.len() - 1;
        let next = behind.pop();
        match next {
            Some(moved) => {
                sorted.push(moved);
                proof {
                    let longer = full.subrange(0, m + 1);
                    assert(longer.last() == moved);
                    assert(longer.drop_last() =~= full.subrange(0, m));
                    assert(sorted@ == inserted_by_key(longer, item));
                }
            },
            None => {},
        }
    }
    proof {
        assert(full.subrange(0, full.len() as int) =~= full);
    }
}

/// An item whose key is not below that of the last item goes to the end.
proof fn lemma_inserted_at(sorted: Seq<KeyedMove>, item: KeyedMove)
    requires
        sorted.len() == 0 || sorted.last().key <= item.key,
    ensures
        inserted_by_key(sorted, item) == sorted.push(item),
{
    if sorted.len() == 0 {
        assert(sorted.push(item) =~= seq![item]);
    }
}

/// The moves in the order of their keys, moves with the same key in the
/// order in which they came.
pub fn sort_by_key(items: Vec<KeyedMove>) -> (moves: Vec<ChessMove>)
    ensures
        moves@ == moves_of(sorted_by_key(items@)),
{
    let mut sorted: Vec<KeyedMove> = Vec::new();
    let mut i: usize = 0;
    while i < items.len()
        invariant
            i <= items.len(),
            sorted@ == sorted_by_key(items@.subrange(0, i as int)),
        decreases items.len() - i,
    {
        insert_by_key(&mut sorted, items[i]);
        proof {
            let longer = items@.subrange(0, i + 1);
            assert(longer.drop_last() =~= items@.subrange(0, i as int));
            assert(longer.last() == items@[i as int]);
        }
        i += 1;
    }
    proof {
        assert(items@.subrange(0, items@.len() as int) =~= items@);
    }
    let mut moves: Vec<ChessMove> = Vec::new();
    let mut k: usize = 0;
    while k < sorted.len()
        invariant
            k <= sorted.len(),
            moves@ == moves_of(sorted@.subrange(0, k as int)),
        decreases sorted.len() - k,
    {
        moves.push(sorted[k].mv);
        proof {
            assert(moves@ =~= moves_of(sorted@.subrange(0, k + 1)));
        }
        k += 1;
    }
    proof {
        assert(sorted@.subrange(0, sorted@.len() as int) =~= sorted@);
    }
    moves
}

} // verus!
