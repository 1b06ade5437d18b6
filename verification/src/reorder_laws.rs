//! How a list is sorted, and what a move makes of it.

use crate::provider::Provider;
use crate::reorder::{
    arranged, assigns, every_list_has_its_order, is_order, order_of, place_of, sorted_ids,
    ProviderSortUpdate,
};
use vstd::prelude::*;

verus! {

/// In the order of a list, one provider goes before another by the sort index, those
/// without an index go last, and where the index does not tell, they go as they
/// stand in the list.
pub proof fn order_goes_by_the_sort_index(list: Seq<Provider>, k: int, l: int)
    requires
        0 <= k < l < list.len(),
    ensures
        ({
            let order = order_of(list);
            let i = order[k];
            let j = order[l];
            &&& 0 <= i < list.len()
            &&& 0 <= j < list.len()
            &&& match (list[i].sort_index, list[j].sort_index) {
                (Some(a), Some(b)) => a < b || a == b && i < j,
                (Some(_), None) => true,
                (None, Some(_)) => false,
                (None, None) => i < j,
            }
        }),
{
    every_list_has_its_order(list);
    assert(0 <= order_of(list)[k] < list.len() && 0 <= order_of(list)[l] < list.len());
}

/// The order of a list names every place once, and the sorted ids are the ids of the
/// list in that order.
pub proof fn sorted_ids_are_those_of_the_list(list: Seq<Provider>, i: int)
    requires
        0 <= i < list.len(),
    ensures
        order_of(list).len() == list.len(),
        sorted_ids(list).len() == list.len(),
        order_of(list).contains(i),
        0 <= order_of(list)[i] < list.len(),
        sorted_ids(list)[i] == list[order_of(list)[i]].id@,
        sorted_ids(list).contains(list[i].id@),
{
    every_list_has_its_order(list);
    assert(order_of(list).contains(i));
    let k = choose|k: int| 0 <= k < order_of(list).len() && order_of(list)[k] == i;
    assert(sorted_ids(list)[k] == list[i].id@);
    assert(0 <= order_of(list)[i] < list.len());
}

/// The place of an id is the first one where it stands, and there is one just where
/// it stands anywhere.
pub proof fn place_is_the_first(ids: Seq<Seq<char>>, id: Seq<char>)
    ensures
        place_of(ids, id) is None <==> forall|i: int| 0 <= i < ids.len() ==> ids[i] != id,
        place_of(ids, id) matches Some(at) ==> {
            &&& 0 <= at < ids.len()
            &&& ids[at] == id
            &&& forall|i: int| 0 <= i < at ==> ids[i] != id
        },
    decreases ids.len(),
{
    if ids.len() > 0 && ids[0] != id {
        let rest = ids.skip(1);
        place_is_the_first(rest, id);
        assert forall|i: int| 0 < i < ids.len() implies ids[i] == rest[i - 1] by {}
        if place_of(ids, id) is None {
            assert forall|i: int| 0 <= i < ids.len() implies ids[i] != id by {
                if i > 0 {
                    assert(rest[i - 1] != id);
                }
            }
        }
    }
}

/// What a move does, with each provider standing once: the moved one stands where
/// the one before which it goes stood among the others, or at the end, and the
/// others keep their order.
pub proof fn move_takes_one_out_and_puts_it_in(
    a: Seq<Seq<char>>,
    moved: Seq<char>,
    b: Seq<Seq<char>>,
    c: Seq<Seq<char>>,
    before: Seq<char>,
)
    requires
        before.len() > 0,
        before != moved,
        !a.contains(before),
        !b.contains(before),
    ensures
        arranged(a.push(moved) + b.push(before) + c, a.len() as int, before) == a + b.push(
            moved,
        ).push(before) + c,
        !c.contains(before) ==> arranged(
            a + b.push(before) + c.push(moved),
            (a.len() + b.len() + 1 + c.len()) as int,
            before,
        ) == a + b.push(moved).push(before) + c,
        !c.contains(before) ==> arranged(a.push(moved) + b + c, a.len() as int, before) == a + b
            + c.push(moved),
        arranged(a.push(moved) + b + c, a.len() as int, Seq::empty()) == a + b + c.push(moved),
{
    let forward = a.push(moved) + b.push(before) + c;
    place_is_the_first(forward, before);
    let at = (a.len() + 1 + b.len()) as int;
    assert(forward[at] == before);
    assert forall|i: int| 0 <= i < at implies forward[i] != before by {
        if i < a.len() {
            assert(a.contains(a[i]));
        } else if i > a.len() {
            assert(b.contains(b[i - a.len() - 1]));
        }
    }
    assert(place_of(forward, before) == Some(at));
    assert(arranged(forward, a.len() as int, before) =~= a + b.push(moved).push(before) + c);
    if !c.contains(before) {
        let back = a + b.push(before) + c.push(moved);
        place_is_the_first(back, before);
        let at = (a.len() + b.len()) as int;
        assert(back[at] == before);
        assert forall|i: int| 0 <= i < at implies back[i] != before by {
            if i < a.len() {
                assert(a.contains(a[i]));
            } else {
                assert(b.contains(b[i - a.len()]));
            }
        }
        assert(place_of(back, before) == Some(at));
        assert(arranged(back, (a.len() + b.len() + 1 + c.len()) as int, before) =~= a + b.push(
            moved,
        ).push(before) + c);
        let without = a.push(moved) + b + c;
        place_is_the_first(without, before);
        assert forall|i: int| 0 <= i < without.len() implies without[i] != before by {
            if i < a.len() {
                assert(a.contains(a[i]));
            } else if i > a.len() && i <= a.len() + b.len() {
                assert(b.contains(b[i - a.len() - 1]));
            } else if i > a.len() {
                assert(c.contains(c[i - a.len() - b.len() - 1]));
            }
        }
        assert(arranged(without, a.len() as int, before) =~= a + b + c.push(moved));
    }
    assert(arranged(a.push(moved) + b + c, a.len() as int, Seq::empty()) =~= a + b + c.push(moved));
}

/// Each id of an arrangement gets one update, with its place as the sort index.
pub proof fn updates_number_the_places(
    updates: Seq<ProviderSortUpdate>,
    ids: Seq<Seq<char>>,
    i: int,
)
    requires
        assigns(updates, ids),
        0 <= i < ids.len(),
    ensures
        updates.len() == ids.len(),
        updates[i].id@ == ids[i],
        updates[i].sort_index == i,
{
}

/// What it is to be an order: it names places of the list, each of them, and as many
/// as there are.
pub proof fn order_names_every_place(list: Seq<Provider>, order: Seq<int>, i: int)
    requires
        is_order(list, order),
        0 <= i < list.len(),
    ensures
        order.len() == list.len(),
        0 <= order[i] < list.len(),
        order.contains(i),
{
}

} // verus!
