//! Arranging the list of providers: one provider is moved before another, and
//! every provider gets its place in the list as its new sort index.

use crate::provider::Provider;
use crate::reply::{
    failure, failure_reply, ok, ok_reply, stopped, stopped_reply, Body, BodyView, Reply, Step,
};
use crate::text::{join3, same_text};
use vstd::prelude::*;
use vstd::set_lib::{lemma_int_range, lemma_subset_equality, set_int_range};

verus! {

/// A request to move a provider in the list.
#[derive(Debug)]
pub struct ReorderRequest {
    /// The provider that is moved.
    pub moved_id: String,
    /// The provider before which it goes; it goes to the end where there is
    /// none with this id.
    pub before_id: String,
}

/// The new sort index of a provider.
#[derive(Debug)]
pub struct ProviderSortUpdate {
    pub id: String,
    pub sort_index: usize,
}

/// A provider with the sort index `a` goes before one with the sort index `b`:
/// those that have one go first, by it.
pub open spec fn index_before(a: Option<usize>, b: Option<usize>) -> bool {
    match (a, b) {
        (Some(x), Some(y)) => x < y,
        (Some(_), None) => true,
        (None, _) => false,
    }
}

/// The provider at place `i` of the list goes before the one at place `j`. Where
/// the sort index does not tell, they stay as they are.
pub open spec fn goes_before(list: Seq<Provider>, i: int, j: int) -> bool {
    ||| index_before(list[i].sort_index, list[j].sort_index)
    ||| list[i].sort_index == list[j].sort_index && i < j
}

/// `order` names every place of the list, in the order in which the providers go.
pub open spec fn is_order(list: Seq<Provider>, order: Seq<int>) -> bool {
    &&& order.len() == list.len()
    &&& forall|k: int| 0 <= k < order.len() ==> 0 <= #[trigger] order[k] < list.len()
    &&& forall|i: int| 0 <= i < list.len() ==> #[trigger] order.contains(i)
    &&& forall|k: int, l: int|
        0 <= k < l < order.len() ==> goes_before(list, #[trigger] order[k], #[trigger] order[l])
}

/// The places of the list, in the order in which the providers go.
pub open spec fn order_of(list: Seq<Provider>) -> Seq<int> {
    choose|order: Seq<int>| is_order(list, order)
}

/// The ids of the list, in the order in which the providers go.
pub open spec fn sorted_ids(list: Seq<Provider>) -> Seq<Seq<char>> {
    order_of(list).map_values(|i: int| list[i].id@)
}

/// The first place of an id.
pub open spec fn place_of(ids: Seq<Seq<char>>, id: Seq<char>) -> Option<int>
    decreases ids.len(),
{
    if ids.len() == 0 {
        None
    } else if ids[0] == id {
        Some(0)
    } else {
        match place_of(ids.skip(1), id) {
            Some(at) => Some(at + 1),
            None => None,
        }
    }
}

/// Where the provider at place `from` goes: before the one with the id `before`,
/// or to the end.
pub open spec fn destination(ids: Seq<Seq<char>>, from: int, before: Seq<char>) -> int {
    let at = if before.len() == 0 {
        None
    } else {
        place_of(ids, before)
    };
    match at {
        Some(at) => if at > from {
            at - 1
        } else {
            at
        },
        None => ids.len() - 1,
    }
}

/// The ids after the one at place `from` has gone before the one with the id
/// `before`, or to the end.
pub open spec fn arranged(ids: Seq<Seq<char>>, from: int, before: Seq<char>) -> Seq<Seq<char>> {
    ids.remove(from).insert(destination(ids, from, before), ids[from])
}

/// Each id gets its place as its sort index.
pub open spec fn assigns(updates: Seq<ProviderSortUpdate>, ids: Seq<Seq<char>>) -> bool {
    &&& updates.len() == ids.len()
    &&& forall|i: int|
        0 <= i < updates.len() ==> (#[trigger] updates[i]).id@ == ids[i] && updates[i].sort_index
            == i
}

/// There is only one order in which the providers of a list go.
pub proof fn order_is_unique(list: Seq<Provider>, a: Seq<int>, b: Seq<int>)
    requires
        is_order(list, a),
        is_order(list, b),
    ensures
        a == b,
{
    lemma_orders_agree(list, a, b, list.len() as int);
    assert(a.take(list.len() as int) =~= a);
    assert(b.take(list.len() as int) =~= b);
}

proof fn lemma_orders_agree(list: Seq<Provider>, a: Seq<int>, b: Seq<int>, n: int)
    requires
        is_order(list, a),
        is_order(list, b),
        0 <= n <= list.len(),
    ensures
        a.take(n) == b.take(n),
    decreases n,
{
    if n > 0 {
        let k = n - 1;
        lemma_orders_agree(list, a, b, k);
        assert forall|i: int| 0 <= i < k implies a[i] == b[i] by {
            assert(a.take(k)[i] == b.take(k)[i]);
        }
        if a[k] != b[k] {
            assert(b.contains(a[k]) && a.contains(b[k]));
            let m = choose|m: int| 0 <= m < b.len() && b[m] == a[k];
            let p = choose|p: int| 0 <= p < a.len() && a[p] == b[k];
            if m < k {
                assert(goes_before(list, a[m], a[k]));
            }
            if p < k {
                assert(goes_before(list, b[p], b[k]));
            }
            assert(goes_before(list, b[k], b[m]));
            assert(goes_before(list, a[k], a[p]));
        }
        assert(a.take(n) =~= a.take(k).push(a[k]));
        assert(b.take(n) =~= b.take(k).push(b[k]));
    }
}

fn comes_first(a: Option<usize>, b: Option<usize>) -> (first: bool)
    ensures
        first == index_before(a, b),
{
    match (a, b) {
        (Some(x), Some(y)) => x < y,
        (Some(_), None) => true,
        (None, _) => false,
    }
}

spec fn as_places(order: Seq<usize>) -> Seq<int> {
    order.map_values(|i: usize| i as int)
}

/// The places of the list, in the order in which the providers go.
fn sort_places(list: &Vec<Provider>) -> (order: Vec<usize>)
    ensures
        is_order(list@, as_places(order@)),
{
    let mut order: Vec<usize> = Vec::new();
    let mut n: usize = 0;
    while n < list.len()
        invariant
            n <= list.len(),
            is_order(list@.take(n as int), as_places(order@)),
        decreases list.len() - n,
    {
        let ghost before = order@;
        let ghost part = list@.take(n as int);
        let ghost places = as_places(before);
        assert forall|k: int| 0 <= k < n implies #[trigger] before[k] < n by {
            assert(0 <= places[k] < part.len());
        }
        let mut at: usize = n;
        while at > 0 && comes_first(list[n].sort_index, list[order[at - 1]].sort_index)
            invariant
                at <= n < list.len(),
                order@ == before,
                part == list@.take(n as int),
                places == as_places(before),
                is_order(part, places),
                forall|k: int| 0 <= k < n ==> #[trigger] before[k] < n,
                forall|k: int|
                    at <= k < n ==> index_before(
                        list@[n as int].sort_index,
                        list@[#[trigger] places[k]].sort_index,
                    ),
            decreases at,
        {
            at -= 1;
        }
        order.insert(at, n);
        proof {
            lemma_one_more(list@, n as int, places, at as int);
            assert(as_places(order@) =~= places.insert(at as int, n as int));
        }
        n += 1;
    }
    assert(list@.take(n as int) =~= list@);
    order
}

/// The next place of the list is put after all those that it does not go before.
proof fn lemma_one_more(list: Seq<Provider>, n: int, order: Seq<int>, at: int)
    requires
        0 <= n < list.len(),
        is_order(list.take(n), order),
        0 <= at <= n,
        at > 0 ==> !index_before(list[n].sort_index, list[order[at - 1]].sort_index),
        forall|k: int|
            at <= k < n ==> index_before(list[n].sort_index, list[#[trigger] order[k]].sort_index),
    ensures
        is_order(list.take(n + 1), order.insert(at, n)),
{
    let next = order.insert(at, n);
    let part = list.take(n);
    let more = list.take(n + 1);
    assert forall|k: int| 0 <= k < next.len() implies 0 <= #[trigger] next[k] < more.len() by {
        if k < at {
            assert(0 <= order[k] < part.len());
        } else if k > at {
            assert(0 <= order[k - 1] < part.len());
        }
    }
    assert forall|i: int| 0 <= i < more.len() implies #[trigger] next.contains(i) by {
        if i == n {
            assert(next[at] == i);
        } else {
            assert(order.contains(i));
            let k = choose|k: int| 0 <= k < order.len() && order[k] == i;
            if k < at {
                assert(next[k] == i);
            } else {
                assert(next[k + 1] == i);
            }
        }
    }
    assert forall|k: int, l: int| 0 <= k < l < next.len() implies goes_before(
        more,
        #[trigger] next[k],
        #[trigger] next[l],
    ) by {
        if l < at {
            assert(goes_before(part, order[k], order[l]));
            assert(0 <= order[k] < part.len() && 0 <= order[l] < part.len());
        } else if k > at {
            assert(goes_before(part, order[k - 1], order[l - 1]));
            assert(0 <= order[k - 1] < part.len() && 0 <= order[l - 1] < part.len());
        } else if k < at && l > at {
            assert(goes_before(part, order[k], order[l - 1]));
            assert(0 <= order[k] < part.len() && 0 <= order[l - 1] < part.len());
        } else if k < at {
            assert(0 <= order[k] < part.len() && 0 <= order[at - 1] < part.len());
            if k < at - 1 {
                assert(goes_before(part, order[k], order[at - 1]));
            }
        } else {
            assert(0 <= order[l - 1] < part.len());
        }
    }
}

/// The place of the first provider with the given id, along the order.
fn find_place(list: &Vec<Provider>, order: &Vec<usize>, id: &str) -> (at: Option<usize>)
    requires
        is_order(list@, as_places(order@)),
    ensures
        (match at {
            Some(at) => Some(at as int),
            None => None,
        }) == place_of(sorted_ids(list@), id@),
        at matches Some(at) ==> at < order@.len(),
{
    let ghost ids = sorted_ids(list@);
    proof {
        order_is_unique(list@, as_places(order@), order_of(list@));
    }
    let mut i: usize = 0;
    assert(ids.skip(0) =~= ids);
    while i < order.len()
        invariant
            i <= order.len(),
            is_order(list@, as_places(order@)),
            ids == sorted_ids(list@),
            order_of(list@) == as_places(order@),
            place_of(ids, id@) == (match place_of(ids.skip(i as int), id@) {
                Some(at) => Some(at + i),
                None => None,
            }),
        decreases order.len() - i,
    {
        assert(as_places(order@)[i as int] == order@[i as int]);
        assert(ids.skip(i as int)[0] == ids[i as int]);
        assert(ids.skip(i as int).skip(1) =~= ids.skip(i + 1));
        if same_text(list[order[i]].id.as_str(), id) {
            return Some(i);
        }
        i += 1;
    }
    None
}

/// Looks at a request to move a provider. If nothing is wrong with it, the new
/// sort indices are to be stored and `finish_reorder` says the rest.
pub fn reorder_providers(
    running: bool,
    body: &ReorderRequest,
    list: Result<Vec<Provider>, String>,
) -> (step: Step<Vec<ProviderSortUpdate>>)
    ensures
        !running ==> (step matches Step::Answer(reply) && reply@ == stopped_reply()),
        running && body.moved_id@.len() == 0 ==> (step matches Step::Answer(reply) && reply@
            == failure_reply("Missing moved_id"@)),
        running && body.moved_id@.len() > 0 ==> {
            &&& list matches Err(error) ==> (step matches Step::Answer(reply) && reply@
                == failure_reply(error@))
            &&& list matches Ok(providers) ==> {
                let ids = sorted_ids(providers@);
                match place_of(ids, body.moved_id@) {
                    None => step matches Step::Answer(reply) && reply@ == failure_reply(
                        "Provider '"@ + body.moved_id@ + "' not found"@,
                    ),
                    Some(from) => step matches Step::Perform(updates) && assigns(
                        updates@,
                        arranged(ids, from, body.before_id@),
                    ),
                }
            }
        },
{
    if !running {
        return Step::Answer(stopped());
    }
    if body.moved_id.as_str().is_empty() {
        return Step::Answer(failure("Missing moved_id".to_string()));
    }
    let providers = match list {
        Ok(providers) => providers,
        Err(error) => return Step::Answer(failure(error)),
    };
    let mut order = sort_places(&providers);
    let ghost ids = sorted_ids(providers@);
    proof {
        order_is_unique(providers@, as_places(order@), order_of(providers@));
    }
    let from = match find_place(&providers, &order, body.moved_id.as_str()) {
        Some(from) => from,
        None => {
            return Step::Answer(
                failure(join3("Provider '", body.moved_id.as_str(), "' not found")),
            );
        },
    };
    let before = if body.before_id.as_str().is_empty() {
        None
    } else {
        find_place(&providers, &order, body.before_id.as_str())
    };
    let ghost places = as_places(order@);
    let moved = order.remove(from);
    let to: usize = match before {
        Some(at) => if at > from {
            at - 1
        } else {
            at
        },
        None => order.len(),
    };
    order.insert(to, moved);
    let ghost wanted = arranged(ids, from as int, body.before_id@);
    assert forall|i: int| 0 <= i < order@.len() implies #[trigger] order@[i]
        < providers@.len() && wanted[i] == providers@[order@[i] as int].id@ by {
        let k = if i == to {
            from as int
        } else {
            let i = if i < to {
                i
            } else {
                i - 1
            };
            if i < from {
                i
            } else {
                i + 1
            }
        };
        assert(order@[i] == places[k]);
        assert(wanted[i] == ids[k]);
    }
    let mut updates: Vec<ProviderSortUpdate> = Vec::new();
    let mut i: usize = 0;
    while i < order.len()
        invariant
            i <= order.len(),
            order@.len() == wanted.len(),
            updates@.len() == i,
            forall|k: int|
                0 <= k < order@.len() ==> #[trigger] order@[k] < providers@.len() && wanted[k]
                    == providers@[order@[k] as int].id@,
            assigns(updates@, wanted.take(i as int)),
        decreases order.len() - i,
    {
        updates.push(ProviderSortUpdate { id: providers[order[i]].id.clone(), sort_index: i });
        i += 1;
    }
    assert(wanted.take(i as int) =~= wanted);
    Step::Perform(updates)
}

/// The answer after the new sort indices were to be stored.
pub fn finish_reorder(done: Result<(), String>) -> (reply: Reply)
    ensures
        reply@ == match done {
            Ok(_) => ok_reply(BodyView::Success),
            Err(error) => failure_reply(error@),
        },
{
    match done {
        Ok(_) => ok(Body::Success),
        Err(error) => failure(error),
    }
}

/// What `place_of` finds is the first place of the id, and it finds one if there
/// is any.
proof fn lemma_place_of(ids: Seq<Seq<char>>, id: Seq<char>)
    ensures
        place_of(ids, id) is Some <==> ids.contains(id),
        place_of(ids, id) matches Some(at) ==> {
            &&& 0 <= at < ids.len()
            &&& ids[at] == id
            &&& forall|i: int| 0 <= i < at ==> ids[i] != id
        },
    decreases ids.len(),
{
    if ids.len() > 0 && ids[0] != id {
        let rest = ids.skip(1);
        lemma_place_of(rest, id);
        assert forall|i: int| 0 < i < ids.len() implies ids[i] == rest[i - 1] by {}
        if ids.contains(id) {
            let i = choose|i: int| 0 <= i < ids.len() && ids[i] == id;
            assert(rest[i - 1] == id);
        }
        if rest.contains(id) {
            let i = choose|i: int| 0 <= i < rest.len() && rest[i] == id;
            assert(ids[i + 1] == id);
        }
    }
}

/// Every list has an order in which its providers go: those with a sort index go
/// first, by it, the others after them, and where the sort index does not tell
/// they stay as they are.
pub proof fn every_list_has_its_order(list: Seq<Provider>)
    ensures
        is_order(list, order_of(list)),
{
    lemma_order_exists(list, list.len() as int);
    let order = choose|order: Seq<int>| is_order(list.take(list.len() as int), order);
    assert(list.take(list.len() as int) =~= list);
    assert(is_order(list, order));
}

proof fn lemma_order_exists(list: Seq<Provider>, n: int)
    requires
        0 <= n <= list.len(),
    ensures
        exists|order: Seq<int>| is_order(list.take(n), order),
    decreases n,
{
    if n == 0 {
        assert(is_order(list.take(0), Seq::empty()));
    } else {
        lemma_order_exists(list, n - 1);
        let part = list.take(n - 1);
        let order = choose|order: Seq<int>| is_order(part, order);
        let at = lemma_insertion_point(list, n - 1, order, n - 1);
        lemma_one_more(list, n - 1, order, at);
    }
}

/// Walks back from the end of the order to where the next place goes.
proof fn lemma_insertion_point(list: Seq<Provider>, n: int, order: Seq<int>, from: int) -> (at: int)
    requires
        0 <= n < list.len(),
        is_order(list.take(n), order),
        0 <= from <= n,
        forall|k: int|
            from <= k < n ==> index_before(list[n].sort_index, list[#[trigger] order[k]].sort_index),
    ensures
        0 <= at <= n,
        at > 0 ==> !index_before(list[n].sort_index, list[order[at - 1]].sort_index),
        forall|k: int|
            at <= k < n ==> index_before(list[n].sort_index, list[#[trigger] order[k]].sort_index),
    decreases from,
{
    if from > 0 && index_before(list[n].sort_index, list[order[from - 1]].sort_index) {
        lemma_insertion_point(list, n, order, from - 1)
    } else {
        from
    }
}

/// A move loses no provider and adds none: the others stand in the order that
/// they had, and the moved one stands where it went.
pub proof fn move_keeps_the_others(ids: Seq<Seq<char>>, from: int, before: Seq<char>)
    requires
        0 <= from < ids.len(),
    ensures
        0 <= destination(ids, from, before) < ids.len(),
        arranged(ids, from, before).len() == ids.len(),
        arranged(ids, from, before)[destination(ids, from, before)] == ids[from],
        arranged(ids, from, before).remove(destination(ids, from, before)) == ids.remove(from),
        arranged(ids, from, before).to_multiset() == ids.to_multiset(),
{
    lemma_place_of(ids, before);
    let to = destination(ids, from, before);
    let out = arranged(ids, from, before);
    assert(out.remove(to) =~= ids.remove(from));
    broadcast use vstd::seq_lib::group_to_multiset_ensures;

    assert(ids.to_multiset() =~= ids.remove(from).to_multiset().insert(ids[from])) by {
        assert(ids =~= ids.remove(from).insert(from, ids[from]));
    }
    assert(out.to_multiset() =~= out.remove(to).to_multiset().insert(out[to])) by {
        assert(out =~= out.remove(to).insert(to, out[to]));
    }
}

/// A provider that is moved before another one stands directly before it.
pub proof fn moved_stands_before(ids: Seq<Seq<char>>, from: int, before: Seq<char>)
    requires
        0 <= from < ids.len(),
        before.len() > 0,
        ids.contains(before),
        ids[from] != before,
    ensures
        destination(ids, from, before) + 1 < ids.len(),
        arranged(ids, from, before)[destination(ids, from, before)] == ids[from],
        arranged(ids, from, before)[destination(ids, from, before) + 1] == before,
{
    lemma_place_of(ids, before);
}

/// A provider that is moved before none of the list stands at its end.
pub proof fn moved_stands_last(ids: Seq<Seq<char>>, from: int, before: Seq<char>)
    requires
        0 <= from < ids.len(),
        before.len() == 0 || !ids.contains(before),
    ensures
        arranged(ids, from, before).last() == ids[from],
{
    lemma_place_of(ids, before);
}

/// A provider that is moved before itself stays where it is.
pub proof fn moved_before_itself_stays(ids: Seq<Seq<char>>, from: int)
    requires
        place_of(ids, ids[from]) == Some(from),
        ids[from].len() > 0,
    ensures
        arranged(ids, from, ids[from]) == ids,
{
    lemma_place_of(ids, ids[from]);
    assert(arranged(ids, from, ids[from]) =~= ids);
}

/// The list as it is after `ids` were given their places as sort indices.
pub open spec fn is_arranged(list: Seq<Provider>, ids: Seq<Seq<char>>) -> bool {
    &&& list.len() == ids.len()
    &&& forall|i: int|
        0 <= i < list.len() ==> {
            &&& (#[trigger] list[i]).sort_index matches Some(at)
            &&& at < ids.len()
            &&& ids[at as int] == list[i].id@
        }
}

/// What was arranged is what is seen: once each id has its place as its sort
/// index, the list is sorted into just that arrangement, whatever the order in
/// which it is stored.
pub proof fn stored_arrangement_is_seen(list: Seq<Provider>, ids: Seq<Seq<char>>)
    requires
        is_arranged(list, ids),
        forall|i: int, j: int|
            0 <= i < j < list.len() ==> (#[trigger] list[i]).id@ != (#[trigger] list[j]).id@,
    ensures
        sorted_ids(list) == ids,
{
    let n = list.len() as int;
    let at = Seq::new(list.len(), |i: int| list[i].sort_index->0 as int);
    assert forall|i: int, j: int| 0 <= i < n && 0 <= j < n && i != j implies at[i] != at[j] by {
        assert(list[i].id@ != list[j].id@);
        assert(ids[at[i]] == list[i].id@);
        assert(ids[at[j]] == list[j].id@);
    }
    assert(at.no_duplicates());
    at.unique_seq_to_set();
    lemma_int_range(0, n);
    assert forall|k: int| #[trigger] at.to_set().contains(k) implies set_int_range(0, n).contains(
        k,
    ) by {
        let i = choose|i: int| 0 <= i < at.len() && at[i] == k;
        assert(list[i].sort_index is Some);
    }
    lemma_subset_equality(at.to_set(), set_int_range(0, n));
    let order = Seq::new(list.len(), |k: int| choose|i: int| 0 <= i < n && #[trigger] at[i] == k);
    assert forall|k: int| 0 <= k < n implies 0 <= #[trigger] order[k] < n && at[order[k]] == k by {
        assert(set_int_range(0, n).contains(k));
        assert(at.to_set().contains(k));
        let i = choose|i: int| 0 <= i < at.len() && at[i] == k;
        assert(0 <= i < n && at[i] == k);
    }
    assert forall|i: int| 0 <= i < n implies #[trigger] order.contains(i) by {
        assert(list[i].sort_index is Some);
        let k = at[i];
        assert(at[order[k]] == k);
        assert(order[k] == i);
    }
    assert forall|k: int, l: int| 0 <= k < l < n implies goes_before(
        list,
        #[trigger] order[k],
        #[trigger] order[l],
    ) by {
        assert(list[order[k]].sort_index is Some && list[order[l]].sort_index is Some);
        assert(at[order[k]] == k && at[order[l]] == l);
    }
    assert(is_order(list, order));
    every_list_has_its_order(list);
    order_is_unique(list, order, order_of(list));
    assert forall|k: int| 0 <= k < n implies sorted_ids(list)[k] == ids[k] by {
        assert(list[order[k]].sort_index is Some);
        assert(at[order[k]] == k);
    }
    assert(sorted_ids(list) =~= ids);
}

} // verus!
