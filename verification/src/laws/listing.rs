//! Listings: which items they hold, in which order, and under which index.

use vstd::hash_map::StringHashMap;
use vstd::prelude::*;
use vstd::std_specs::cmp::PartialEqSpec;

use crate::records::GitHubIndex;

verus! {

/// An item is there exactly where one of the items equals it.
pub proof fn an_item_is_there_where_one_equals_it<T: PartialEq>(
    items: &Vec<T>,
    item: &T,
    found: bool,
)
    requires
        call_ensures(crate::listing::has_item::<T>, (items, item), found),
    ensures
        found <==> exists|i: int| 0 <= i < items@.len() && (#[trigger] items@[i]).eq_spec(item),
{
}

/// Adding items leaves what was there in its place. What comes behind it are items of those
/// added, in their order. None of these equals one before it, and every one that equals none
/// before it, neither of those there nor of those added, is among them.
pub proof fn adding_appends_what_is_new<T: PartialEq>(items: &mut Vec<T>, more: Vec<T>)
    requires
        call_ensures(crate::listing::add_items::<T>, (items, more), ()),
    ensures
        final(items)@.len() >= old(items)@.len(),
        forall|i: int|
            0 <= i < old(items)@.len() ==> #[trigger] final(items)@[i] == old(items)@[i],
        exists|places: Seq<int>| #[trigger]
            comes_from(final(items)@, old(items)@.len() as int, more@, places),
        forall|i: int, j: int|
            #![trigger final(items)@[i], final(items)@[j]]
            0 <= i < j < final(items)@.len() && old(items)@.len() <= j
                ==> !final(items)@[i].eq_spec(&final(items)@[j]),
        forall|k: int|
            0 <= k < more@.len() && (forall|i: int|
                0 <= i < old(items)@.len() ==> !(#[trigger] old(items)@[i]).eq_spec(&more@[k])) && (
            forall|j: int| 0 <= j < k ==> !(#[trigger] more@[j]).eq_spec(&more@[k]))
                ==> final(items)@.contains(#[trigger] more@[k]),
{
    let before = old(items)@;
    let after = final(items)@;
    assert(after == crate::listing::with_items(before, more@));
    crate::listing::adding_keeps_what_is_there(before, more@);
    assert forall|i: int| 0 <= i < before.len() implies #[trigger] after[i] == before[i] by {
        assert(after.take(before.len() as int)[i] == after[i]);
    }
    new_items_are_new(before, more@);
    let places = new_items_come_in_order(before, more@);
    assert(comes_from(after, before.len() as int, more@, places));
    assert forall|k: int|
        0 <= k < more@.len() && (forall|i: int|
            0 <= i < before.len() ==> !(#[trigger] before[i]).eq_spec(&more@[k])) && (forall|j: int|
            0 <= j < k ==> !(#[trigger] more@[j]).eq_spec(&more@[k])) implies after.contains(
        #[trigger] more@[k],
    ) by {
        what_is_new_is_added(before, more@, k);
    }
}

/// Whether the items from `start` on are those of `more` at these places, in order.
pub open spec fn comes_from<T>(items: Seq<T>, start: int, more: Seq<T>, places: Seq<int>) -> bool {
    &&& places.len() == items.len() - start
    &&& forall|i: int|
        0 <= i < places.len() ==> 0 <= #[trigger] places[i] < more.len() && items[start + i]
            == more[places[i]]
    &&& forall|i: int, j: int|
        #![trigger places[i], places[j]]
        0 <= i < j < places.len() ==> places[i] < places[j]
}

proof fn new_items_are_new<T: PartialEq>(items: Seq<T>, more: Seq<T>)
    ensures
        ({
            let all = crate::listing::with_items(items, more);
            &&& all.len() >= items.len()
            &&& forall|i: int, j: int|
                #![trigger all[i], all[j]]
                0 <= i < j < all.len() && items.len() <= j ==> !all[i].eq_spec(&all[j])
        }),
    decreases more.len(),
{
    if more.len() > 0 {
        let shorter = crate::listing::with_items(items, more.drop_last());
        let all = crate::listing::with_items(items, more);
        new_items_are_new(items, more.drop_last());
        assert forall|i: int, j: int|
            #![trigger all[i], all[j]]
            0 <= i < j < all.len() && items.len() <= j implies !all[i].eq_spec(&all[j]) by {
            assert(all[i] == shorter[i]);
            if j < shorter.len() {
                assert(all[j] == shorter[j]);
            } else {
                assert(all[j] == more.last());
                assert(!crate::listing::holds(shorter, more.last()));
            }
        }
    }
}

proof fn new_items_come_in_order<T: PartialEq>(items: Seq<T>, more: Seq<T>) -> (places: Seq<int>)
    ensures
        comes_from(
            crate::listing::with_items(items, more),
            items.len() as int,
            more,
            places,
        ),
    decreases more.len(),
{
    if more.len() == 0 {
        Seq::empty()
    } else {
        let shorter = crate::listing::with_items(items, more.drop_last());
        let all = crate::listing::with_items(items, more);
        let places = new_items_come_in_order(items, more.drop_last());
        assert forall|i: int| 0 <= i < places.len() implies 0 <= #[trigger] places[i] < more.len()
            - 1 && shorter[items.len() + i] == more[places[i]] by {
            assert(more.drop_last()[places[i]] == more[places[i]]);
        }
        if crate::listing::holds(shorter, more.last()) {
            places
        } else {
            places.push(more.len() - 1)
        }
    }
}

proof fn what_is_new_is_added<T: PartialEq>(items: Seq<T>, more: Seq<T>, k: int)
    requires
        0 <= k < more.len(),
        forall|i: int| 0 <= i < items.len() ==> !(#[trigger] items[i]).eq_spec(&more[k]),
        forall|j: int| 0 <= j < k ==> !(#[trigger] more[j]).eq_spec(&more[k]),
    ensures
        crate::listing::with_items(items, more).contains(more[k]),
    decreases more.len(),
{
    let shorter = crate::listing::with_items(items, more.drop_last());
    let all = crate::listing::with_items(items, more);
    if k < more.len() - 1 {
        assert forall|j: int| 0 <= j < k implies !(#[trigger] more.drop_last()[j]).eq_spec(
            &more.drop_last()[k],
        ) by {
            assert(more.drop_last()[j] == more[j]);
        }
        what_is_new_is_added(items, more.drop_last(), k);
        let i = choose|i: int| 0 <= i < shorter.len() && shorter[i] == more[k];
        assert(all[i] == more[k]);
    } else {
        let places = new_items_come_in_order(items, more.drop_last());
        crate::listing::adding_keeps_what_is_there(items, more.drop_last());
        assert forall|i: int| 0 <= i < shorter.len() implies !(#[trigger] shorter[i]).eq_spec(
            &more[k],
        ) by {
            if i < items.len() {
                assert(shorter.take(items.len() as int)[i] == items[i]);
            } else {
                let p = places[i - items.len()];
                assert(shorter[items.len() + (i - items.len())] == more.drop_last()[p]);
                assert(more.drop_last()[p] == more[p]);
            }
        }
        assert(!crate::listing::holds(shorter, more[k]));
        assert(all[shorter.len() as int] == more[k]);
    }
}

/// Whether a map has every item under its own index, the last where several have it, and
/// nothing else.
pub open spec fn files<T: GitHubIndex>(map: Map<Seq<char>, T>, items: Seq<T>) -> bool {
    forall|index: Seq<char>|
        if #[trigger] map.contains_key(index) {
            exists|i: int|
                {
                    &&& 0 <= i < items.len()
                    &&& (#[trigger] items[i]).index_spec() == index
                    &&& map[index] == items[i]
                    &&& forall|j: int|
                        i < j < items.len() ==> (#[trigger] items[j]).index_spec() != index
                }
        } else {
            forall|i: int| 0 <= i < items.len() ==> (#[trigger] items[i]).index_spec() != index
        }
}

/// The items by index have every item under its own index.
pub proof fn indexed_items_are_filed<T: GitHubIndex>(items: Seq<T>)
    ensures
        files(crate::listing::indexed(items), items),
{
    let map = crate::listing::indexed(items);
    assert forall|index: Seq<char>|
        if #[trigger] map.contains_key(index) {
            exists|i: int|
                {
                    &&& 0 <= i < items.len()
                    &&& (#[trigger] items[i]).index_spec() == index
                    &&& map[index] == items[i]
                    &&& forall|j: int|
                        i < j < items.len() ==> (#[trigger] items[j]).index_spec() != index
                }
        } else {
            forall|i: int| 0 <= i < items.len() ==> (#[trigger] items[i]).index_spec() != index
        } by {
        crate::listing::an_index_finds_its_last_item(items, index);
    }
}

/// Filing items puts each under its own index.
pub proof fn items_are_filed_under_their_index<T: GitHubIndex>(
    items: Vec<T>,
    map: StringHashMap<T>,
)
    requires
        call_ensures(crate::listing::index_items::<T>, (items,), map),
    ensures
        files(map@, items@),
{
    indexed_items_are_filed(items@);
}

/// What was fetched is filed item by item, and an error is handed on.
pub proof fn what_was_fetched_is_filed<T: GitHubIndex>(
    fetched: Result<Vec<T>, String>,
    r: Result<StringHashMap<T>, String>,
)
    requires
        call_ensures(crate::listing::index_fetched::<T>, (fetched,), r),
    ensures
        match (fetched, r) {
            (Ok(items), Ok(map)) => files(map@, items@),
            (Err(error), Err(handed_on)) => handed_on@ == error@,
            _ => false,
        },
{
    if let Ok(items) = fetched {
        indexed_items_are_filed(items@);
    }
}

} // verus!
