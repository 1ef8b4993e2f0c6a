//! Listings: items gathered page by page, each kept once, and listings filed by index.

use vstd::hash_map::StringHashMap;
use vstd::prelude::*;
use vstd::std_specs::cmp::PartialEqSpec;

use crate::records::GitHubIndex;

verus! {

/// Whether an item equal to `item` stands in `items`.
pub open spec fn holds<T: PartialEq>(items: Seq<T>, item: T) -> bool {
    exists|i: int| 0 <= i < items.len() && (#[trigger] items[i]).eq_spec(&item)
}

/// Whether no item stands in `items` twice.
pub open spec fn distinct<T: PartialEq>(items: Seq<T>) -> bool {
    forall|i: int, j: int|
        #![trigger items[i], items[j]]
        0 <= i < j < items.len() ==> !items[i].eq_spec(&items[j])
}

/// `items` with `item` at the end, unless an equal one is there already.
pub open spec fn with_item<T: PartialEq>(items: Seq<T>, item: T) -> Seq<T> {
    if holds(items, item) {
        items
    } else {
        items.push(item)
    }
}

/// `items` with each item of `more` in turn, unless an equal one is there already.
pub open spec fn with_items<T: PartialEq>(items: Seq<T>, more: Seq<T>) -> Seq<T>
    decreases more.len(),
{
    if more.len() == 0 {
        items
    } else {
        with_item(with_items(items, more.drop_last()), more.last())
    }
}

/// Whether an item equal to `item` stands in `items`.
pub fn has_item<T: PartialEq>(items: &Vec<T>, item: &T) -> (r: bool)
    requires
        T::obeys_eq_spec(),
    ensures
        r == holds(items@, *item),
{
    let mut i: usize = 0;
    while i < items.len()
        invariant
            T::obeys_eq_spec(),
            i <= items.len(),
            forall|j: int| 0 <= j < i ==> !(#[trigger] items@[j]).eq_spec(item),
        decreases items.len() - i,
    {
        if items[i] == *item {
            assert(items@[i as int].eq_spec(item));
            return true;
        }
        i += 1;
    }
    false
}

/// Adds each of `more` that is not there yet. Of equal items the first stays.
pub fn add_items<T: PartialEq>(items: &mut Vec<T>, more: Vec<T>)
    requires
        T::obeys_eq_spec(),
    ensures
        final(items)@ == with_items(old(items)@, more@),
{
    let ghost before = items@;
    let ghost all = more@;
    assert(all.take(0) =~= Seq::empty());
    for item in it: more
        invariant
            T::obeys_eq_spec(),
            it.seq() == all,
            items@ == with_items(before, all.take(it.index() as int)),
    {
        proof {
            let n = it.index() as int;
            assert(all.take(n + 1).drop_last() =~= all.take(n));
            assert(all.take(n + 1).last() == item);
        }
        if !has_item(items, &item) {
            items.push(item);
        }
    }
    assert(all.take(all.len() as int) =~= all);
}

/// The items by index. Of items with one index the last stays.
pub open spec fn indexed<T: GitHubIndex>(items: Seq<T>) -> Map<Seq<char>, T>
    decreases items.len(),
{
    if items.len() == 0 {
        Map::empty()
    } else {
        indexed(items.drop_last()).insert(items.last().index_spec(), items.last())
    }
}

/// Files the items by index. Of items with one index the last stays.
pub fn index_items<T: GitHubIndex>(items: Vec<T>) -> (map: StringHashMap<T>)
    ensures
        map@ == indexed(items@),
{
    let ghost all = items@;
    let mut map: StringHashMap<T> = StringHashMap::new();
    assert(all.take(0) =~= Seq::empty());
    for item in it: items
        invariant
            it.seq() == all,
            map@ == indexed(all.take(it.index() as int)),
    {
        proof {
            let n = it.index() as int;
            assert(all.take(n + 1).drop_last() =~= all.take(n));
            assert(all.take(n + 1).last() == item);
        }
        let index = item.index();
        map.insert(index, item);
    }
    assert(all.take(all.len() as int) =~= all);
    map
}

/// Files what was fetched by index. The error of a listing that failed stays as it is.
pub fn index_fetched<T: GitHubIndex>(fetched: Result<Vec<T>, String>) -> (r: Result<
    StringHashMap<T>,
    String,
>)
    ensures
        match (fetched, r) {
            (Ok(items), Ok(map)) => map@ == indexed(items@),
            (Err(error), Err(message)) => message@ == error@,
            _ => false,
        },
{
    match fetched {
        Ok(items) => Ok(index_items(items)),
        Err(error) => Err(error),
    }
}

/// Adding items keeps what is there, in its place, and adds nothing but those items.
pub proof fn adding_keeps_what_is_there<T: PartialEq>(items: Seq<T>, more: Seq<T>)
    ensures
        items.len() <= with_items(items, more).len() <= items.len() + more.len(),
        with_items(items, more).take(items.len() as int) == items,
        forall|i: int|
            items.len() <= i < with_items(items, more).len() ==> more.contains(
                #[trigger] with_items(items, more)[i],
            ),
    decreases more.len(),
{
    if more.len() == 0 {
        assert(items.take(items.len() as int) =~= items);
    } else {
        let shorter = with_items(items, more.drop_last());
        let all = with_items(items, more);
        adding_keeps_what_is_there(items, more.drop_last());
        assert(all.take(items.len() as int) =~= shorter.take(items.len() as int));
        assert forall|i: int| items.len() <= i < all.len() implies more.contains(
            #[trigger] all[i],
        ) by {
            if i < shorter.len() {
                assert(all[i] == shorter[i]);
                let k = choose|k: int|
                    0 <= k < more.drop_last().len() && more.drop_last()[k] == shorter[i];
                assert(more[k] == all[i]);
            } else {
                assert(all[i] == more[more.len() - 1]);
            }
        }
    }
}

/// A listing in which nothing stands twice stays one.
pub proof fn adding_keeps_items_distinct<T: PartialEq>(items: Seq<T>, more: Seq<T>)
    requires
        distinct(items),
    ensures
        distinct(with_items(items, more)),
    decreases more.len(),
{
    if more.len() > 0 {
        adding_keeps_items_distinct(items, more.drop_last());
    }
}

/// Whatever is added is in the listing afterwards, and so is whatever was there.
pub proof fn added_items_are_held<T: PartialEq>(items: Seq<T>, more: Seq<T>, item: T)
    requires
        forall|x: T| #[trigger] x.eq_spec(&x),
        holds(items, item) || more.contains(item),
    ensures
        holds(with_items(items, more), item),
    decreases more.len(),
{
    if more.len() > 0 {
        let shorter = with_items(items, more.drop_last());
        let all = with_items(items, more);
        if holds(items, item) || more.drop_last().contains(item) {
            added_items_are_held(items, more.drop_last(), item);
            let i = choose|i: int| 0 <= i < shorter.len() && (#[trigger] shorter[i]).eq_spec(&item);
            assert(all[i] == shorter[i]);
        } else {
            let k = choose|k: int| 0 <= k < more.len() && more[k] == item;
            assert(k < more.len() - 1 ==> more.drop_last()[k] == item);
            assert(item == more.last());
            if !holds(shorter, item) {
                assert(all[shorter.len() as int].eq_spec(&item));
            }
        }
    }
}

/// Adding items that are all in the listing changes nothing.
pub proof fn adding_held_items_changes_nothing<T: PartialEq>(items: Seq<T>, more: Seq<T>)
    requires
        forall|i: int| 0 <= i < more.len() ==> holds(items, #[trigger] more[i]),
    ensures
        with_items(items, more) == items,
    decreases more.len(),
{
    if more.len() > 0 {
        assert forall|i: int| 0 <= i < more.drop_last().len() implies holds(
            items,
            #[trigger] more.drop_last()[i],
        ) by {
            assert(more.drop_last()[i] == more[i]);
        }
        adding_held_items_changes_nothing(items, more.drop_last());
        assert(holds(items, more[more.len() - 1]));
    }
}

/// Adding the same items again changes nothing.
pub proof fn adding_twice_is_adding_once<T: PartialEq>(items: Seq<T>, more: Seq<T>)
    requires
        forall|x: T| #[trigger] x.eq_spec(&x),
    ensures
        with_items(with_items(items, more), more) == with_items(items, more),
{
    let all = with_items(items, more);
    assert forall|i: int| 0 <= i < more.len() implies holds(all, #[trigger] more[i]) by {
        added_items_are_held(items, more, more[i]);
    }
    adding_held_items_changes_nothing(all, more);
}

/// Where a page ends makes no difference: adding two pages is adding their items in one.
pub proof fn adding_pages_is_adding_their_items<T: PartialEq>(
    items: Seq<T>,
    first: Seq<T>,
    second: Seq<T>,
)
    ensures
        with_items(with_items(items, first), second) == with_items(items, first + second),
    decreases second.len(),
{
    if second.len() == 0 {
        assert(first + second =~= first);
    } else {
        adding_pages_is_adding_their_items(items, first, second.drop_last());
        assert((first + second).drop_last() =~= first + second.drop_last());
    }
}

/// An index is in the map exactly where an item has it, and what is filed under it is
/// the last such item.
pub proof fn an_index_finds_its_last_item<T: GitHubIndex>(items: Seq<T>, index: Seq<char>)
    ensures
        indexed(items).contains_key(index) <==> exists|i: int|
            0 <= i < items.len() && (#[trigger] items[i]).index_spec() == index,
        indexed(items).contains_key(index) ==> exists|i: int|
            {
                &&& 0 <= i < items.len()
                &&& (#[trigger] items[i]).index_spec() == index
                &&& indexed(items)[index] == items[i]
                &&& forall|j: int|
                    i < j < items.len() ==> (#[trigger] items[j]).index_spec() != index
            },
    decreases items.len(),
{
    if items.len() > 0 {
        let shorter = items.drop_last();
        let last = items.len() - 1;
        an_index_finds_its_last_item(shorter, index);
        if items[last].index_spec() != index {
            if indexed(shorter).contains_key(index) {
                let i = choose|i: int|
                    {
                        &&& 0 <= i < shorter.len()
                        &&& (#[trigger] shorter[i]).index_spec() == index
                        &&& indexed(shorter)[index] == shorter[i]
                        &&& forall|j: int|
                            i < j < shorter.len() ==> (#[trigger] shorter[j]).index_spec() != index
                    };
                assert(items[i] == shorter[i]);
                assert forall|j: int| i < j < items.len() implies (
                #[trigger] items[j]).index_spec() != index by {
                    assert(j < last ==> items[j] == shorter[j]);
                }
            } else {
                assert forall|i: int| 0 <= i < items.len() implies (
                #[trigger] items[i]).index_spec() != index by {
                    assert(i < last ==> items[i] == shorter[i]);
                }
            }
        }
    }
}

} // verus!
