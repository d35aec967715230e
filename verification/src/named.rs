//! Ordered sequences of named items: the mathematical model shared by parameter
//! spaces, raw configurations and decoded parameters.

use vstd::prelude::*;

verus! {

/// The names of the items, in order.
pub open spec fn names<T>(items: Seq<(Seq<char>, T)>) -> Seq<Seq<char>> {
    Seq::new(items.len(), |i: int| items[i].0)
}

/// The index at which `item` first occurs in `items`, if it occurs.
pub open spec fn first_index<T>(items: Seq<T>, item: T) -> Option<int>
    decreases items.len(),
{
    if items.len() == 0 {
        None
    } else {
        match first_index(items.drop_last(), item) {
            Some(i) => Some(i),
            None => if items.last() == item {
                Some(items.len() - 1)
            } else {
                None
            },
        }
    }
}

/// The index of the first item called `name`, if there is one.
pub open spec fn index_of<T>(items: Seq<(Seq<char>, T)>, name: Seq<char>) -> Option<int> {
    first_index(names(items), name)
}

/// Whether some item is called `name`.
pub open spec fn has_name<T>(items: Seq<(Seq<char>, T)>, name: Seq<char>) -> bool {
    index_of(items, name) is Some
}

/// The first item called `name`, if there is one.
pub open spec fn lookup<T>(items: Seq<(Seq<char>, T)>, name: Seq<char>) -> Option<T> {
    match index_of(items, name) {
        Some(i) => Some(items[i].1),
        None => None,
    }
}

/// The items after `value` has been put under `name`: in the place of the first item
/// of that name if there is one, else at the end.
pub open spec fn put<T>(items: Seq<(Seq<char>, T)>, name: Seq<char>, value: T) -> Seq<
    (Seq<char>, T),
> {
    match index_of(items, name) {
        Some(i) => items.update(i, (name, value)),
        None => items.push((name, value)),
    }
}

/// Whether no two items share a name.
pub open spec fn distinct_names<T>(items: Seq<(Seq<char>, T)>) -> bool {
    forall|i: int, j: int|
        0 <= i < j < items.len() ==> (#[trigger] items[i]).0 != (#[trigger] items[j]).0
}

/// `first_index` finds the first occurrence, and finds none only where there is none.
pub proof fn lemma_first_index<T>(items: Seq<T>, item: T)
    ensures
        match first_index(items, item) {
            Some(i) => {
                &&& 0 <= i < items.len()
                &&& items[i] == item
                &&& forall|j: int| 0 <= j < i ==> #[trigger] items[j] != item
            },
            None => forall|j: int| 0 <= j < items.len() ==> #[trigger] items[j] != item,
        },
    decreases items.len(),
{
    if items.len() > 0 {
        let front = items.drop_last();
        lemma_first_index(front, item);
        assert forall|j: int| 0 <= j < front.len() implies #[trigger] items[j] == front[j] by {}
    }
}

/// An index at which the item stands and before which it does not is the one that
/// `first_index` finds.
pub proof fn lemma_first_index_is<T>(items: Seq<T>, item: T, i: int)
    requires
        0 <= i < items.len(),
        items[i] == item,
        forall|j: int| 0 <= j < i ==> #[trigger] items[j] != item,
    ensures
        first_index(items, item) == Some(i),
{
    lemma_first_index(items, item);
}

/// `index_of` finds the first item of the name, and finds none only where there is none.
pub proof fn lemma_index_of<T>(items: Seq<(Seq<char>, T)>, name: Seq<char>)
    ensures
        match index_of(items, name) {
            Some(i) => {
                &&& 0 <= i < items.len()
                &&& items[i].0 == name
                &&& forall|j: int| 0 <= j < i ==> (#[trigger] items[j]).0 != name
            },
            None => forall|j: int| 0 <= j < items.len() ==> (#[trigger] items[j]).0 != name,
        },
{
    let all = names(items);
    lemma_first_index(all, name);
    match first_index(all, name) {
        Some(i) => {
            assert forall|j: int| 0 <= j < i implies (#[trigger] items[j]).0 != name by {
                assert(all[j] == items[j].0);
            }
        },
        None => {
            assert forall|j: int| 0 <= j < items.len() implies (#[trigger] items[j]).0
                != name by {
                assert(all[j] == items[j].0);
            }
        },
    }
}

/// An index whose item has the name and before which no item has it is the one that
/// `index_of` finds.
pub proof fn lemma_index_of_first<T>(items: Seq<(Seq<char>, T)>, name: Seq<char>, i: int)
    requires
        0 <= i < items.len(),
        items[i].0 == name,
        forall|j: int| 0 <= j < i ==> (#[trigger] items[j]).0 != name,
    ensures
        index_of(items, name) == Some(i),
{
    lemma_index_of(items, name);
}

/// Where no item has the name, `index_of` finds none.
pub proof fn lemma_index_of_absent<T>(items: Seq<(Seq<char>, T)>, name: Seq<char>)
    requires
        forall|j: int| 0 <= j < items.len() ==> (#[trigger] items[j]).0 != name,
    ensures
        index_of(items, name) is None,
{
    lemma_index_of(items, name);
}

/// Putting an item keeps the names distinct, and afterwards the name leads to the item.
pub proof fn lemma_put<T>(items: Seq<(Seq<char>, T)>, name: Seq<char>, value: T)
    ensures
        distinct_names(items) ==> distinct_names(put(items, name, value)),
        lookup(put(items, name, value), name) == Some(value),
        forall|other: Seq<char>|
            other != name ==> #[trigger] lookup(put(items, name, value), other) == lookup(
                items,
                other,
            ),
{
    let after = put(items, name, value);
    lemma_index_of(items, name);
    lemma_index_of(after, name);
    let place = match index_of(items, name) {
        Some(i) => i,
        None => items.len() as int,
    };
    assert forall|j: int| 0 <= j < place implies (#[trigger] after[j]).0 != name by {}
    lemma_index_of_first(after, name, place);
    assert forall|other: Seq<char>| other != name implies #[trigger] lookup(after, other)
        == lookup(items, other) by {
        lemma_index_of(items, other);
        lemma_index_of(after, other);
        match index_of(items, other) {
            Some(k) => {
                assert forall|j: int| 0 <= j < k implies (#[trigger] after[j]).0 != other by {}
                lemma_index_of_first(after, other, k);
            },
            None => {
                assert forall|j: int| 0 <= j < after.len() implies (#[trigger] after[j]).0
                    != other by {}
                lemma_index_of_absent(after, other);
            },
        }
    }
    if distinct_names(items) {
        assert forall|i: int, j: int| 0 <= i < j < after.len() implies (#[trigger] after[i]).0 != (
        #[trigger] after[j]).0 by {}
    }
}

} // verus!
