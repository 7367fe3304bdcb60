//! What holds of the functions of the core library, whatever their arguments.

use crate::core_lib::{fails, gives, list, tuple};
use crate::number::{is_negative, is_zero, lemma_number_of_nat_zero};
use crate::sort::lemma_sorted_values;
use crate::value::{immutable, MapView, ValueView};
use crate::value_map::{has_key, keys_unique, lemma_insert_then_remove, lemma_insertion_order};
use vstd::prelude::*;

verus! {

/// A list is empty where its size is zero, and only there; and so is a map.
pub proof fn lemma_empty_is_size_zero(container: ValueView)
    requires
        container is List || container is Mapping,
        container is List ==> container->List_0.len() <= u64::MAX,
        container is Mapping ==> container->Mapping_0.entries.len() <= u64::MAX,
    ensures
        container is List ==> list::is_empty_effect(seq![container]).result == Ok::<
            ValueView,
            Seq<char>,
        >(
            ValueView::Bool(
                is_zero(list::size_effect(seq![container]).result->Ok_0->Number_0),
            ),
        ),
        container is Mapping ==> crate::core_lib::map::is_empty_effect(seq![container]).result == Ok::<
            ValueView,
            Seq<char>,
        >(ValueView::Bool(is_zero(crate::core_lib::map::size_effect(seq![container]).result->Ok_0->Number_0))),
{
    if container is List {
        lemma_number_of_nat_zero(container->List_0.len());
    } else {
        lemma_number_of_nat_zero(container->Mapping_0.entries.len());
    }
}

/// Sorting a list that was sorted leaves it as it is.
pub proof fn lemma_sort_twice(list: Seq<ValueView>)
    ensures
        list::sort_effect(list::sort_effect(seq![ValueView::List(list)]).args) == list::sort_effect(
            seq![ValueView::List(list)],
        ),
{
    lemma_sorted_values(list);
    let once = list::sort_effect(seq![ValueView::List(list)]);
    assert(once.args[0]->List_0 == crate::sort::sorted_values(list));
    assert(once.args.update(0, once.args[0]) =~= once.args);
}

/// A key that was inserted into a map and then removed from it is not in the
/// map, where no key stood twice in the map.
pub proof fn lemma_insert_remove(map: MapView, key: ValueView, value: ValueView)
    requires
        keys_unique(map.entries),
        immutable(key),
    ensures
        ({
            let inserted = crate::core_lib::map::insert_effect(seq![ValueView::Mapping(map), key, value]);
            let removed = crate::core_lib::map::remove_effect(seq![inserted.args[0], key]);
            crate::core_lib::map::contains_key_effect(seq![removed.args[0], key]).result == Ok::<
                ValueView,
                Seq<char>,
            >(ValueView::Bool(false))
        }),
{
    lemma_insert_then_remove(map.entries, key, value);
}

/// Inserting under a key that a map has leaves the keys in their order,
/// inserting under a new key puts it behind the others, and removing a key
/// leaves the others in their order.
pub proof fn lemma_map_keeps_order(map: MapView, key: ValueView, value: ValueView)
    requires
        immutable(key),
    ensures
        ({
            let inserted = crate::core_lib::map::insert_effect(
                seq![ValueView::Mapping(map), key, value],
            ).args[0]->Mapping_0.entries;
            let removed = crate::core_lib::map::remove_effect(
                seq![ValueView::Mapping(map), key],
            ).args[0]->Mapping_0.entries;
            let keys = crate::value_map::keys_of(map.entries);
            &&& crate::value_map::keys_of(inserted) == if has_key(map.entries, key) {
                keys
            } else {
                keys.push(key)
            }
            &&& crate::value_map::keys_of(removed) == if has_key(map.entries, key) {
                keys.remove(crate::value_map::first_index(map.entries, key))
            } else {
                keys
            }
        }),
{
    lemma_insertion_order(map.entries, key, value);
}

/// A negative index fails, with a message that says that negative indices
/// aren't allowed, whatever the list, the tuple or the map.
pub proof fn lemma_negative_index(container: ValueView, index: u64, value: ValueView)
    requires
        is_negative(index),
    ensures
        container is List ==> list::get_effect(seq![container, ValueView::Number(index)]) == fails(
            seq![container, ValueView::Number(index)],
            "list.get: Negative indices aren't allowed"@,
        ),
        container is List ==> list::remove_effect(seq![container, ValueView::Number(index)])
            == fails(
            seq![container, ValueView::Number(index)],
            "list.remove: Negative indices aren't allowed"@,
        ),
        container is List ==> list::insert_effect(
            seq![container, ValueView::Number(index), value],
        ) == fails(
            seq![container, ValueView::Number(index), value],
            "list.insert: Negative indices aren't allowed"@,
        ),
        container is Tuple ==> tuple::get_effect(seq![container, ValueView::Number(index)])
            == fails(
            seq![container, ValueView::Number(index)],
            "tuple.get: Negative indices aren't allowed"@,
        ),
        container is Mapping ==> crate::core_lib::map::get_index_effect(seq![container, ValueView::Number(index)])
            == fails(
            seq![container, ValueView::Number(index)],
            "map.get_index: Negative indices aren't allowed"@,
        ),
{
}

/// Removing from an empty list, at whatever index that is not negative, and
/// popping from it, give `Empty` and leave the list empty.
pub proof fn lemma_empty_list(index: u64)
    requires
        !is_negative(index),
    ensures
        list::remove_effect(seq![ValueView::List(seq![]), ValueView::Number(index)]) == gives(
            seq![ValueView::List(seq![]), ValueView::Number(index)],
            ValueView::Empty,
        ),
        list::pop_effect(seq![ValueView::List(seq![])]) == gives(
            seq![ValueView::List(seq![])],
            ValueView::Empty,
        ),
{
}

} // verus!
