//! The functions on maps.

use crate::core_lib::list::{covers_calls, first_error, lemma_first_error};
use crate::core_lib::{
    done, effect_of, fails, first_map, gives, map_at, number_at, outcome_view, outcomes_view,
    str_at, Effect,
};
use crate::number::{
    index_of, is_negative, number_from_usize, number_is_negative, number_of_nat, number_to_index,
};
use crate::runtime::{external_error, external_error_text, Error, RuntimeResult};
use crate::sort::{sort_entries, sorted_entries, take_reversed};
use crate::value::{
    callable, copy_entries, entries_view, immutable, name_of_type, type_as_string, values_view, IteratorView, MapEntry, MapView, MetaKey, Value, ValueIterator, ValueMap, ValueView,
};
use crate::value_map::{
    has_key, keys_of, meta_value, value_of, values_of, with_entry, without_key,
};
use crate::value::ExternalFunction;
use crate::value_map::{named, with_functions};
use vstd::prelude::*;
use vstd::string::*;

verus! {

/// A message that names the type of the value that was found.
pub open spec fn found_one(message: Seq<char>, found: ValueView) -> Seq<char> {
    message + ", found '"@ + name_of_type(found) + "'"@
}

/// A message that names the types of the two values that were found.
pub open spec fn found_two(message: Seq<char>, first: ValueView, second: ValueView) -> Seq<char> {
    message + ", found '"@ + name_of_type(first) + "' and '"@ + name_of_type(second) + "'"@
}

fn found_one_error(message: &str, found: &Value) -> (result: RuntimeResult)
    ensures
        done(Seq::empty(), result, fails(Seq::empty(), found_one(message@, found@))),
{
    let mut text = String::from_str(message);
    text.append(", found '");
    let found_type = type_as_string(found);
    text.append(found_type.as_str());
    text.append("'");
    assert(text@ =~= found_one(message@, found@));
    assert(values_view(Seq::empty()) =~= Seq::empty());
    external_error(text)
}

fn found_two_error(message: &str, first: &Value, second: &Value) -> (result: RuntimeResult)
    ensures
        done(Seq::empty(), result, fails(Seq::empty(), found_two(message@, first@, second@))),
{
    let mut text = String::from_str(message);
    text.append(", found '");
    let first_type = type_as_string(first);
    text.append(first_type.as_str());
    text.append("' and '");
    let second_type = type_as_string(second);
    text.append(second_type.as_str());
    text.append("'");
    assert(text@ =~= found_two(message@, first@, second@));
    assert(values_view(Seq::empty()) =~= Seq::empty());
    external_error(text)
}

/// The failure of a function that takes a map and a key: with the types of
/// the first two arguments where there are two, else without.
pub open spec fn key_failure(args: Seq<ValueView>, message: Seq<char>) -> Effect {
    if args.len() >= 2 {
        fails(args, found_two(message, args[0], args[1]))
    } else {
        fails(args, message)
    }
}

fn key_error(args: &Vec<Value>, message: &str) -> (result: RuntimeResult)
    ensures
        done(args@, result, key_failure(values_view(args@), message@)),
{
    if args.len() >= 2 {
        found_two_error(message, &args[0], &args[1])
    } else {
        external_error_text(message)
    }
}

/// The failure of a function that takes a map: with the type of the first
/// argument where there is one, else with the message `without`.
pub open spec fn map_failure(args: Seq<ValueView>, message: Seq<char>, without: Seq<char>) -> Effect {
    if args.len() >= 1 {
        fails(args, found_one(message, args[0]))
    } else {
        fails(args, without)
    }
}

fn map_error(args: &Vec<Value>, message: &str, without: &str) -> (result: RuntimeResult)
    ensures
        done(args@, result, map_failure(values_view(args@), message@, without@)),
{
    if args.len() >= 1 {
        found_one_error(message, &args[0])
    } else {
        external_error_text(without)
    }
}

/// A map with other entries and the same meta map.
pub open spec fn with_entries(map: MapView, entries: Seq<(ValueView, ValueView)>) -> ValueView {
    ValueView::Mapping(MapView { entries, meta: map.meta })
}

/// `map.clear`: takes all entries out of a map.
pub open spec fn clear_effect(args: Seq<ValueView>) -> Effect {
    if args.len() == 1 && args[0] is Mapping {
        Effect {
            args: args.update(0, with_entries(args[0]->Mapping_0, seq![])),
            result: Ok(ValueView::Empty),
        }
    } else {
        fails(args, "map.clear: Expected map as argument"@)
    }
}

pub fn clear(args: &mut Vec<Value>) -> (result: RuntimeResult)
    ensures
        done(final(args)@, result, clear_effect(values_view(old(args)@))),
{
    if args.len() == 1 && map_at(args, 0).is_some() {
        let map = first_map(args);
        map.clear();
        assert(map@.entries =~= seq![]);
        Ok(Value::Empty)
    } else {
        external_error_text("map.clear: Expected map as argument")
    }
}

/// `map.contains_key`: whether a map has a key.
pub open spec fn contains_key_effect(args: Seq<ValueView>) -> Effect {
    if args.len() == 2 && args[0] is Mapping && immutable(args[1]) {
        gives(args, ValueView::Bool(has_key(args[0]->Mapping_0.entries, args[1])))
    } else {
        key_failure(args, "map.contains_key: Expected map and key as arguments"@)
    }
}

pub fn contains_key(args: &mut Vec<Value>) -> (result: RuntimeResult)
    ensures
        done(final(args)@, result, contains_key_effect(values_view(old(args)@))),
{
    if args.len() == 2 {
        if let Some(map) = map_at(args, 0) {
            if args[1].is_immutable() {
                return Ok(Value::Bool(map.contains_key(&args[1])));
            }
        }
    }
    key_error(args, "map.contains_key: Expected map and key as arguments")
}

/// `map.copy`: a map with the entries of a map, and with no meta map.
pub open spec fn copy_effect(args: Seq<ValueView>) -> Effect {
    if args.len() == 1 && args[0] is Mapping {
        gives(
            args,
            ValueView::Mapping(MapView { entries: args[0]->Mapping_0.entries, meta: seq![] }),
        )
    } else {
        fails(args, "map.copy: Expected map as argument"@)
    }
}

pub fn copy(args: &mut Vec<Value>) -> (result: RuntimeResult)
    ensures
        done(final(args)@, result, copy_effect(values_view(old(args)@))),
{
    if args.len() == 1 {
        if let Some(map) = map_at(args, 0) {
            let copy = ValueMap { entries: copy_entries(&map.entries), meta: Vec::new() };
            assert(copy@.meta =~= seq![]);
            return Ok(Value::Mapping(copy));
        }
    }
    external_error_text("map.copy: Expected map as argument")
}

/// `map.deep_copy`: a copy of a map and of all that it holds.
pub open spec fn deep_copy_effect(args: Seq<ValueView>) -> Effect {
    if args.len() == 1 && args[0] is Mapping {
        gives(args, args[0])
    } else {
        fails(args, "map.deep_copy: Expected map as argument"@)
    }
}

pub fn deep_copy(args: &mut Vec<Value>) -> (result: RuntimeResult)
    ensures
        done(final(args)@, result, deep_copy_effect(values_view(old(args)@))),
{
    if args.len() == 1 && map_at(args, 0).is_some() {
        Ok(args[0].clone())
    } else {
        external_error_text("map.deep_copy: Expected map as argument")
    }
}

/// `map.get`: the value under a key of a map, or `Empty` where the map lacks the key.
pub open spec fn get_effect(args: Seq<ValueView>) -> Effect {
    if args.len() == 2 && args[0] is Mapping {
        gives(
            args,
            match value_of(args[0]->Mapping_0.entries, args[1]) {
                Some(value) => value,
                None => ValueView::Empty,
            },
        )
    } else {
        key_failure(args, "map.get: Expected map and key as arguments"@)
    }
}

pub fn get(args: &mut Vec<Value>) -> (result: RuntimeResult)
    ensures
        done(final(args)@, result, get_effect(values_view(old(args)@))),
{
    if args.len() == 2 {
        if let Some(map) = map_at(args, 0) {
            return match map.get(&args[1]) {
                Some(value) => Ok(value.clone()),
                None => Ok(Value::Empty),
            };
        }
    }
    key_error(args, "map.get: Expected map and key as arguments")
}

/// `map.get_index`: the key and the value at a position of a map as a tuple,
/// or `Empty` where the map ends before it.
pub open spec fn get_index_effect(args: Seq<ValueView>) -> Effect {
    if args.len() == 2 && args[0] is Mapping && args[1] is Number {
        let entries = args[0]->Mapping_0.entries;
        let n = args[1]->Number_0;
        if is_negative(n) {
            fails(args, "map.get_index: Negative indices aren't allowed"@)
        } else if index_of(n) < entries.len() {
            gives(
                args,
                ValueView::Tuple(seq![entries[index_of(n) as int].0, entries[index_of(n) as int].1]),
            )
        } else {
            gives(args, ValueView::Empty)
        }
    } else {
        fails(args, "map.get_index: Expected map and index as arguments"@)
    }
}

pub fn get_index(args: &mut Vec<Value>) -> (result: RuntimeResult)
    ensures
        done(final(args)@, result, get_index_effect(values_view(old(args)@))),
{
    if args.len() == 2 {
        if let (Some(map), Some(n)) = (map_at(args, 0), number_at(args, 1)) {
            if number_is_negative(n) {
                return external_error_text("map.get_index: Negative indices aren't allowed");
            }
            return match map.get_index(number_to_index(n)) {
                Some(entry) => {
                    let mut pair: Vec<Value> = Vec::new();
                    pair.push(entry.key.clone());
                    pair.push(entry.value.clone());
                    assert(values_view(pair@) =~= seq![entry.key@, entry.value@]);
                    Ok(Value::Tuple(pair))
                },
                None => Ok(Value::Empty),
            };
        }
    }
    external_error_text("map.get_index: Expected map and index as arguments")
}

/// The value that a function that puts a value under a key returns: the
/// value that was under the key, or `Empty`.
pub open spec fn previous(entries: Seq<(ValueView, ValueView)>, key: ValueView) -> ValueView {
    match value_of(entries, key) {
        Some(value) => value,
        None => ValueView::Empty,
    }
}

/// `map.insert`: puts a value under a key of a map, `Empty` where no value
/// is given, and returns the value that was under the key.
pub open spec fn insert_effect(args: Seq<ValueView>) -> Effect {
    if (args.len() == 2 || args.len() == 3) && args[0] is Mapping && immutable(args[1]) {
        let map = args[0]->Mapping_0;
        let value = if args.len() == 3 {
            args[2]
        } else {
            ValueView::Empty
        };
        Effect {
            args: args.update(0, with_entries(map, with_entry(map.entries, args[1], value))),
            result: Ok(previous(map.entries, args[1])),
        }
    } else {
        key_failure(args, "map.insert: Expected map and key as arguments"@)
    }
}

pub fn insert(args: &mut Vec<Value>) -> (result: RuntimeResult)
    ensures
        done(final(args)@, result, insert_effect(values_view(old(args)@))),
{
    if (args.len() == 2 || args.len() == 3) && map_at(args, 0).is_some() && args[1].is_immutable() {
        let key = args[1].clone();
        let value = if args.len() == 3 {
            args[2].clone()
        } else {
            Value::Empty
        };
        let map = first_map(args);
        match map.insert(key, value) {
            Some(value) => Ok(value),
            None => Ok(Value::Empty),
        }
    } else {
        key_error(args, "map.insert: Expected map and key as arguments")
    }
}

/// `map.is_empty`: whether a map has no entries.
pub open spec fn is_empty_effect(args: Seq<ValueView>) -> Effect {
    if args.len() == 1 && args[0] is Mapping {
        gives(args, ValueView::Bool(args[0]->Mapping_0.entries.len() == 0))
    } else {
        map_failure(
            args,
            "map.is_empty: Expected map as argument"@,
            "map.contains_key: Expected map and key as arguments"@,
        )
    }
}

pub fn is_empty(args: &mut Vec<Value>) -> (result: RuntimeResult)
    ensures
        done(final(args)@, result, is_empty_effect(values_view(old(args)@))),
{
    if args.len() == 1 {
        if let Some(map) = map_at(args, 0) {
            return Ok(Value::Bool(map.is_empty()));
        }
    }
    map_error(
        args,
        "map.is_empty: Expected map as argument",
        "map.contains_key: Expected map and key as arguments",
    )
}

/// `map.iter`: an iterator over the entries that a map has now, each as a
/// pair of key and value.
pub open spec fn iter_effect(args: Seq<ValueView>) -> Effect {
    if args.len() == 1 && args[0] is Mapping {
        gives(
            args,
            ValueView::Iterator(
                IteratorView::Pairs { entries: args[0]->Mapping_0.entries, index: 0 },
            ),
        )
    } else {
        map_failure(
            args,
            "map.iter: Expected map as argument"@,
            "map.iter: Expected map as argument"@,
        )
    }
}

pub fn iter(args: &mut Vec<Value>) -> (result: RuntimeResult)
    ensures
        done(final(args)@, result, iter_effect(values_view(old(args)@))),
{
    if args.len() == 1 {
        if let Some(map) = map_at(args, 0) {
            return Ok(
                Value::Iterator(
                    ValueIterator::Pairs { entries: copy_entries(&map.entries), index: 0 },
                ),
            );
        }
    }
    map_error(args, "map.iter: Expected map as argument", "map.iter: Expected map as argument")
}

/// `map.keys`: an iterator over the keys that a map has now, in their order.
pub open spec fn keys_effect(args: Seq<ValueView>) -> Effect {
    if args.len() == 1 && args[0] is Mapping {
        gives(
            args,
            ValueView::Iterator(
                IteratorView::Values { items: keys_of(args[0]->Mapping_0.entries), index: 0 },
            ),
        )
    } else {
        map_failure(
            args,
            "map.keys: Expected map as argument"@,
            "map.keys: Expected map as argument"@,
        )
    }
}

/// Copies of the keys, or of the values, of the entries of a map.
fn copy_column(entries: &Vec<MapEntry>, keys: bool) -> (column: Vec<Value>)
    ensures
        values_view(column@) == if keys {
            keys_of(entries_view(entries@))
        } else {
            values_of(entries_view(entries@))
        },
{
    let mut column: Vec<Value> = Vec::new();
    let mut i: usize = 0;
    while i < entries.len()
        invariant
            i <= entries@.len(),
            column@.len() == i,
            forall|j: int|
                0 <= j < i ==> column@[j]@ == if keys {
                    entries@[j].key@
                } else {
                    entries@[j].value@
                },
        decreases entries@.len() - i,
    {
        if keys {
            column.push(entries[i].key.clone());
        } else {
            column.push(entries[i].value.clone());
        }
        i += 1;
    }
    if keys {
        assert(values_view(column@) =~= keys_of(entries_view(entries@)));
    } else {
        assert(values_view(column@) =~= values_of(entries_view(entries@)));
    }
    column
}

pub fn keys(args: &mut Vec<Value>) -> (result: RuntimeResult)
    ensures
        done(final(args)@, result, keys_effect(values_view(old(args)@))),
{
    if args.len() == 1 {
        if let Some(map) = map_at(args, 0) {
            return Ok(
                Value::Iterator(
                    ValueIterator::Values { items: copy_column(&map.entries, true), index: 0 },
                ),
            );
        }
    }
    map_error(args, "map.keys: Expected map as argument", "map.keys: Expected map as argument")
}

/// `map.values`: an iterator over the values that a map has now, in the
/// order of their keys.
pub open spec fn values_effect(args: Seq<ValueView>) -> Effect {
    if args.len() == 1 && args[0] is Mapping {
        gives(
            args,
            ValueView::Iterator(
                IteratorView::Values { items: values_of(args[0]->Mapping_0.entries), index: 0 },
            ),
        )
    } else {
        map_failure(
            args,
            "map.values: Expected map as argument"@,
            "map.values: Expected map as argument"@,
        )
    }
}

pub fn values(args: &mut Vec<Value>) -> (result: RuntimeResult)
    ensures
        done(final(args)@, result, values_effect(values_view(old(args)@))),
{
    if args.len() == 1 {
        if let Some(map) = map_at(args, 0) {
            return Ok(
                Value::Iterator(
                    ValueIterator::Values { items: copy_column(&map.entries, false), index: 0 },
                ),
            );
        }
    }
    map_error(
        args,
        "map.values: Expected map as argument",
        "map.values: Expected map as argument",
    )
}

/// `map.remove`: takes a key out of a map and returns the value that was
/// under it, or `Empty`. The other entries keep their order.
pub open spec fn remove_effect(args: Seq<ValueView>) -> Effect {
    if args.len() == 2 && args[0] is Mapping && immutable(args[1]) {
        let map = args[0]->Mapping_0;
        Effect {
            args: args.update(0, with_entries(map, without_key(map.entries, args[1]))),
            result: Ok(previous(map.entries, args[1])),
        }
    } else {
        key_failure(args, "map.remove: Expected map and key as arguments"@)
    }
}

pub fn remove(args: &mut Vec<Value>) -> (result: RuntimeResult)
    ensures
        done(final(args)@, result, remove_effect(values_view(old(args)@))),
{
    if args.len() == 2 && map_at(args, 0).is_some() && args[1].is_immutable() {
        let key = args[1].clone();
        let map = first_map(args);
        match map.remove(&key) {
            Some(value) => Ok(value),
            None => Ok(Value::Empty),
        }
    } else {
        key_error(args, "map.remove: Expected map and key as arguments")
    }
}

/// `map.size`: the number of entries of a map.
pub open spec fn size_effect(args: Seq<ValueView>) -> Effect {
    if args.len() == 1 && args[0] is Mapping {
        gives(args, ValueView::Number(number_of_nat(args[0]->Mapping_0.entries.len())))
    } else {
        map_failure(
            args,
            "map.size: Expected map as argument"@,
            "map.contains_key: Expected map and key as arguments"@,
        )
    }
}

pub fn size(args: &mut Vec<Value>) -> (result: RuntimeResult)
    ensures
        done(final(args)@, result, size_effect(values_view(old(args)@))),
{
    if args.len() == 1 {
        if let Some(map) = map_at(args, 0) {
            return Ok(Value::Number(number_from_usize(map.len())));
        }
    }
    map_error(
        args,
        "map.size: Expected map as argument",
        "map.contains_key: Expected map and key as arguments",
    )
}

/// What `map.help` says of itself.
pub open spec fn help_on_help() -> Seq<char> {
    "Call this function with the name of the item that you would like help with.\n\nFor example:\n  import number\n  number.help \"abs\"\n"@
}

/// `map.help`: the help text of a map, or with a name that of the item of
/// that name.
pub open spec fn help_effect(args: Seq<ValueView>) -> Effect {
    if args.len() == 1 && args[0] is Mapping {
        let meta = args[0]->Mapping_0.meta;
        let own = meta_value(meta, MetaKey::SelfHelp);
        if meta_value(meta, MetaKey::Help) is Some {
            if own is Some && own->Some_0 is Str {
                gives(
                    args,
                    ValueView::Str(own->Some_0->Str_0 + "\n\n========\n\n"@ + help_on_help()),
                )
            } else {
                gives(args, ValueView::Str(help_on_help()))
            }
        } else if own is Some {
            if own->Some_0 is Str {
                gives(args, own->Some_0)
            } else {
                fails(
                    args,
                    "map.help: Expected string for self help, found '"@ + name_of_type(
                        own->Some_0,
                    ) + "'"@,
                )
            }
        } else {
            gives(args, ValueView::Str("map.help: No help found"@))
        }
    } else if args.len() == 2 && args[0] is Mapping && args[1] is Str {
        let texts = meta_value(args[0]->Mapping_0.meta, MetaKey::Help);
        let name = args[1]->Str_0;
        if texts is Some && texts->Some_0 is Mapping && has_key(
            texts->Some_0->Mapping_0.entries,
            args[1],
        ) {
            gives(args, value_of(texts->Some_0->Mapping_0.entries, args[1])->Some_0)
        } else {
            gives(args, ValueView::Str("Help not found for '"@ + name + "'"@))
        }
    } else {
        fails(args, "map.help: Expected map and string as arguments"@)
    }
}

pub fn help(args: &mut Vec<Value>) -> (result: RuntimeResult)
    ensures
        done(final(args)@, result, help_effect(values_view(old(args)@))),
{
    if args.len() == 1 {
        if let Some(map) = map_at(args, 0) {
            let own = map.meta_get(MetaKey::SelfHelp);
            if map.meta_contains_key(MetaKey::Help) {
                let intro =
                    "Call this function with the name of the item that you would like help with.\n\nFor example:\n  import number\n  number.help \"abs\"\n";
                return match own {
                    Some(Value::Str(self_help)) => {
                        let mut text = self_help.clone();
                        text.append("\n\n========\n\n");
                        text.append(intro);
                        Ok(Value::Str(text))
                    },
                    _ => Ok(Value::Str(String::from_str(intro))),
                };
            }
            return match own {
                Some(Value::Str(self_help)) => Ok(Value::Str(self_help.clone())),
                Some(unexpected) => {
                    let mut text = String::from_str(
                        "map.help: Expected string for self help, found '",
                    );
                    let found = type_as_string(unexpected);
                    text.append(found.as_str());
                    text.append("'");
                    external_error(text)
                },
                None => Ok(Value::Str(String::from_str("map.help: No help found"))),
            };
        }
    }
    if args.len() == 2 {
        if let (Some(map), Some(name)) = (map_at(args, 0), str_at(args, 1)) {
            if let Some(Value::Mapping(texts)) = map.meta_get(MetaKey::Help) {
                if let Some(text) = texts.get(&args[1]) {
                    return Ok(text.clone());
                }
            }
            let mut text = String::from_str("Help not found for '");
            text.append(name.as_str());
            text.append("'");
            return Ok(Value::Str(text));
        }
    }
    external_error_text("map.help: Expected map and string as arguments")
}

/// Whether the arguments are those of `map.update`: a map, a key, a value to
/// start from unless it is `Empty`, and a function.
pub open spec fn update_fits(args: Seq<ValueView>) -> bool {
    (args.len() == 3 || args.len() == 4) && args[0] is Mapping && immutable(args[1]) && callable(
        args[args.len() - 1],
    )
}

/// The value that `map.update` starts from where the map lacks the key.
pub open spec fn update_default(args: Seq<ValueView>) -> ValueView {
    if args.len() == 4 {
        args[2]
    } else {
        ValueView::Empty
    }
}

/// The value that the function of `map.update` is to be called with: the
/// value under the key, or the value to start from where the map lacks the key.
pub open spec fn update_argument_of(args: Seq<ValueView>) -> Option<ValueView> {
    if update_fits(args) {
        match value_of(args[0]->Mapping_0.entries, args[1]) {
            Some(value) => Some(value),
            None => Some(update_default(args)),
        }
    } else {
        None
    }
}

/// `map.update`, where `outcome` is what the function gave for the value
/// that `update_argument_of` names. The map gets the key, with the value to
/// start from, where it lacks it; then what the function gave is put under
/// the key and returned. Where the function failed, so does `map.update`.
pub open spec fn update_effect(args: Seq<ValueView>, outcome: Result<ValueView, Seq<char>>) -> Effect {
    if update_fits(args) {
        let map = args[0]->Mapping_0;
        let prepared = if has_key(map.entries, args[1]) {
            map.entries
        } else {
            map.entries.push((args[1], update_default(args)))
        };
        match outcome {
            Ok(value) => Effect {
                args: args.update(0, with_entries(map, with_entry(prepared, args[1], value))),
                result: Ok(value),
            },
            Err(message) => Effect {
                args: args.update(0, with_entries(map, prepared)),
                result: Err("map.update"@ + ": "@ + message),
            },
        }
    } else {
        fails(args, "map.update: Expected map, key, and function as arguments"@)
    }
}

fn update_fits_exec(args: &Vec<Value>) -> (fits: bool)
    ensures
        fits == update_fits(values_view(args@)),
{
    (args.len() == 3 || args.len() == 4) && map_at(args, 0).is_some() && args[1].is_immutable()
        && args[args.len() - 1].is_callable()
}

/// The value that the function of `map.update` is to be called with.
pub fn update_argument(args: &Vec<Value>) -> (argument: Option<Value>)
    ensures
        argument is Some <==> update_argument_of(values_view(args@)) is Some,
        argument is Some ==> Some(argument->Some_0@) == update_argument_of(values_view(args@)),
{
    if update_fits_exec(args) {
        match map_at(args, 0) {
            Some(map) => match map.get(&args[1]) {
                Some(value) => Some(value.clone()),
                None => if args.len() == 4 {
                    Some(args[2].clone())
                } else {
                    Some(Value::Empty)
                },
            },
            None => None,
        }
    } else {
        None
    }
}

pub fn update(args: &mut Vec<Value>, outcome: RuntimeResult) -> (result: RuntimeResult)
    ensures
        effect_of(final(args)@, result) == update_effect(
            values_view(old(args)@),
            outcome_view(outcome),
        ),
{
    if update_fits_exec(args) {
        let key = args[1].clone();
        let default = if args.len() == 4 {
            args[2].clone()
        } else {
            Value::Empty
        };
        let map = first_map(args);
        if !map.contains_key(&key) {
            map.insert(key.clone(), default);
        }
        match outcome {
            Ok(value) => {
                map.insert(key, value.clone());
                Ok(value)
            },
            Err(error) => Err(error.with_prefix("map.update")),
        }
    } else {
        external_error_text("map.update: Expected map, key, and function as arguments")
    }
}

/// The entries of a map, each under the key that it is to be sorted by, as
/// the pair of its key and its value.
pub open spec fn paired(
    entries: Seq<(ValueView, ValueView)>,
    sort_keys: Seq<ValueView>,
) -> Seq<(ValueView, ValueView)> {
    Seq::new(
        entries.len(),
        |i: int| (sort_keys[i], ValueView::Tuple(seq![entries[i].0, entries[i].1])),
    )
}

/// The entries that were paired with the keys to sort them by.
pub open spec fn unpaired(pairs: Seq<(ValueView, ValueView)>) -> Seq<(ValueView, ValueView)> {
    Seq::new(
        pairs.len(),
        |i: int|
            if pairs[i].1 is Tuple && pairs[i].1->Tuple_0.len() == 2 {
                (pairs[i].1->Tuple_0[0], pairs[i].1->Tuple_0[1])
            } else {
                (ValueView::Empty, ValueView::Empty)
            },
    )
}

/// The entries sorted by the keys `sort_keys`, one for each entry; entries
/// whose keys tie stay in their order.
pub open spec fn sorted_by(
    entries: Seq<(ValueView, ValueView)>,
    sort_keys: Seq<ValueView>,
) -> Seq<(ValueView, ValueView)> {
    unpaired(sorted_entries(paired(entries, sort_keys)))
}

/// `map.sort`: sorts the entries of a map by their keys. With a function,
/// it sorts them by what the function gave for each entry in order, which
/// `outcomes` holds up to the first call that failed; where a call failed, so
/// does `map.sort`, and the map stays as it is.
pub open spec fn sort_effect(
    args: Seq<ValueView>,
    outcomes: Seq<Result<ValueView, Seq<char>>>,
) -> Effect {
    if args.len() == 1 && args[0] is Mapping {
        let map = args[0]->Mapping_0;
        Effect {
            args: args.update(0, with_entries(map, sorted_entries(map.entries))),
            result: Ok(ValueView::Empty),
        }
    } else if args.len() == 2 && args[0] is Mapping && callable(args[1]) {
        let map = args[0]->Mapping_0;
        let stop = first_error(outcomes, map.entries.len());
        if stop < map.entries.len() {
            fails(args, "map.sort"@ + ": "@ + outcomes[stop as int]->Err_0)
        } else {
            Effect {
                args: args.update(
                    0,
                    with_entries(
                        map,
                        sorted_by(
                            map.entries,
                            Seq::new(map.entries.len(), |i: int| outcomes[i]->Ok_0),
                        ),
                    ),
                ),
                result: Ok(ValueView::Empty),
            }
        }
    } else {
        fails(args, "map.sort: Expected map as argument"@)
    }
}

pub fn sort(args: &mut Vec<Value>, outcomes: Vec<RuntimeResult>) -> (result: RuntimeResult)
    requires
        old(args)@.len() == 2 && values_view(old(args)@)[0] is Mapping && callable(
            values_view(old(args)@)[1],
        ) ==> covers_calls(
            outcomes_view(outcomes@),
            values_view(old(args)@)[0]->Mapping_0.entries.len(),
        ),
    ensures
        effect_of(final(args)@, result) == sort_effect(
            values_view(old(args)@),
            outcomes_view(outcomes@),
        ),
{
    if args.len() == 1 && map_at(args, 0).is_some() {
        let map = first_map(args);
        map.sort_keys();
        return Ok(Value::Empty);
    }
    if args.len() == 2 && map_at(args, 0).is_some() && args[1].is_callable() {
        let ghost given = outcomes_view(outcomes@);
        let map = first_map(args);
        let n = map.entries.len();
        let ghost views = map@.entries;
        let ghost meta_before = map.meta;
        let mut rest = outcomes;
        let mut stack = take_reversed(&mut rest);
        let mut sort_keys: Vec<Value> = Vec::new();
        let mut failure: Option<Error> = None;
        while sort_keys.len() < n && failure.is_none()
            invariant
                sort_keys@.len() <= n,
                given == outcomes_view(outcomes@),
                covers_calls(given, n as nat),
                stack@.len() + sort_keys@.len() + (if failure is Some { 1int } else { 0 })
                    == outcomes@.len(),
                failure is Some ==> sort_keys@.len() < n && given[sort_keys@.len() as int] == Err::<
                    ValueView,
                    Seq<char>,
                >(failure->Some_0.message()),
                forall|k: int|
                    0 <= k < stack@.len() ==> stack@[k] == outcomes@[outcomes@.len() - 1 - k],
                forall|k: int|
                    0 <= k < sort_keys@.len() ==> given[k] == Ok::<ValueView, Seq<char>>(
                        #[trigger] sort_keys@[k]@,
                    ),
            decreases n - sort_keys@.len() + (if failure is None { 1int } else { 0 }),
        {
            let ghost i = sort_keys@.len() as int;
            proof {
                if given.len() < n {
                    let k = choose|k: int| 0 <= k < given.len() && (#[trigger] given[k]) is Err;
                    if k < i {
                        assert(given[k] == Ok::<ValueView, Seq<char>>(sort_keys@[k]@));
                    }
                }
                assert(i < outcomes@.len());
            }
            let outcome = stack.pop().unwrap();
            assert(outcome == outcomes@[i]);
            assert(given[i] == outcome_view(outcome));
            match outcome {
                Ok(value) => {
                    sort_keys.push(value);
                },
                Err(error) => {
                    failure = Some(error);
                },
            }
        }
        proof {
            lemma_first_error(given, n as nat);
            let f = first_error(given, n as nat);
            if f < sort_keys@.len() {
                assert(given[f as int] == Ok::<ValueView, Seq<char>>(sort_keys@[f as int]@));
            }
            assert(f == sort_keys@.len());
        }
        if let Some(error) = failure {
            assert(values_view(old(args)@).update(0, ValueView::Mapping(map@)) =~= values_view(
                old(args)@,
            ));
            return Err(error.with_prefix("map.sort"));
        }
        let ghost keys_given = Seq::new(n as nat, |i: int| given[i]->Ok_0);
        let mut entries = take_reversed(&mut map.entries);
        let mut pairs: Vec<MapEntry> = Vec::new();
        let mut keys_left = take_reversed(&mut sort_keys);
        while pairs.len() < n
            invariant
                pairs@.len() <= n,
                n == views.len(),
                keys_given.len() == n,
                entries@.len() + pairs@.len() == n,
                keys_left@.len() + pairs@.len() == n,
                forall|k: int|
                    0 <= k < entries@.len() ==> (entries@[k].key@, entries@[k].value@) == views[n
                        - 1 - k],
                forall|k: int| 0 <= k < keys_left@.len() ==> keys_left@[k]@ == keys_given[n - 1 - k],
                forall|k: int|
                    0 <= k < pairs@.len() ==> #[trigger] entries_view(pairs@)[k] == paired(
                        views,
                        keys_given,
                    )[k],
            decreases n - pairs@.len(),
        {
            let entry = entries.pop().unwrap();
            let sort_key = keys_left.pop().unwrap();
            let mut pair: Vec<Value> = Vec::new();
            pair.push(entry.key);
            pair.push(entry.value);
            let ghost i = pairs@.len() as int;
            let ghost before = entries_view(pairs@);
            assert(values_view(pair@) =~= seq![views[i].0, views[i].1]);
            pairs.push(MapEntry { key: sort_key, value: Value::Tuple(pair) });
            assert forall|k: int| 0 <= k < pairs@.len() implies #[trigger] entries_view(pairs@)[k]
                == paired(views, keys_given)[k] by {
                if k < i {
                    assert(entries_view(pairs@)[k] == before[k]);
                }
            }
        }
        assert(entries_view(pairs@) =~= paired(views, keys_given));
        sort_entries(&mut pairs);
        let ghost sorted = entries_view(pairs@);
        let ghost m = pairs@.len();
        let mut stack = take_reversed(&mut pairs);
        while stack.len() > 0
            invariant
                map.meta == meta_before,
                stack@.len() + map.entries@.len() == m,
                sorted.len() == m,
                forall|k: int|
                    0 <= k < stack@.len() ==> (stack@[k].key@, stack@[k].value@) == sorted[m - 1
                        - k],
                forall|k: int|
                    0 <= k < map.entries@.len() ==> #[trigger] entries_view(map.entries@)[k]
                        == unpaired(sorted)[k],
            decreases stack@.len(),
        {
            let pair = stack.pop().unwrap();
            let ghost i = map.entries@.len() as int;
            let ghost before = entries_view(map.entries@);
            assert((pair.key@, pair.value@) == sorted[i]);
            let entry = match pair.value {
                Value::Tuple(mut items) => {
                    if items.len() == 2 {
                        let value = items.pop().unwrap();
                        let key = items.pop().unwrap();
                        assert(sorted[i].1->Tuple_0[0] == key@ && sorted[i].1->Tuple_0[1] == value@);
                        MapEntry { key, value }
                    } else {
                        MapEntry { key: Value::Empty, value: Value::Empty }
                    }
                },
                _ => MapEntry { key: Value::Empty, value: Value::Empty },
            };
            assert((entry.key@, entry.value@) == unpaired(sorted)[i]);
            map.entries.push(entry);
            assert forall|k: int| 0 <= k < map.entries@.len() implies #[trigger] entries_view(
                map.entries@,
            )[k] == unpaired(sorted)[k] by {
                if k < i {
                    assert(entries_view(map.entries@)[k] == before[k]);
                }
            }
        }
        assert(entries_view(map.entries@).len() == unpaired(sorted).len());
        assert(entries_view(map.entries@) =~= unpaired(sorted));
        assert(map@.entries == entries_view(map.entries@));
        assert(sorted == sorted_entries(paired(views, keys_given)));
        assert(keys_given =~= Seq::new(views.len(), |i: int| given[i]->Ok_0));
        proof {
            let before = values_view(old(args)@);
            assert(before[0]->Mapping_0.entries == views);
            assert(map@.meta == before[0]->Mapping_0.meta);
            assert(map@.entries == sorted_by(views, keys_given));
            assert(first_error(given, views.len()) == views.len());
            assert(map@ == MapView { entries: sorted_by(views, keys_given), meta: map@.meta });
        }
        return Ok(Value::Empty);
    }
    external_error_text("map.sort: Expected map as argument")
}

/// The functions of the module with their names, in the order in which the
/// module holds them.
pub open spec fn functions() -> Seq<(Seq<char>, ExternalFunction)> {
    seq![
        ("clear"@, ExternalFunction::MapClear),
        ("contains_key"@, ExternalFunction::MapContainsKey),
        ("copy"@, ExternalFunction::MapCopy),
        ("deep_copy"@, ExternalFunction::MapDeepCopy),
        ("get"@, ExternalFunction::MapGet),
        ("get_index"@, ExternalFunction::MapGetIndex),
        ("help"@, ExternalFunction::MapHelp),
        ("insert"@, ExternalFunction::MapInsert),
        ("is_empty"@, ExternalFunction::MapIsEmpty),
        ("iter"@, ExternalFunction::MapIter),
        ("keys"@, ExternalFunction::MapKeys),
        ("remove"@, ExternalFunction::MapRemove),
        ("sort"@, ExternalFunction::MapSort),
        ("size"@, ExternalFunction::MapSize),
        ("update"@, ExternalFunction::MapUpdate),
        ("values"@, ExternalFunction::MapValues),
    ]
}

/// The module: a map from the names of its functions to the functions.
pub fn make_module() -> (module: ValueMap)
    ensures
        module@.entries == with_functions(seq![], functions()),
        module@.meta.len() == 0,
{
    let mut names: Vec<(&'static str, ExternalFunction)> = Vec::new();
    names.push(("clear", ExternalFunction::MapClear));
    names.push(("contains_key", ExternalFunction::MapContainsKey));
    names.push(("copy", ExternalFunction::MapCopy));
    names.push(("deep_copy", ExternalFunction::MapDeepCopy));
    names.push(("get", ExternalFunction::MapGet));
    names.push(("get_index", ExternalFunction::MapGetIndex));
    names.push(("help", ExternalFunction::MapHelp));
    names.push(("insert", ExternalFunction::MapInsert));
    names.push(("is_empty", ExternalFunction::MapIsEmpty));
    names.push(("iter", ExternalFunction::MapIter));
    names.push(("keys", ExternalFunction::MapKeys));
    names.push(("remove", ExternalFunction::MapRemove));
    names.push(("sort", ExternalFunction::MapSort));
    names.push(("size", ExternalFunction::MapSize));
    names.push(("update", ExternalFunction::MapUpdate));
    names.push(("values", ExternalFunction::MapValues));
    assert(named(names@) =~= functions());
    let mut module = ValueMap::new();
    assert(module@.entries =~= seq![]);
    module.add_functions(&names);
    module
}

} // verus!
