//! The functions on lists.

use crate::core_lib::{
    arg_count_at, done, effect_of, fails, first_list, gives, list_at, number_at, outcomes_view,
    Effect,
};
use crate::number::{
    index_of, is_negative, number_from_usize, number_is_negative, number_of_nat, number_to_index,
};
use crate::runtime::{external_error, external_error_text, Error, RuntimeResult};
use crate::sort::{sort_values, sorted_values, take_reversed};
use crate::text::{decimal, push_decimal};
use crate::value::{
    copy_values, equals, lemma_values_view_push, name_of_type, type_as_string,
    values_equal, values_view, IteratorView, Value, ValueIterator, ValueView,
};
use crate::value::{ExternalFunction, ValueMap};
use crate::value_map::{named, with_functions};
use vstd::prelude::*;
use vstd::string::*;

verus! {

/// Whether `list` holds a value that is equal to `value`.
pub open spec fn holds(list: Seq<ValueView>, value: ValueView) -> bool {
    exists|i: int| 0 <= i < list.len() && values_equal(#[trigger] list[i], value)
}

/// `list.contains`: whether a list holds a value that is equal to a value.
pub open spec fn contains_effect(args: Seq<ValueView>) -> Effect {
    if args.len() == 2 && args[0] is List {
        gives(args, ValueView::Bool(holds(args[0]->List_0, args[1])))
    } else {
        fails(args, "list.contains: Expected list and value as arguments"@)
    }
}

/// Whether `list` holds a value that is equal to `value`.
pub fn holds_value(list: &Vec<Value>, value: &Value) -> (result: bool)
    ensures
        result == holds(values_view(list@), value@),
{
    let mut i: usize = 0;
    while i < list.len()
        invariant
            i <= list@.len(),
            forall|j: int| 0 <= j < i ==> !values_equal(#[trigger] values_view(list@)[j], value@),
        decreases list@.len() - i,
    {
        if equals(&list[i], value) {
            assert(values_equal(values_view(list@)[i as int], value@));
            return true;
        }
        i += 1;
    }
    false
}

pub fn contains(args: &mut Vec<Value>) -> (result: RuntimeResult)
    ensures
        done(final(args)@, result, contains_effect(values_view(old(args)@))),
{
    if args.len() == 2 {
        if let Some(l) = list_at(args, 0) {
            return Ok(Value::Bool(holds_value(l, &args[1])));
        }
    }
    external_error_text("list.contains: Expected list and value as arguments")
}

/// `list.fill`: puts a value in every place of a list.
pub open spec fn fill_effect(args: Seq<ValueView>) -> Effect {
    if args.len() == 2 && args[0] is List {
        Effect {
            args: args.update(
                0,
                ValueView::List(Seq::new(args[0]->List_0.len(), |i: int| args[1])),
            ),
            result: Ok(ValueView::Empty),
        }
    } else {
        fails(args, "list.fill: Expected list and value as arguments"@)
    }
}

/// Appends `n` copies of `value` to `list`.
pub fn push_copies(list: &mut Vec<Value>, value: &Value, n: usize)
    ensures
        values_view(final(list)@) == values_view(old(list)@) + Seq::new(
            n as nat,
            |i: int| value@,
        ),
{
    let mut i: usize = 0;
    assert(values_view(list@) =~= values_view(old(list)@) + Seq::new(0, |i: int| value@));
    while i < n
        invariant
            i <= n,
            values_view(list@) == values_view(old(list)@) + Seq::new(i as nat, |i: int| value@),
        decreases n - i,
    {
        let ghost before = list@;
        let copy = value.clone();
        list.push(copy);
        proof {
            lemma_values_view_push(before, copy);
            assert(values_view(list@) =~= values_view(old(list)@) + Seq::new(
                (i + 1) as nat,
                |i: int| value@,
            ));
        }
        i += 1;
    }
}

pub fn fill(args: &mut Vec<Value>) -> (result: RuntimeResult)
    ensures
        done(final(args)@, result, fill_effect(values_view(old(args)@))),
{
    if args.len() == 2 && list_at(args, 0).is_some() {
        let value = args[1].clone();
        let list = first_list(args);
        let n = list.len();
        list.clear();
        push_copies(list, &value, n);
        assert(values_view(list@) =~= Seq::new(n as nat, |i: int| value@));
        Ok(Value::Empty)
    } else {
        external_error_text("list.fill: Expected list and value as arguments")
    }
}

/// `list.first`: the first value of a list, or `Empty` where it has none.
pub open spec fn first_effect(args: Seq<ValueView>) -> Effect {
    if args.len() == 1 && args[0] is List {
        gives(
            args,
            if args[0]->List_0.len() > 0 {
                args[0]->List_0.first()
            } else {
                ValueView::Empty
            },
        )
    } else {
        fails(args, "list.first: Expected list as argument"@)
    }
}

pub fn first(args: &mut Vec<Value>) -> (result: RuntimeResult)
    ensures
        done(final(args)@, result, first_effect(values_view(old(args)@))),
{
    if args.len() == 1 {
        if let Some(l) = list_at(args, 0) {
            if l.len() > 0 {
                return Ok(l[0].clone());
            } else {
                return Ok(Value::Empty);
            }
        }
    }
    external_error_text("list.first: Expected list as argument")
}

/// The value at the place that the number `n` stands for, or `Empty` where
/// there is none; a negative number fails with `message`.
pub open spec fn at_index(
    args: Seq<ValueView>,
    values: Seq<ValueView>,
    n: u64,
    message: Seq<char>,
) -> Effect {
    if is_negative(n) {
        fails(args, message)
    } else if index_of(n) < values.len() {
        gives(args, values[index_of(n) as int])
    } else {
        gives(args, ValueView::Empty)
    }
}

/// `list.get`: the value at an index of a list, or `Empty` where the list ends before it.
pub open spec fn get_effect(args: Seq<ValueView>) -> Effect {
    if args.len() == 2 && args[0] is List && args[1] is Number {
        at_index(
            args,
            args[0]->List_0,
            args[1]->Number_0,
            "list.get: Negative indices aren't allowed"@,
        )
    } else {
        fails(args, "list.get: Expected list and number as arguments"@)
    }
}

pub fn get(args: &mut Vec<Value>) -> (result: RuntimeResult)
    ensures
        done(final(args)@, result, get_effect(values_view(old(args)@))),
{
    if args.len() == 2 {
        if let Some(l) = list_at(args, 0) {
            if let Some(n) = number_at(args, 1) {
                if number_is_negative(n) {
                    return external_error_text("list.get: Negative indices aren't allowed");
                }
                let index = number_to_index(n);
                if index < l.len() {
                    return Ok(l[index].clone());
                } else {
                    return Ok(Value::Empty);
                }
            }
        }
    }
    external_error_text("list.get: Expected list and number as arguments")
}

/// `list.insert`: puts a value into a list at an index, before the value
/// that was there.
pub open spec fn insert_effect(args: Seq<ValueView>) -> Effect {
    if args.len() == 3 && args[0] is List && args[1] is Number {
        let list = args[0]->List_0;
        let n = args[1]->Number_0;
        if is_negative(n) {
            fails(args, "list.insert: Negative indices aren't allowed"@)
        } else if index_of(n) > list.len() {
            fails(args, "list.insert: Index out of bounds"@)
        } else {
            Effect {
                args: args.update(0, ValueView::List(list.insert(index_of(n) as int, args[2]))),
                result: Ok(ValueView::Empty),
            }
        }
    } else {
        fails(args, "list.insert: Expected list, number, and value as arguments"@)
    }
}

pub fn insert(args: &mut Vec<Value>) -> (result: RuntimeResult)
    ensures
        done(final(args)@, result, insert_effect(values_view(old(args)@))),
{
    if args.len() == 3 {
        if let (Some(l), Some(n)) = (list_at(args, 0), number_at(args, 1)) {
            if number_is_negative(n) {
                return external_error_text("list.insert: Negative indices aren't allowed");
            }
            let index = number_to_index(n);
            if index > l.len() {
                return external_error_text("list.insert: Index out of bounds");
            }
            let value = args[2].clone();
            let list = first_list(args);
            let ghost before = list@;
            list.insert(index, value);
            assert(values_view(list@) =~= values_view(before).insert(index as int, value@));
            return Ok(Value::Empty);
        }
    }
    external_error_text("list.insert: Expected list, number, and value as arguments")
}

/// `list.is_empty`: whether a list has no values.
pub open spec fn is_empty_effect(args: Seq<ValueView>) -> Effect {
    if args.len() == 1 && args[0] is List {
        gives(args, ValueView::Bool(args[0]->List_0.len() == 0))
    } else {
        fails(args, "list.is_empty: Expected list as argument"@)
    }
}

pub fn is_empty(args: &mut Vec<Value>) -> (result: RuntimeResult)
    ensures
        done(final(args)@, result, is_empty_effect(values_view(old(args)@))),
{
    if args.len() == 1 {
        if let Some(l) = list_at(args, 0) {
            return Ok(Value::Bool(l.len() == 0));
        }
    }
    external_error_text("list.is_empty: Expected list as argument")
}

/// `list.iter`: an iterator over the values that a list has now.
pub open spec fn iter_effect(args: Seq<ValueView>) -> Effect {
    if args.len() == 1 && args[0] is List {
        gives(
            args,
            ValueView::Iterator(IteratorView::Values { items: args[0]->List_0, index: 0 }),
        )
    } else {
        fails(args, "list.iter: Expected list as argument"@)
    }
}

pub fn iter(args: &mut Vec<Value>) -> (result: RuntimeResult)
    ensures
        done(final(args)@, result, iter_effect(values_view(old(args)@))),
{
    if args.len() == 1 {
        if let Some(l) = list_at(args, 0) {
            return Ok(Value::Iterator(ValueIterator::Values { items: copy_values(l), index: 0 }));
        }
    }
    external_error_text("list.iter: Expected list as argument")
}

/// `list.last`: the last value of a list, or `Empty` where it has none.
pub open spec fn last_effect(args: Seq<ValueView>) -> Effect {
    if args.len() == 1 && args[0] is List {
        gives(
            args,
            if args[0]->List_0.len() > 0 {
                args[0]->List_0.last()
            } else {
                ValueView::Empty
            },
        )
    } else {
        fails(args, "list.last: Expected list as argument"@)
    }
}

pub fn last(args: &mut Vec<Value>) -> (result: RuntimeResult)
    ensures
        done(final(args)@, result, last_effect(values_view(old(args)@))),
{
    if args.len() == 1 {
        if let Some(l) = list_at(args, 0) {
            if l.len() > 0 {
                return Ok(l[l.len() - 1].clone());
            } else {
                return Ok(Value::Empty);
            }
        }
    }
    external_error_text("list.last: Expected list as argument")
}

/// `list.pop`: takes the last value out of a list and returns it. An empty
/// list stays as it is, and `Empty` is returned.
pub open spec fn pop_effect(args: Seq<ValueView>) -> Effect {
    if args.len() == 1 && args[0] is List {
        let list = args[0]->List_0;
        if list.len() > 0 {
            Effect { args: args.update(0, ValueView::List(list.drop_last())), result: Ok(list.last()) }
        } else {
            gives(args, ValueView::Empty)
        }
    } else {
        fails(args, "list.pop: Expected list as argument"@)
    }
}

pub fn pop(args: &mut Vec<Value>) -> (result: RuntimeResult)
    ensures
        done(final(args)@, result, pop_effect(values_view(old(args)@))),
{
    if args.len() == 1 && list_at(args, 0).is_some() {
        let list = first_list(args);
        let ghost before = list@;
        match list.pop() {
            Some(value) => {
                assert(values_view(list@) =~= values_view(before).drop_last());
                Ok(value)
            },
            None => {
                assert(values_view(old(args)@).update(0, values_view(old(args)@)[0]) =~= values_view(
                    old(args)@,
                ));
                Ok(Value::Empty)
            },
        }
    } else {
        external_error_text("list.pop: Expected list as argument")
    }
}

/// `list.push`: appends a value to a list.
pub open spec fn push_effect(args: Seq<ValueView>) -> Effect {
    if args.len() == 2 && args[0] is List {
        Effect {
            args: args.update(0, ValueView::List(args[0]->List_0.push(args[1]))),
            result: Ok(ValueView::Empty),
        }
    } else {
        fails(args, "list.push: Expected list and value as arguments"@)
    }
}

pub fn push(args: &mut Vec<Value>) -> (result: RuntimeResult)
    ensures
        done(final(args)@, result, push_effect(values_view(old(args)@))),
{
    if args.len() == 2 && list_at(args, 0).is_some() {
        let value = args[1].clone();
        let list = first_list(args);
        proof {
            lemma_values_view_push(list@, value);
        }
        list.push(value);
        Ok(Value::Empty)
    } else {
        external_error_text("list.push: Expected list and value as arguments")
    }
}

/// The message of `list.remove` for an index behind the last value.
pub open spec fn remove_out_of_bounds(index: nat, len: nat) -> Seq<char> {
    "list.remove: Index out of bounds - the index is "@ + decimal(index)
        + " but the List only has "@ + decimal(len) + " elements"@
}

/// `list.remove`: takes the value at an index out of a list and returns it.
/// An empty list stays as it is, and `Empty` is returned.
pub open spec fn remove_effect(args: Seq<ValueView>) -> Effect {
    if args.len() == 2 && args[0] is List && args[1] is Number {
        let list = args[0]->List_0;
        let n = args[1]->Number_0;
        if is_negative(n) {
            fails(args, "list.remove: Negative indices aren't allowed"@)
        } else if list.len() == 0 {
            gives(args, ValueView::Empty)
        } else if index_of(n) >= list.len() {
            fails(args, remove_out_of_bounds(index_of(n) as nat, list.len()))
        } else {
            Effect {
                args: args.update(0, ValueView::List(list.remove(index_of(n) as int))),
                result: Ok(list[index_of(n) as int]),
            }
        }
    } else {
        fails(args, "list.remove: Expected list and index as arguments"@)
    }
}

pub fn remove(args: &mut Vec<Value>) -> (result: RuntimeResult)
    ensures
        done(final(args)@, result, remove_effect(values_view(old(args)@))),
{
    if args.len() == 2 {
        if let (Some(l), Some(n)) = (list_at(args, 0), number_at(args, 1)) {
            if number_is_negative(n) {
                return external_error_text("list.remove: Negative indices aren't allowed");
            }
            if l.len() == 0 {
                return Ok(Value::Empty);
            }
            let index = number_to_index(n);
            if index >= l.len() {
                let mut message = String::from_str(
                    "list.remove: Index out of bounds - the index is ",
                );
                push_decimal(&mut message, index as u64);
                message.append(" but the List only has ");
                push_decimal(&mut message, l.len() as u64);
                message.append(" elements");
                assert(message@ =~= remove_out_of_bounds(index as nat, l@.len()));
                return external_error(message);
            }
            let list = first_list(args);
            let ghost before = list@;
            let value = list.remove(index);
            assert(values_view(list@) =~= values_view(before).remove(index as int));
            return Ok(value);
        }
    }
    external_error_text("list.remove: Expected list and index as arguments")
}

/// A list brought to the length `n`: cut where it is longer, filled up with `value`
/// where it is shorter.
pub open spec fn resized(list: Seq<ValueView>, n: nat, value: ValueView) -> Seq<ValueView> {
    if n <= list.len() {
        list.take(n as int)
    } else {
        list + Seq::new((n - list.len()) as nat, |i: int| value)
    }
}

/// `list.resize`: brings a list to a length.
pub open spec fn resize_effect(args: Seq<ValueView>) -> Effect {
    if args.len() == 3 && args[0] is List && args[1] is Number {
        if is_negative(args[1]->Number_0) {
            fails(args, "list.resize: Negative sizes aren't allowed"@)
        } else {
            Effect {
                args: args.update(
                    0,
                    ValueView::List(
                        resized(args[0]->List_0, index_of(args[1]->Number_0) as nat, args[2]),
                    ),
                ),
                result: Ok(ValueView::Empty),
            }
        }
    } else {
        fails(args, "list.resize: Expected list, number, and value as arguments"@)
    }
}

pub fn resize(args: &mut Vec<Value>) -> (result: RuntimeResult)
    ensures
        done(final(args)@, result, resize_effect(values_view(old(args)@))),
{
    if args.len() == 3 {
        if let (Some(l), Some(n)) = (list_at(args, 0), number_at(args, 1)) {
            if number_is_negative(n) {
                return external_error_text("list.resize: Negative sizes aren't allowed");
            }
            let size = number_to_index(n);
            let value = args[2].clone();
            let list = first_list(args);
            let ghost before = list@;
            if size <= list.len() {
                list.truncate(size);
                assert(values_view(list@) =~= values_view(before).take(size as int));
            } else {
                let missing = size - list.len();
                push_copies(list, &value, missing);
            }
            return Ok(Value::Empty);
        }
    }
    external_error_text("list.resize: Expected list, number, and value as arguments")
}

/// `list.reverse`: turns a list round.
pub open spec fn reverse_effect(args: Seq<ValueView>) -> Effect {
    if args.len() == 1 && args[0] is List {
        Effect {
            args: args.update(0, ValueView::List(args[0]->List_0.reverse())),
            result: Ok(ValueView::Empty),
        }
    } else {
        fails(args, "list.reverse: Expected list as argument"@)
    }
}

pub fn reverse(args: &mut Vec<Value>) -> (result: RuntimeResult)
    ensures
        done(final(args)@, result, reverse_effect(values_view(old(args)@))),
{
    if args.len() == 1 && list_at(args, 0).is_some() {
        let list = first_list(args);
        let ghost before = list@;
        let reversed = take_reversed(list);
        *list = reversed;
        assert(values_view(list@) =~= values_view(before).reverse());
        Ok(Value::Empty)
    } else {
        external_error_text("list.reverse: Expected list as argument")
    }
}

/// `list.size`: the number of values of a list.
pub open spec fn size_effect(args: Seq<ValueView>) -> Effect {
    if args.len() == 1 && args[0] is List {
        gives(args, ValueView::Number(number_of_nat(args[0]->List_0.len())))
    } else {
        fails(args, "list.size: Expected list as argument"@)
    }
}

pub fn size(args: &mut Vec<Value>) -> (result: RuntimeResult)
    ensures
        done(final(args)@, result, size_effect(values_view(old(args)@))),
{
    if args.len() == 1 {
        if let Some(l) = list_at(args, 0) {
            return Ok(Value::Number(number_from_usize(l.len())));
        }
    }
    external_error_text("list.size: Expected list as argument")
}

/// `list.sort`: sorts a list; values that tie stay in their order.
pub open spec fn sort_effect(args: Seq<ValueView>) -> Effect {
    if args.len() == 1 && args[0] is List {
        Effect {
            args: args.update(0, ValueView::List(sorted_values(args[0]->List_0))),
            result: Ok(ValueView::Empty),
        }
    } else {
        fails(args, "list.sort: Expected list as argument"@)
    }
}

pub fn sort(args: &mut Vec<Value>) -> (result: RuntimeResult)
    ensures
        done(final(args)@, result, sort_effect(values_view(old(args)@))),
{
    if args.len() == 1 && list_at(args, 0).is_some() {
        let list = first_list(args);
        sort_values(list);
        Ok(Value::Empty)
    } else {
        external_error_text("list.sort: Expected list as argument")
    }
}

/// `list.sort_copy`: a sorted copy of a list, which stays as it is.
pub open spec fn sort_copy_effect(args: Seq<ValueView>) -> Effect {
    if args.len() == 1 && args[0] is List {
        gives(args, ValueView::List(sorted_values(args[0]->List_0)))
    } else {
        fails(args, "list.sort_copy: Expected list as argument"@)
    }
}

pub fn sort_copy(args: &mut Vec<Value>) -> (result: RuntimeResult)
    ensures
        done(final(args)@, result, sort_copy_effect(values_view(old(args)@))),
{
    if args.len() == 1 {
        if let Some(l) = list_at(args, 0) {
            let mut copy = copy_values(l);
            sort_values(&mut copy);
            return Ok(Value::List(copy));
        }
    }
    external_error_text("list.sort_copy: Expected list as argument")
}

/// `list.to_tuple`: a tuple of the values of a list.
pub open spec fn to_tuple_effect(args: Seq<ValueView>) -> Effect {
    if args.len() == 1 && args[0] is List {
        gives(args, ValueView::Tuple(args[0]->List_0))
    } else {
        fails(args, "list.to_tuple expects a list as argument"@)
    }
}

pub fn to_tuple(args: &mut Vec<Value>) -> (result: RuntimeResult)
    ensures
        done(final(args)@, result, to_tuple_effect(values_view(old(args)@))),
{
    if args.len() == 1 {
        if let Some(l) = list_at(args, 0) {
            return Ok(Value::Tuple(copy_values(l)));
        }
    }
    external_error_text("list.to_tuple expects a list as argument")
}

/// `list.with_size`: a list of so many copies of a value.
pub open spec fn with_size_effect(args: Seq<ValueView>) -> Effect {
    if args.len() == 2 && args[0] is Number {
        if is_negative(args[0]->Number_0) {
            fails(args, "list.with_size: Negative sizes aren't allowed"@)
        } else {
            gives(
                args,
                ValueView::List(Seq::new(index_of(args[0]->Number_0) as nat, |i: int| args[1])),
            )
        }
    } else {
        fails(args, "list.with_size: Expected number and value as arguments"@)
    }
}

pub fn with_size(args: &mut Vec<Value>) -> (result: RuntimeResult)
    ensures
        done(final(args)@, result, with_size_effect(values_view(old(args)@))),
{
    if args.len() == 2 {
        if let Some(n) = number_at(args, 0) {
            if number_is_negative(n) {
                return external_error_text("list.with_size: Negative sizes aren't allowed");
            }
            let mut list: Vec<Value> = Vec::new();
            push_copies(&mut list, &args[1], number_to_index(n));
            assert(values_view(list@) =~= Seq::new(index_of(n) as nat, |i: int| args@[1]@));
            return Ok(Value::List(list));
        }
    }
    external_error_text("list.with_size: Expected number and value as arguments")
}

/// Those of the first `n` values of `list` that `keep` marks, in their order.
pub open spec fn kept(list: Seq<ValueView>, keep: Seq<bool>, n: nat) -> Seq<ValueView>
    decreases n,
{
    if n == 0 {
        seq![]
    } else if keep[n - 1] {
        kept(list, keep, (n - 1) as nat).push(list[n - 1])
    } else {
        kept(list, keep, (n - 1) as nat)
    }
}

/// No more values are kept than there were.
pub proof fn lemma_kept_len(list: Seq<ValueView>, keep: Seq<bool>, n: nat)
    ensures
        kept(list, keep, n).len() <= n,
    decreases n,
{
    if n > 0 {
        lemma_kept_len(list, keep, (n - 1) as nat);
    }
}

/// Moves those of the first `stop` values that `keep` marks to the front of
/// the list, in their order. The values behind them stay where they are.
fn move_kept(list: &mut Vec<Value>, keep: &Vec<bool>, stop: usize) -> (count: usize)
    requires
        stop <= old(list)@.len(),
        stop <= keep@.len(),
    ensures
        count == kept(values_view(old(list)@), keep@, stop as nat).len(),
        values_view(final(list)@) == kept(values_view(old(list)@), keep@, stop as nat)
            + values_view(old(list)@).skip(count as int),
{
    let ghost views = values_view(list@);
    let mut write: usize = 0;
    let mut read: usize = 0;
    assert(values_view(list@) =~= kept(views, keep@, 0) + views.skip(0));
    while read < stop
        invariant
            write <= read <= stop,
            stop <= views.len(),
            stop <= keep@.len(),
            views == values_view(old(list)@),
            list@.len() == views.len(),
            write == kept(views, keep@, read as nat).len(),
            values_view(list@) == kept(views, keep@, read as nat) + views.skip(write as int),
        decreases stop - read,
    {
        if keep[read] {
            let ghost before = values_view(list@);
            let value = list[read].clone();
            assert(value@ == views[read as int]) by {
                assert(before[read as int] == views.skip(write as int)[read - write]);
            }
            list[write] = value;
            proof {
                let after = kept(views, keep@, (read + 1) as nat) + views.skip(write + 1);
                assert forall|i: int| 0 <= i < after.len() implies values_view(list@)[i]
                    == after[i] by {
                    if i != write {
                        assert(values_view(list@)[i] == before[i]);
                        if i > write {
                            assert(before[i] == views.skip(write as int)[i - write]);
                        }
                    }
                }
                assert(values_view(list@) =~= after);
            }
            write += 1;
        }
        read += 1;
    }
    write
}

/// `list.retain` with a value: keeps the values of a list that are equal to the value.
pub open spec fn retain_effect(args: Seq<ValueView>) -> Effect {
    if args.len() == 2 && args[0] is List {
        let list = args[0]->List_0;
        let keep = Seq::new(list.len(), |i: int| values_equal(list[i], args[1]));
        Effect {
            args: args.update(0, ValueView::List(kept(list, keep, list.len()))),
            result: Ok(ValueView::Empty),
        }
    } else {
        fails(args, "list.retain: Expected list and function or value as arguments"@)
    }
}

/// The message of a function that takes a wrong number of arguments.
pub open spec fn single_argument_message(name: Seq<char>, arg_count: u8) -> Seq<char> {
    "The function passed to "@ + name + " must have a single argument, found '"@ + decimal(
        arg_count as nat,
    ) + "'"@
}

fn single_argument_error(name: &str, arg_count: u8) -> (result: RuntimeResult)
    ensures
        done(
            Seq::empty(),
            result,
            fails(values_view(Seq::empty()), single_argument_message(name@, arg_count)),
        ),
{
    let mut message = String::from_str("The function passed to ");
    message.append(name);
    message.append(" must have a single argument, found '");
    push_decimal(&mut message, arg_count as u64);
    message.append("'");
    assert(message@ =~= single_argument_message(name@, arg_count));
    external_error(message)
}

/// Whether a call of a predicate said yes or no.
pub open spec fn is_verdict(outcome: Result<ValueView, Seq<char>>) -> bool {
    outcome is Ok && outcome->Ok_0 is Bool
}

/// The position of the first of the first `n` outcomes that is no verdict;
/// `n` where each is one.
pub open spec fn first_other(outcomes: Seq<Result<ValueView, Seq<char>>>, n: nat) -> nat
    decreases n,
{
    if n == 0 {
        0
    } else {
        let before = first_other(outcomes, (n - 1) as nat);
        if before < n - 1 || !is_verdict(outcomes[n - 1]) {
            before
        } else {
            n
        }
    }
}

/// What the first position of an outcome that is no verdict is.
pub proof fn lemma_first_other(outcomes: Seq<Result<ValueView, Seq<char>>>, n: nat)
    ensures
        first_other(outcomes, n) <= n,
        forall|i: int| 0 <= i < first_other(outcomes, n) ==> is_verdict(#[trigger] outcomes[i]),
        first_other(outcomes, n) < n ==> !is_verdict(outcomes[first_other(outcomes, n) as int]),
    decreases n,
{
    if n > 0 {
        lemma_first_other(outcomes, (n - 1) as nat);
    }
}

/// The message of `list.retain` for a predicate that returned no verdict.
pub open spec fn retain_verdict_message(found: ValueView) -> Seq<char> {
    "list.retain expects a Bool to be returned from the predicate, found '"@ + name_of_type(found)
        + "'"@
}

/// `list.retain` with a predicate, where `outcomes` holds what the predicate
/// gave for each value of the list in order, up to the first call that failed
/// or gave no verdict. The values for which the predicate said yes are moved
/// to the front, and the list ends behind them unless a call failed.
pub open spec fn retain_with_effect(
    args: Seq<ValueView>,
    outcomes: Seq<Result<ValueView, Seq<char>>>,
) -> Effect {
    if args.len() == 2 && args[0] is List && args[1] is Function {
        let list = args[0]->List_0;
        let arg_count = args[1]->arg_count;
        if arg_count != 1 {
            fails(args, single_argument_message("list.retain"@, arg_count))
        } else {
            let stop = first_other(outcomes, list.len());
            let keep = Seq::new(
                outcomes.len(),
                |i: int| outcomes[i] == Ok::<ValueView, Seq<char>>(ValueView::Bool(true)),
            );
            let front = kept(list, keep, stop);
            if stop == list.len() {
                Effect { args: args.update(0, ValueView::List(front)), result: Ok(ValueView::Empty) }
            } else {
                Effect {
                    args: args.update(0, ValueView::List(front + list.skip(front.len() as int))),
                    result: Err(
                        match outcomes[stop as int] {
                            Ok(found) => retain_verdict_message(found),
                            Err(message) => message,
                        },
                    ),
                }
            }
        }
    } else {
        retain_effect(args)
    }
}

/// Whether `outcomes` holds what a predicate gave for each of `n` values, or
/// for the values up to one for which it gave no verdict.
pub open spec fn covers(outcomes: Seq<Result<ValueView, Seq<char>>>, n: nat) -> bool {
    outcomes.len() >= n || exists|i: int|
        0 <= i < outcomes.len() && !is_verdict(#[trigger] outcomes[i])
}

pub fn retain(args: &mut Vec<Value>, outcomes: Vec<RuntimeResult>) -> (result: RuntimeResult)
    requires
        old(args)@.len() == 2 && values_view(old(args)@)[0] is List && values_view(
            old(args)@,
        )[1] is Function && values_view(old(args)@)[1]->arg_count == 1 ==> covers(
            outcomes_view(outcomes@),
            values_view(old(args)@)[0]->List_0.len(),
        ),
    ensures
        effect_of(final(args)@, result) == retain_with_effect(
            values_view(old(args)@),
            outcomes_view(outcomes@),
        ),
        result is Err ==> result->Err_0 is ErrorWithoutLocation || exists|i: int|
            0 <= i < outcomes@.len() && #[trigger] outcomes@[i] == result,
{
    if args.len() == 2 {
        if let Some(l) = list_at(args, 0) {
            if let Some(arg_count) = arg_count_at(args, 1) {
                if arg_count != 1 {
                    let result = single_argument_error("list.retain", arg_count);
                    return result;
                }
                let n = l.len();
                let ghost views = values_view(l@);
                let ghost given = outcomes_view(outcomes@);
                proof {
                    lemma_first_other(given, n as nat);
                }
                let mut keep: Vec<bool> = Vec::new();
                let mut failure: Option<RuntimeResult> = None;
                let mut rest = outcomes;
                let mut stack = take_reversed(&mut rest);
                let mut stop: usize = 0;
                while stop < n && failure.is_none()
                    invariant
                        stop <= n,
                        n == views.len(),
                        given == outcomes_view(outcomes@),
                        given.len() == outcomes@.len(),
                        covers(given, n as nat),
                        stack@.len() + keep@.len() + (if failure is Some { 1int } else { 0 })
                            == outcomes@.len(),
                        forall|i: int|
                            0 <= i < stack@.len() ==> stack@[i] == outcomes@[outcomes@.len() - 1
                                - i],
                        failure is None ==> keep@.len() == stop,
                        failure is Some ==> keep@.len() == stop && stop < n && failure->Some_0
                            == outcomes@[stop as int] && !is_verdict(given[stop as int]),
                        forall|i: int| 0 <= i < keep@.len() ==> is_verdict(#[trigger] given[i]),
                        forall|i: int|
                            0 <= i < keep@.len() ==> keep@[i] == (given[i] == Ok::<
                                ValueView,
                                Seq<char>,
                            >(ValueView::Bool(true))),
                    decreases n - stop + (if failure is None { 1int } else { 0 }),
                {
                    proof {
                        if given.len() < n {
                            let i = choose|i: int|
                                0 <= i < given.len() && !is_verdict(#[trigger] given[i]);
                            if i < stop {
                                assert(is_verdict(given[i]));
                            }
                        }
                        assert(stop < outcomes@.len());
                    }
                    let outcome = stack.pop().unwrap();
                    assert(outcome == outcomes@[stop as int]);
                    assert(given[stop as int] == crate::core_lib::outcome_view(outcome));
                    match outcome {
                        Ok(Value::Bool(verdict)) => {
                            keep.push(verdict);
                            stop += 1;
                        },
                        other => {
                            failure = Some(other);
                        },
                    }
                }
                proof {
                    lemma_first_other(given, n as nat);
                    let f = first_other(given, n as nat);
                    if f < stop {
                        assert(is_verdict(given[f as int]));
                    }
                    if failure is Some && f > stop {
                        assert(is_verdict(given[stop as int]));
                    }
                    assert(f == stop);
                    lemma_kept_agrees(
                        views,
                        keep@,
                        Seq::new(
                            given.len(),
                            |i: int| given[i] == Ok::<ValueView, Seq<char>>(ValueView::Bool(true)),
                        ),
                        stop as nat,
                    );
                    lemma_kept_len(views, keep@, stop as nat);
                }
                let list = first_list(args);
                let count = move_kept(list, &keep, stop);
                match failure {
                    None => {
                        let ghost before = list@;
                        list.truncate(count);
                        assert(values_view(list@) =~= kept(views, keep@, stop as nat)) by {
                            assert(values_view(list@) =~= values_view(before).take(count as int));
                        }
                        return Ok(Value::Empty);
                    },
                    Some(Err(error)) => {
                        return Err(error);
                    },
                    Some(Ok(found)) => {
                        let mut message = String::from_str(
                            "list.retain expects a Bool to be returned from the predicate, found '",
                        );
                        let found_type = type_as_string(&found);
                        message.append(found_type.as_str());
                        message.append("'");
                        assert(message@ =~= retain_verdict_message(found@));
                        return external_error(message);
                    },
                }
            }
            let mut keep: Vec<bool> = Vec::new();
            let mut i: usize = 0;
            while i < l.len()
                invariant
                    i <= l@.len(),
                    args@.len() == 2,
                    keep@.len() == i,
                    forall|j: int|
                        0 <= j < i ==> keep@[j] == values_equal(values_view(l@)[j], args@[1]@),
                decreases l@.len() - i,
            {
                keep.push(equals(&l[i], &args[1]));
                i += 1;
            }
            let ghost views = values_view(l@);
            proof {
                lemma_kept_agrees(
                    views,
                    keep@,
                    Seq::new(views.len(), |i: int| values_equal(views[i], args@[1]@)),
                    views.len(),
                );
                lemma_kept_len(views, keep@, views.len());
            }
            let n = l.len();
            let list = first_list(args);
            let count = move_kept(list, &keep, n);
            let ghost before = list@;
            list.truncate(count);
            assert(values_view(list@) =~= kept(views, keep@, n as nat)) by {
                assert(values_view(list@) =~= values_view(before).take(count as int));
            }
            return Ok(Value::Empty);
        }
    }
    external_error_text("list.retain: Expected list and function or value as arguments")
}

/// Marks that agree on the first `n` values keep the same values.
proof fn lemma_kept_agrees(list: Seq<ValueView>, a: Seq<bool>, b: Seq<bool>, n: nat)
    requires
        n <= a.len(),
        n <= b.len(),
        forall|i: int| 0 <= i < n ==> a[i] == b[i],
    ensures
        kept(list, a, n) == kept(list, b, n),
    decreases n,
{
    if n > 0 {
        lemma_kept_agrees(list, a, b, (n - 1) as nat);
    }
}

/// The position of the first of the first `n` outcomes that is an error; `n`
/// where none is.
pub open spec fn first_error(outcomes: Seq<Result<ValueView, Seq<char>>>, n: nat) -> nat
    decreases n,
{
    if n == 0 {
        0
    } else {
        let before = first_error(outcomes, (n - 1) as nat);
        if before < n - 1 || outcomes[n - 1] is Err {
            before
        } else {
            n
        }
    }
}

/// What the first position of an error is.
pub proof fn lemma_first_error(outcomes: Seq<Result<ValueView, Seq<char>>>, n: nat)
    ensures
        first_error(outcomes, n) <= n,
        forall|i: int| 0 <= i < first_error(outcomes, n) ==> (#[trigger] outcomes[i]) is Ok,
        first_error(outcomes, n) < n ==> outcomes[first_error(outcomes, n) as int] is Err,
    decreases n,
{
    if n > 0 {
        lemma_first_error(outcomes, (n - 1) as nat);
    }
}

/// Whether `outcomes` holds what a function gave for each of `n` values, or
/// for the values up to one for which it failed.
pub open spec fn covers_calls(outcomes: Seq<Result<ValueView, Seq<char>>>, n: nat) -> bool {
    outcomes.len() >= n || exists|i: int| 0 <= i < outcomes.len() && (#[trigger] outcomes[i]) is Err
}

/// `list.transform`, where `outcomes` holds what the function gave for each
/// value of the list in order, up to the first call that failed. Each value is
/// replaced by what the function gave for it, up to such a call.
pub open spec fn transform_effect(
    args: Seq<ValueView>,
    outcomes: Seq<Result<ValueView, Seq<char>>>,
) -> Effect {
    if args.len() == 2 && args[0] is List && args[1] is Function {
        let list = args[0]->List_0;
        let arg_count = args[1]->arg_count;
        if arg_count != 1 {
            fails(args, single_argument_message("list.transform"@, arg_count))
        } else {
            let stop = first_error(outcomes, list.len());
            let changed = Seq::new(
                list.len(),
                |i: int|
                    if i < stop {
                        outcomes[i]->Ok_0
                    } else {
                        list[i]
                    },
            );
            Effect {
                args: args.update(0, ValueView::List(changed)),
                result: if stop == list.len() {
                    Ok(ValueView::Empty)
                } else {
                    Err(outcomes[stop as int]->Err_0)
                },
            }
        }
    } else {
        fails(args, "list.transform expects a list and function as arguments"@)
    }
}

pub fn transform(args: &mut Vec<Value>, outcomes: Vec<RuntimeResult>) -> (result: RuntimeResult)
    requires
        old(args)@.len() == 2 && values_view(old(args)@)[0] is List && values_view(
            old(args)@,
        )[1] is Function && values_view(old(args)@)[1]->arg_count == 1 ==> covers_calls(
            outcomes_view(outcomes@),
            values_view(old(args)@)[0]->List_0.len(),
        ),
    ensures
        effect_of(final(args)@, result) == transform_effect(
            values_view(old(args)@),
            outcomes_view(outcomes@),
        ),
        result is Err ==> result->Err_0 is ErrorWithoutLocation || exists|i: int|
            0 <= i < outcomes@.len() && #[trigger] outcomes@[i] == result,
{
    if args.len() == 2 {
        if let (Some(l), Some(arg_count)) = (list_at(args, 0), arg_count_at(args, 1)) {
            if arg_count != 1 {
                let result = single_argument_error("list.transform", arg_count);
                return result;
            }
            let n = l.len();
            let ghost views = values_view(l@);
            let ghost given = outcomes_view(outcomes@);
            let mut rest = outcomes;
            let mut stack = take_reversed(&mut rest);
            let list = first_list(args);
            let mut i: usize = 0;
            let mut failure: Option<Error> = None;
            while i < n && failure.is_none()
                invariant
                    i <= n,
                    n == views.len(),
                    list@.len() == n,
                    given == outcomes_view(outcomes@),
                    covers_calls(given, n as nat),
                    stack@.len() + i + (if failure is Some { 1int } else { 0 }) == outcomes@.len(),
                    failure is Some ==> i < n && i < outcomes@.len() && outcomes@[i as int] == Err::<
                        Value,
                        Error,
                    >(failure->Some_0),
                    forall|k: int|
                        0 <= k < stack@.len() ==> stack@[k] == outcomes@[outcomes@.len() - 1 - k],
                    forall|k: int| 0 <= k < i ==> (#[trigger] given[k]) is Ok,
                    forall|k: int|
                        0 <= k < n ==> values_view(list@)[k] == if k < i {
                            given[k]->Ok_0
                        } else {
                            views[k]
                        },
                decreases n - i + (if failure is None { 1int } else { 0 }),
            {
                proof {
                    if given.len() < n {
                        let k = choose|k: int| 0 <= k < given.len() && (#[trigger] given[k]) is Err;
                        if k < i {
                            assert(given[k] is Ok);
                        }
                    }
                    assert(i < outcomes@.len());
                }
                let outcome = stack.pop().unwrap();
                assert(outcome == outcomes@[i as int]);
                assert(given[i as int] == crate::core_lib::outcome_view(outcome));
                match outcome {
                    Ok(value) => {
                        let ghost before = values_view(list@);
                        list[i] = value;
                        assert forall|k: int| 0 <= k < n implies values_view(list@)[k] == if k < i
                            + 1 {
                            given[k]->Ok_0
                        } else {
                            views[k]
                        } by {
                            if k != i {
                                assert(values_view(list@)[k] == before[k]);
                            }
                        }
                        i += 1;
                    },
                    Err(error) => {
                        failure = Some(error);
                    },
                }
            }
            proof {
                lemma_first_error(given, n as nat);
                let f = first_error(given, n as nat);
                if f < i {
                    assert(given[f as int] is Ok);
                }
                if failure is Some {
                    assert(given[i as int] == crate::core_lib::outcome_view(outcomes@[i as int]));
                }
                assert(f == i);
                assert(values_view(list@) =~= transform_effect(
                    values_view(old(args)@),
                    given,
                ).args[0]->List_0);
            }
            return match failure {
                Some(error) => Err(error),
                None => Ok(Value::Empty),
            };
        }
    }
    external_error_text("list.transform expects a list and function as arguments")
}

/// The functions of the module with their names, in the order in which the
/// module holds them.
pub open spec fn functions() -> Seq<(Seq<char>, ExternalFunction)> {
    seq![
        ("contains"@, ExternalFunction::ListContains),
        ("fill"@, ExternalFunction::ListFill),
        ("first"@, ExternalFunction::ListFirst),
        ("get"@, ExternalFunction::ListGet),
        ("insert"@, ExternalFunction::ListInsert),
        ("is_empty"@, ExternalFunction::ListIsEmpty),
        ("iter"@, ExternalFunction::ListIter),
        ("last"@, ExternalFunction::ListLast),
        ("pop"@, ExternalFunction::ListPop),
        ("push"@, ExternalFunction::ListPush),
        ("remove"@, ExternalFunction::ListRemove),
        ("resize"@, ExternalFunction::ListResize),
        ("retain"@, ExternalFunction::ListRetain),
        ("reverse"@, ExternalFunction::ListReverse),
        ("size"@, ExternalFunction::ListSize),
        ("sort"@, ExternalFunction::ListSort),
        ("sort_copy"@, ExternalFunction::ListSortCopy),
        ("to_tuple"@, ExternalFunction::ListToTuple),
        ("transform"@, ExternalFunction::ListTransform),
        ("with_size"@, ExternalFunction::ListWithSize),
    ]
}

/// The module: a map from the names of its functions to the functions.
pub fn make_module() -> (module: ValueMap)
    ensures
        module@.entries == with_functions(seq![], functions()),
        module@.meta.len() == 0,
{
    let mut names: Vec<(&'static str, ExternalFunction)> = Vec::new();
    names.push(("contains", ExternalFunction::ListContains));
    names.push(("fill", ExternalFunction::ListFill));
    names.push(("first", ExternalFunction::ListFirst));
    names.push(("get", ExternalFunction::ListGet));
    names.push(("insert", ExternalFunction::ListInsert));
    names.push(("is_empty", ExternalFunction::ListIsEmpty));
    names.push(("iter", ExternalFunction::ListIter));
    names.push(("last", ExternalFunction::ListLast));
    names.push(("pop", ExternalFunction::ListPop));
    names.push(("push", ExternalFunction::ListPush));
    names.push(("remove", ExternalFunction::ListRemove));
    names.push(("resize", ExternalFunction::ListResize));
    names.push(("retain", ExternalFunction::ListRetain));
    names.push(("reverse", ExternalFunction::ListReverse));
    names.push(("size", ExternalFunction::ListSize));
    names.push(("sort", ExternalFunction::ListSort));
    names.push(("sort_copy", ExternalFunction::ListSortCopy));
    names.push(("to_tuple", ExternalFunction::ListToTuple));
    names.push(("transform", ExternalFunction::ListTransform));
    names.push(("with_size", ExternalFunction::ListWithSize));
    assert(named(names@) =~= functions());
    let mut module = ValueMap::new();
    assert(module@.entries =~= seq![]);
    module.add_functions(&names);
    module
}

} // verus!
