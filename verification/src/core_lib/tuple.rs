//! The functions on tuples.

use crate::core_lib::list::{at_index, holds, holds_value};
use crate::core_lib::{done, fails, gives, number_at, tuple_at, Effect};
use crate::number::{number_from_usize, number_is_negative, number_of_nat, number_to_index};
use crate::runtime::{external_error_text, RuntimeResult};
use crate::value::{copy_values, values_view, IteratorView, Value, ValueIterator, ValueView};
use crate::value::{ExternalFunction, ValueMap};
use crate::value_map::{named, with_functions};
use vstd::prelude::*;

verus! {

/// `tuple.contains`: whether a tuple holds a value that is equal to a value.
pub open spec fn contains_effect(args: Seq<ValueView>) -> Effect {
    if args.len() == 2 && args[0] is Tuple {
        gives(args, ValueView::Bool(holds(args[0]->Tuple_0, args[1])))
    } else {
        fails(args, "tuple.contains: Expected tuple and value as arguments"@)
    }
}

pub fn contains(args: &mut Vec<Value>) -> (result: RuntimeResult)
    ensures
        done(final(args)@, result, contains_effect(values_view(old(args)@))),
{
    if args.len() == 2 {
        if let Some(t) = tuple_at(args, 0) {
            return Ok(Value::Bool(holds_value(t, &args[1])));
        }
    }
    external_error_text("tuple.contains: Expected tuple and value as arguments")
}

/// `tuple.get`: the value at an index of a tuple, or `Empty` where the tuple ends before it.
pub open spec fn get_effect(args: Seq<ValueView>) -> Effect {
    if args.len() == 2 && args[0] is Tuple && args[1] is Number {
        at_index(
            args,
            args[0]->Tuple_0,
            args[1]->Number_0,
            "tuple.get: Negative indices aren't allowed"@,
        )
    } else {
        fails(args, "tuple.get: Expected tuple and number as arguments"@)
    }
}

pub fn get(args: &mut Vec<Value>) -> (result: RuntimeResult)
    ensures
        done(final(args)@, result, get_effect(values_view(old(args)@))),
{
    if args.len() == 2 {
        if let (Some(t), Some(n)) = (tuple_at(args, 0), number_at(args, 1)) {
            if number_is_negative(n) {
                return external_error_text("tuple.get: Negative indices aren't allowed");
            }
            let index = number_to_index(n);
            if index < t.len() {
                return Ok(t[index].clone());
            } else {
                return Ok(Value::Empty);
            }
        }
    }
    external_error_text("tuple.get: Expected tuple and number as arguments")
}

/// `tuple.iter`: an iterator over the values of a tuple.
pub open spec fn iter_effect(args: Seq<ValueView>) -> Effect {
    if args.len() == 1 && args[0] is Tuple {
        gives(
            args,
            ValueView::Iterator(IteratorView::Values { items: args[0]->Tuple_0, index: 0 }),
        )
    } else {
        fails(args, "tuple.iter: Expected tuple as argument"@)
    }
}

pub fn iter(args: &mut Vec<Value>) -> (result: RuntimeResult)
    ensures
        done(final(args)@, result, iter_effect(values_view(old(args)@))),
{
    if args.len() == 1 {
        if let Some(t) = tuple_at(args, 0) {
            return Ok(Value::Iterator(ValueIterator::Values { items: copy_values(t), index: 0 }));
        }
    }
    external_error_text("tuple.iter: Expected tuple as argument")
}

/// `tuple.size`: the number of values of a tuple.
pub open spec fn size_effect(args: Seq<ValueView>) -> Effect {
    if args.len() == 1 && args[0] is Tuple {
        gives(args, ValueView::Number(number_of_nat(args[0]->Tuple_0.len())))
    } else {
        fails(args, "tuple.size: Expected tuple as argument"@)
    }
}

pub fn size(args: &mut Vec<Value>) -> (result: RuntimeResult)
    ensures
        done(final(args)@, result, size_effect(values_view(old(args)@))),
{
    if args.len() == 1 {
        if let Some(t) = tuple_at(args, 0) {
            return Ok(Value::Number(number_from_usize(t.len())));
        }
    }
    external_error_text("tuple.size: Expected tuple as argument")
}

/// `tuple.to_list`: a list of the values of a tuple.
pub open spec fn to_list_effect(args: Seq<ValueView>) -> Effect {
    if args.len() == 1 && args[0] is Tuple {
        gives(args, ValueView::List(args[0]->Tuple_0))
    } else {
        fails(args, "tuple.to_list: Expected tuple as argument"@)
    }
}

pub fn to_list(args: &mut Vec<Value>) -> (result: RuntimeResult)
    ensures
        done(final(args)@, result, to_list_effect(values_view(old(args)@))),
{
    if args.len() == 1 {
        if let Some(t) = tuple_at(args, 0) {
            return Ok(Value::List(copy_values(t)));
        }
    }
    external_error_text("tuple.to_list: Expected tuple as argument")
}

/// A tuple that was made into a list and then into a tuple again is the
/// tuple that it was, value by value.
pub proof fn lemma_tuple_round_trip(tuple: Seq<ValueView>)
    ensures
        to_list_effect(seq![ValueView::Tuple(tuple)]).result is Ok,
        crate::core_lib::list::to_tuple_effect(
            seq![to_list_effect(seq![ValueView::Tuple(tuple)]).result->Ok_0],
        ).result == Ok::<ValueView, Seq<char>>(ValueView::Tuple(tuple)),
{
}

/// The functions of the module with their names, in the order in which the
/// module holds them.
pub open spec fn functions() -> Seq<(Seq<char>, ExternalFunction)> {
    seq![
        ("contains"@, ExternalFunction::TupleContains),
        ("get"@, ExternalFunction::TupleGet),
        ("iter"@, ExternalFunction::TupleIter),
        ("size"@, ExternalFunction::TupleSize),
        ("to_list"@, ExternalFunction::TupleToList),
    ]
}

/// The module: a map from the names of its functions to the functions.
pub fn make_module() -> (module: ValueMap)
    ensures
        module@.entries == with_functions(seq![], functions()),
        module@.meta.len() == 0,
{
    let mut names: Vec<(&'static str, ExternalFunction)> = Vec::new();
    names.push(("contains", ExternalFunction::TupleContains));
    names.push(("get", ExternalFunction::TupleGet));
    names.push(("iter", ExternalFunction::TupleIter));
    names.push(("size", ExternalFunction::TupleSize));
    names.push(("to_list", ExternalFunction::TupleToList));
    assert(named(names@) =~= functions());
    let mut module = ValueMap::new();
    assert(module@.entries =~= seq![]);
    module.add_functions(&names);
    module
}

} // verus!
