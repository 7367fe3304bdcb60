//! The core library: the functions on lists, maps, ranges and tuples that
//! scripts call.
//!
//! A function takes its arguments as a vector of values. What it does to a
//! list or a map among them, it does to that argument in place. What a
//! function does is stated as its effect: the arguments as it leaves them, and
//! the value that it returns or the message of the error that it fails with.

pub mod help;
pub mod laws;
pub mod list;
pub mod map;
pub mod range;
pub mod tuple;

use crate::runtime::{external_error_text, RuntimeResult};
use crate::sort::take_reversed;
use crate::value::{callable, values_view, ExternalFunction, IntRange, Value, ValueMap, ValueView};
use crate::value_map::with_functions;
use vstd::prelude::*;

verus! {

/// What a call does: the arguments as it leaves them, and its result, which
/// is a value or the message of an error.
pub struct Effect {
    pub args: Seq<ValueView>,
    pub result: Result<ValueView, Seq<char>>,
}

/// The effect of a call that left the arguments `args` and returned `result`.
/// An error of the core library carries no location.
pub open spec fn effect_of(args: Seq<Value>, result: RuntimeResult) -> Effect {
    Effect {
        args: values_view(args),
        result: match result {
            Ok(value) => Ok(value@),
            Err(error) => Err(error.message()),
        },
    }
}

/// The effect of returning `value` and leaving the arguments as they are.
pub open spec fn gives(args: Seq<ValueView>, value: ValueView) -> Effect {
    Effect { args, result: Ok(value) }
}

/// The effect of failing with the message `message` and leaving the arguments as they are.
pub open spec fn fails(args: Seq<ValueView>, message: Seq<char>) -> Effect {
    Effect { args, result: Err(message) }
}

/// Whether a call that left the arguments `args` and returned `result` had
/// the effect `effect`, and failed, if it did, with an error of the host.
pub open spec fn done(args: Seq<Value>, result: RuntimeResult, effect: Effect) -> bool {
    effect_of(args, result) == effect && (result is Err ==> result->Err_0 is ErrorWithoutLocation)
}

/// The list that is the argument at the position `i`, if it is a list.
pub fn list_at(args: &Vec<Value>, i: usize) -> (list: Option<&Vec<Value>>)
    ensures
        list is Some <==> i < args@.len() && values_view(args@)[i as int] is List,
        list is Some ==> args@[i as int] == Value::List(*list->Some_0) && values_view(
            args@,
        )[i as int]->List_0 == values_view(list->Some_0@),
{
    if i < args.len() {
        match &args[i] {
            Value::List(list) => Some(list),
            _ => None,
        }
    } else {
        None
    }
}

/// The tuple that is the argument at the position `i`, if it is a tuple.
pub fn tuple_at(args: &Vec<Value>, i: usize) -> (tuple: Option<&Vec<Value>>)
    ensures
        tuple is Some <==> i < args@.len() && values_view(args@)[i as int] is Tuple,
        tuple is Some ==> args@[i as int] == Value::Tuple(*tuple->Some_0) && values_view(
            args@,
        )[i as int]->Tuple_0 == values_view(tuple->Some_0@),
{
    if i < args.len() {
        match &args[i] {
            Value::Tuple(tuple) => Some(tuple),
            _ => None,
        }
    } else {
        None
    }
}

/// The number that is the argument at the position `i`, if it is a number.
pub fn number_at(args: &Vec<Value>, i: usize) -> (number: Option<u64>)
    ensures
        number is Some <==> i < args@.len() && values_view(args@)[i as int] is Number,
        number is Some ==> values_view(args@)[i as int]->Number_0 == number->Some_0,
{
    if i < args.len() {
        match &args[i] {
            Value::Number(bits) => Some(*bits),
            _ => None,
        }
    } else {
        None
    }
}

/// The range that is the argument at the position `i`, if it is a range.
pub fn range_at(args: &Vec<Value>, i: usize) -> (range: Option<IntRange>)
    ensures
        range is Some <==> i < args@.len() && values_view(args@)[i as int] is Range,
        range is Some ==> values_view(args@)[i as int] == ValueView::Range(
            range->Some_0.start as int,
            range->Some_0.end as int,
        ),
{
    if i < args.len() {
        match &args[i] {
            Value::Range(range) => Some(IntRange { start: range.start, end: range.end }),
            _ => None,
        }
    } else {
        None
    }
}

/// The number of arguments of the function that is the argument at the
/// position `i`, if that is a function of a script.
pub fn arg_count_at(args: &Vec<Value>, i: usize) -> (count: Option<u8>)
    ensures
        count is Some <==> i < args@.len() && values_view(args@)[i as int] is Function,
        count is Some ==> values_view(args@)[i as int]->arg_count == count->Some_0,
{
    if i < args.len() {
        match &args[i] {
            Value::Function(f) => Some(f.arg_count),
            _ => None,
        }
    } else {
        None
    }
}

/// What a call of a function of a script gave: a value, or the message of an error.
pub open spec fn outcome_view(outcome: RuntimeResult) -> Result<ValueView, Seq<char>> {
    match outcome {
        Ok(value) => Ok(value@),
        Err(error) => Err(error.message()),
    }
}

/// What the calls of a function of a script gave, call by call.
pub open spec fn outcomes_view(outcomes: Seq<RuntimeResult>) -> Seq<Result<ValueView, Seq<char>>> {
    Seq::new(outcomes.len(), |i: int| outcome_view(outcomes[i]))
}

/// The map that is the argument at the position `i`, if it is a map.
pub fn map_at(args: &Vec<Value>, i: usize) -> (map: Option<&ValueMap>)
    ensures
        map is Some <==> i < args@.len() && values_view(args@)[i as int] is Mapping,
        map is Some ==> args@[i as int] == Value::Mapping(*map->Some_0) && values_view(
            args@,
        )[i as int]->Mapping_0 == map->Some_0@,
{
    if i < args.len() {
        match &args[i] {
            Value::Mapping(map) => Some(map),
            _ => None,
        }
    } else {
        None
    }
}

/// The string that is the argument at the position `i`, if it is a string.
pub fn str_at(args: &Vec<Value>, i: usize) -> (text: Option<&String>)
    ensures
        text is Some <==> i < args@.len() && values_view(args@)[i as int] is Str,
        text is Some ==> values_view(args@)[i as int]->Str_0 == text->Some_0@,
{
    if i < args.len() {
        match &args[i] {
            Value::Str(text) => Some(text),
            _ => None,
        }
    } else {
        None
    }
}

/// The map that is the first argument, to be changed in place.
pub fn first_map(args: &mut Vec<Value>) -> (map: &mut ValueMap)
    requires
        old(args)@.len() > 0,
        old(args)@[0] is Mapping,
    ensures
        *map == old(args)@[0]->Mapping_0,
        final(args)@ == old(args)@.update(0, Value::Mapping(*final(map))),
        values_view(final(args)@) == values_view(old(args)@).update(
            0,
            ValueView::Mapping(final(map)@),
        ),
{
    proof {
        let ghost before = args@;
        assert forall|after: ValueMap|
            values_view(#[trigger] before.update(0, Value::Mapping(after))) == values_view(
                before,
            ).update(0, ValueView::Mapping(after@)) by {
            assert(values_view(before.update(0, Value::Mapping(after))) =~= values_view(
                before,
            ).update(0, ValueView::Mapping(after@)));
        }
    }
    match &mut args[0] {
        Value::Mapping(map) => map,
        _ => unreached(),
    }
}

/// The list that is the first argument, to be changed in place.
pub fn first_list(args: &mut Vec<Value>) -> (list: &mut Vec<Value>)
    requires
        old(args)@.len() > 0,
        old(args)@[0] is List,
    ensures
        *list == old(args)@[0]->List_0,
        final(args)@ == old(args)@.update(0, Value::List(*final(list))),
        values_view(final(args)@) == values_view(old(args)@).update(
            0,
            ValueView::List(values_view(final(list)@)),
        ),
{
    proof {
        let ghost before = args@;
        assert forall|after: Vec<Value>|
            values_view(#[trigger] before.update(0, Value::List(after))) == values_view(
                before,
            ).update(0, ValueView::List(values_view(after@))) by {
            assert(values_view(before.update(0, Value::List(after))) =~= values_view(
                before,
            ).update(0, ValueView::List(values_view(after@))));
        }
    }
    match &mut args[0] {
        Value::List(list) => list,
        _ => unreached(),
    }
}

/// What the function `function` does to the arguments `args`, where
/// `outcomes` holds what the calls gave that it needs of a function of a
/// script (see `list::retain`, `list::transform`, `map::sort` and `map::update`).
pub open spec fn call_effect(
    function: ExternalFunction,
    args: Seq<ValueView>,
    outcomes: Seq<Result<ValueView, Seq<char>>>,
) -> Effect {
    match function {
        ExternalFunction::ListContains => list::contains_effect(args),
        ExternalFunction::ListFill => list::fill_effect(args),
        ExternalFunction::ListFirst => list::first_effect(args),
        ExternalFunction::ListGet => list::get_effect(args),
        ExternalFunction::ListInsert => list::insert_effect(args),
        ExternalFunction::ListIsEmpty => list::is_empty_effect(args),
        ExternalFunction::ListIter => list::iter_effect(args),
        ExternalFunction::ListLast => list::last_effect(args),
        ExternalFunction::ListPop => list::pop_effect(args),
        ExternalFunction::ListPush => list::push_effect(args),
        ExternalFunction::ListRemove => list::remove_effect(args),
        ExternalFunction::ListResize => list::resize_effect(args),
        ExternalFunction::ListRetain => list::retain_with_effect(args, outcomes),
        ExternalFunction::ListReverse => list::reverse_effect(args),
        ExternalFunction::ListSize => list::size_effect(args),
        ExternalFunction::ListSort => list::sort_effect(args),
        ExternalFunction::ListSortCopy => list::sort_copy_effect(args),
        ExternalFunction::ListToTuple => list::to_tuple_effect(args),
        ExternalFunction::ListTransform => list::transform_effect(args, outcomes),
        ExternalFunction::ListWithSize => list::with_size_effect(args),
        ExternalFunction::MapClear => map::clear_effect(args),
        ExternalFunction::MapContainsKey => map::contains_key_effect(args),
        ExternalFunction::MapCopy => map::copy_effect(args),
        ExternalFunction::MapDeepCopy => map::deep_copy_effect(args),
        ExternalFunction::MapGet => map::get_effect(args),
        ExternalFunction::MapGetIndex => map::get_index_effect(args),
        ExternalFunction::MapHelp => map::help_effect(args),
        ExternalFunction::MapInsert => map::insert_effect(args),
        ExternalFunction::MapIsEmpty => map::is_empty_effect(args),
        ExternalFunction::MapIter => map::iter_effect(args),
        ExternalFunction::MapKeys => map::keys_effect(args),
        ExternalFunction::MapRemove => map::remove_effect(args),
        ExternalFunction::MapSort => map::sort_effect(args, outcomes),
        ExternalFunction::MapSize => map::size_effect(args),
        ExternalFunction::MapUpdate => map::update_effect(args, outcomes[0]),
        ExternalFunction::MapValues => map::values_effect(args),
        ExternalFunction::RangeContains => range::contains_effect(args),
        ExternalFunction::RangeEnd => range::end_effect(args),
        ExternalFunction::RangeIter => range::iter_effect(args),
        ExternalFunction::RangeSize => range::size_effect(args),
        ExternalFunction::RangeStart => range::start_effect(args),
        ExternalFunction::TupleContains => tuple::contains_effect(args),
        ExternalFunction::TupleGet => tuple::get_effect(args),
        ExternalFunction::TupleIter => tuple::iter_effect(args),
        ExternalFunction::TupleSize => tuple::size_effect(args),
        ExternalFunction::TupleToList => tuple::to_list_effect(args),
        ExternalFunction::Host(_) => fails(args, "Not a function of the core library"@),
    }
}

/// Whether `outcomes` holds what the function `function` needs of a
/// function of a script for the arguments `args`: for `list.retain`,
/// `list.transform` and `map.sort` with a function, what it gave for each
/// value or entry in order, up to the first call that ends the work; for
/// `map.update`, what it gave for the one value.
pub open spec fn call_ready(
    function: ExternalFunction,
    args: Seq<ValueView>,
    outcomes: Seq<Result<ValueView, Seq<char>>>,
) -> bool {
    match function {
        ExternalFunction::ListRetain => args.len() == 2 && args[0] is List && args[1] is Function
            && args[1]->arg_count == 1 ==> list::covers(outcomes, args[0]->List_0.len()),
        ExternalFunction::ListTransform => args.len() == 2 && args[0] is List
            && args[1] is Function && args[1]->arg_count == 1 ==> list::covers_calls(
            outcomes,
            args[0]->List_0.len(),
        ),
        ExternalFunction::MapSort => args.len() == 2 && args[0] is Mapping && callable(args[1])
            ==> list::covers_calls(outcomes, args[0]->Mapping_0.entries.len()),
        ExternalFunction::MapUpdate => map::update_fits(args) ==> outcomes.len() >= 1,
        _ => true,
    }
}

impl ExternalFunction {
    /// Calls the function with the arguments `args`.
    pub fn call(self, args: &mut Vec<Value>, outcomes: Vec<RuntimeResult>) -> (result: RuntimeResult)
        requires
            call_ready(self, values_view(old(args)@), outcomes_view(outcomes@)),
        ensures
            effect_of(final(args)@, result) == call_effect(
                self,
                values_view(old(args)@),
                outcomes_view(outcomes@),
            ),
    {
        match self {
            ExternalFunction::ListContains => list::contains(args),
            ExternalFunction::ListFill => list::fill(args),
            ExternalFunction::ListFirst => list::first(args),
            ExternalFunction::ListGet => list::get(args),
            ExternalFunction::ListInsert => list::insert(args),
            ExternalFunction::ListIsEmpty => list::is_empty(args),
            ExternalFunction::ListIter => list::iter(args),
            ExternalFunction::ListLast => list::last(args),
            ExternalFunction::ListPop => list::pop(args),
            ExternalFunction::ListPush => list::push(args),
            ExternalFunction::ListRemove => list::remove(args),
            ExternalFunction::ListResize => list::resize(args),
            ExternalFunction::ListRetain => list::retain(args, outcomes),
            ExternalFunction::ListReverse => list::reverse(args),
            ExternalFunction::ListSize => list::size(args),
            ExternalFunction::ListSort => list::sort(args),
            ExternalFunction::ListSortCopy => list::sort_copy(args),
            ExternalFunction::ListToTuple => list::to_tuple(args),
            ExternalFunction::ListTransform => list::transform(args, outcomes),
            ExternalFunction::ListWithSize => list::with_size(args),
            ExternalFunction::MapClear => map::clear(args),
            ExternalFunction::MapContainsKey => map::contains_key(args),
            ExternalFunction::MapCopy => map::copy(args),
            ExternalFunction::MapDeepCopy => map::deep_copy(args),
            ExternalFunction::MapGet => map::get(args),
            ExternalFunction::MapGetIndex => map::get_index(args),
            ExternalFunction::MapHelp => map::help(args),
            ExternalFunction::MapInsert => map::insert(args),
            ExternalFunction::MapIsEmpty => map::is_empty(args),
            ExternalFunction::MapIter => map::iter(args),
            ExternalFunction::MapKeys => map::keys(args),
            ExternalFunction::MapRemove => map::remove(args),
            ExternalFunction::MapSort => map::sort(args, outcomes),
            ExternalFunction::MapSize => map::size(args),
            ExternalFunction::MapUpdate => {
                let mut rest = outcomes;
                let mut stack = take_reversed(&mut rest);
                match stack.pop() {
                    Some(outcome) => {
                        assert(outcome == outcomes@[0]);
                        map::update(args, outcome)
                    },
                    None => external_error_text(
                        "map.update: Expected map, key, and function as arguments",
                    ),
                }
            },
            ExternalFunction::MapValues => map::values(args),
            ExternalFunction::RangeContains => range::contains(args),
            ExternalFunction::RangeEnd => range::end(args),
            ExternalFunction::RangeIter => range::iter(args),
            ExternalFunction::RangeSize => range::size(args),
            ExternalFunction::RangeStart => range::start(args),
            ExternalFunction::TupleContains => tuple::contains(args),
            ExternalFunction::TupleGet => tuple::get(args),
            ExternalFunction::TupleIter => tuple::iter(args),
            ExternalFunction::TupleSize => tuple::size(args),
            ExternalFunction::TupleToList => tuple::to_list(args),
            ExternalFunction::Host(_) => external_error_text("Not a function of the core library"),
        }
    }
}

/// The modules of the core library.
pub struct CoreLib {
    pub list: ValueMap,
    pub map: ValueMap,
    pub range: ValueMap,
    pub tuple: ValueMap,
}

impl Default for CoreLib {
    fn default() -> (core_lib: Self)
        ensures
            core_lib.list@.entries == with_functions(seq![], list::functions()),
            core_lib.map@.entries == with_functions(seq![], map::functions()),
            core_lib.range@.entries == with_functions(seq![], range::functions()),
            core_lib.tuple@.entries == with_functions(seq![], tuple::functions()),
    {
        Self {
            list: list::make_module(),
            map: map::make_module(),
            range: range::make_module(),
            tuple: tuple::make_module(),
        }
    }
}

} // verus!
