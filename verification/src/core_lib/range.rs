//! The functions on ranges.

use crate::core_lib::{done, fails, gives, number_at, range_at, Effect};
use crate::number::{
    ceiling, equal, less, number_ceiling, number_from_difference, number_from_isize, number_less,
    number_of_int, numbers_equal,
};
use crate::runtime::{external_error_text, RuntimeResult};
use crate::value::{values_view, IteratorView, Value, ValueIterator, ValueView};
use crate::value::{ExternalFunction, ValueMap};
use crate::value_map::{named, with_functions};
use vstd::prelude::*;

verus! {

/// Whether the number `n` lies in the range from `start` to `end`: whether
/// it is not below `start`, and the least whole number that is not below it
/// is below `end`. The bounds are taken as the numbers nearest to them.
pub open spec fn in_range(start: int, end: int, n: u64) -> bool {
    (less(number_of_int(start), n) || equal(number_of_int(start), n)) && less(
        ceiling(n),
        number_of_int(end),
    )
}

/// `range.contains`: whether a number lies in a range.
pub open spec fn contains_effect(args: Seq<ValueView>) -> Effect {
    if args.len() == 2 && args[0] is Range && args[1] is Number {
        gives(
            args,
            ValueView::Bool(in_range(args[0]->Range_0, args[0]->Range_1, args[1]->Number_0)),
        )
    } else {
        fails(args, "range.contains: Expected range and number as arguments"@)
    }
}

pub fn contains(args: &mut Vec<Value>) -> (result: RuntimeResult)
    ensures
        done(final(args)@, result, contains_effect(values_view(old(args)@))),
{
    if args.len() == 2 {
        if let (Some(r), Some(n)) = (range_at(args, 0), number_at(args, 1)) {
            let start = number_from_isize(r.start);
            let end = number_from_isize(r.end);
            let inside = (number_less(start, n) || numbers_equal(start, n)) && number_less(
                number_ceiling(n),
                end,
            );
            return Ok(Value::Bool(inside));
        }
    }
    external_error_text("range.contains: Expected range and number as arguments")
}

/// `range.end`: the end of a range.
pub open spec fn end_effect(args: Seq<ValueView>) -> Effect {
    if args.len() == 1 && args[0] is Range {
        gives(args, ValueView::Number(number_of_int(args[0]->Range_1)))
    } else {
        fails(args, "range.end: Expected range as argument"@)
    }
}

pub fn end(args: &mut Vec<Value>) -> (result: RuntimeResult)
    ensures
        done(final(args)@, result, end_effect(values_view(old(args)@))),
{
    if args.len() == 1 {
        if let Some(r) = range_at(args, 0) {
            return Ok(Value::Number(number_from_isize(r.end)));
        }
    }
    external_error_text("range.end: Expected range as argument")
}

/// `range.iter`: an iterator over the integers of a range.
pub open spec fn iter_effect(args: Seq<ValueView>) -> Effect {
    if args.len() == 1 && args[0] is Range {
        gives(
            args,
            ValueView::Iterator(
                IteratorView::Range { next: args[0]->Range_0, end: args[0]->Range_1 },
            ),
        )
    } else {
        fails(args, "range.iter: Expected range as argument"@)
    }
}

pub fn iter(args: &mut Vec<Value>) -> (result: RuntimeResult)
    ensures
        done(final(args)@, result, iter_effect(values_view(old(args)@))),
{
    if args.len() == 1 {
        if let Some(r) = range_at(args, 0) {
            return Ok(Value::Iterator(ValueIterator::Range { next: r.start, end: r.end }));
        }
    }
    external_error_text("range.iter: Expected range as argument")
}

/// `range.size`: the end of a range less its start.
pub open spec fn size_effect(args: Seq<ValueView>) -> Effect {
    if args.len() == 1 && args[0] is Range {
        gives(args, ValueView::Number(number_of_int(args[0]->Range_1 - args[0]->Range_0)))
    } else {
        fails(args, "range.size: Expected range as argument"@)
    }
}

pub fn size(args: &mut Vec<Value>) -> (result: RuntimeResult)
    ensures
        done(final(args)@, result, size_effect(values_view(old(args)@))),
{
    if args.len() == 1 {
        if let Some(r) = range_at(args, 0) {
            return Ok(Value::Number(number_from_difference(r.end, r.start)));
        }
    }
    external_error_text("range.size: Expected range as argument")
}

/// `range.start`: the start of a range.
pub open spec fn start_effect(args: Seq<ValueView>) -> Effect {
    if args.len() == 1 && args[0] is Range {
        gives(args, ValueView::Number(number_of_int(args[0]->Range_0)))
    } else {
        fails(args, "range.start: Expected range as argument"@)
    }
}

pub fn start(args: &mut Vec<Value>) -> (result: RuntimeResult)
    ensures
        done(final(args)@, result, start_effect(values_view(old(args)@))),
{
    if args.len() == 1 {
        if let Some(r) = range_at(args, 0) {
            return Ok(Value::Number(number_from_isize(r.start)));
        }
    }
    external_error_text("range.start: Expected range as argument")
}

/// The functions of the module with their names, in the order in which the
/// module holds them.
pub open spec fn functions() -> Seq<(Seq<char>, ExternalFunction)> {
    seq![
        ("contains"@, ExternalFunction::RangeContains),
        ("end"@, ExternalFunction::RangeEnd),
        ("iter"@, ExternalFunction::RangeIter),
        ("size"@, ExternalFunction::RangeSize),
        ("start"@, ExternalFunction::RangeStart),
    ]
}

/// The module: a map from the names of its functions to the functions.
pub fn make_module() -> (module: ValueMap)
    ensures
        module@.entries == with_functions(seq![], functions()),
        module@.meta.len() == 0,
{
    let mut names: Vec<(&'static str, ExternalFunction)> = Vec::new();
    names.push(("contains", ExternalFunction::RangeContains));
    names.push(("end", ExternalFunction::RangeEnd));
    names.push(("iter", ExternalFunction::RangeIter));
    names.push(("size", ExternalFunction::RangeSize));
    names.push(("start", ExternalFunction::RangeStart));
    assert(named(names@) =~= functions());
    let mut module = ValueMap::new();
    assert(module@.entries =~= seq![]);
    module.add_functions(&names);
    module
}

} // verus!
