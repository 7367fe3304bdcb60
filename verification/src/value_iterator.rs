//! Walking a range, a list, a tuple or a map, item by item.
//!
//! An iterator holds what it walks: the items that a list or a map had when
//! the iterator was made. It is walked once, from front to back.

use crate::number::{number_from_isize, number_of_int};
use crate::value::{
    copy_entries, copy_values, values_view, IntRange, IteratorView, Value, ValueIterator, ValueMap, ValueView,
};
use vstd::prelude::*;

verus! {

/// What an iterator hands out: a value, or a key with its value.
#[derive(Debug)]
pub enum ValueIteratorOutput {
    Value(Value),
    ValuePair(Value, Value),
}

/// The mathematical value of what an iterator hands out.
pub enum OutputView {
    Value(ValueView),
    ValuePair(ValueView, ValueView),
}

impl View for ValueIteratorOutput {
    type V = OutputView;

    open spec fn view(&self) -> OutputView {
        match self {
            ValueIteratorOutput::Value(value) => OutputView::Value(value@),
            ValueIteratorOutput::ValuePair(key, value) => OutputView::ValuePair(key@, value@),
        }
    }
}

/// What an iterator hands out next, if it has not ended.
pub open spec fn next_output(it: IteratorView) -> Option<OutputView> {
    match it {
        IteratorView::Range { next, end } => if next < end {
            Some(OutputView::Value(ValueView::Number(number_of_int(next))))
        } else {
            None
        },
        IteratorView::Values { items, index } => if index < items.len() {
            Some(OutputView::Value(items[index as int]))
        } else {
            None
        },
        IteratorView::Pairs { entries, index } => if index < entries.len() {
            Some(OutputView::ValuePair(entries[index as int].0, entries[index as int].1))
        } else {
            None
        },
    }
}

/// The iterator after it handed out its next item; an iterator that has
/// ended stays as it is.
pub open spec fn advanced(it: IteratorView) -> IteratorView {
    match it {
        IteratorView::Range { next, end } => if next < end {
            IteratorView::Range { next: next + 1, end }
        } else {
            it
        },
        IteratorView::Values { items, index } => if index < items.len() {
            IteratorView::Values { items, index: index + 1 }
        } else {
            it
        },
        IteratorView::Pairs { entries, index } => if index < entries.len() {
            IteratorView::Pairs { entries, index: index + 1 }
        } else {
            it
        },
    }
}

/// How many items an iterator has yet to hand out.
pub open spec fn remaining(it: IteratorView) -> nat {
    match it {
        IteratorView::Range { next, end } => if next < end {
            (end - next) as nat
        } else {
            0
        },
        IteratorView::Values { items, index } => if index < items.len() {
            (items.len() - index) as nat
        } else {
            0
        },
        IteratorView::Pairs { entries, index } => if index < entries.len() {
            (entries.len() - index) as nat
        } else {
            0
        },
    }
}

/// All that an iterator has yet to hand out, in order.
pub open spec fn outputs(it: IteratorView) -> Seq<OutputView>
    decreases remaining(it),
{
    match next_output(it) {
        None => seq![],
        Some(output) => seq![output] + outputs(advanced(it)),
    }
}

/// An iterator over a map hands out the entries in the order in which the
/// map holds them, which is the order in which the keys were inserted.
pub proof fn lemma_pairs_in_order(entries: Seq<(ValueView, ValueView)>, index: nat)
    requires
        index <= entries.len(),
    ensures
        outputs(IteratorView::Pairs { entries, index }) == Seq::new(
            (entries.len() - index) as nat,
            |i: int| OutputView::ValuePair(entries[index + i].0, entries[index + i].1),
        ),
    decreases entries.len() - index,
{
    let it = IteratorView::Pairs { entries, index };
    if index < entries.len() {
        lemma_pairs_in_order(entries, index + 1);
        assert(advanced(it) == IteratorView::Pairs { entries, index: index + 1 });
        assert(outputs(it) =~= Seq::new(
            (entries.len() - index) as nat,
            |i: int| OutputView::ValuePair(entries[index + i].0, entries[index + i].1),
        ));
    } else {
        assert(outputs(it) =~= Seq::new(
            (entries.len() - index) as nat,
            |i: int| OutputView::ValuePair(entries[index + i].0, entries[index + i].1),
        ));
    }
}

/// An iterator over values hands them out in their order.
pub proof fn lemma_values_in_order(items: Seq<ValueView>, index: nat)
    requires
        index <= items.len(),
    ensures
        outputs(IteratorView::Values { items, index }) == Seq::new(
            (items.len() - index) as nat,
            |i: int| OutputView::Value(items[index + i]),
        ),
    decreases items.len() - index,
{
    let it = IteratorView::Values { items, index };
    if index < items.len() {
        lemma_values_in_order(items, index + 1);
        assert(advanced(it) == IteratorView::Values { items, index: index + 1 });
    }
    assert(outputs(it) =~= Seq::new(
        (items.len() - index) as nat,
        |i: int| OutputView::Value(items[index + i]),
    ));
}

impl ValueIterator {
    /// An iterator over the integers of a range.
    pub fn with_range(range: IntRange) -> (it: ValueIterator)
        ensures
            it@ == (IteratorView::Range { next: range.start as int, end: range.end as int }),
    {
        ValueIterator::Range { next: range.start, end: range.end }
    }

    /// An iterator over the values of a list.
    pub fn with_list(list: &Vec<Value>) -> (it: ValueIterator)
        ensures
            it@ == (IteratorView::Values { items: values_view(list@), index: 0 }),
    {
        ValueIterator::Values { items: copy_values(list), index: 0 }
    }

    /// An iterator over the values of a tuple.
    pub fn with_tuple(tuple: &Vec<Value>) -> (it: ValueIterator)
        ensures
            it@ == (IteratorView::Values { items: values_view(tuple@), index: 0 }),
    {
        ValueIterator::Values { items: copy_values(tuple), index: 0 }
    }

    /// An iterator over the entries of a map.
    pub fn with_map(map: &ValueMap) -> (it: ValueIterator)
        ensures
            it@ == (IteratorView::Pairs { entries: map@.entries, index: 0 }),
    {
        ValueIterator::Pairs { entries: copy_entries(&map.entries), index: 0 }
    }

    /// The next item, or `None` where the iterator has ended.
    pub fn next(&mut self) -> (output: Option<ValueIteratorOutput>)
        ensures
            final(self)@ == advanced(old(self)@),
            output is Some <==> next_output(old(self)@) is Some,
            output is Some ==> Some(output->Some_0@) == next_output(old(self)@),
    {
        match self {
            ValueIterator::Range { next, end } => {
                if *next < *end {
                    let output = Value::Number(number_from_isize(*next));
                    *next = *next + 1;
                    Some(ValueIteratorOutput::Value(output))
                } else {
                    None
                }
            },
            ValueIterator::Values { items, index } => {
                if *index < items.len() {
                    let output = items[*index].clone();
                    *index = *index + 1;
                    Some(ValueIteratorOutput::Value(output))
                } else {
                    None
                }
            },
            ValueIterator::Pairs { entries, index } => {
                if *index < entries.len() {
                    let key = entries[*index].key.clone();
                    let value = entries[*index].value.clone();
                    *index = *index + 1;
                    Some(ValueIteratorOutput::ValuePair(key, value))
                } else {
                    None
                }
            },
        }
    }
}

} // verus!
