//! The values of the language.
//!
//! A value is a tree: a list, a tuple or a map owns the values that it holds,
//! so a copy of a value shares nothing with the value that it was made from.
//! A number is held by its bit pattern (see `number`).

use crate::number::{equal, is_nan, numbers_equal};
use vstd::prelude::*;
use vstd::std_specs::cmp::PartialEqSpecImpl;
use vstd::string::*;

verus! {

/// An integer range from `start` up to `end`, which it leaves out.
#[derive(Clone, Copy, Debug, PartialEq, Eq, Structural)]
pub struct IntRange {
    pub start: isize,
    pub end: isize,
}

/// The hooks that a map's meta map can hold.
#[derive(Clone, Copy, Debug, PartialEq, Eq, Structural)]
pub enum MetaKey {
    /// The help text of the map itself.
    SelfHelp,
    /// A map from the names of a module's items to their help texts.
    Help,
    /// The function that is called where a key is not found.
    Access,
    /// The function that is called where the map is indexed.
    Index,
    Add,
    Subtract,
    Multiply,
    Divide,
    Modulo,
    Less,
    LessOrEqual,
    Greater,
    GreaterOrEqual,
    Equal,
    NotEqual,
}

/// The functions that the core library offers to scripts.
#[derive(Clone, Copy, Debug, PartialEq, Eq, Structural)]
pub enum ExternalFunction {
    ListContains,
    ListFill,
    ListFirst,
    ListGet,
    ListInsert,
    ListIsEmpty,
    ListIter,
    ListLast,
    ListPop,
    ListPush,
    ListRemove,
    ListResize,
    ListRetain,
    ListReverse,
    ListSize,
    ListSort,
    ListSortCopy,
    ListToTuple,
    ListTransform,
    ListWithSize,
    MapClear,
    MapContainsKey,
    MapCopy,
    MapDeepCopy,
    MapGet,
    MapGetIndex,
    MapHelp,
    MapInsert,
    MapIsEmpty,
    MapIter,
    MapKeys,
    MapRemove,
    MapSort,
    MapSize,
    MapUpdate,
    MapValues,
    RangeContains,
    RangeEnd,
    RangeIter,
    RangeSize,
    RangeStart,
    TupleContains,
    TupleGet,
    TupleIter,
    TupleSize,
    TupleToList,
    /// A function that the host added, known by the number that the host gave it.
    Host(u64),
}

/// A key of a map with its value.
#[derive(Debug)]
pub struct MapEntry {
    pub key: Value,
    pub value: Value,
}

/// A hook of a map with its value.
#[derive(Debug)]
pub struct MetaEntry {
    pub key: MetaKey,
    pub value: Value,
}

/// A map from keys to values that keeps the order in which the keys were
/// inserted, with a meta map beside it.
#[derive(Debug)]
pub struct ValueMap {
    pub entries: Vec<MapEntry>,
    pub meta: Vec<MetaEntry>,
}

/// A function of a script: where its code starts, what it takes, and the
/// values that it captured when it was made.
#[derive(Debug)]
pub struct RuntimeFunction {
    /// The hash of the constant pool of the chunk that holds the code.
    pub chunk: u64,
    /// The offset of the function's first instruction in the chunk.
    pub ip: usize,
    pub arg_count: u8,
    pub is_instance_function: bool,
    /// One value for each capture.
    pub captures: Vec<Value>,
}

/// A sequence that is handed out item by item, once.
#[derive(Debug)]
pub enum ValueIterator {
    /// The integers from `next` up to `end`, which is left out.
    Range { next: isize, end: isize },
    /// The values of `items` from the position `index` on.
    Values { items: Vec<Value>, index: usize },
    /// The entries of `entries` from the position `index` on.
    Pairs { entries: Vec<MapEntry>, index: usize },
}

/// A value of the language.
#[derive(Debug)]
pub enum Value {
    Empty,
    Bool(bool),
    /// The bit pattern of a 64-bit float.
    Number(u64),
    Str(String),
    Range(IntRange),
    /// The bit patterns of two 64-bit floats.
    Num2(u64, u64),
    /// The bit patterns of four 32-bit floats.
    Num4(u32, u32, u32, u32),
    Tuple(Vec<Value>),
    List(Vec<Value>),
    Mapping(ValueMap),
    Function(RuntimeFunction),
    ExternalFunction(ExternalFunction),
    /// An object of the host, known by the name of its type and by the
    /// handle under which the host keeps it.
    ExternalValue(String, u64),
    Iterator(ValueIterator),
}

/// The mathematical value of a map.
pub struct MapView {
    /// The keys with their values, in the order in which the keys were inserted.
    pub entries: Seq<(ValueView, ValueView)>,
    /// The hooks with their values.
    pub meta: Seq<(MetaKey, ValueView)>,
}

/// The mathematical value of an iterator.
pub enum IteratorView {
    Range { next: int, end: int },
    Values { items: Seq<ValueView>, index: nat },
    Pairs { entries: Seq<(ValueView, ValueView)>, index: nat },
}

/// The mathematical value of a value.
pub enum ValueView {
    Empty,
    Bool(bool),
    Number(u64),
    Str(Seq<char>),
    Range(int, int),
    Num2(u64, u64),
    Num4(u32, u32, u32, u32),
    Tuple(Seq<ValueView>),
    List(Seq<ValueView>),
    Mapping(MapView),
    Function { chunk: u64, ip: nat, arg_count: u8, is_instance_function: bool, captures: Seq<ValueView> },
    ExternalFunction(ExternalFunction),
    ExternalValue(Seq<char>, u64),
    Iterator(IteratorView),
}

/// The mathematical values of a sequence of values.
pub open spec fn values_view(s: Seq<Value>) -> Seq<ValueView>
    decreases s, 0nat,
{
    Seq::new(
        s.len(),
        |i: int|
            if 0 <= i < s.len() {
                value_view(s[i])
            } else {
                ValueView::Empty
            },
    )
}

/// The mathematical values of a sequence of entries.
pub open spec fn entries_view(s: Seq<MapEntry>) -> Seq<(ValueView, ValueView)>
    decreases s, 0nat,
{
    Seq::new(
        s.len(),
        |i: int|
            if 0 <= i < s.len() {
                (value_view(s[i].key), value_view(s[i].value))
            } else {
                (ValueView::Empty, ValueView::Empty)
            },
    )
}

/// The mathematical values of a sequence of hooks.
pub open spec fn meta_view(s: Seq<MetaEntry>) -> Seq<(MetaKey, ValueView)>
    decreases s, 0nat,
{
    Seq::new(
        s.len(),
        |i: int|
            if 0 <= i < s.len() {
                (s[i].key, value_view(s[i].value))
            } else {
                (MetaKey::SelfHelp, ValueView::Empty)
            },
    )
}

pub open spec fn map_view(m: ValueMap) -> MapView
    decreases m, 1nat,
{
    MapView { entries: entries_view(m.entries@), meta: meta_view(m.meta@) }
}

pub open spec fn iterator_view(it: ValueIterator) -> IteratorView
    decreases it, 1nat,
{
    match it {
        ValueIterator::Range { next, end } => IteratorView::Range { next: next as int, end: end as int },
        ValueIterator::Values { items, index } => IteratorView::Values {
            items: values_view(items@),
            index: index as nat,
        },
        ValueIterator::Pairs { entries, index } => IteratorView::Pairs {
            entries: entries_view(entries@),
            index: index as nat,
        },
    }
}

pub open spec fn value_view(v: Value) -> ValueView
    decreases v, 2nat,
{
    match v {
        Value::Empty => ValueView::Empty,
        Value::Bool(b) => ValueView::Bool(b),
        Value::Number(bits) => ValueView::Number(bits),
        Value::Str(s) => ValueView::Str(s@),
        Value::Range(r) => ValueView::Range(r.start as int, r.end as int),
        Value::Num2(a, b) => ValueView::Num2(a, b),
        Value::Num4(a, b, c, d) => ValueView::Num4(a, b, c, d),
        Value::Tuple(t) => ValueView::Tuple(values_view(t@)),
        Value::List(l) => ValueView::List(values_view(l@)),
        Value::Mapping(m) => ValueView::Mapping(map_view(m)),
        Value::Function(f) => ValueView::Function {
            chunk: f.chunk,
            ip: f.ip as nat,
            arg_count: f.arg_count,
            is_instance_function: f.is_instance_function,
            captures: values_view(f.captures@),
        },
        Value::ExternalFunction(f) => ValueView::ExternalFunction(f),
        Value::ExternalValue(name, handle) => ValueView::ExternalValue(name@, handle),
        Value::Iterator(it) => ValueView::Iterator(iterator_view(it)),
    }
}

impl View for Value {
    type V = ValueView;

    open spec fn view(&self) -> ValueView {
        value_view(*self)
    }
}

impl View for ValueMap {
    type V = MapView;

    open spec fn view(&self) -> MapView {
        map_view(*self)
    }
}

impl View for ValueIterator {
    type V = IteratorView;

    open spec fn view(&self) -> IteratorView {
        iterator_view(*self)
    }
}

/// The views of a sequence that grew by a value grow by that value's view.
pub proof fn lemma_values_view_push(s: Seq<Value>, v: Value)
    ensures
        values_view(s.push(v)) == values_view(s).push(v@),
{
    assert(values_view(s.push(v)) =~= values_view(s).push(v@));
}

/// The name of a value's type, as scripts and error messages have it.
pub open spec fn name_of_type(v: ValueView) -> Seq<char> {
    match v {
        ValueView::Empty => "Empty"@,
        ValueView::Bool(_) => "Bool"@,
        ValueView::Number(_) => "Number"@,
        ValueView::Str(_) => "String"@,
        ValueView::Range(_, _) => "Range"@,
        ValueView::Num2(_, _) => "Num2"@,
        ValueView::Num4(_, _, _, _) => "Num4"@,
        ValueView::Tuple(_) => "Tuple"@,
        ValueView::List(_) => "List"@,
        ValueView::Mapping(_) => "Map"@,
        ValueView::Function { .. } => "Function"@,
        ValueView::ExternalFunction(_) => "ExternalFunction"@,
        ValueView::ExternalValue(name, _) => name,
        ValueView::Iterator(_) => "Iterator"@,
    }
}

/// Whether a value can never change: the plain values, and a tuple of such.
/// Only these can be keys of a map.
pub open spec fn immutable(v: ValueView) -> bool
    decreases v,
{
    match v {
        ValueView::Empty => true,
        ValueView::Bool(_) => true,
        ValueView::Number(_) => true,
        ValueView::Str(_) => true,
        ValueView::Range(_, _) => true,
        ValueView::Num2(_, _) => true,
        ValueView::Num4(_, _, _, _) => true,
        ValueView::Tuple(t) => forall|i: int| 0 <= i < t.len() ==> immutable(#[trigger] t[i]),
        _ => false,
    }
}

/// A tuple can never change where none of its values can.
pub proof fn lemma_immutable_tuple(views: Seq<ValueView>)
    ensures
        immutable(ValueView::Tuple(views)) == (forall|j: int|
            0 <= j < views.len() ==> immutable(#[trigger] views[j])),
{
    let t = ValueView::Tuple(views);
    assert(t->Tuple_0 == views);
}

/// Whether a value can be called.
pub open spec fn callable(v: ValueView) -> bool {
    v is Function || v is ExternalFunction
}

pub fn type_as_string(value: &Value) -> (name: String)
    ensures
        name@ == name_of_type(value@),
{
    match value {
        Value::Empty => String::from_str("Empty"),
        Value::Bool(_) => String::from_str("Bool"),
        Value::Number(_) => String::from_str("Number"),
        Value::Str(_) => String::from_str("String"),
        Value::Range(_) => String::from_str("Range"),
        Value::Num2(_, _) => String::from_str("Num2"),
        Value::Num4(_, _, _, _) => String::from_str("Num4"),
        Value::Tuple(_) => String::from_str("Tuple"),
        Value::List(_) => String::from_str("List"),
        Value::Mapping(_) => String::from_str("Map"),
        Value::Function(_) => String::from_str("Function"),
        Value::ExternalFunction(_) => String::from_str("ExternalFunction"),
        Value::ExternalValue(name, _) => name.clone(),
        Value::Iterator(_) => String::from_str("Iterator"),
    }
}

pub fn value_is_immutable(value: &Value) -> (result: bool)
    ensures
        result == immutable(value@),
    decreases value,
{
    match value {
        Value::Empty
        | Value::Bool(_)
        | Value::Number(_)
        | Value::Str(_)
        | Value::Range(_)
        | Value::Num2(_, _)
        | Value::Num4(_, _, _, _) => true,
        Value::Tuple(t) => {
            let mut i: usize = 0;
            while i < t.len()
                invariant
                    i <= t@.len(),
                    decreases_to!(value => t),
                    value@ == ValueView::Tuple(values_view(t@)),
                    forall|j: int| 0 <= j < i ==> immutable(#[trigger] values_view(t@)[j]),
                decreases t@.len() - i,
            {
                if !value_is_immutable(&t[i]) {
                    proof {
                        lemma_immutable_tuple(values_view(t@));
                        assert(!immutable(values_view(t@)[i as int]));
                    }
                    return false;
                }
                i += 1;
            }
            proof {
                lemma_immutable_tuple(values_view(t@));
            }
            true
        },
        _ => false,
    }
}

impl Value {
    pub fn is_immutable(&self) -> (result: bool)
        ensures
            result == immutable(self@),
    {
        value_is_immutable(self)
    }

    pub fn is_callable(&self) -> (result: bool)
        ensures
            result == callable(self@),
    {
        matches!(self, Value::Function(_) | Value::ExternalFunction(_))
    }

    pub fn type_as_string(&self) -> (name: String)
        ensures
            name@ == name_of_type(self@),
    {
        type_as_string(self)
    }
}

/// Whether two 32-bit floats, given by their bit patterns, are equal: NaN
/// equals nothing, and the two zeros are equal.
pub open spec fn equal32(a: u32, b: u32) -> bool {
    let nan_a = (a / 0x80_0000) % 256 == 255 && a % 0x80_0000 != 0;
    let nan_b = (b / 0x80_0000) % 256 == 255 && b % 0x80_0000 != 0;
    !nan_a && !nan_b && (a == b || (a % 0x8000_0000 == 0 && b % 0x8000_0000 == 0))
}

fn numbers_equal32(a: u32, b: u32) -> (result: bool)
    ensures
        result == equal32(a, b),
{
    let nan_a = (a / 0x80_0000) % 256 == 255 && a % 0x80_0000 != 0;
    let nan_b = (b / 0x80_0000) % 256 == 255 && b % 0x80_0000 != 0;
    !nan_a && !nan_b && (a == b || (a % 0x8000_0000 == 0 && b % 0x8000_0000 == 0))
}

/// Whether two values are equal, as `==` has it in a script. Numbers are
/// compared as numbers, so that NaN equals nothing. Lists and tuples are equal
/// where their values are, position by position; maps where they have equal
/// values under the same keys in the same order. All other values are equal
/// where they are the same.
pub open spec fn values_equal(a: ValueView, b: ValueView) -> bool
    decreases a,
{
    match a {
        ValueView::Number(x) => b is Number && equal(x, b->Number_0),
        ValueView::Num2(x0, x1) => b is Num2 && equal(x0, b->Num2_0) && equal(x1, b->Num2_1),
        ValueView::Num4(x0, x1, x2, x3) => b is Num4 && equal32(x0, b->Num4_0) && equal32(
            x1,
            b->Num4_1,
        ) && equal32(x2, b->Num4_2) && equal32(x3, b->Num4_3),
        ValueView::Tuple(x) => b is Tuple && x.len() == b->Tuple_0.len() && forall|i: int|
            0 <= i < x.len() ==> values_equal(#[trigger] x[i], b->Tuple_0[i]),
        ValueView::List(x) => b is List && x.len() == b->List_0.len() && forall|i: int|
            0 <= i < x.len() ==> values_equal(#[trigger] x[i], b->List_0[i]),
        ValueView::Mapping(x) => b is Mapping && x.entries.len() == b->Mapping_0.entries.len()
            && forall|i: int|
            0 <= i < x.entries.len() ==> (#[trigger] x.entries[i]).0 == b->Mapping_0.entries[i].0
                && values_equal(x.entries[i].1, b->Mapping_0.entries[i].1),
        _ => a == b,
    }
}

/// Whether the values of two sequences are equal, position by position.
pub open spec fn sequences_equal(x: Seq<ValueView>, y: Seq<ValueView>) -> bool {
    x.len() == y.len() && forall|i: int| 0 <= i < x.len() ==> values_equal(#[trigger] x[i], y[i])
}

/// Whether two sequences of entries have the same keys and equal values,
/// position by position.
pub open spec fn entries_equal(
    x: Seq<(ValueView, ValueView)>,
    y: Seq<(ValueView, ValueView)>,
) -> bool {
    x.len() == y.len() && forall|i: int|
        0 <= i < x.len() ==> (#[trigger] x[i]).0 == y[i].0 && values_equal(x[i].1, y[i].1)
}

/// How the equality of lists, tuples and maps comes from that of their values.
pub proof fn lemma_values_equal_composite(a: ValueView, b: ValueView)
    ensures
        a is Tuple ==> values_equal(a, b) == (b is Tuple && sequences_equal(
            a->Tuple_0,
            b->Tuple_0,
        )),
        a is List ==> values_equal(a, b) == (b is List && sequences_equal(a->List_0, b->List_0)),
        a is Mapping ==> values_equal(a, b) == (b is Mapping && entries_equal(
            a->Mapping_0.entries,
            b->Mapping_0.entries,
        )),
{
}

/// Whether two sequences of values are the same, value by value.
fn sequences_identical(x: &Vec<Value>, y: &Vec<Value>) -> (result: bool)
    ensures
        result == (values_view(x@) == values_view(y@)),
    decreases x, 0nat,
{
    if x.len() != y.len() {
        assert(values_view(x@).len() != values_view(y@).len());
        return false;
    }
    let mut i: usize = 0;
    while i < x.len()
        invariant
            x@.len() == y@.len(),
            i <= x@.len(),
            forall|j: int| 0 <= j < i ==> x@[j]@ == y@[j]@,
        decreases x@.len() - i,
    {
        if !identical(&x[i], &y[i]) {
            assert(values_view(x@)[i as int] != values_view(y@)[i as int]);
            return false;
        }
        i += 1;
    }
    assert(values_view(x@) =~= values_view(y@));
    true
}

/// Whether two values are the same: whether they have the same mathematical
/// value. Numbers are compared by their bit patterns. This is how a map tells
/// its keys apart.
pub fn identical(a: &Value, b: &Value) -> (result: bool)
    ensures
        result == (a@ == b@),
    decreases a, 1nat,
{
    match a {
        Value::Empty => matches!(b, Value::Empty),
        Value::Bool(x) => match b {
            Value::Bool(y) => *x == *y,
            _ => false,
        },
        Value::Number(x) => match b {
            Value::Number(y) => *x == *y,
            _ => false,
        },
        Value::Str(x) => match b {
            Value::Str(y) => *x == *y,
            _ => false,
        },
        Value::Range(x) => match b {
            Value::Range(y) => x.start == y.start && x.end == y.end,
            _ => false,
        },
        Value::Num2(x0, x1) => match b {
            Value::Num2(y0, y1) => *x0 == *y0 && *x1 == *y1,
            _ => false,
        },
        Value::Num4(x0, x1, x2, x3) => match b {
            Value::Num4(y0, y1, y2, y3) => *x0 == *y0 && *x1 == *y1 && *x2 == *y2 && *x3 == *y3,
            _ => false,
        },
        Value::Tuple(x) => match b {
            Value::Tuple(y) => sequences_identical(x, y),
            _ => false,
        },
        Value::List(x) => match b {
            Value::List(y) => sequences_identical(x, y),
            _ => false,
        },
        Value::Mapping(x) => match b {
            Value::Mapping(y) => entries_identical(&x.entries, &y.entries) && meta_identical(
                &x.meta,
                &y.meta,
            ),
            _ => false,
        },
        Value::Function(x) => match b {
            Value::Function(y) => x.chunk == y.chunk && x.ip == y.ip && x.arg_count == y.arg_count
                && x.is_instance_function == y.is_instance_function && sequences_identical(
                &x.captures,
                &y.captures,
            ),
            _ => false,
        },
        Value::ExternalFunction(x) => match b {
            Value::ExternalFunction(y) => *x == *y,
            _ => false,
        },
        Value::ExternalValue(x, h) => match b {
            Value::ExternalValue(y, k) => *x == *y && *h == *k,
            _ => false,
        },
        Value::Iterator(x) => match b {
            Value::Iterator(y) => match x {
                ValueIterator::Range { next, end } => match y {
                    ValueIterator::Range { next: n, end: e } => *next == *n && *end == *e,
                    _ => false,
                },
                ValueIterator::Values { items, index } => match y {
                    ValueIterator::Values { items: other, index: at } => *index == *at
                        && sequences_identical(items, other),
                    _ => false,
                },
                ValueIterator::Pairs { entries, index } => match y {
                    ValueIterator::Pairs { entries: other, index: at } => *index == *at
                        && entries_identical(entries, other),
                    _ => false,
                },
            },
            _ => false,
        },
    }
}

/// Whether two sequences of entries are the same, entry by entry.
fn entries_identical(x: &Vec<MapEntry>, y: &Vec<MapEntry>) -> (result: bool)
    ensures
        result == (entries_view(x@) == entries_view(y@)),
    decreases x, 0nat,
{
    if x.len() != y.len() {
        assert(entries_view(x@).len() != entries_view(y@).len());
        return false;
    }
    let mut i: usize = 0;
    while i < x.len()
        invariant
            x@.len() == y@.len(),
            i <= x@.len(),
            forall|j: int| 0 <= j < i ==> x@[j].key@ == y@[j].key@ && x@[j].value@ == y@[j].value@,
        decreases x@.len() - i,
    {
        assert(decreases_to!(x => x[i as int]));
        if !identical(&x[i].key, &y[i].key) || !identical(&x[i].value, &y[i].value) {
            assert(entries_view(x@)[i as int] != entries_view(y@)[i as int]);
            return false;
        }
        i += 1;
    }
    assert(entries_view(x@) =~= entries_view(y@));
    true
}

/// Whether two sequences of hooks are the same, hook by hook.
fn meta_identical(x: &Vec<MetaEntry>, y: &Vec<MetaEntry>) -> (result: bool)
    ensures
        result == (meta_view(x@) == meta_view(y@)),
    decreases x, 0nat,
{
    if x.len() != y.len() {
        assert(meta_view(x@).len() != meta_view(y@).len());
        return false;
    }
    let mut i: usize = 0;
    while i < x.len()
        invariant
            x@.len() == y@.len(),
            i <= x@.len(),
            forall|j: int| 0 <= j < i ==> x@[j].key == y@[j].key && x@[j].value@ == y@[j].value@,
        decreases x@.len() - i,
    {
        assert(decreases_to!(x => x[i as int]));
        if x[i].key != y[i].key || !identical(&x[i].value, &y[i].value) {
            assert(meta_view(x@)[i as int] != meta_view(y@)[i as int]);
            return false;
        }
        i += 1;
    }
    assert(meta_view(x@) =~= meta_view(y@));
    true
}

/// Whether two sequences of entries have the same keys and equal values.
fn entries_equal_exec(x: &Vec<MapEntry>, y: &Vec<MapEntry>) -> (result: bool)
    ensures
        result == entries_equal(entries_view(x@), entries_view(y@)),
    decreases x, 0nat,
{
    if x.len() != y.len() {
        return false;
    }
    let mut i: usize = 0;
    while i < x.len()
        invariant
            x@.len() == y@.len(),
            i <= x@.len(),
            forall|j: int|
                0 <= j < i ==> (#[trigger] entries_view(x@)[j]).0 == entries_view(y@)[j].0
                    && values_equal(entries_view(x@)[j].1, entries_view(y@)[j].1),
        decreases x@.len() - i,
    {
        assert(decreases_to!(x => x[i as int]));
        if !identical(&x[i].key, &y[i].key) || !equals(&x[i].value, &y[i].value) {
            assert(entries_view(x@)[i as int].0 == x@[i as int].key@);
            assert(entries_view(y@)[i as int].0 == y@[i as int].key@);
            return false;
        }
        i += 1;
    }
    true
}

/// Whether the values of two sequences are equal, position by position.
fn sequences_equal_exec(x: &Vec<Value>, y: &Vec<Value>) -> (result: bool)
    ensures
        result == sequences_equal(values_view(x@), values_view(y@)),
    decreases x, 0nat,
{
    if x.len() != y.len() {
        return false;
    }
    let mut i: usize = 0;
    while i < x.len()
        invariant
            x@.len() == y@.len(),
            i <= x@.len(),
            forall|j: int|
                0 <= j < i ==> values_equal(#[trigger] values_view(x@)[j], values_view(y@)[j]),
        decreases x@.len() - i,
    {
        if !equals(&x[i], &y[i]) {
            assert(!values_equal(values_view(x@)[i as int], values_view(y@)[i as int]));
            return false;
        }
        i += 1;
    }
    true
}

/// Whether two values are equal, as `==` has it in a script.
pub fn equals(a: &Value, b: &Value) -> (result: bool)
    ensures
        result == values_equal(a@, b@),
    decreases a, 1nat,
{
    proof {
        lemma_values_equal_composite(a@, b@);
    }
    match a {
        Value::Number(x) => match b {
            Value::Number(y) => numbers_equal(*x, *y),
            _ => false,
        },
        Value::Num2(x0, x1) => match b {
            Value::Num2(y0, y1) => numbers_equal(*x0, *y0) && numbers_equal(*x1, *y1),
            _ => false,
        },
        Value::Num4(x0, x1, x2, x3) => match b {
            Value::Num4(y0, y1, y2, y3) => numbers_equal32(*x0, *y0) && numbers_equal32(*x1, *y1)
                && numbers_equal32(*x2, *y2) && numbers_equal32(*x3, *y3),
            _ => false,
        },
        Value::Tuple(x) => match b {
            Value::Tuple(y) => sequences_equal_exec(x, y),
            _ => false,
        },
        Value::List(x) => match b {
            Value::List(y) => sequences_equal_exec(x, y),
            _ => false,
        },
        Value::Mapping(x) => match b {
            Value::Mapping(y) => entries_equal_exec(&x.entries, &y.entries),
            _ => false,
        },
        _ => identical(a, b),
    }
}

/// A copy of each value of a sequence.
pub fn copy_values(values: &Vec<Value>) -> (copy: Vec<Value>)
    ensures
        values_view(copy@) == values_view(values@),
    decreases values, 0nat,
{
    let mut copy: Vec<Value> = Vec::new();
    let mut i: usize = 0;
    while i < values.len()
        invariant
            i <= values@.len(),
            copy@.len() == i,
            forall|j: int| 0 <= j < i ==> copy@[j]@ == values@[j]@,
        decreases values@.len() - i,
    {
        copy.push(deep_copy(&values[i]));
        i += 1;
    }
    assert(values_view(copy@) =~= values_view(values@));
    copy
}

/// A copy of each entry of a sequence.
pub fn copy_entries(entries: &Vec<MapEntry>) -> (copy: Vec<MapEntry>)
    ensures
        entries_view(copy@) == entries_view(entries@),
    decreases entries, 0nat,
{
    let mut copy: Vec<MapEntry> = Vec::new();
    let mut i: usize = 0;
    while i < entries.len()
        invariant
            i <= entries@.len(),
            copy@.len() == i,
            forall|j: int|
                0 <= j < i ==> copy@[j].key@ == entries@[j].key@ && copy@[j].value@
                    == entries@[j].value@,
        decreases entries@.len() - i,
    {
        assert(decreases_to!(entries => entries[i as int]));
        let key = deep_copy(&entries[i].key);
        let value = deep_copy(&entries[i].value);
        copy.push(MapEntry { key, value });
        i += 1;
    }
    assert(entries_view(copy@) =~= entries_view(entries@));
    copy
}

/// A copy of each hook of a sequence.
fn copy_meta(meta: &Vec<MetaEntry>) -> (copy: Vec<MetaEntry>)
    ensures
        meta_view(copy@) == meta_view(meta@),
    decreases meta, 0nat,
{
    let mut copy: Vec<MetaEntry> = Vec::new();
    let mut i: usize = 0;
    while i < meta.len()
        invariant
            i <= meta@.len(),
            copy@.len() == i,
            forall|j: int|
                0 <= j < i ==> copy@[j].key == meta@[j].key && copy@[j].value@ == meta@[j].value@,
        decreases meta@.len() - i,
    {
        assert(decreases_to!(meta => meta[i as int]));
        let value = deep_copy(&meta[i].value);
        copy.push(MetaEntry { key: meta[i].key, value });
        i += 1;
    }
    assert(meta_view(copy@) =~= meta_view(meta@));
    copy
}

/// A copy of a value and of all that it holds. Nothing that is done to the
/// copy changes the value, nor the other way round. The copy is the same as
/// the value, and equal to it unless the value holds a NaN, which equals nothing.
pub fn deep_copy(value: &Value) -> (copy: Value)
    ensures
        copy@ == value@,
        free_of_nan(value@) ==> values_equal(copy@, value@),
    decreases value, 1nat,
{
    proof {
        if free_of_nan(value@) {
            lemma_equal_to_itself(value@);
        }
    }
    match value {
        Value::Empty => Value::Empty,
        Value::Bool(b) => Value::Bool(*b),
        Value::Number(bits) => Value::Number(*bits),
        Value::Str(s) => Value::Str(s.clone()),
        Value::Range(r) => Value::Range(IntRange { start: r.start, end: r.end }),
        Value::Num2(a, b) => Value::Num2(*a, *b),
        Value::Num4(a, b, c, d) => Value::Num4(*a, *b, *c, *d),
        Value::Tuple(t) => Value::Tuple(copy_values(t)),
        Value::List(l) => Value::List(copy_values(l)),
        Value::Mapping(m) => Value::Mapping(
            ValueMap { entries: copy_entries(&m.entries), meta: copy_meta(&m.meta) },
        ),
        Value::Function(f) => Value::Function(
            RuntimeFunction {
                chunk: f.chunk,
                ip: f.ip,
                arg_count: f.arg_count,
                is_instance_function: f.is_instance_function,
                captures: copy_values(&f.captures),
            },
        ),
        Value::ExternalFunction(f) => Value::ExternalFunction(*f),
        Value::ExternalValue(name, handle) => Value::ExternalValue(name.clone(), *handle),
        Value::Iterator(it) => Value::Iterator(
            match it {
                ValueIterator::Range { next, end } => ValueIterator::Range { next: *next, end: *end },
                ValueIterator::Values { items, index } => ValueIterator::Values {
                    items: copy_values(items),
                    index: *index,
                },
                ValueIterator::Pairs { entries, index } => ValueIterator::Pairs {
                    entries: copy_entries(entries),
                    index: *index,
                },
            },
        ),
    }
}

impl Clone for Value {
    /// A deep copy.
    fn clone(&self) -> (copy: Self)
        ensures
            copy@ == self@,
    {
        deep_copy(self)
    }
}

impl Clone for ValueMap {
    fn clone(&self) -> (copy: Self)
        ensures
            copy@ == self@,
    {
        ValueMap { entries: copy_entries(&self.entries), meta: copy_meta(&self.meta) }
    }
}

impl PartialEq for Value {
    /// Equality as `==` has it in a script.
    fn eq(&self, other: &Self) -> (result: bool) {
        equals(self, other)
    }
}

impl PartialEqSpecImpl for Value {
    open spec fn obeys_eq_spec() -> bool {
        true
    }

    open spec fn eq_spec(&self, other: &Self) -> bool {
        values_equal(self@, other@)
    }
}

/// Whether a value holds no NaN, as a number or in a list, a tuple or a
/// value of a map, however deep.
pub open spec fn free_of_nan(v: ValueView) -> bool
    decreases v,
{
    match v {
        ValueView::Number(x) => !is_nan(x),
        ValueView::Num2(x0, x1) => !is_nan(x0) && !is_nan(x1),
        ValueView::Num4(x0, x1, x2, x3) => equal32(x0, x0) && equal32(x1, x1) && equal32(x2, x2)
            && equal32(x3, x3),
        ValueView::Tuple(x) => forall|i: int| 0 <= i < x.len() ==> free_of_nan(#[trigger] x[i]),
        ValueView::List(x) => forall|i: int| 0 <= i < x.len() ==> free_of_nan(#[trigger] x[i]),
        ValueView::Mapping(x) => forall|i: int|
            0 <= i < x.entries.len() ==> free_of_nan((#[trigger] x.entries[i]).1),
        _ => true,
    }
}

/// A value that holds no NaN is equal to itself, and so to each of its copies.
pub proof fn lemma_equal_to_itself(v: ValueView)
    requires
        free_of_nan(v),
    ensures
        values_equal(v, v),
    decreases v,
{
    match v {
        ValueView::Tuple(x) => {
            assert forall|i: int| 0 <= i < x.len() implies values_equal(#[trigger] x[i], x[i]) by {
                lemma_equal_to_itself(x[i]);
            }
        },
        ValueView::List(x) => {
            assert forall|i: int| 0 <= i < x.len() implies values_equal(#[trigger] x[i], x[i]) by {
                lemma_equal_to_itself(x[i]);
            }
        },
        ValueView::Mapping(x) => {
            assert forall|i: int| 0 <= i < x.entries.len() implies values_equal(
                (#[trigger] x.entries[i]).1,
                x.entries[i].1,
            ) by {
                lemma_equal_to_itself(x.entries[i].1);
            }
        },
        _ => {},
    }
}

} // verus!
