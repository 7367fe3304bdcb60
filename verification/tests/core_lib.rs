use koto_core::core_lib::{list, range, tuple, CoreLib};
use koto_core::runtime::{Error, RuntimeResult};
use koto_core::value::{
    deep_copy, equals, identical, ExternalFunction, IntRange, MetaKey, RuntimeFunction, Value,
    ValueIterator, ValueMap,
};
use koto_core::value_iterator::ValueIteratorOutput;

fn number(x: f64) -> Value {
    Value::Number(x.to_bits())
}

fn text(s: &str) -> Value {
    Value::Str(s.to_string())
}

fn numbers(xs: &[f64]) -> Value {
    Value::List(xs.iter().map(|x| number(*x)).collect())
}

fn function(arg_count: u8) -> Value {
    Value::Function(RuntimeFunction {
        chunk: 0,
        ip: 0,
        arg_count,
        is_instance_function: false,
        captures: vec![],
    })
}

fn message(result: RuntimeResult) -> String {
    match result {
        Err(Error::ErrorWithoutLocation { message }) => message,
        other => panic!("expected an error of the host, found {:?}", other),
    }
}

fn value(result: RuntimeResult) -> Value {
    match result {
        Ok(value) => value,
        Err(error) => panic!("{}", error.to_string()),
    }
}

fn sample_map() -> Value {
    let mut m = ValueMap::new();
    m.add_value("a", number(1.0));
    m.add_value("b", number(2.0));
    Value::Mapping(m)
}

fn keys_of(m: &Value) -> Vec<Value> {
    match m {
        Value::Mapping(m) => m.entries.iter().map(|e| e.key.clone()).collect(),
        _ => panic!("not a map"),
    }
}

#[test]
fn list_push_then_size() {
    let mut args = vec![numbers(&[1.0, 2.0, 3.0]), number(4.0)];
    assert_eq!(value(list::push(&mut args)), Value::Empty);
    assert_eq!(args[0], numbers(&[1.0, 2.0, 3.0, 4.0]));
    let mut args = vec![args.remove(0)];
    assert_eq!(value(list::size(&mut args)), number(4.0));
    assert_eq!(value(list::is_empty(&mut args)), Value::Bool(false));
}

#[test]
fn list_is_empty_where_size_is_zero() {
    for l in [numbers(&[]), numbers(&[1.0]), numbers(&[1.0, 2.0])] {
        let mut args = vec![l];
        let empty = value(list::is_empty(&mut args));
        let size = value(list::size(&mut args));
        assert_eq!(empty, Value::Bool(size == number(0.0)));
    }
    for m in [Value::Mapping(ValueMap::new()), sample_map()] {
        let mut args = vec![m];
        let empty = value(koto_core::core_lib::map::is_empty(&mut args));
        let size = value(koto_core::core_lib::map::size(&mut args));
        assert_eq!(empty, Value::Bool(size == number(0.0)));
    }
}

#[test]
fn list_get_and_negative_index() {
    let mut args = vec![numbers(&[5.0, 6.0]), number(1.9)];
    assert_eq!(value(list::get(&mut args)), number(6.0));
    let mut args = vec![numbers(&[5.0, 6.0]), number(2.0)];
    assert_eq!(value(list::get(&mut args)), Value::Empty);
    let mut args = vec![numbers(&[5.0, 6.0]), number(-1.0)];
    assert_eq!(message(list::get(&mut args)), "list.get: Negative indices aren't allowed");
    let mut args = vec![numbers(&[5.0, 6.0]), number(-0.0)];
    assert_eq!(value(list::get(&mut args)), number(5.0));
    let mut args = vec![numbers(&[5.0, 6.0]), text("x")];
    assert_eq!(message(list::get(&mut args)), "list.get: Expected list and number as arguments");
    let mut args = vec![Value::Tuple(vec![number(1.0)]), number(-3.0)];
    assert_eq!(message(tuple::get(&mut args)), "tuple.get: Negative indices aren't allowed");
    let mut args = vec![sample_map(), number(-3.0)];
    assert_eq!(message(koto_core::core_lib::map::get_index(&mut args)), "map.get_index: Negative indices aren't allowed");
    let mut args = vec![numbers(&[1.0]), number(-1.0), number(0.0)];
    assert_eq!(message(list::insert(&mut args)), "list.insert: Negative indices aren't allowed");
    let mut args = vec![numbers(&[1.0]), number(-1.0)];
    assert_eq!(message(list::remove(&mut args)), "list.remove: Negative indices aren't allowed");
}

#[test]
fn removing_and_popping_from_an_empty_list_gives_empty() {
    let mut args = vec![numbers(&[]), number(0.0)];
    assert_eq!(value(list::remove(&mut args)), Value::Empty);
    assert_eq!(args[0], numbers(&[]));
    let mut args = vec![numbers(&[]), number(7.0)];
    assert_eq!(value(list::remove(&mut args)), Value::Empty);
    let mut args = vec![numbers(&[])];
    assert_eq!(value(list::pop(&mut args)), Value::Empty);
    assert_eq!(args[0], numbers(&[]));
}

#[test]
fn list_remove_and_pop() {
    let mut args = vec![numbers(&[1.0, 2.0, 3.0]), number(1.0)];
    assert_eq!(value(list::remove(&mut args)), number(2.0));
    assert_eq!(args[0], numbers(&[1.0, 3.0]));
    let mut args = vec![numbers(&[1.0, 2.0, 3.0]), number(3.0)];
    assert_eq!(
        message(list::remove(&mut args)),
        "list.remove: Index out of bounds - the index is 3 but the List only has 3 elements"
    );
    let mut args = vec![numbers(&[1.0, 2.0, 3.0])];
    assert_eq!(value(list::pop(&mut args)), number(3.0));
    assert_eq!(args[0], numbers(&[1.0, 2.0]));
    let mut args = vec![number(1.0)];
    assert_eq!(message(list::pop(&mut args)), "list.pop: Expected list as argument");
    assert_eq!(message(list::remove(&mut args)), "list.remove: Expected list and index as arguments");
}

#[test]
fn list_insert_resize_fill_with_size() {
    let mut args = vec![numbers(&[1.0, 3.0]), number(1.0), number(2.0)];
    assert_eq!(value(list::insert(&mut args)), Value::Empty);
    assert_eq!(args[0], numbers(&[1.0, 2.0, 3.0]));
    let mut args = vec![numbers(&[1.0, 3.0]), number(2.0), number(9.0)];
    value(list::insert(&mut args));
    assert_eq!(args[0], numbers(&[1.0, 3.0, 9.0]));
    let mut args = vec![numbers(&[1.0, 3.0]), number(3.0), number(9.0)];
    assert_eq!(message(list::insert(&mut args)), "list.insert: Index out of bounds");
    assert_eq!(
        message(list::insert(&mut vec![])),
        "list.insert: Expected list, number, and value as arguments"
    );

    let mut args = vec![numbers(&[1.0, 2.0, 3.0]), number(1.0), number(0.0)];
    value(list::resize(&mut args));
    assert_eq!(args[0], numbers(&[1.0]));
    let mut args = vec![numbers(&[1.0]), number(3.0), number(0.0)];
    value(list::resize(&mut args));
    assert_eq!(args[0], numbers(&[1.0, 0.0, 0.0]));
    let mut args = vec![numbers(&[1.0]), number(-3.0), number(0.0)];
    assert_eq!(message(list::resize(&mut args)), "list.resize: Negative sizes aren't allowed");
    assert_eq!(
        message(list::resize(&mut vec![numbers(&[])])),
        "list.resize: Expected list, number, and value as arguments"
    );

    let mut args = vec![numbers(&[1.0, 2.0]), text("x")];
    value(list::fill(&mut args));
    assert_eq!(args[0], Value::List(vec![text("x"), text("x")]));
    assert_eq!(message(list::fill(&mut vec![])), "list.fill: Expected list and value as arguments");

    let mut args = vec![number(3.0), Value::Bool(true)];
    assert_eq!(
        value(list::with_size(&mut args)),
        Value::List(vec![Value::Bool(true), Value::Bool(true), Value::Bool(true)])
    );
    let mut args = vec![number(-3.0), Value::Bool(true)];
    assert_eq!(message(list::with_size(&mut args)), "list.with_size: Negative sizes aren't allowed");
    assert_eq!(
        message(list::with_size(&mut vec![])),
        "list.with_size: Expected number and value as arguments"
    );
}

#[test]
fn list_first_last_contains_reverse() {
    let mut args = vec![numbers(&[1.0, 2.0, 3.0])];
    assert_eq!(value(list::first(&mut args)), number(1.0));
    assert_eq!(value(list::last(&mut args)), number(3.0));
    value(list::reverse(&mut args));
    assert_eq!(args[0], numbers(&[3.0, 2.0, 1.0]));
    let mut args = vec![numbers(&[])];
    assert_eq!(value(list::first(&mut args)), Value::Empty);
    assert_eq!(value(list::last(&mut args)), Value::Empty);
    let mut args = vec![numbers(&[1.0, 0.0]), number(-0.0)];
    assert_eq!(value(list::contains(&mut args)), Value::Bool(true));
    let mut args = vec![numbers(&[1.0, f64::NAN]), number(f64::NAN)];
    assert_eq!(value(list::contains(&mut args)), Value::Bool(false));
    let mut args = vec![Value::List(vec![numbers(&[1.0])]), numbers(&[1.0])];
    assert_eq!(value(list::contains(&mut args)), Value::Bool(true));
    assert_eq!(message(list::first(&mut vec![])), "list.first: Expected list as argument");
    assert_eq!(message(list::last(&mut vec![])), "list.last: Expected list as argument");
    assert_eq!(message(list::reverse(&mut vec![])), "list.reverse: Expected list as argument");
    assert_eq!(message(list::size(&mut vec![])), "list.size: Expected list as argument");
    assert_eq!(message(list::is_empty(&mut vec![])), "list.is_empty: Expected list as argument");
    assert_eq!(message(list::iter(&mut vec![])), "list.iter: Expected list as argument");
    assert_eq!(message(list::push(&mut vec![])), "list.push: Expected list and value as arguments");
    assert_eq!(
        message(list::contains(&mut vec![])),
        "list.contains: Expected list and value as arguments"
    );
}

#[test]
fn list_sort_is_stable_and_idempotent() {
    let unsorted = Value::List(vec![
        text("b"),
        number(2.0),
        Value::Bool(true),
        number(f64::NAN),
        text("a"),
        number(-1.0),
        Value::Empty,
        Value::Bool(false),
        text("ab"),
        number(0.0),
        number(-0.0),
    ]);
    let mut args = vec![unsorted];
    assert_eq!(value(list::sort(&mut args)), Value::Empty);
    let once = deep_copy(&args[0]);
    let expected = Value::List(vec![
        Value::Empty,
        Value::Bool(false),
        Value::Bool(true),
        number(-1.0),
        number(0.0),
        number(-0.0),
        number(2.0),
        number(f64::NAN),
        text("a"),
        text("ab"),
        text("b"),
    ]);
    assert!(identical(&once, &expected));
    value(list::sort(&mut args));
    assert!(identical(&args[0], &once));

    let mut args = vec![numbers(&[3.0, 1.0, 2.0])];
    assert_eq!(value(list::sort_copy(&mut args)), numbers(&[1.0, 2.0, 3.0]));
    assert_eq!(args[0], numbers(&[3.0, 1.0, 2.0]));
    assert_eq!(message(list::sort(&mut vec![])), "list.sort: Expected list as argument");
    assert_eq!(message(list::sort_copy(&mut vec![])), "list.sort_copy: Expected list as argument");
}

#[test]
fn list_retain_with_a_value() {
    let mut args = vec![numbers(&[1.0, 2.0, 1.0, 3.0]), number(1.0)];
    assert_eq!(value(list::retain(&mut args, vec![])), Value::Empty);
    assert_eq!(args[0], numbers(&[1.0, 1.0]));
    assert_eq!(
        message(list::retain(&mut vec![number(1.0)], vec![])),
        "list.retain: Expected list and function or value as arguments"
    );
}

#[test]
fn list_retain_with_a_predicate() {
    let mut args = vec![numbers(&[1.0, 2.0, 3.0, 4.0]), function(1)];
    let outcomes = vec![
        Ok(Value::Bool(false)),
        Ok(Value::Bool(true)),
        Ok(Value::Bool(false)),
        Ok(Value::Bool(true)),
    ];
    assert_eq!(value(list::retain(&mut args, outcomes)), Value::Empty);
    assert_eq!(args[0], numbers(&[2.0, 4.0]));

    let mut args = vec![numbers(&[1.0, 2.0, 3.0, 4.0]), function(1)];
    let outcomes = vec![Ok(Value::Bool(false)), Ok(Value::Bool(true)), Ok(number(1.0))];
    assert_eq!(
        message(list::retain(&mut args, outcomes)),
        "list.retain expects a Bool to be returned from the predicate, found 'Number'"
    );
    assert_eq!(args[0], numbers(&[2.0, 2.0, 3.0, 4.0]));

    let mut args = vec![numbers(&[1.0, 2.0]), function(1)];
    let outcomes = vec![Err(Error::ErrorWithoutLocation { message: "boom".to_string() })];
    assert_eq!(message(list::retain(&mut args, outcomes)), "boom");
    assert_eq!(args[0], numbers(&[1.0, 2.0]));

    let mut args = vec![numbers(&[1.0, 2.0]), function(2)];
    assert_eq!(
        message(list::retain(&mut args, vec![])),
        "The function passed to list.retain must have a single argument, found '2'"
    );
}

#[test]
fn list_transform_replaces_values() {
    let mut args = vec![numbers(&[1.0, 2.0, 3.0]), function(1)];
    let outcomes = vec![Ok(number(10.0)), Ok(text("x")), Ok(Value::Empty)];
    assert_eq!(value(list::transform(&mut args, outcomes)), Value::Empty);
    assert_eq!(args[0], Value::List(vec![number(10.0), text("x"), Value::Empty]));

    let mut args = vec![numbers(&[1.0, 2.0, 3.0]), function(1)];
    let outcomes =
        vec![Ok(number(10.0)), Err(Error::ErrorWithoutLocation { message: "no".to_string() })];
    assert_eq!(message(list::transform(&mut args, outcomes)), "no");
    assert_eq!(args[0], numbers(&[10.0, 2.0, 3.0]));

    let mut args = vec![numbers(&[1.0]), function(0)];
    assert_eq!(
        message(list::transform(&mut args, vec![])),
        "The function passed to list.transform must have a single argument, found '0'"
    );
    let mut args = vec![numbers(&[1.0]), number(0.0)];
    assert_eq!(
        message(list::transform(&mut args, vec![])),
        "list.transform expects a list and function as arguments"
    );
}

#[test]
fn tuple_to_list_and_back() {
    let t = Value::Tuple(vec![number(1.0), text("two"), Value::Tuple(vec![Value::Empty])]);
    let mut args = vec![deep_copy(&t)];
    let l = value(tuple::to_list(&mut args));
    assert_eq!(l, Value::List(vec![number(1.0), text("two"), Value::Tuple(vec![Value::Empty])]));
    let mut args = vec![l];
    let back = value(list::to_tuple(&mut args));
    assert!(identical(&back, &t));
    assert_eq!(message(list::to_tuple(&mut vec![])), "list.to_tuple expects a list as argument");
    assert_eq!(message(tuple::to_list(&mut vec![])), "tuple.to_list: Expected tuple as argument");
}

#[test]
fn tuple_functions() {
    let t = Value::Tuple(vec![number(1.0), text("two")]);
    assert_eq!(value(tuple::size(&mut vec![deep_copy(&t)])), number(2.0));
    assert_eq!(value(tuple::get(&mut vec![deep_copy(&t), number(1.0)])), text("two"));
    assert_eq!(value(tuple::get(&mut vec![deep_copy(&t), number(2.0)])), Value::Empty);
    assert_eq!(value(tuple::contains(&mut vec![deep_copy(&t), text("two")])), Value::Bool(true));
    assert_eq!(value(tuple::contains(&mut vec![deep_copy(&t), text("2")])), Value::Bool(false));
    assert_eq!(message(tuple::size(&mut vec![])), "tuple.size: Expected tuple as argument");
    assert_eq!(message(tuple::iter(&mut vec![])), "tuple.iter: Expected tuple as argument");
    assert_eq!(
        message(tuple::get(&mut vec![])),
        "tuple.get: Expected tuple and number as arguments"
    );
    assert_eq!(
        message(tuple::contains(&mut vec![])),
        "tuple.contains: Expected tuple and value as arguments"
    );
    match value(tuple::iter(&mut vec![t])) {
        Value::Iterator(mut it) => {
            assert!(matches!(it.next(), Some(ValueIteratorOutput::Value(v)) if v == number(1.0)));
            assert!(matches!(it.next(), Some(ValueIteratorOutput::Value(v)) if v == text("two")));
            assert!(it.next().is_none());
            assert!(it.next().is_none());
        }
        other => panic!("{:?}", other),
    }
}

#[test]
fn map_insert_get_and_order() {
    let mut args = vec![sample_map(), text("b"), number(5.0)];
    assert_eq!(value(koto_core::core_lib::map::insert(&mut args)), number(2.0));
    assert_eq!(keys_of(&args[0]), vec![text("a"), text("b")]);
    let mut args = vec![args.remove(0), text("b")];
    assert_eq!(value(koto_core::core_lib::map::get(&mut args)), number(5.0));
    let mut args = vec![args.remove(0), text("c")];
    assert_eq!(value(koto_core::core_lib::map::insert(&mut args)), Value::Empty);
    assert_eq!(keys_of(&args[0]), vec![text("a"), text("b"), text("c")]);
    let mut args = vec![args.remove(0), text("c")];
    assert_eq!(value(koto_core::core_lib::map::get(&mut args)), Value::Empty);
    let mut args = vec![args.remove(0), text("zz")];
    assert_eq!(value(koto_core::core_lib::map::get(&mut args)), Value::Empty);
    let mut args = vec![args.remove(0), text("a")];
    assert_eq!(value(koto_core::core_lib::map::remove(&mut args)), number(1.0));
    assert_eq!(keys_of(&args[0]), vec![text("b"), text("c")]);
    assert_eq!(value(koto_core::core_lib::map::remove(&mut args)), Value::Empty);
}

#[test]
fn map_insert_then_remove_leaves_no_key() {
    for key in [text("a"), text("new"), number(f64::NAN), Value::Tuple(vec![number(1.0)])] {
        let mut args = vec![sample_map(), deep_copy(&key), number(9.0)];
        value(koto_core::core_lib::map::insert(&mut args));
        let mut args = vec![args.remove(0), deep_copy(&key)];
        assert_eq!(value(koto_core::core_lib::map::contains_key(&mut args)), Value::Bool(true));
        value(koto_core::core_lib::map::remove(&mut args));
        assert_eq!(value(koto_core::core_lib::map::contains_key(&mut args)), Value::Bool(false));
    }
}

#[test]
fn map_keys_are_immutable_values() {
    let mut args = vec![sample_map(), numbers(&[1.0]), number(9.0)];
    assert_eq!(
        message(koto_core::core_lib::map::insert(&mut args)),
        "map.insert: Expected map and key as arguments, found 'Map' and 'List'"
    );
    let mut args = vec![sample_map(), Value::Tuple(vec![numbers(&[1.0])])];
    assert_eq!(
        message(koto_core::core_lib::map::contains_key(&mut args)),
        "map.contains_key: Expected map and key as arguments, found 'Map' and 'Tuple'"
    );
    let mut args = vec![number(1.0), text("a")];
    assert_eq!(
        message(koto_core::core_lib::map::remove(&mut args)),
        "map.remove: Expected map and key as arguments, found 'Number' and 'String'"
    );
    assert_eq!(
        message(koto_core::core_lib::map::get(&mut args)),
        "map.get: Expected map and key as arguments, found 'Number' and 'String'"
    );
    let mut one = vec![sample_map()];
    assert_eq!(message(koto_core::core_lib::map::insert(&mut one)), "map.insert: Expected map and key as arguments");
    assert_eq!(message(koto_core::core_lib::map::get(&mut one)), "map.get: Expected map and key as arguments");
    assert_eq!(message(koto_core::core_lib::map::remove(&mut one)), "map.remove: Expected map and key as arguments");
    assert_eq!(
        message(koto_core::core_lib::map::contains_key(&mut one)),
        "map.contains_key: Expected map and key as arguments"
    );
}

#[test]
fn map_number_keys_are_bit_patterns() {
    let mut args = vec![Value::Mapping(ValueMap::new()), number(0.0), text("zero")];
    value(koto_core::core_lib::map::insert(&mut args));
    let mut args = vec![args.remove(0), number(-0.0)];
    assert_eq!(value(koto_core::core_lib::map::contains_key(&mut args)), Value::Bool(false));
    let mut args = vec![args.remove(0), number(0.0)];
    assert_eq!(value(koto_core::core_lib::map::get(&mut args)), text("zero"));
}

#[test]
fn map_size_clear_copy() {
    let mut args = vec![sample_map()];
    assert_eq!(value(koto_core::core_lib::map::size(&mut args)), number(2.0));
    assert_eq!(value(koto_core::core_lib::map::is_empty(&mut args)), Value::Bool(false));
    assert!(identical(&value(koto_core::core_lib::map::copy(&mut args)), &sample_map()));
    assert!(identical(&value(koto_core::core_lib::map::deep_copy(&mut args)), &sample_map()));
    value(koto_core::core_lib::map::clear(&mut args));
    assert_eq!(value(koto_core::core_lib::map::size(&mut args)), number(0.0));
    assert_eq!(value(koto_core::core_lib::map::is_empty(&mut args)), Value::Bool(true));
    let mut wrong = vec![number(1.0)];
    assert_eq!(message(koto_core::core_lib::map::clear(&mut wrong)), "map.clear: Expected map as argument");
    assert_eq!(message(koto_core::core_lib::map::copy(&mut wrong)), "map.copy: Expected map as argument");
    assert_eq!(message(koto_core::core_lib::map::deep_copy(&mut wrong)), "map.deep_copy: Expected map as argument");
    assert_eq!(message(koto_core::core_lib::map::size(&mut wrong)), "map.size: Expected map as argument, found 'Number'");
    assert_eq!(
        message(koto_core::core_lib::map::is_empty(&mut wrong)),
        "map.is_empty: Expected map as argument, found 'Number'"
    );
    assert_eq!(message(koto_core::core_lib::map::iter(&mut wrong)), "map.iter: Expected map as argument, found 'Number'");
    assert_eq!(message(koto_core::core_lib::map::keys(&mut wrong)), "map.keys: Expected map as argument, found 'Number'");
    assert_eq!(
        message(koto_core::core_lib::map::values(&mut wrong)),
        "map.values: Expected map as argument, found 'Number'"
    );
    let mut none = vec![];
    assert_eq!(
        message(koto_core::core_lib::map::size(&mut none)),
        "map.contains_key: Expected map and key as arguments"
    );
    assert_eq!(
        message(koto_core::core_lib::map::is_empty(&mut none)),
        "map.contains_key: Expected map and key as arguments"
    );
    assert_eq!(message(koto_core::core_lib::map::iter(&mut none)), "map.iter: Expected map as argument");
    assert_eq!(message(koto_core::core_lib::map::keys(&mut none)), "map.keys: Expected map as argument");
    assert_eq!(message(koto_core::core_lib::map::values(&mut none)), "map.values: Expected map as argument");
}

#[test]
fn map_copy_drops_the_meta_map() {
    let mut m = ValueMap::new();
    m.add_value("a", number(1.0));
    m.add_self_help("about");
    let mut args = vec![Value::Mapping(m)];
    match value(koto_core::core_lib::map::copy(&mut args)) {
        Value::Mapping(copy) => {
            assert_eq!(copy.entries.len(), 1);
            assert!(copy.meta.is_empty());
        }
        other => panic!("{:?}", other),
    }
    match value(koto_core::core_lib::map::deep_copy(&mut args)) {
        Value::Mapping(copy) => assert_eq!(copy.meta.len(), 1),
        other => panic!("{:?}", other),
    }
}

#[test]
fn map_get_index() {
    let mut args = vec![sample_map(), number(1.0)];
    assert_eq!(value(koto_core::core_lib::map::get_index(&mut args)), Value::Tuple(vec![text("b"), number(2.0)]));
    let mut args = vec![sample_map(), number(2.0)];
    assert_eq!(value(koto_core::core_lib::map::get_index(&mut args)), Value::Empty);
    let mut args = vec![sample_map()];
    assert_eq!(
        message(koto_core::core_lib::map::get_index(&mut args)),
        "map.get_index: Expected map and index as arguments"
    );
}

#[test]
fn map_iteration_follows_insertion_order() {
    let mut m = ValueMap::new();
    for name in ["z", "a", "m", "b"] {
        m.add_value(name, text(name));
    }
    m.add_value("a", text("again"));
    m.remove(&text("m"));
    let mut args = vec![Value::Mapping(m)];
    let mut seen = vec![];
    match value(koto_core::core_lib::map::iter(&mut args)) {
        Value::Iterator(mut it) => {
            while let Some(ValueIteratorOutput::ValuePair(k, v)) = it.next() {
                seen.push((k, v));
            }
        }
        other => panic!("{:?}", other),
    }
    assert_eq!(
        seen,
        vec![(text("z"), text("z")), (text("a"), text("again")), (text("b"), text("b"))]
    );
    let mut keys = vec![];
    match value(koto_core::core_lib::map::keys(&mut args)) {
        Value::Iterator(mut it) => {
            while let Some(ValueIteratorOutput::Value(k)) = it.next() {
                keys.push(k);
            }
        }
        other => panic!("{:?}", other),
    }
    assert_eq!(keys, vec![text("z"), text("a"), text("b")]);
    let mut values = vec![];
    match value(koto_core::core_lib::map::values(&mut args)) {
        Value::Iterator(mut it) => {
            while let Some(ValueIteratorOutput::Value(v)) = it.next() {
                values.push(v);
            }
        }
        other => panic!("{:?}", other),
    }
    assert_eq!(values, vec![text("z"), text("again"), text("b")]);
}

#[test]
fn map_sort_by_keys_and_by_function() {
    let mut m = ValueMap::new();
    for (name, n) in [("c", 1.0), ("a", 3.0), ("b", 2.0)] {
        m.add_value(name, number(n));
    }
    let mut args = vec![Value::Mapping(m.clone())];
    assert_eq!(value(koto_core::core_lib::map::sort(&mut args, vec![])), Value::Empty);
    assert_eq!(keys_of(&args[0]), vec![text("a"), text("b"), text("c")]);

    let mut args = vec![Value::Mapping(m.clone()), function(2)];
    let outcomes = vec![Ok(number(1.0)), Ok(number(3.0)), Ok(number(2.0))];
    assert_eq!(value(koto_core::core_lib::map::sort(&mut args, outcomes)), Value::Empty);
    assert_eq!(keys_of(&args[0]), vec![text("c"), text("b"), text("a")]);
    let mut got = vec![args.remove(0), text("b")];
    assert_eq!(value(koto_core::core_lib::map::get(&mut got)), number(2.0));

    let mut args = vec![Value::Mapping(m.clone()), function(2)];
    let outcomes =
        vec![Ok(number(1.0)), Err(Error::ErrorWithoutLocation { message: "bad".to_string() })];
    assert_eq!(message(koto_core::core_lib::map::sort(&mut args, outcomes)), "map.sort: bad");
    assert_eq!(keys_of(&args[0]), vec![text("c"), text("a"), text("b")]);

    let mut args = vec![Value::Mapping(m), number(1.0)];
    assert_eq!(message(koto_core::core_lib::map::sort(&mut args, vec![])), "map.sort: Expected map as argument");
}

#[test]
fn map_update() {
    let mut args = vec![sample_map(), text("a"), function(1)];
    assert_eq!(koto_core::core_lib::map::update_argument(&args), Some(number(1.0)));
    assert_eq!(value(koto_core::core_lib::map::update(&mut args, Ok(number(11.0)))), number(11.0));
    let mut got = vec![args.remove(0), text("a")];
    assert_eq!(value(koto_core::core_lib::map::get(&mut got)), number(11.0));

    let mut args = vec![sample_map(), text("c"), number(7.0), function(1)];
    assert_eq!(koto_core::core_lib::map::update_argument(&args), Some(number(7.0)));
    assert_eq!(value(koto_core::core_lib::map::update(&mut args, Ok(number(8.0)))), number(8.0));
    assert_eq!(keys_of(&args[0]), vec![text("a"), text("b"), text("c")]);

    let mut args = vec![sample_map(), text("c"), function(1)];
    assert_eq!(koto_core::core_lib::map::update_argument(&args), Some(Value::Empty));
    let failed = Err(Error::ErrorWithoutLocation { message: "no".to_string() });
    assert_eq!(message(koto_core::core_lib::map::update(&mut args, failed)), "map.update: no");
    let mut got = vec![args.remove(0), text("c")];
    assert_eq!(value(koto_core::core_lib::map::contains_key(&mut got)), Value::Bool(true));
    assert_eq!(value(koto_core::core_lib::map::get(&mut got)), Value::Empty);

    let mut args = vec![sample_map(), text("c"), number(1.0)];
    assert_eq!(koto_core::core_lib::map::update_argument(&args), None);
    assert_eq!(
        message(koto_core::core_lib::map::update(&mut args, Ok(Value::Empty))),
        "map.update: Expected map, key, and function as arguments"
    );
}

#[test]
fn map_help() {
    let mut plain = vec![sample_map()];
    assert_eq!(value(koto_core::core_lib::map::help(&mut plain)), text("map.help: No help found"));

    let mut m = ValueMap::new();
    m.add_self_help("# number");
    let mut args = vec![Value::Mapping(m.clone())];
    assert_eq!(value(koto_core::core_lib::map::help(&mut args)), text("# number"));

    m.add_help("abs", "# number.abs\n\nThe absolute value.");
    m.add_help("max", "# number.max");
    let mut args = vec![Value::Mapping(m.clone())];
    assert_eq!(
        value(koto_core::core_lib::map::help(&mut args)),
        text(
            "# number\n\n========\n\nCall this function with the name of the item that you would like help with.\n\nFor example:\n  import number\n  number.help \"abs\"\n"
        )
    );
    let mut args = vec![Value::Mapping(m.clone()), text("abs")];
    assert_eq!(value(koto_core::core_lib::map::help(&mut args)), text("# number.abs\n\nThe absolute value."));
    let mut args = vec![Value::Mapping(m.clone()), text("min")];
    assert_eq!(value(koto_core::core_lib::map::help(&mut args)), text("Help not found for 'min'"));
    let mut args = vec![sample_map(), text("min")];
    assert_eq!(value(koto_core::core_lib::map::help(&mut args)), text("Help not found for 'min'"));

    let mut odd = ValueMap::new();
    odd.meta_insert(MetaKey::SelfHelp, number(1.0));
    let mut args = vec![Value::Mapping(odd)];
    assert_eq!(
        message(koto_core::core_lib::map::help(&mut args)),
        "map.help: Expected string for self help, found 'Number'"
    );
    let mut args = vec![number(1.0)];
    assert_eq!(message(koto_core::core_lib::map::help(&mut args)), "map.help: Expected map and string as arguments");
}

#[test]
fn range_functions() {
    let r = || Value::Range(IntRange { start: -2, end: 3 });
    assert_eq!(value(range::start(&mut vec![r()])), number(-2.0));
    assert_eq!(value(range::end(&mut vec![r()])), number(3.0));
    assert_eq!(value(range::size(&mut vec![r()])), number(5.0));
    for (n, expected) in [
        (-2.0, true),
        (-2.1, false),
        (0.0, true),
        (2.0, true),
        (2.1, false),
        (3.0, false),
        (-0.5, true),
        (f64::NAN, false),
        (f64::INFINITY, false),
    ] {
        let inside = n >= -2.0 && n.ceil() < 3.0;
        assert_eq!(inside, expected);
        assert_eq!(value(range::contains(&mut vec![r(), number(n)])), Value::Bool(expected), "{n}");
    }
    let wide = Value::Range(IntRange { start: isize::MIN, end: isize::MAX });
    assert_eq!(
        value(range::size(&mut vec![wide])),
        number(isize::MAX as f64 - isize::MIN as f64)
    );
    assert_eq!(message(range::start(&mut vec![])), "range.start: Expected range as argument");
    assert_eq!(message(range::end(&mut vec![])), "range.end: Expected range as argument");
    assert_eq!(message(range::size(&mut vec![])), "range.size: Expected range as argument");
    assert_eq!(message(range::iter(&mut vec![])), "range.iter: Expected range as argument");
    assert_eq!(
        message(range::contains(&mut vec![r()])),
        "range.contains: Expected range and number as arguments"
    );
}

#[test]
fn range_iterator_yields_its_integers() {
    let mut squares = vec![];
    match value(range::iter(&mut vec![Value::Range(IntRange { start: 0, end: 3 })])) {
        Value::Iterator(mut it) => {
            while let Some(ValueIteratorOutput::Value(Value::Number(bits))) = it.next() {
                let i = f64::from_bits(bits);
                squares.push(number(i * i));
            }
        }
        other => panic!("{:?}", other),
    }
    assert_eq!(Value::List(squares), numbers(&[0.0, 1.0, 4.0]));
    let mut empty = ValueIterator::with_range(IntRange { start: 3, end: 3 });
    assert!(empty.next().is_none());
}

#[test]
fn deep_copy_is_equal_and_apart() {
    let first = Value::List(vec![numbers(&[1.0, 2.0]), sample_map(), text("s")]);
    let mut copy = vec![deep_copy(&first)];
    assert!(equals(&copy[0], &first));
    assert!(identical(&copy[0], &first));
    let mut args = vec![copy.remove(0), number(4.0)];
    value(list::push(&mut args));
    assert!(!equals(&args[0], &first));
    assert_eq!(
        first,
        Value::List(vec![numbers(&[1.0, 2.0]), sample_map(), text("s")])
    );
    let nan = number(f64::NAN);
    assert!(!equals(&deep_copy(&nan), &nan));
    assert!(identical(&deep_copy(&nan), &nan));
}

#[test]
fn modules_hold_their_functions() {
    let core_lib = CoreLib::default();
    let names = |m: &ValueMap| -> Vec<String> {
        m.entries
            .iter()
            .map(|e| match &e.key {
                Value::Str(s) => s.clone(),
                other => panic!("{:?}", other),
            })
            .collect()
    };
    assert_eq!(
        names(&core_lib.list),
        vec![
            "contains", "fill", "first", "get", "insert", "is_empty", "iter", "last", "pop",
            "push", "remove", "resize", "retain", "reverse", "size", "sort", "sort_copy",
            "to_tuple", "transform", "with_size"
        ]
    );
    assert_eq!(
        names(&core_lib.map),
        vec![
            "clear", "contains_key", "copy", "deep_copy", "get", "get_index", "help", "insert",
            "is_empty", "iter", "keys", "remove", "sort", "size", "update", "values"
        ]
    );
    assert_eq!(names(&core_lib.range), vec!["contains", "end", "iter", "size", "start"]);
    assert_eq!(names(&core_lib.tuple), vec!["contains", "get", "iter", "size", "to_list"]);
    assert_eq!(
        core_lib.list.get_with_string("push"),
        Some(&Value::ExternalFunction(ExternalFunction::ListPush))
    );
}

#[test]
fn functions_are_called_by_their_name() {
    let push = match list::make_module().get_with_string("push") {
        Some(Value::ExternalFunction(f)) => *f,
        other => panic!("{:?}", other),
    };
    let mut args = vec![numbers(&[1.0]), number(2.0)];
    assert_eq!(value(push.call(&mut args, vec![])), Value::Empty);
    assert_eq!(args[0], numbers(&[1.0, 2.0]));
    let mut args = vec![sample_map(), text("a"), function(1)];
    assert_eq!(
        value(ExternalFunction::MapUpdate.call(&mut args, vec![Ok(number(3.0))])),
        number(3.0)
    );
    assert_eq!(
        message(ExternalFunction::Host(3).call(&mut args, vec![])),
        "Not a function of the core library"
    );
    assert_eq!(
        value(ExternalFunction::TupleSize.call(&mut vec![Value::Tuple(vec![])], vec![])),
        number(0.0)
    );
}

#[test]
fn sorting_many_values_agrees_with_the_standard_library() {
    let mut x: u64 = 7;
    let mut floats: Vec<f64> = Vec::new();
    for _ in 0..2000 {
        x = x.wrapping_mul(6364136223846793005).wrapping_add(1442695040888963407);
        floats.push(((x >> 40) % 500) as f64 - 250.0);
    }
    // Pairs of a key and its position, sorted by the key alone: equal keys keep their order.
    let pairs: Vec<Value> = floats
        .iter()
        .enumerate()
        .map(|(i, key)| Value::Tuple(vec![number(*key), number(i as f64)]))
        .collect();
    let mut by_key = ValueMap::new();
    for (i, key) in floats.iter().enumerate() {
        by_key.entries.push(koto_core::value::MapEntry { key: number(*key), value: number(i as f64) });
    }
    by_key.sort_keys();
    let mut expected: Vec<(f64, usize)> = floats.iter().cloned().zip(0..).collect();
    expected.sort_by(|a, b| a.0.partial_cmp(&b.0).unwrap());
    let found: Vec<(f64, usize)> = by_key
        .entries
        .iter()
        .map(|e| match (&e.key, &e.value) {
            (Value::Number(k), Value::Number(v)) => (f64::from_bits(*k), f64::from_bits(*v) as usize),
            other => panic!("{:?}", other),
        })
        .collect();
    assert_eq!(found, expected);
    assert_eq!(pairs.len(), 2000);

    let mut args = vec![numbers(&floats)];
    value(list::sort(&mut args));
    let mut sorted = floats.clone();
    sorted.sort_by(|a, b| a.partial_cmp(b).unwrap());
    assert_eq!(args[0], numbers(&sorted));
}
