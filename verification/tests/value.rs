use koto_core::bytecode::Chunk;
use koto_core::constant_pool::ConstantPoolBuilder;
use koto_core::error::{Position, Span};
use koto_core::runtime::{
    external_error, external_error_text, format_error, Error, LoaderError,
};
use koto_core::sort::value_precedes;
use koto_core::text::{decimal_string, push_signed_decimal, string_chars};
use koto_core::value::{
    equals, identical, type_as_string, value_is_immutable, ExternalFunction, IntRange, MetaKey,
    RuntimeFunction, Value, ValueIterator, ValueMap,
};

fn number(x: f64) -> Value {
    Value::Number(x.to_bits())
}

fn text(s: &str) -> Value {
    Value::Str(s.to_string())
}

fn one_of_each() -> Vec<(Value, &'static str, bool, bool)> {
    vec![
        (Value::Empty, "Empty", true, false),
        (Value::Bool(true), "Bool", true, false),
        (number(1.5), "Number", true, false),
        (text("s"), "String", true, false),
        (Value::Range(IntRange { start: 1, end: 2 }), "Range", true, false),
        (Value::Num2(1.0f64.to_bits(), 2.0f64.to_bits()), "Num2", true, false),
        (Value::Num4(1.0f32.to_bits(), 0, 0, 0), "Num4", true, false),
        (Value::Tuple(vec![number(1.0), Value::Tuple(vec![text("x")])]), "Tuple", true, false),
        (Value::Tuple(vec![number(1.0), Value::List(vec![])]), "Tuple", false, false),
        (Value::List(vec![number(1.0)]), "List", false, false),
        (Value::Mapping(ValueMap::new()), "Map", false, false),
        (
            Value::Function(RuntimeFunction {
                chunk: 7,
                ip: 3,
                arg_count: 2,
                is_instance_function: false,
                captures: vec![number(1.0)],
            }),
            "Function",
            false,
            true,
        ),
        (Value::ExternalFunction(ExternalFunction::ListPush), "ExternalFunction", false, true),
        (Value::ExternalValue("File".to_string(), 0), "File", false, false),
        (Value::Iterator(ValueIterator::Range { next: 0, end: 1 }), "Iterator", false, false),
    ]
}

#[test]
fn types_and_kinds_of_values() {
    for (value, name, immutable, callable) in one_of_each() {
        assert_eq!(type_as_string(&value), name);
        assert_eq!(value.type_as_string(), name);
        assert_eq!(value_is_immutable(&value), immutable, "{name}");
        assert_eq!(value.is_immutable(), immutable, "{name}");
        assert_eq!(value.is_callable(), callable, "{name}");
    }
}

#[test]
fn a_value_is_itself_and_equal_to_its_copy() {
    let values = one_of_each();
    for (i, (a, _, _, _)) in values.iter().enumerate() {
        let copy = a.clone();
        assert!(identical(a, &copy));
        assert!(equals(a, &copy));
        assert!(*a == copy);
        for (j, (b, _, _, _)) in values.iter().enumerate() {
            assert_eq!(identical(a, b), i == j);
            assert_eq!(equals(a, b), i == j);
        }
    }
}

#[test]
fn numbers_are_equal_as_numbers_and_the_same_as_bits() {
    let zero = number(0.0);
    let minus_zero = number(-0.0);
    assert!(equals(&zero, &minus_zero));
    assert!(!identical(&zero, &minus_zero));
    let nan = number(f64::NAN);
    assert!(!equals(&nan, &nan));
    assert!(identical(&nan, &nan));
    let a = Value::List(vec![number(0.0), Value::Tuple(vec![number(-0.0)])]);
    let b = Value::List(vec![number(-0.0), Value::Tuple(vec![number(0.0)])]);
    assert!(equals(&a, &b));
    assert!(!identical(&a, &b));
    assert!(!equals(&Value::List(vec![nan.clone()]), &Value::List(vec![nan])));
    let x = Value::Num2(0.0f64.to_bits(), 1.0f64.to_bits());
    let y = Value::Num2((-0.0f64).to_bits(), 1.0f64.to_bits());
    assert!(equals(&x, &y) && !identical(&x, &y));
    let p = Value::Num4(0.0f32.to_bits(), 0, 0, f32::NAN.to_bits());
    assert!(!equals(&p, &p.clone()) && identical(&p, &p.clone()));
    let q = Value::Num4(0.0f32.to_bits(), (-0.0f32).to_bits(), 1.5f32.to_bits(), 0);
    let r = Value::Num4((-0.0f32).to_bits(), 0.0f32.to_bits(), 1.5f32.to_bits(), 0);
    assert!(equals(&q, &r) && !identical(&q, &r));
}

#[test]
fn maps_are_equal_entry_by_entry() {
    let mut a = ValueMap::new();
    a.add_value("x", number(0.0));
    a.add_value("y", number(1.0));
    let mut b = ValueMap::new();
    b.add_value("x", number(-0.0));
    b.add_value("y", number(1.0));
    b.add_self_help("help");
    assert!(equals(&Value::Mapping(a.clone()), &Value::Mapping(b.clone())));
    assert!(!identical(&Value::Mapping(a.clone()), &Value::Mapping(b.clone())));
    let mut c = ValueMap::new();
    c.add_value("y", number(1.0));
    c.add_value("x", number(0.0));
    assert!(!equals(&Value::Mapping(a), &Value::Mapping(c)));
}

#[test]
fn the_order_of_values() {
    let ascending = vec![
        Value::Empty,
        Value::Bool(false),
        Value::Bool(true),
        number(f64::NEG_INFINITY),
        number(-1.0),
        number(-5e-324),
        number(0.0),
        number(5e-324),
        number(1.0),
        number(f64::INFINITY),
        number(f64::NAN),
        text(""),
        text("A"),
        text("a"),
        text("ab"),
        text("b"),
        text("é"),
        text("\u{10000}"),
        Value::Range(IntRange { start: 0, end: 0 }),
        Value::List(vec![]),
    ];
    for (i, a) in ascending.iter().enumerate() {
        for (j, b) in ascending.iter().enumerate() {
            assert_eq!(value_precedes(a, b), i <= j, "{a:?} {b:?}");
        }
    }
    assert!(value_precedes(&number(0.0), &number(-0.0)));
    assert!(value_precedes(&number(-0.0), &number(0.0)));
    assert!(value_precedes(&Value::List(vec![number(2.0)]), &Value::List(vec![number(1.0)])));
    for (a, b) in [("a", "b"), ("", "a"), ("abc", "abd"), ("é", "z"), ("z", "é"), ("\u{ffff}", "\u{10000}")] {
        assert_eq!(value_precedes(&text(a), &text(b)), a <= b, "{a} {b}");
    }
}

#[test]
fn the_meta_map_of_a_map() {
    let mut map = ValueMap::with_capacity(2);
    assert!(map.is_empty());
    assert_eq!(map.meta_get(MetaKey::Add), None);
    assert!(!map.meta_contains_key(MetaKey::Add));
    map.meta_insert(MetaKey::Add, number(1.0));
    map.meta_insert(MetaKey::Index, number(2.0));
    map.meta_insert(MetaKey::Add, number(3.0));
    assert_eq!(map.meta_get(MetaKey::Add), Some(&number(3.0)));
    assert_eq!(map.meta_get(MetaKey::Index), Some(&number(2.0)));
    assert_eq!(map.meta.len(), 2);
    assert!(map.is_empty());
    map.add_map("inner", ValueMap::new());
    assert_eq!(map.len(), 1);
    assert_eq!(map.find(&text("inner")), Some(0));
    assert_eq!(map.find(&text("outer")), None);
    assert!(map.get_index(0).is_some());
    assert!(map.get_index(1).is_none());
    map.sort_keys();
    map.clear();
    assert_eq!(map.len(), 0);
    assert_eq!(map.meta.len(), 2);
}

#[test]
fn numbers_in_decimal() {
    assert_eq!(decimal_string(0), "0");
    assert_eq!(decimal_string(7), "7");
    assert_eq!(decimal_string(10), "10");
    assert_eq!(decimal_string(1234567890), "1234567890");
    assert_eq!(decimal_string(u64::MAX), "18446744073709551615");
    for n in [0i64, 5, -5, 100, -100, i64::MAX, i64::MIN] {
        let mut shown = String::from("n = ");
        push_signed_decimal(&mut shown, n);
        assert_eq!(shown, format!("n = {}", n));
    }
    assert_eq!(string_chars("aé\u{10000}"), vec!['a', 'é', '\u{10000}']);
}

#[test]
fn errors_of_running() {
    let without = match external_error_text("plain") {
        Err(error) => error,
        Ok(_) => panic!("an error was expected"),
    };
    assert_eq!(without.to_string(), "plain");
    assert!(matches!(&without, Error::ErrorWithoutLocation { message } if message == "plain"));
    let prefixed = without.with_prefix("map.update");
    assert_eq!(prefixed.to_string(), "map.update: plain");
    assert!(matches!(prefixed, Error::ErrorWithoutLocation { .. }));
    assert!(matches!(external_error("owned".to_string()), Err(Error::ErrorWithoutLocation { message }) if message == "owned"));

    let span = Span { start: Position { line: 2, column: 1 }, end: Position { line: 2, column: 4 } };
    let loader = Error::LoaderError(LoaderError { message: "no module".to_string(), span: Some(span) });
    assert_eq!(loader.to_string(), "no module");
    assert_eq!(loader.span(), Some(span));
    match loader.with_prefix("import") {
        Error::LoaderError(error) => {
            assert_eq!(error.message, "import: no module");
            assert_eq!(error.span, Some(span));
        }
        other => panic!("{:?}", other),
    }

    let entry = koto_core::bytecode::SpanEntry { ip: 1, span };
    let chunk = Chunk::new(vec![1, 2, 3], ConstantPoolBuilder::new().build(), vec![entry]);
    let vm = Error::VmError { message: "oops".to_string(), chunk, instruction: 2 };
    assert_eq!(vm.to_string(), "oops");
    assert_eq!(vm.span(), Some(span));
    assert_eq!(external_error_text("plain").unwrap_err().span(), None);
    match vm.with_prefix("list.sort") {
        Error::VmError { message, chunk, instruction } => {
            assert_eq!(message, "list.sort: oops");
            assert_eq!(chunk.bytes, vec![1, 2, 3]);
            assert_eq!(instruction, 2);
        }
        other => panic!("{:?}", other),
    }
}

#[test]
fn an_error_is_shown_with_its_place() {
    let source = "x = 1\ny = x + \"a\"\nz = y\n";
    let span = Span { start: Position { line: 2, column: 5 }, end: Position { line: 2, column: 12 } };
    assert_eq!(
        format_error("Unable to add Number and String", "scripts/a.koto", source, span),
        "Unable to add Number and String\n --> scripts/a.koto - 2:5\ny = x + \"a\"\n    ^"
    );
    let nowhere = Span { start: Position { line: 9, column: 0 }, end: Position { line: 9, column: 0 } };
    assert_eq!(format_error("m", "p", source, nowhere), "m\n --> p - 9:0\n\n^");
    let first = Span { start: Position { line: 1, column: 1 }, end: Position { line: 1, column: 2 } };
    assert_eq!(format_error("m", "p", "only", first), "m\n --> p - 1:1\nonly\n^");
}
