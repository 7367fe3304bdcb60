use koto_core::json::{from_parsed, from_string, json_value_to_koto_value, JsonMember, JsonNumber, JsonValue};
use koto_core::runtime::{Error, RuntimeResult};
use koto_core::value::{identical, Value, ValueMap};

fn number(x: f64) -> Value {
    Value::Number(x.to_bits())
}

fn text(s: &str) -> Value {
    Value::Str(s.to_string())
}

fn message(result: RuntimeResult) -> String {
    match result {
        Err(Error::ErrorWithoutLocation { message }) => message,
        other => panic!("expected an error of the host, found {:?}", other),
    }
}

fn json_number(x: f64) -> JsonValue {
    JsonValue::Number(JsonNumber { bits: Some(x.to_bits()), text: x.to_string() })
}

#[test]
fn json_text_becomes_a_value() {
    let source = r#"{"empty": null, "number": 99, "bool": true, "string": "O_o",
        "nested": {"number_float": -1.2, "number_int": 123, "string": "hello"},
        "entries": [{"foo": "bar"}, {"foo": "baz"}]}"#;
    let mut args = vec![text(source)];
    let value = from_string(&mut args).unwrap();
    let map = match value {
        Value::Mapping(map) => map,
        other => panic!("{:?}", other),
    };
    assert_eq!(map.get_with_string("empty"), Some(&Value::Empty));
    assert_eq!(map.get_with_string("number"), Some(&number(99.0)));
    assert_eq!(map.get_with_string("bool"), Some(&Value::Bool(true)));
    assert_eq!(map.get_with_string("string"), Some(&text("O_o")));
    match map.get_with_string("nested") {
        Some(Value::Mapping(nested)) => {
            assert_eq!(nested.get_with_string("number_float"), Some(&number(-1.2)));
            assert_eq!(nested.get_with_string("number_int"), Some(&number(123.0)));
            assert_eq!(nested.get_with_string("string"), Some(&text("hello")));
        }
        other => panic!("{:?}", other),
    }
    match map.get_with_string("entries") {
        Some(Value::List(entries)) => {
            assert_eq!(entries.len(), 2);
            match &entries[1] {
                Value::Mapping(entry) => assert_eq!(entry.get_with_string("foo"), Some(&text("baz"))),
                other => panic!("{:?}", other),
            }
        }
        other => panic!("{:?}", other),
    }
    assert_eq!(args[0], text(source));
}

#[test]
fn json_scalars() {
    assert_eq!(from_string(&mut vec![text("null")]).unwrap(), Value::Empty);
    assert_eq!(from_string(&mut vec![text("[1, 2.5, \"x\"]")]).unwrap(),
        Value::List(vec![number(1.0), number(2.5), text("x")]));
    assert_eq!(from_string(&mut vec![text("-0.0")]).unwrap().type_as_string(), "Number");
}

#[test]
fn json_errors() {
    let failed = message(from_string(&mut vec![text("{\"a\": ")]));
    assert!(failed.starts_with("json.from_string: Error while parsing input: "), "{failed}");
    assert!(failed.contains("line 1"), "{failed}");
    assert_eq!(
        message(from_string(&mut vec![number(1.0)])),
        "json.from_string expects a string as argument"
    );
    assert_eq!(message(from_string(&mut vec![])), "json.from_string expects a string as argument");
}

#[test]
fn a_parsed_tree_becomes_a_value() {
    let tree = JsonValue::Object(vec![
        JsonMember { name: "a".to_string(), value: json_number(1.0) },
        JsonMember {
            name: "b".to_string(),
            value: JsonValue::Array(vec![JsonValue::Null, JsonValue::Bool(false), JsonValue::Text("t".to_string())]),
        },
    ]);
    let mut expected = ValueMap::new();
    expected.add_value("a", number(1.0));
    expected.add_value("b", Value::List(vec![Value::Empty, Value::Bool(false), text("t")]));
    let value = json_value_to_koto_value(&tree).unwrap();
    assert!(identical(&value, &Value::Mapping(expected)));
}

#[test]
fn a_number_that_is_no_float_is_an_error() {
    let odd = JsonValue::Number(JsonNumber { bits: None, text: "1e999".to_string() });
    assert_eq!(
        json_value_to_koto_value(&odd).unwrap_err(),
        "Number is out of range for an f64: 1e999"
    );
    let tree = JsonValue::Array(vec![json_number(1.0), odd, JsonValue::Null]);
    assert_eq!(
        message(from_parsed(Ok(tree))),
        "json.from_string: Error while parsing input: Number is out of range for an f64: 1e999"
    );
    assert_eq!(
        message(from_parsed(Err("expected value at line 1 column 1".to_string()))),
        "json.from_string: Error while parsing input: expected value at line 1 column 1"
    );
}
