//! JSON data as values of the language.
//!
//! A JSON text is parsed by `serde_json`. What it parses is held as a tree
//! of the library's own, `JsonValue`, and made into a value from there.

use crate::core_lib::{done, fails, gives, outcome_view, str_at, Effect};
use crate::runtime::{external_error, external_error_text, RuntimeResult};
use crate::value::{values_view, MapView, Value, ValueMap, ValueView};
use crate::value_map::with_entry;
use serde_json::Value as Tree;
use vstd::prelude::*;
use vstd::string::*;

verus! {

/// A JSON number: the bit pattern of the 64-bit float that it stands for, if
/// it stands for one, and the number as it is written.
#[derive(Debug)]
pub struct JsonNumber {
    pub bits: Option<u64>,
    pub text: String,
}

/// A member of a JSON object.
#[derive(Debug)]
pub struct JsonMember {
    pub name: String,
    pub value: JsonValue,
}

/// A JSON value.
#[derive(Debug)]
pub enum JsonValue {
    Null,
    Bool(bool),
    Number(JsonNumber),
    Text(String),
    Array(Vec<JsonValue>),
    Object(Vec<JsonMember>),
}

/// The mathematical value of a JSON value.
pub enum JsonView {
    Null,
    Bool(bool),
    Number(Option<u64>, Seq<char>),
    Text(Seq<char>),
    Array(Seq<JsonView>),
    Object(Seq<(Seq<char>, JsonView)>),
}

pub open spec fn json_views(s: Seq<JsonValue>) -> Seq<JsonView>
    decreases s, 0nat,
{
    Seq::new(
        s.len(),
        |i: int|
            if 0 <= i < s.len() {
                json_view(s[i])
            } else {
                JsonView::Null
            },
    )
}

pub open spec fn member_views(s: Seq<JsonMember>) -> Seq<(Seq<char>, JsonView)>
    decreases s, 0nat,
{
    Seq::new(
        s.len(),
        |i: int|
            if 0 <= i < s.len() {
                (s[i].name@, json_view(s[i].value))
            } else {
                (seq![], JsonView::Null)
            },
    )
}

pub open spec fn json_view(value: JsonValue) -> JsonView
    decreases value, 1nat,
{
    match value {
        JsonValue::Null => JsonView::Null,
        JsonValue::Bool(b) => JsonView::Bool(b),
        JsonValue::Number(n) => JsonView::Number(n.bits, n.text@),
        JsonValue::Text(s) => JsonView::Text(s@),
        JsonValue::Array(items) => JsonView::Array(json_views(items@)),
        JsonValue::Object(members) => JsonView::Object(member_views(members@)),
    }
}

impl View for JsonValue {
    type V = JsonView;

    open spec fn view(&self) -> JsonView {
        json_view(*self)
    }
}

/// The values of the first `n` items of a JSON array, or the error of the
/// first item that has none.
pub open spec fn array_values(items: Seq<JsonView>, n: nat) -> Result<Seq<ValueView>, Seq<char>>
    decreases items, n,
{
    if n == 0 || n > items.len() {
        Ok(seq![])
    } else {
        match array_values(items, (n - 1) as nat) {
            Err(message) => Err(message),
            Ok(values) => match value_of_json(items[n - 1]) {
                Err(message) => Err(message),
                Ok(value) => Ok(values.push(value)),
            },
        }
    }
}

/// The entries of a map that holds the first `n` members of a JSON object,
/// each under its name, or the error of the first member that has no value.
pub open spec fn object_entries(members: Seq<(Seq<char>, JsonView)>, n: nat) -> Result<
    Seq<(ValueView, ValueView)>,
    Seq<char>,
>
    decreases members, n,
{
    if n == 0 || n > members.len() {
        Ok(seq![])
    } else {
        match object_entries(members, (n - 1) as nat) {
            Err(message) => Err(message),
            Ok(entries) => match value_of_json(members[n - 1].1) {
                Err(message) => Err(message),
                Ok(value) => Ok(with_entry(entries, ValueView::Str(members[n - 1].0), value)),
            },
        }
    }
}

/// The value that a JSON value stands for: `Empty` for null, a list for an
/// array, a map for an object. A number that is no 64-bit float has none.
pub open spec fn value_of_json(json: JsonView) -> Result<ValueView, Seq<char>>
    decreases json, 0nat,
{
    match json {
        JsonView::Null => Ok(ValueView::Empty),
        JsonView::Bool(b) => Ok(ValueView::Bool(b)),
        JsonView::Number(bits, text) => match bits {
            Some(bits) => Ok(ValueView::Number(bits)),
            None => Err("Number is out of range for an f64: "@ + text),
        },
        JsonView::Text(s) => Ok(ValueView::Str(s)),
        JsonView::Array(items) => match array_values(items, items.len()) {
            Ok(values) => Ok(ValueView::List(values)),
            Err(message) => Err(message),
        },
        JsonView::Object(members) => match object_entries(members, members.len()) {
            Ok(entries) => Ok(ValueView::Mapping(MapView { entries, meta: seq![] })),
            Err(message) => Err(message),
        },
    }
}

/// What a conversion gave: the mathematical value, or the message.
pub open spec fn converted(result: Result<Value, String>) -> Result<ValueView, Seq<char>> {
    match result {
        Ok(value) => Ok(value@),
        Err(message) => Err(message@),
    }
}

/// The value that a JSON value stands for.
pub fn json_value_to_koto_value(value: &JsonValue) -> (result: Result<Value, String>)
    ensures
        converted(result) == value_of_json(value@),
    decreases value,
{
    match value {
        JsonValue::Null => Ok(Value::Empty),
        JsonValue::Bool(b) => Ok(Value::Bool(*b)),
        JsonValue::Number(n) => match n.bits {
            Some(bits) => Ok(Value::Number(bits)),
            None => {
                let mut message = String::from_str("Number is out of range for an f64: ");
                message.append(n.text.as_str());
                Err(message)
            },
        },
        JsonValue::Text(s) => Ok(Value::Str(s.clone())),
        JsonValue::Array(a) => {
            let mut list: Vec<Value> = Vec::new();
            let mut i: usize = 0;
            let ghost items = json_views(a@);
            assert(values_view(list@) =~= seq![]);
            while i < a.len()
                invariant
                    i <= a@.len(),
                    items == json_views(a@),
                    value@ == JsonView::Array(items),
                    decreases_to!(value => a),
                    array_values(items, i as nat) == Ok::<Seq<ValueView>, Seq<char>>(
                        values_view(list@),
                    ),
                decreases a@.len() - i,
            {
                match json_value_to_koto_value(&a[i]) {
                    Ok(item) => {
                        let ghost before = list@;
                        list.push(item);
                        assert(values_view(list@) =~= values_view(before).push(item@));
                    },
                    Err(message) => {
                        proof {
                            lemma_array_error(items, (i + 1) as nat, items.len());
                            assert(value@->Array_0 == items);
                        }
                        return Err(message);
                    },
                }
                i += 1;
            }
            assert(value@->Array_0 == items);
            Ok(Value::List(list))
        },
        JsonValue::Object(o) => {
            let mut map = ValueMap::with_capacity(o.len());
            let mut i: usize = 0;
            let ghost members = member_views(o@);
            assert(map@.entries =~= seq![]);
            assert(map@.meta =~= seq![]);
            while i < o.len()
                invariant
                    i <= o@.len(),
                    members == member_views(o@),
                    value@ == JsonView::Object(members),
                    decreases_to!(value => o),
                    map@.meta == Seq::<(crate::value::MetaKey, ValueView)>::empty(),
                    object_entries(members, i as nat) == Ok::<
                        Seq<(ValueView, ValueView)>,
                        Seq<char>,
                    >(map@.entries),
                decreases o@.len() - i,
            {
                assert(decreases_to!(o => o[i as int]));
                match json_value_to_koto_value(&o[i].value) {
                    Ok(item) => {
                        map.add_value(o[i].name.as_str(), item);
                    },
                    Err(message) => {
                        proof {
                            lemma_object_error(members, (i + 1) as nat, members.len());
                            assert(value@->Object_0 == members);
                        }
                        return Err(message);
                    },
                }
                i += 1;
            }
            assert(value@->Object_0 == members);
            Ok(Value::Mapping(map))
        },
    }
}

/// An error among the first items of an array is the error of the array.
proof fn lemma_array_error(items: Seq<JsonView>, n: nat, m: nat)
    requires
        n <= m <= items.len(),
        array_values(items, n) is Err,
    ensures
        array_values(items, m) == array_values(items, n),
    decreases m,
{
    if n < m {
        lemma_array_error(items, n, (m - 1) as nat);
    }
}

/// An error among the first members of an object is the error of the object.
proof fn lemma_object_error(members: Seq<(Seq<char>, JsonView)>, n: nat, m: nat)
    requires
        n <= m <= members.len(),
        object_entries(members, n) is Err,
    ensures
        object_entries(members, m) == object_entries(members, n),
    decreases m,
{
    if n < m {
        lemma_object_error(members, n, (m - 1) as nat);
    }
}

/// `serde_json::Value`: a JSON text as `serde_json` parses it. Nothing is
/// known of it here but what `json_tree` names.
#[verifier::external_type_specification]
#[verifier::external_body]
pub struct ExTree(Tree);

/// What `serde_json::from_str` makes of a text: the JSON value that the
/// text stands for, or the message of the error that it fails with.
pub uninterp spec fn parsed_json(text: Seq<char>) -> Result<JsonView, Seq<char>>;

/// The JSON value that a `serde_json::Value` holds.
pub uninterp spec fn json_tree(parsed: Tree) -> JsonView;

/// Parses a JSON text with `serde_json::from_str`. The contract names what
/// comes back: what `parsed_json` stands for, the value's tree or the
/// error's message as `serde_json` words it.
#[verifier::external_body]
fn parse_text(text: &str) -> (result: Result<Tree, String>)
    ensures
        match result {
            Ok(parsed) => parsed_json(text@) == Ok::<JsonView, Seq<char>>(json_tree(parsed)),
            Err(message) => parsed_json(text@) == Err::<JsonView, Seq<char>>(message@),
        },
{
    match serde_json::from_str::<Tree>(text) {
        Ok(parsed) => Ok(parsed),
        Err(error) => Err(error.to_string()),
    }
}

/// Copies what a `serde_json::Value` holds into a tree of the library,
/// variant by variant. A number is copied as its bit pattern, from
/// `Number::as_f64`, and as it is written, from its `to_string`; the members
/// of an object are copied in the order in which `serde_json` walks them.
#[verifier::external_body]
fn tree_of(parsed: &Tree) -> (json: JsonValue)
    ensures
        json@ == json_tree(*parsed),
{
    match parsed {
        Tree::Null => JsonValue::Null,
        Tree::Bool(b) => JsonValue::Bool(*b),
        Tree::Number(n) => JsonValue::Number(
            JsonNumber { bits: n.as_f64().map(|x| x.to_bits()), text: n.to_string() },
        ),
        Tree::String(s) => JsonValue::Text(s.clone()),
        Tree::Array(a) => JsonValue::Array(a.iter().map(tree_of).collect()),
        Tree::Object(o) => JsonValue::Object(
            o.iter().map(|(k, v)| JsonMember { name: k.clone(), value: tree_of(v) }).collect(),
        ),
    }
}

/// What `json.from_string` gives for a text that was parsed as `parsed`:
/// the value that the JSON value stands for, or a failure with the message
/// of the parser or of the conversion.
pub open spec fn parsed_result(parsed: Result<JsonView, Seq<char>>) -> Result<ValueView, Seq<char>> {
    match parsed {
        Ok(tree) => match value_of_json(tree) {
            Ok(value) => Ok(value),
            Err(message) => Err("json.from_string: Error while parsing input: "@ + message),
        },
        Err(message) => Err("json.from_string: Error while parsing input: "@ + message),
    }
}

/// `json.from_string`: the value that a JSON text stands for.
pub open spec fn from_string_effect(args: Seq<ValueView>) -> Effect {
    if args.len() == 1 && args[0] is Str {
        Effect { args, result: parsed_result(parsed_json(args[0]->Str_0)) }
    } else {
        fails(args, "json.from_string expects a string as argument"@)
    }
}

/// What a parser gave: the mathematical value, or the message.
pub open spec fn parsed_view(parsed: Result<JsonValue, String>) -> Result<JsonView, Seq<char>> {
    match parsed {
        Ok(tree) => Ok(tree@),
        Err(message) => Err(message@),
    }
}

/// What `json.from_string` gives for a text that was parsed as `parsed`.
pub fn from_parsed(parsed: Result<JsonValue, String>) -> (result: RuntimeResult)
    ensures
        outcome_view(result) == parsed_result(parsed_view(parsed)),
        result is Err ==> result->Err_0 is ErrorWithoutLocation,
{
    let converted = match parsed {
        Ok(tree) => json_value_to_koto_value(&tree),
        Err(message) => Err(message),
    };
    match converted {
        Ok(value) => Ok(value),
        Err(message) => {
            let mut text = String::from_str("json.from_string: Error while parsing input: ");
            text.append(message.as_str());
            external_error(text)
        },
    }
}

pub fn from_string(args: &mut Vec<Value>) -> (result: RuntimeResult)
    ensures
        done(final(args)@, result, from_string_effect(values_view(old(args)@))),
{
    if args.len() == 1 {
        if let Some(text) = str_at(args, 0) {
            let parsed = match parse_text(text.as_str()) {
                Ok(parsed) => Ok(tree_of(&parsed)),
                Err(message) => Err(message),
            };
            return from_parsed(parsed);
        }
    }
    external_error_text("json.from_string expects a string as argument")
}

} // verus!
