//! JSON values, and reading them from text.

use vstd::prelude::*;

use crate::text::same_text;

verus! {

/// A JSON value.
#[derive(Debug, PartialEq)]
pub enum JsonValue {
    Null,
    Bool(bool),
    /// A number, as JSON text and, if it is an unsigned integer that fits, as that integer.
    Number { text: String, whole: Option<u64> },
    /// A string, with the characters it stands for.
    Text(String),
    List(Vec<JsonValue>),
    /// The members, each with its name.
    Object(Vec<(String, JsonValue)>),
}

/// The contents of a [`JsonValue`].
pub enum JsonValueView {
    Null,
    Bool(bool),
    Number { text: Seq<char>, whole: Option<u64> },
    Text(Seq<char>),
    List(Seq<JsonValueView>),
    Object(Seq<(Seq<char>, JsonValueView)>),
}

/// The contents of a value.
pub open spec fn contents(value: JsonValue) -> JsonValueView
    decreases value,
{
    match value {
        JsonValue::Null => JsonValueView::Null,
        JsonValue::Bool(flag) => JsonValueView::Bool(flag),
        JsonValue::Number { text, whole } => JsonValueView::Number { text: text@, whole },
        JsonValue::Text(text) => JsonValueView::Text(text@),
        JsonValue::List(items) => JsonValueView::List(
            Seq::new(
                items@.len(),
                |i: int|
                    if 0 <= i < items@.len() {
                        contents(items@[i])
                    } else {
                        JsonValueView::Null
                    },
            ),
        ),
        JsonValue::Object(members) => JsonValueView::Object(
            Seq::new(
                members@.len(),
                |i: int|
                    if 0 <= i < members@.len() {
                        (members@[i].0@, contents(members@[i].1))
                    } else {
                        (Seq::empty(), JsonValueView::Null)
                    },
            ),
        ),
    }
}

impl View for JsonValue {
    type V = JsonValueView;

    open spec fn view(&self) -> JsonValueView {
        contents(*self)
    }
}

/// `serde_json::Value`: a JSON value as `serde_json` holds it. What is in it is read with
/// [`layer_of`].
#[verifier::external_type_specification]
#[verifier::external_body]
pub struct ExValue(serde_json::Value);

/// What a `serde_json::Value` holds.
pub uninterp spec fn held(value: serde_json::Value) -> JsonValueView;

/// The JSON value that a text denotes, or the message that says why it denotes none.
pub uninterp spec fn json_document(text: Seq<char>) -> Result<JsonValueView, Seq<char>>;

/// Parses a text with `serde_json::from_str` into a `serde_json::Value`. The outcome, a value or
/// the message of the error, depends on the text alone. Which texts are valid JSON, and how a
/// text that is not is reported, is left to `serde_json`.
#[verifier::external_body]
fn parse_value(text: &str) -> (result: Result<serde_json::Value, String>)
    ensures
        json_document(text@) == (match result {
            Ok(value) => Ok::<JsonValueView, Seq<char>>(held(value)),
            Err(message) => Err(message@),
        }),
{
    serde_json::from_str(text).map_err(|e| e.to_string())
}

/// The outermost layer of a `serde_json::Value`, with the values inside it as they are.
enum Layer<'a> {
    Null,
    Bool(bool),
    Number { text: String, whole: Option<u64> },
    Text(String),
    List(&'a Vec<serde_json::Value>),
    Object(Vec<(String, &'a serde_json::Value)>),
}

/// What a value with that outermost layer holds.
spec fn layered(layer: Layer) -> JsonValueView {
    match layer {
        Layer::Null => JsonValueView::Null,
        Layer::Bool(flag) => JsonValueView::Bool(flag),
        Layer::Number { text, whole } => JsonValueView::Number { text: text@, whole },
        Layer::Text(text) => JsonValueView::Text(text@),
        Layer::List(items) => JsonValueView::List(Seq::new(items@.len(), |i: int| held(items@[i]))),
        Layer::Object(members) => JsonValueView::Object(
            Seq::new(members@.len(), |i: int| (members@[i].0@, held(*members@[i].1))),
        ),
    }
}

/// Tells the variants of `serde_json::Value` apart and hands out what each holds: a number by its
/// `to_string` and its `as_u64`, an object by the names and values of its map, in the map's
/// order. What a value holds is its variant with what the values inside it hold.
#[verifier::external_body]
fn layer_of<'a>(value: &'a serde_json::Value) -> (layer: Layer<'a>)
    ensures
        layered(layer) == held(*value),
{
    match value {
        serde_json::Value::Null => Layer::Null,
        serde_json::Value::Bool(flag) => Layer::Bool(*flag),
        serde_json::Value::Number(n) => Layer::Number { text: n.to_string(), whole: n.as_u64() },
        serde_json::Value::String(text) => Layer::Text(text.clone()),
        serde_json::Value::Array(items) => Layer::List(items),
        serde_json::Value::Object(map) => {
            Layer::Object(map.iter().map(|(key, member)| (key.clone(), member)).collect())
        },
    }
}

/// A `serde_json::Value` as a value of the library.
fn value_of(value: &serde_json::Value) -> (result: JsonValue)
    ensures
        contents(result) == held(*value),
    decreases held(*value),
{
    match layer_of(value) {
        Layer::Null => JsonValue::Null,
        Layer::Bool(flag) => JsonValue::Bool(flag),
        Layer::Number { text, whole } => JsonValue::Number { text, whole },
        Layer::Text(text) => JsonValue::Text(text),
        Layer::List(items) => {
            let ghost inner = held(*value)->List_0;
            assert(decreases_to!(held(*value) => inner));
            let mut list: Vec<JsonValue> = Vec::new();
            let mut i: usize = 0;
            while i < items.len()
                invariant
                    i <= items.len(),
                    i == list.len(),
                    inner == Seq::new(items@.len(), |k: int| held(items@[k])),
                    decreases_to!(held(*value) => inner),
                    forall|k: int| 0 <= k < i ==> contents(#[trigger] list@[k]) == inner[k],
                decreases items.len() - i,
            {
                assert(decreases_to!(inner => inner[i as int]));
                assert(inner[i as int] == held(items@[i as int]));
                list.push(value_of(&items[i]));
                i += 1;
            }
            let result = JsonValue::List(list);
            assert(contents(result)->List_0 =~= inner);
            result
        },
        Layer::Object(members) => {
            let ghost inner = held(*value)->Object_0;
            assert(decreases_to!(held(*value) => inner));
            let mut list: Vec<(String, JsonValue)> = Vec::new();
            let mut i: usize = 0;
            while i < members.len()
                invariant
                    i <= members.len(),
                    i == list.len(),
                    inner == Seq::new(
                        members@.len(),
                        |k: int| (members@[k].0@, held(*members@[k].1)),
                    ),
                    decreases_to!(held(*value) => inner),
                    forall|k: int|
                        0 <= k < i ==> (#[trigger] list@[k]).0@ == inner[k].0 && contents(list@[k].1)
                            == inner[k].1,
                decreases members.len() - i,
            {
                assert(decreases_to!(inner => inner[i as int]));
                assert(decreases_to!(inner[i as int] => inner[i as int].1));
                assert(inner[i as int].1 == held(*members@[i as int].1));
                let member = value_of(members[i].1);
                list.push((members[i].0.clone(), member));
                i += 1;
            }
            let result = JsonValue::Object(list);
            assert(contents(result)->Object_0 =~= inner);
            result
        },
    }
}

/// The outcome of parsing a text, over the contents of both sides.
pub open spec fn outcome(result: Result<JsonValue, String>) -> Result<JsonValueView, Seq<char>> {
    match result {
        Ok(value) => Ok(contents(value)),
        Err(message) => Err(message@),
    }
}

/// Reads a JSON value from a text, or says why the text is none.
pub fn parse_json(text: &str) -> (result: Result<JsonValue, String>)
    ensures
        outcome(result) == json_document(text@),
{
    match parse_value(text) {
        Ok(value) => Ok(value_of(&value)),
        Err(message) => Err(message),
    }
}

/// The members of an object; no other value has any.
pub open spec fn members_of(value: JsonValueView) -> Seq<(Seq<char>, JsonValueView)> {
    match value {
        JsonValueView::Object(members) => members,
        _ => Seq::empty(),
    }
}

/// The first member of that name.
pub open spec fn member_of(members: Seq<(Seq<char>, JsonValueView)>, key: Seq<char>) -> Option<
    JsonValueView,
>
    decreases members.len(),
{
    if members.len() == 0 {
        None
    } else if members[0].0 == key {
        Some(members[0].1)
    } else {
        member_of(members.skip(1), key)
    }
}

/// The string at the given name of an object, if there is one.
pub open spec fn text_of(value: JsonValueView, key: Seq<char>) -> Option<Seq<char>> {
    match member_of(members_of(value), key) {
        Some(JsonValueView::Text(text)) => Some(text),
        _ => None,
    }
}

/// The unsigned integer at the given name of an object, if there is one.
pub open spec fn number_of(value: JsonValueView, key: Seq<char>) -> Option<u64> {
    match member_of(members_of(value), key) {
        Some(JsonValueView::Number { whole, .. }) => whole,
        _ => None,
    }
}

impl JsonValue {
    /// The value at the given name, if this is an object that has one.
    pub fn member(&self, key: &str) -> (member: Option<&JsonValue>)
        ensures
            match member {
                Some(value) => member_of(members_of(self@), key@) == Some(value@),
                None => member_of(members_of(self@), key@) is None,
            },
    {
        if let JsonValue::Object(members) = self {
            let ghost views = members_of(self@);
            let mut i: usize = 0;
            assert(views.skip(0) =~= views);
            while i < members.len()
                invariant
                    i <= members.len(),
                    views == members_of(self@),
                    views.len() == members.len(),
                    forall|k: int|
                        0 <= k < members.len() ==> #[trigger] views[k] == (
                            members@[k].0@,
                            contents(members@[k].1),
                        ),
                    member_of(views, key@) == member_of(views.skip(i as int), key@),
                decreases members.len() - i,
            {
                assert(views.skip(i as int)[0] == views[i as int]);
                if same_text(&members[i].0, key) {
                    return Some(&members[i].1);
                }
                assert(views.skip(i as int).skip(1) =~= views.skip(i + 1));
                i += 1;
            }
        }
        None
    }

    /// The string at the given name, if this is an object with a string there.
    pub fn text_at(&self, key: &str) -> (text: Option<String>)
        ensures
            text.deep_view() == text_of(self@, key@),
    {
        match self.member(key) {
            Some(JsonValue::Text(text)) => Some(text.clone()),
            _ => None,
        }
    }

    /// The unsigned integer at the given name, if this is an object with one there.
    pub fn number_at(&self, key: &str) -> (number: Option<u64>)
        ensures
            number == number_of(self@, key@),
    {
        match self.member(key) {
            Some(JsonValue::Number { whole, .. }) => *whole,
            _ => None,
        }
    }
}

/// The value of a member is that of the first member of its name; there is none exactly when no
/// member has the name.
pub proof fn law_first_member_counts(members: Seq<(Seq<char>, JsonValueView)>, key: Seq<char>)
    ensures
        match member_of(members, key) {
            Some(value) => exists|i: int|
                0 <= i < members.len() && (#[trigger] members[i]).0 == key && members[i].1 == value
                    && (forall|k: int| 0 <= k < i ==> (#[trigger] members[k]).0 != key),
            None => forall|k: int| 0 <= k < members.len() ==> (#[trigger] members[k]).0 != key,
        },
    decreases members.len(),
{
    if members.len() > 0 && members[0].0 != key {
        let rest = members.skip(1);
        law_first_member_counts(rest, key);
        match member_of(rest, key) {
            Some(value) => {
                let i = choose|i: int|
                    0 <= i < rest.len() && (#[trigger] rest[i]).0 == key && rest[i].1 == value && (
                    forall|k: int| 0 <= k < i ==> (#[trigger] rest[k]).0 != key);
                assert(members[i + 1].0 == key);
                assert forall|k: int| 0 <= k < i + 1 implies (#[trigger] members[k]).0 != key by {
                    if k > 0 {
                        assert(rest[k - 1].0 != key);
                    }
                }
            },
            None => {
                assert forall|k: int| 0 <= k < members.len() implies (#[trigger] members[k]).0
                    != key by {
                    if k > 0 {
                        assert(rest[k - 1].0 != key);
                    }
                }
            },
        }
    }
}

/// A string or an unsigned integer is read from a value at the place where it stands: from the
/// first member of its name, and only if that is a string, or a number that is such an integer.
/// A value that is no object has no members.
pub proof fn law_members_are_read_by_kind(value: JsonValueView, key: Seq<char>, i: int)
    requires
        value matches JsonValueView::Object(members) ==> 0 <= i <= members.len() && (forall|k: int|
            0 <= k < i ==> (#[trigger] members[k]).0 != key) && (i < members.len() ==> members[i].0
            == key),
    ensures
        match value {
            JsonValueView::Object(members) => if i < members.len() {
                &&& text_of(value, key) == match members[i].1 {
                    JsonValueView::Text(text) => Some(text),
                    _ => None,
                }
                &&& number_of(value, key) == match members[i].1 {
                    JsonValueView::Number { text, whole } => whole,
                    _ => None,
                }
                &&& member_of(members_of(value), key) == Some(members[i].1)
            } else {
                &&& text_of(value, key) is None
                &&& number_of(value, key) is None
                &&& member_of(members_of(value), key) is None
            },
            _ => {
                &&& text_of(value, key) is None
                &&& number_of(value, key) is None
                &&& member_of(members_of(value), key) is None
            },
        },
{
    law_first_member_counts(members_of(value), key);
    if let JsonValueView::Object(members) = value {
        if let Some(found) = member_of(members, key) {
            let at = choose|at: int|
                0 <= at < members.len() && (#[trigger] members[at]).0 == key && members[at].1
                    == found && (forall|k: int| 0 <= k < at ==> (#[trigger] members[k]).0 != key);
            assert(members[at].0 == key);
        } else if i < members.len() {
            assert(members[i].0 != key);
        }
    }
}

/// The contents of a value are those of its parts: nothing is added, left out or moved.
pub proof fn law_contents_are_those_of_the_parts(value: JsonValue)
    ensures
        value@ == contents(value),
        match value {
            JsonValue::Null => value@ is Null,
            JsonValue::Bool(flag) => value@ == JsonValueView::Bool(flag),
            JsonValue::Number { text, whole } => value@ == (JsonValueView::Number {
                text: text@,
                whole,
            }),
            JsonValue::Text(text) => value@ == JsonValueView::Text(text@),
            JsonValue::List(items) => {
                &&& value@ is List
                &&& value@->List_0.len() == items@.len()
                &&& forall|i: int|
                    0 <= i < items@.len() ==> #[trigger] value@->List_0[i] == items@[i]@
            },
            JsonValue::Object(members) => {
                &&& value@ is Object
                &&& value@->Object_0.len() == members@.len()
                &&& forall|i: int|
                    0 <= i < members@.len() ==> (#[trigger] value@->Object_0[i]).0
                        == members@[i].0@ && value@->Object_0[i].1 == members@[i].1@
            },
        },
{
}

/// The outcome of parsing is the value's contents on the one side and the message on the other.
pub proof fn law_outcome_is_faithful(result: Result<JsonValue, String>)
    ensures
        match result {
            Ok(value) => outcome(result) == Ok::<JsonValueView, Seq<char>>(value@),
            Err(message) => outcome(result) == Err::<JsonValueView, Seq<char>>(message@),
        },
{
}

} // verus!
