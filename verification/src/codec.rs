//! JSON text: reading it into values and writing values as text, through `serde_json`.

use vstd::prelude::*;
use crate::json::{Json, JsonView, Object, items_view, json_view, number_view};
use crate::text::lemma_text_before_irreflexive;

verus! {

/// A JSON value as `serde_json` holds it.
#[verifier::external_type_specification]
#[verifier::external_body]
pub struct ExValue(serde_json::Value);

/// What a `serde_json::Value` holds: the items of its arrays, the members of its objects, and
/// what stands at its leaves.
pub uninterp spec fn value_contents(value: serde_json::Value) -> JsonView;

/// What `serde_json::from_str` makes of a text: the value that it stands for, or the message of
/// the error that names the first fault in it.
pub uninterp spec fn parsed_text(text: Seq<char>) -> Result<JsonView, Seq<char>>;

/// The text that `serde_json::to_string` writes for a value: compact, with the members of an
/// object in the order of their keys.
pub uninterp spec fn rendered_text(json: JsonView) -> Seq<char>;

/// One layer of a `serde_json::Value`.
pub enum Node {
    Null,
    Bool(bool),
    Number(serde_json::Number),
    Text(String),
    Array(Vec<serde_json::Value>),
    Object(Vec<(String, serde_json::Value)>),
}

/// What the items of a layer hold.
pub open spec fn values_contents(values: Seq<serde_json::Value>) -> Seq<JsonView> {
    values.map_values(|value: serde_json::Value| value_contents(value))
}

/// What the members of a layer hold; of two with the same key the later one counts.
pub open spec fn members_contents(
    members: Seq<(String, serde_json::Value)>,
) -> Map<Seq<char>, JsonView>
    decreases members.len(),
{
    if members.len() == 0 {
        Map::empty()
    } else {
        members_contents(members.drop_last()).insert(
            members.last().0@,
            value_contents(members.last().1),
        )
    }
}

/// What a layer holds.
pub open spec fn node_contents(node: Node) -> JsonView {
    match node {
        Node::Null => JsonView::Null,
        Node::Bool(value) => JsonView::Bool(value),
        Node::Number(number) => number_view(number),
        Node::Text(text) => JsonView::Text(text@),
        Node::Array(values) => JsonView::Array(values_contents(values@)),
        Node::Object(members) => JsonView::Object(members_contents(members@)),
    }
}

/// Whether no two members have the same key.
pub open spec fn distinct_members(members: Seq<(String, serde_json::Value)>) -> bool {
    forall|i: int, j: int|
        0 <= i < j < members.len() ==> #[trigger] members[i].0@ != #[trigger] members[j].0@
}

/// What the outcome of a parse holds.
pub open spec fn parsed_contents(
    parsed: Result<serde_json::Value, String>,
) -> Result<JsonView, Seq<char>> {
    match parsed {
        Ok(value) => Ok(value_contents(value)),
        Err(message) => Err(message@),
    }
}

/// `serde_json::from_str` on a text. The value that it returns, or the text of its error, is
/// named; what the grammar of JSON makes of a given text is not stated.
#[verifier::external_body]
fn parse_value(text: &str) -> (parsed: Result<serde_json::Value, String>)
    ensures
        parsed_contents(parsed) == parsed_text(text@),
{
    serde_json::from_str(text).map_err(|error: serde_json::Error| error.to_string())
}

/// How deep the arrays and objects of a text may be nested for `serde_json::from_str` to read it.
pub const MAX_DEPTH: usize = 127;

/// Whether a value holds no number but integers, and has no more than `depth` arrays and objects
/// one in another.
pub open spec fn plain(json: JsonView, depth: nat) -> bool
    decreases depth,
{
    match json {
        JsonView::Decimal(_) => false,
        JsonView::Array(items) => depth > 0 && forall|i: int|
            0 <= i < items.len() ==> plain(#[trigger] items[i], (depth - 1) as nat),
        JsonView::Object(members) => depth > 0 && forall|key: Seq<char>| #[trigger]
            members.contains_key(key) ==> plain(members[key], (depth - 1) as nat),
        _ => true,
    }
}

/// Whether a text is read as `json`.
pub open spec fn reads_as(text: Seq<char>, json: JsonView) -> bool {
    parsed_text(text) == Ok::<JsonView, Seq<char>>(json)
}

/// `serde_json::to_string` on a value, which always succeeds on a `serde_json::Value`. The text
/// is named. It holds no line feed: one in a string is escaped, and the compact form has none
/// elsewhere. `serde_json::from_str` reads it back as the same value, where that is nested no
/// deeper than the reader allows and holds no number but integers; a number with a fraction may
/// come back as a neighbour of itself. How the text is written is not stated otherwise.
#[verifier::external_body]
fn render_value(value: &serde_json::Value) -> (text: String)
    ensures
        text@ == rendered_text(value_contents(*value)),
        !text@.contains('\n'),
        plain(value_contents(*value), MAX_DEPTH as nat) ==> reads_as(text@, value_contents(*value)),
{
    serde_json::to_string(value).expect("JSON value serializes")
}

/// The variants of `serde_json::Value`, told apart: the layer holds what the value holds. The
/// members of a `serde_json::Map` have distinct keys.
#[verifier::external_body]
fn open_value(value: serde_json::Value) -> (node: Node)
    ensures
        node_contents(node) == value_contents(value),
        node matches Node::Object(members) ==> distinct_members(members@),
{
    match value {
        serde_json::Value::Null => Node::Null,
        serde_json::Value::Bool(value) => Node::Bool(value),
        serde_json::Value::Number(number) => Node::Number(number),
        serde_json::Value::String(text) => Node::Text(text),
        serde_json::Value::Array(values) => Node::Array(values),
        serde_json::Value::Object(members) => Node::Object(members.into_iter().collect()),
    }
}

/// The variants of `serde_json::Value`, put together: the value holds what the layer holds.
#[verifier::external_body]
fn close_value(node: Node) -> (value: serde_json::Value)
    requires
        node matches Node::Object(members) ==> distinct_members(members@),
    ensures
        value_contents(value) == node_contents(node),
{
    match node {
        Node::Null => serde_json::Value::Null,
        Node::Bool(value) => serde_json::Value::Bool(value),
        Node::Number(number) => serde_json::Value::Number(number),
        Node::Text(text) => serde_json::Value::String(text),
        Node::Array(values) => serde_json::Value::Array(values),
        Node::Object(members) => serde_json::Value::Object(members.into_iter().collect()),
    }
}

proof fn lemma_members(members: Seq<(String, serde_json::Value)>)
    requires
        distinct_members(members),
    ensures
        members_contents(members).dom().finite(),
        forall|i: int|
            0 <= i < members.len() ==> members_contents(members).contains_key(#[trigger] members[i].0@),
        forall|i: int|
            0 <= i < members.len() ==> members_contents(members)[#[trigger] members[i].0@]
                == value_contents(members[i].1),
        forall|key: Seq<char>|
            members_contents(members).contains_key(key) ==> exists|i: int|
                0 <= i < members.len() && #[trigger] members[i].0@ == key,
    decreases members.len(),
{
    if members.len() > 0 {
        let front = members.drop_last();
        let last = members.len() - 1;
        assert(forall|i: int| 0 <= i < front.len() ==> front[i] == members[i]);
        lemma_members(front);
        assert forall|i: int| 0 <= i < members.len() implies {
            &&& members_contents(members).contains_key(#[trigger] members[i].0@)
            &&& members_contents(members)[members[i].0@] == value_contents(members[i].1)
        } by {
            if i < last {
                assert(front[i] == members[i]);
                assert(members[i].0@ != members[last].0@);
            }
        }
        assert forall|key: Seq<char>| members_contents(members).contains_key(key) implies exists|i: int|
            0 <= i < members.len() && #[trigger] members[i].0@ == key by {
            if key == members[last].0@ {
            } else {
                let i = choose|i: int| 0 <= i < front.len() && #[trigger] front[i].0@ == key;
                assert(members[i].0@ == key);
            }
        }
    }
}

/// The library's value for a `serde_json::Value`.
pub fn from_value(source: serde_json::Value) -> (json: Json)
    ensures
        json@ == value_contents(source),
    decreases value_contents(source),
{
    let ghost contents = value_contents(source);
    match open_value(source) {
        Node::Null => Json::Null,
        Node::Bool(value) => Json::Bool(value),
        Node::Number(number) => Json::Number(number),
        Node::Text(text) => Json::Text(text),
        Node::Array(values) => {
            let ghost all = values@;
            let mut items: Vec<Json> = Vec::new();
            for value in iter: values
                invariant
                    iter.seq() == all,
                    contents == value_contents(source),
                    contents == JsonView::Array(values_contents(all)),
                    items@.len() == iter.index(),
                    forall|j: int| 0 <= j < iter.index() ==> json_view(#[trigger] items@[j]) == value_contents(all[j]),
            {
                assert(value == all[iter.index() as int]);
                assert(decreases_to!(contents => contents->Array_0));
                assert(decreases_to!(contents->Array_0 => contents->Array_0[iter.index() as int]));
                items.push(from_value(value));
            }
            assert(items_view(items@) =~= values_contents(all));
            Json::Array(items)
        },
        Node::Object(members) => {
            let ghost all = members@;
            let mut object = Object::new();
            for member in iter: members
                invariant
                    iter.seq() == all,
                    contents == value_contents(source),
                    contents == JsonView::Object(members_contents(all)),
                    distinct_members(all),
                    object@ == members_contents(all.take(iter.index() as int)),
            {
                let (key, value) = member;
                let ghost i = iter.index() as int;
                proof {
                    assert((key, value) == all[i]);
                    lemma_members(all);
                    assert(decreases_to!(contents => contents->Object_0));
                    assert(decreases_to!(contents->Object_0 => contents->Object_0[key@]));
                    assert(all.take(i + 1).drop_last() =~= all.take(i));
                }
                object.insert(key, from_value(value));
            }
            assert(all.take(all.len() as int) =~= all);
            Json::Object(object)
        },
    }
}

/// The `serde_json::Value` for a value of the library.
pub fn to_value(json: &Json) -> (value: serde_json::Value)
    ensures
        value_contents(value) == json@,
    decreases json@,
{
    match json {
        Json::Null => close_value(Node::Null),
        Json::Bool(value) => close_value(Node::Bool(*value)),
        Json::Number(number) => close_value(Node::Number(number.clone())),
        Json::Text(text) => close_value(Node::Text(text.clone())),
        Json::Array(items) => {
            let mut values: Vec<serde_json::Value> = Vec::new();
            let mut i: usize = 0;
            while i < items.len()
                invariant
                    *json == Json::Array(*items),
                    i <= items.len(),
                    values@.len() == i,
                    forall|j: int| 0 <= j < i ==> value_contents(#[trigger] values@[j]) == json_view(items@[j]),
                decreases items.len() - i,
            {
                assert(decreases_to!(json@ => json@->Array_0));
                assert(decreases_to!(json@->Array_0 => json@->Array_0[i as int]));
                values.push(to_value(&items[i]));
                i = i + 1;
            }
            assert(values_contents(values@) =~= items_view(items@));
            close_value(Node::Array(values))
        },
        Json::Object(object) => {
            let mut members: Vec<(String, serde_json::Value)> = Vec::new();
            let count = object.len();
            let mut i: usize = 0;
            while i < count
                invariant
                    *json == Json::Object(*object),
                    object@.dom().finite(),
                    count == object.keys().len(),
                    i <= count,
                    members@.len() == i,
                    forall|j: int| 0 <= j < i ==> (#[trigger] members@[j]).0@ == object.keys()[j],
                    forall|j: int| 0 <= j < i ==> object@.contains_key((#[trigger] members@[j]).0@),
                    forall|j: int| 0 <= j < i ==> value_contents((#[trigger] members@[j]).1) == object@[members@[j].0@],
                decreases count - i,
            {
                let (key, value) = object.entry(i);
                assert(decreases_to!(json@ => json@->Object_0));
                assert(decreases_to!(json@->Object_0 => json@->Object_0[key@]));
                members.push((key.clone(), to_value(value)));
                i = i + 1;
            }
            proof {
                assert forall|i: int, j: int| 0 <= i < j < members@.len() implies #[trigger] members@[i].0@
                    != #[trigger] members@[j].0@ by {
                    lemma_text_before_irreflexive(members@[i].0@);
                }
                lemma_members(members@);
                assert forall|key: Seq<char>| object@.contains_key(key) implies members_contents(members@).contains_key(key) by {
                    assert(object.keys().contains(key));
                    let i = choose|i: int| 0 <= i < object.keys().len() && object.keys()[i] == key;
                    assert(members@[i].0@ == key);
                }
                assert(members_contents(members@) =~= object@);
            }
            close_value(Node::Object(members))
        },
    }
}

/// The value that a JSON text stands for, or the message that says why it stands for none.
pub fn parse_json(text: &str) -> (parsed: Result<Json, String>)
    ensures
        parsed_view(parsed) == parsed_text(text@),
{
    match parse_value(text) {
        Ok(value) => Ok(from_value(value)),
        Err(message) => Err(message),
    }
}

/// The JSON text of a value.
pub fn render_json(json: &Json) -> (text: String)
    ensures
        text@ == rendered_text(json@),
        !text@.contains('\n'),
        plain(json@, MAX_DEPTH as nat) ==> reads_as(text@, json@),
{
    render_value(&to_value(json))
}

/// What the outcome of a parse says.
pub open spec fn parsed_view(parsed: Result<Json, String>) -> Result<JsonView, Seq<char>> {
    match parsed {
        Ok(json) => Ok(json@),
        Err(message) => Err(message@),
    }
}

} // verus!
