//! JSON values as the library reads and builds them.

use vstd::prelude::*;
use crate::text::{
    is_before, lemma_text_before_irreflexive, lemma_text_before_total, lemma_text_before_transitive,
    same_text, text_before,
};

verus! {

/// A JSON number as `serde_json` holds it. The library carries it through and reads no more of
/// it than the integer that it may hold.
#[verifier::external_type_specification]
#[verifier::external_body]
pub struct ExNumber(serde_json::Number);

/// The integer that `serde_json::Number::as_i128` finds in a number; `None` for a number that
/// was written with a fraction or an exponent, or that is too large for 64 bits.
pub uninterp spec fn number_integer(number: serde_json::Number) -> Option<i128>;

/// `serde_json::Number::as_u64` returns the integer in the number where it fits in a `u64`, and
/// `None` for every other number.
pub assume_specification[ serde_json::Number::as_u64 ](number: &serde_json::Number) -> (value: Option<u64>)
    ensures
        value == (match number_integer(*number) {
            Some(integer) => if 0 <= integer <= u64::MAX {
                Some(integer as u64)
            } else {
                None
            },
            None => None,
        }),
;

/// `serde_json::Number::from` on a `u64` makes the number that holds this integer.
pub assume_specification[ <serde_json::Number as From<u64>>::from ](value: u64) -> (number: serde_json::Number)
    ensures
        number_integer(number) == Some(value as i128),
;

/// `serde_json::Number::from` on an `i64` makes the number that holds this integer.
pub assume_specification[ <serde_json::Number as From<i64>>::from ](value: i64) -> (number: serde_json::Number)
    ensures
        number_integer(number) == Some(value as i128),
;

/// `serde_json::Number::clone` returns the same number.
pub assume_specification[ <serde_json::Number as Clone>::clone ](number: &serde_json::Number) -> (copy: serde_json::Number)
    ensures
        copy == *number,
;

/// What a JSON value says: the model that the contracts speak of.
pub enum JsonView {
    Null,
    Bool(bool),
    Integer(int),
    /// A number that is not an integer. Nothing in it is read.
    Decimal(serde_json::Number),
    Text(Seq<char>),
    Array(Seq<JsonView>),
    Object(Map<Seq<char>, JsonView>),
}

impl JsonView {
    /// The member `key` of an object.
    pub open spec fn field(self, key: Seq<char>) -> Option<JsonView> {
        match self {
            JsonView::Object(members) => if members.contains_key(key) {
                Some(members[key])
            } else {
                None
            },
            _ => None,
        }
    }

    /// The text of a string.
    pub open spec fn text(self) -> Option<Seq<char>> {
        match self {
            JsonView::Text(text) => Some(text),
            _ => None,
        }
    }

    /// The integer of a number, where it fits in 64 bits without a sign.
    pub open spec fn natural(self) -> Option<u64> {
        match self {
            JsonView::Integer(integer) => if 0 <= integer <= u64::MAX {
                Some(integer as u64)
            } else {
                None
            },
            _ => None,
        }
    }

    /// The text of the member `key`.
    pub open spec fn text_at(self, key: Seq<char>) -> Option<Seq<char>> {
        match self.field(key) {
            Some(value) => value.text(),
            None => None,
        }
    }

    /// The natural number of the member `key`.
    pub open spec fn natural_at(self, key: Seq<char>) -> Option<u64> {
        match self.field(key) {
            Some(value) => value.natural(),
            None => None,
        }
    }

    /// The truth value of the member `key`.
    pub open spec fn bool_at(self, key: Seq<char>) -> Option<bool> {
        match self.field(key) {
            Some(JsonView::Bool(value)) => Some(value),
            _ => None,
        }
    }

    /// The items of the member `key`; none where it is not an array.
    pub open spec fn items_at(self, key: Seq<char>) -> Seq<JsonView> {
        match self.field(key) {
            Some(JsonView::Array(items)) => items,
            _ => Seq::empty(),
        }
    }

    /// The member `key`, or `null` where there is none.
    pub open spec fn field_or_null(self, key: Seq<char>) -> JsonView {
        match self.field(key) {
            Some(value) => value,
            None => JsonView::Null,
        }
    }
}

/// A JSON value.
#[derive(Debug, PartialEq)]
pub enum Json {
    Null,
    Bool(bool),
    Number(serde_json::Number),
    Text(String),
    Array(Vec<Json>),
    Object(Object),
}

/// The members of a JSON object, each key once, in the order of the keys.
#[derive(Debug, PartialEq)]
pub struct Object {
    entries: Vec<(String, Json)>,
}

/// What a number says.
pub open spec fn number_view(number: serde_json::Number) -> JsonView {
    match number_integer(number) {
        Some(integer) => JsonView::Integer(integer as int),
        None => JsonView::Decimal(number),
    }
}

/// What a value says.
pub open spec fn json_view(json: Json) -> JsonView
    decreases json,
{
    match json {
        Json::Null => JsonView::Null,
        Json::Bool(value) => JsonView::Bool(value),
        Json::Number(number) => number_view(number),
        Json::Text(text) => JsonView::Text(text@),
        Json::Array(items) => JsonView::Array(items_view(items@)),
        Json::Object(object) => JsonView::Object(object_view(object)),
    }
}

/// What the items of an array say.
pub open spec fn items_view(items: Seq<Json>) -> Seq<JsonView>
    decreases items,
{
    Seq::new(
        items.len(),
        |i: int|
            if 0 <= i < items.len() {
                json_view(items[i])
            } else {
                JsonView::Null
            },
    )
}

/// What the members of an object say.
pub closed spec fn object_view(object: Object) -> Map<Seq<char>, JsonView>
    decreases object,
{
    entries_view(object.entries@)
}

spec fn entries_view(entries: Seq<(String, Json)>) -> Map<Seq<char>, JsonView>
    decreases entries,
{
    if entries.len() == 0 {
        Map::empty()
    } else {
        entries_view(entries.drop_last()).insert(entries.last().0@, json_view(entries.last().1))
    }
}

/// Whether the keys ascend strictly.
spec fn ascending(entries: Seq<(String, Json)>) -> bool {
    forall|i: int, j: int|
        0 <= i < j < entries.len() ==> text_before(#[trigger] entries[i].0@, #[trigger] entries[j].0@)
}

impl View for Json {
    type V = JsonView;

    open spec fn view(&self) -> JsonView {
        json_view(*self)
    }
}

impl View for Object {
    type V = Map<Seq<char>, JsonView>;

    open spec fn view(&self) -> Map<Seq<char>, JsonView> {
        object_view(*self)
    }
}

/// What an optional value says.
pub open spec fn option_view(json: Option<&Json>) -> Option<JsonView> {
    match json {
        Some(json) => Some(json@),
        None => None,
    }
}

/// The characters of an optional text.
pub open spec fn text_view(text: Option<&str>) -> Option<Seq<char>> {
    match text {
        Some(text) => Some(text@),
        None => None,
    }
}

proof fn lemma_entries_domain(entries: Seq<(String, Json)>)
    ensures
        entries_view(entries).dom().finite(),
        forall|i: int|
            0 <= i < entries.len() ==> entries_view(entries).contains_key(#[trigger] entries[i].0@),
        forall|key: Seq<char>|
            entries_view(entries).contains_key(key) ==> exists|i: int|
                0 <= i < entries.len() && #[trigger] entries[i].0@ == key,
    decreases entries.len(),
{
    if entries.len() > 0 {
        let front = entries.drop_last();
        lemma_entries_domain(front);
        assert forall|i: int| 0 <= i < entries.len() implies entries_view(entries).contains_key(
            #[trigger] entries[i].0@,
        ) by {
            if i < front.len() {
                assert(front[i] == entries[i]);
            }
        }
        assert forall|key: Seq<char>| entries_view(entries).contains_key(key) implies exists|i: int|
            0 <= i < entries.len() && #[trigger] entries[i].0@ == key by {
            if key == entries.last().0@ {
                assert(entries[entries.len() - 1].0@ == key);
            } else {
                let i = choose|i: int| 0 <= i < front.len() && #[trigger] front[i].0@ == key;
                assert(entries[i].0@ == key);
            }
        }
    }
}

proof fn lemma_entries_value(entries: Seq<(String, Json)>, i: int)
    requires
        0 <= i < entries.len(),
        forall|j: int| i < j < entries.len() ==> #[trigger] entries[j].0@ != entries[i].0@,
    ensures
        entries_view(entries)[entries[i].0@] == json_view(entries[i].1),
    decreases entries.len(),
{
    if i < entries.len() - 1 {
        assert(entries.last() == entries[entries.len() - 1]);
        assert forall|j: int| i < j < entries.drop_last().len() implies #[trigger] entries.drop_last()[j].0@
            != entries[i].0@ by {
            assert(entries.drop_last()[j] == entries[j]);
        }
        lemma_entries_value(entries.drop_last(), i);
    }
}

proof fn lemma_ascending_distinct(entries: Seq<(String, Json)>)
    requires
        ascending(entries),
    ensures
        forall|i: int, j: int|
            0 <= i < entries.len() && 0 <= j < entries.len() && #[trigger] entries[i].0@
                == #[trigger] entries[j].0@ ==> i == j,
{
    assert forall|i: int, j: int|
        0 <= i < entries.len() && 0 <= j < entries.len() && #[trigger] entries[i].0@
            == #[trigger] entries[j].0@ implies i == j by {
        lemma_text_before_irreflexive(entries[i].0@);
    }
}

/// Two entry lists with distinct keys that hold the same entries say the same.
proof fn lemma_entries_values(entries: Seq<(String, Json)>)
    requires
        ascending(entries),
    ensures
        forall|i: int|
            0 <= i < entries.len() ==> entries_view(entries)[#[trigger] entries[i].0@] == json_view(
                entries[i].1,
            ),
{
    lemma_ascending_distinct(entries);
    assert forall|i: int| 0 <= i < entries.len() implies entries_view(entries)[#[trigger] entries[i].0@]
        == json_view(entries[i].1) by {
        lemma_entries_value(entries, i);
    }
}

proof fn lemma_entries_insert(entries: Seq<(String, Json)>, at: int, entry: (String, Json))
    requires
        ascending(entries),
        0 <= at <= entries.len(),
        forall|i: int| 0 <= i < at ==> text_before(#[trigger] entries[i].0@, entry.0@),
        forall|i: int| at <= i < entries.len() ==> text_before(entry.0@, #[trigger] entries[i].0@),
    ensures
        ascending(entries.insert(at, entry)),
        entries_view(entries.insert(at, entry)) == entries_view(entries).insert(
            entry.0@,
            json_view(entry.1),
        ),
{
    let after = entries.insert(at, entry);
    assert(after[at] == entry);
    assert(forall|i: int| 0 <= i < at ==> after[i] == entries[i]);
    assert(forall|i: int| at <= i < entries.len() ==> after[i + 1] == #[trigger] entries[i]);
    assert forall|i: int, j: int| 0 <= i < j < after.len() implies text_before(
        #[trigger] after[i].0@,
        #[trigger] after[j].0@,
    ) by {
        if i < at {
            assert(after[i] == entries[i]);
        } else if i > at {
            assert(after[i] == entries[i - 1]);
        }
        if j < at {
            assert(after[j] == entries[j]);
        } else if j > at {
            assert(after[j] == entries[j - 1]);
        }
    }
    lemma_entries_domain(entries);
    lemma_entries_values(entries);
    lemma_entries_domain(after);
    lemma_entries_values(after);
    let target = entries_view(entries).insert(entry.0@, json_view(entry.1));
    assert forall|key: Seq<char>| entries_view(after).contains_key(key) == target.contains_key(key) by {
        if entries_view(after).contains_key(key) {
            let i = choose|i: int| 0 <= i < after.len() && #[trigger] after[i].0@ == key;
            if i < at {
                assert(after[i] == entries[i]);
            } else if i > at {
                assert(after[i] == entries[i - 1]);
            }
        }
        if entries_view(entries).contains_key(key) {
            let i = choose|i: int| 0 <= i < entries.len() && #[trigger] entries[i].0@ == key;
            if i < at {
                assert(after[i] == entries[i]);
            } else {
                assert(after[i + 1] == entries[i]);
            }
        }
    }
    assert forall|key: Seq<char>| entries_view(after).contains_key(key) implies entries_view(after)[key]
        == target[key] by {
        let i = choose|i: int| 0 <= i < after.len() && #[trigger] after[i].0@ == key;
        if i == at {
        } else {
            lemma_text_before_irreflexive(key);
            if i < at {
                assert(after[i] == entries[i]);
            } else {
                assert(after[i] == entries[i - 1]);
            }
        }
    }
    assert(entries_view(after) =~= target);
}

proof fn lemma_entries_update(entries: Seq<(String, Json)>, at: int, entry: (String, Json))
    requires
        ascending(entries),
        0 <= at < entries.len(),
        entries[at].0@ == entry.0@,
    ensures
        ascending(entries.update(at, entry)),
        entries_view(entries.update(at, entry)) == entries_view(entries).insert(
            entry.0@,
            json_view(entry.1),
        ),
{
    let after = entries.update(at, entry);
    assert(forall|i: int| 0 <= i < after.len() ==> #[trigger] after[i].0@ == entries[i].0@);
    assert(ascending(after));
    lemma_ascending_distinct(entries);
    lemma_entries_domain(entries);
    lemma_entries_values(entries);
    lemma_entries_domain(after);
    lemma_entries_values(after);
    let target = entries_view(entries).insert(entry.0@, json_view(entry.1));
    assert forall|key: Seq<char>| entries_view(after).contains_key(key) == target.contains_key(key) by {
        if entries_view(after).contains_key(key) {
            let i = choose|i: int| 0 <= i < after.len() && #[trigger] after[i].0@ == key;
            assert(entries[i].0@ == key);
        }
        if entries_view(entries).contains_key(key) {
            let i = choose|i: int| 0 <= i < entries.len() && #[trigger] entries[i].0@ == key;
            assert(after[i].0@ == key);
        }
        assert(after[at].0@ == entry.0@);
    }
    assert forall|key: Seq<char>| entries_view(after).contains_key(key) implies entries_view(after)[key]
        == target[key] by {
        let i = choose|i: int| 0 <= i < after.len() && #[trigger] after[i].0@ == key;
        if i != at {
            assert(after[i] == entries[i]);
        }
    }
    assert(entries_view(after) =~= target);
}

impl Object {
    #[verifier::type_invariant]
    spec fn well_formed(self) -> bool {
        ascending(self.entries@)
    }

    /// The keys in their order.
    pub closed spec fn keys(self) -> Seq<Seq<char>> {
        self.entries@.map_values(|entry: (String, Json)| entry.0@)
    }

    /// An object without members.
    pub fn new() -> (object: Object)
        ensures
            object@ == Map::<Seq<char>, JsonView>::empty(),
    {
        Object { entries: Vec::new() }
    }

    /// The number of members. The members are numbered in the order of their keys.
    pub fn len(&self) -> (count: usize)
        ensures
            count == self.keys().len(),
            self@.dom().finite(),
            forall|i: int, j: int|
                0 <= i < j < self.keys().len() ==> text_before(
                    #[trigger] self.keys()[i],
                    #[trigger] self.keys()[j],
                ),
            forall|key: Seq<char>| self@.contains_key(key) <==> #[trigger] self.keys().contains(key),
    {
        proof {
            use_type_invariant(self);
            lemma_entries_domain(self.entries@);
            let keys = self.keys();
            assert(forall|i: int| 0 <= i < keys.len() ==> #[trigger] keys[i] == self.entries@[i].0@);
            assert forall|key: Seq<char>| self@.contains_key(key) <==> #[trigger] keys.contains(key) by {
                if self@.contains_key(key) {
                    let i = choose|i: int|
                        0 <= i < self.entries@.len() && #[trigger] self.entries@[i].0@ == key;
                    assert(keys[i] == key);
                }
            }
        }
        self.entries.len()
    }

    /// The member with the number `at`.
    pub fn entry(&self, at: usize) -> (entry: (&String, &Json))
        requires
            at < self.keys().len(),
        ensures
            entry.0@ == self.keys()[at as int],
            self@.contains_key(entry.0@),
            entry.1@ == self@[entry.0@],
    {
        proof {
            use_type_invariant(self);
            lemma_entries_domain(self.entries@);
            lemma_entries_values(self.entries@);
        }
        (&self.entries[at].0, &self.entries[at].1)
    }

    /// The member `key`.
    pub fn get(&self, key: &str) -> (value: Option<&Json>)
        ensures
            value is Some <==> self@.contains_key(key@),
            value matches Some(value) ==> value@ == self@[key@],
    {
        proof {
            use_type_invariant(self);
            lemma_entries_domain(self.entries@);
            lemma_entries_values(self.entries@);
        }
        let mut i: usize = 0;
        while i < self.entries.len()
            invariant
                i <= self.entries.len(),
                forall|j: int| 0 <= j < i ==> #[trigger] self.entries@[j].0@ != key@,
                forall|j: int|
                    0 <= j < self.entries@.len() ==> object_view(*self).contains_key(
                        #[trigger] self.entries@[j].0@,
                    ),
                forall|j: int|
                    0 <= j < self.entries@.len() ==> object_view(*self)[#[trigger] self.entries@[j].0@]
                        == json_view(self.entries@[j].1),
            decreases self.entries.len() - i,
        {
            if same_text(self.entries[i].0.as_str(), key) {
                return Some(&self.entries[i].1);
            }
            i = i + 1;
        }
        None
    }

    /// Gives the member `key` the value `value`, in place of an earlier one.
    pub fn insert(&mut self, key: String, value: Json)
        ensures
            final(self)@ == old(self)@.insert(key@, value@),
    {
        proof {
            use_type_invariant(&*self);
        }
        let mut entries: Vec<(String, Json)> = Vec::new();
        std::mem::swap(&mut entries, &mut self.entries);
        let mut at: usize = 0;
        while at < entries.len() && is_before(entries[at].0.as_str(), key.as_str())
            invariant
                at <= entries.len(),
                forall|i: int| 0 <= i < at ==> text_before(#[trigger] entries@[i].0@, key@),
            decreases entries.len() - at,
        {
            at = at + 1;
        }
        if at < entries.len() && same_text(entries[at].0.as_str(), key.as_str()) {
            proof {
                lemma_entries_update(entries@, at as int, (key, value));
            }
            entries.set(at, (key, value));
        } else {
            proof {
                if at < entries.len() {
                    lemma_text_before_total(key@, entries@[at as int].0@);
                }
                assert forall|i: int| at <= i < entries.len() implies text_before(
                    key@,
                    #[trigger] entries@[i].0@,
                ) by {
                    if i > at {
                        lemma_text_before_transitive(key@, entries@[at as int].0@, entries@[i].0@);
                    }
                }
                lemma_entries_insert(entries@, at as int, (key, value));
            }
            entries.insert(at, (key, value));
        }
        self.entries = entries;
    }

    /// A copy of the members.
    pub fn copy(&self) -> (object: Object)
        ensures
            object@ == self@,
            object.keys() == self.keys(),
        decreases self,
    {
        proof {
            use_type_invariant(self);
        }
        let mut entries: Vec<(String, Json)> = Vec::new();
        let mut i: usize = 0;
        while i < self.entries.len()
            invariant
                i <= self.entries.len(),
                entries@.len() == i,
                forall|j: int| 0 <= j < i ==> (#[trigger] entries@[j]).0@ == self.entries@[j].0@,
                entries_view(entries@) == entries_view(self.entries@.take(i as int)),
            decreases self.entries.len() - i,
        {
            let ghost before = entries@;
            let key = self.entries[i].0.clone();
            let value = self.entries[i].1.copy();
            entries.push((key, value));
            assert(entries@.drop_last() =~= before);
            assert(self.entries@.take(i + 1).drop_last() =~= self.entries@.take(i as int));
            i = i + 1;
        }
        assert(self.entries@.take(i as int) =~= self.entries@);
        assert forall|i: int, j: int| 0 <= i < j < entries@.len() implies text_before(
            #[trigger] entries@[i].0@,
            #[trigger] entries@[j].0@,
        ) by {
            assert(text_before(self.entries@[i].0@, self.entries@[j].0@));
        }
        let object = Object { entries };
        assert(object.keys() =~= self.keys());
        object
    }
}

impl Json {
    /// A string.
    pub fn text(text: &str) -> (json: Json)
        ensures
            json@ == JsonView::Text(text@),
    {
        Json::Text(text.to_owned())
    }

    /// A natural number.
    pub fn natural(value: u64) -> (json: Json)
        ensures
            json@ == JsonView::Integer(value as int),
    {
        Json::Number(serde_json::Number::from(value))
    }

    /// An integer.
    pub fn integer(value: i64) -> (json: Json)
        ensures
            json@ == JsonView::Integer(value as int),
    {
        Json::Number(serde_json::Number::from(value))
    }

    /// An object with one member.
    pub fn member(key: &str, value: Json) -> (json: Json)
        ensures
            json@ == JsonView::Object(map![key@ => value@]),
    {
        let mut object = Object::new();
        object.insert(key.to_owned(), value);
        Json::Object(object)
    }

    /// The member `key` of an object.
    pub fn get(&self, key: &str) -> (value: Option<&Json>)
        ensures
            option_view(value) == self@.field(key@),
    {
        match self {
            Json::Object(object) => object.get(key),
            _ => None,
        }
    }

    /// The text of a string.
    pub fn as_str(&self) -> (text: Option<&str>)
        ensures
            text_view(text) == self@.text(),
    {
        match self {
            Json::Text(text) => Some(text.as_str()),
            _ => None,
        }
    }

    /// The integer of a number, where it fits in 64 bits without a sign.
    pub fn as_u64(&self) -> (value: Option<u64>)
        ensures
            value == self@.natural(),
    {
        match self {
            Json::Number(number) => number.as_u64(),
            _ => None,
        }
    }

    /// The text of the member `key`.
    pub fn text_at(&self, key: &str) -> (text: Option<&str>)
        ensures
            text_view(text) == self@.text_at(key@),
    {
        match self.get(key) {
            Some(value) => value.as_str(),
            None => None,
        }
    }

    /// The natural number of the member `key`.
    pub fn natural_at(&self, key: &str) -> (value: Option<u64>)
        ensures
            value == self@.natural_at(key@),
    {
        match self.get(key) {
            Some(value) => value.as_u64(),
            None => None,
        }
    }

    /// The truth value of the member `key`.
    pub fn bool_at(&self, key: &str) -> (value: Option<bool>)
        ensures
            value == self@.bool_at(key@),
    {
        match self.get(key) {
            Some(Json::Bool(value)) => Some(*value),
            _ => None,
        }
    }

    /// The items of the member `key`, where it is an array.
    pub fn items_at(&self, key: &str) -> (items: Option<&Vec<Json>>)
        ensures
            self@.items_at(key@) == (match items {
                Some(items) => items_view(items@),
                None => Seq::empty(),
            }),
    {
        match self.get(key) {
            Some(Json::Array(items)) => Some(items),
            _ => None,
        }
    }

    /// A copy of the member `key`, or `null` where there is none.
    pub fn copy_at(&self, key: &str) -> (json: Json)
        ensures
            json@ == self@.field_or_null(key@),
    {
        match self.get(key) {
            Some(value) => value.copy(),
            None => Json::Null,
        }
    }

    /// A copy of the value.
    pub fn copy(&self) -> (json: Json)
        ensures
            json@ == self@,
        decreases self,
    {
        match self {
            Json::Null => Json::Null,
            Json::Bool(value) => Json::Bool(*value),
            Json::Number(number) => Json::Number(number.clone()),
            Json::Text(text) => Json::Text(text.clone()),
            Json::Array(items) => {
                let mut copies: Vec<Json> = Vec::new();
                let mut i: usize = 0;
                while i < items.len()
                    invariant
                        *self == Json::Array(*items),
                        i <= items.len(),
                        copies@.len() == i,
                        forall|j: int| 0 <= j < i ==> json_view(#[trigger] copies@[j]) == json_view(items@[j]),
                    decreases items.len() - i,
                {
                    assert(decreases_to!(*self => self->Array_0));
                    assert(decreases_to!(self->Array_0 => self->Array_0[i as int]));
                    copies.push(items[i].copy());
                    i = i + 1;
                }
                assert(items_view(copies@) =~= items_view(items@));
                Json::Array(copies)
            },
            Json::Object(object) => Json::Object(object.copy()),
        }
    }
}

/// Whether the member `key` is the string `text`.
pub fn has_text(json: &Json, key: &str, text: &str) -> (same: bool)
    ensures
        same == (json@.text_at(key@) == Some(text@)),
{
    match json.text_at(key) {
        Some(value) => same_text(value, text),
        None => false,
    }
}

} // verus!
