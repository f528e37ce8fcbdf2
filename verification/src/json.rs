//! JSON documents as plain library values.

use vstd::prelude::*;

verus! {

/// A JSON number: an integer in the range of `u64` or `i64`, or the decimal
/// text of any other number.
#[derive(Debug, PartialEq)]
pub enum JsonNumber {
    /// An integer from zero up.
    Unsigned(u64),
    /// An integer below zero.
    Negative(i64),
    /// A number that is no such integer, as its text in JSON.
    Decimal(String),
}

/// What a [`JsonNumber`] denotes.
#[verifier::ext_equal]
pub enum NumberModel {
    Integer(int),
    Decimal(Seq<char>),
}

/// A JSON value whose object entries keep their order.
#[derive(Debug, PartialEq)]
pub enum JsonValue {
    Null,
    Bool(bool),
    Number(JsonNumber),
    Text(String),
    Array(Vec<JsonValue>),
    Object(Vec<(String, JsonValue)>),
}

/// What a [`JsonValue`] denotes.
#[verifier::ext_equal]
pub enum Json {
    Null,
    Bool(bool),
    Number(NumberModel),
    Text(Seq<char>),
    Array(Seq<Json>),
    Object(Seq<(Seq<char>, Json)>),
}

impl View for JsonNumber {
    type V = NumberModel;

    open spec fn view(&self) -> NumberModel {
        match self {
            JsonNumber::Unsigned(n) => NumberModel::Integer(*n as int),
            JsonNumber::Negative(n) => NumberModel::Integer(*n as int),
            JsonNumber::Decimal(text) => NumberModel::Decimal(text@),
        }
    }
}

/// What a JSON value denotes.
pub open spec fn denoted(value: JsonValue) -> Json
    decreases value,
{
    match value {
        JsonValue::Null => Json::Null,
        JsonValue::Bool(b) => Json::Bool(b),
        JsonValue::Number(n) => Json::Number(n@),
        JsonValue::Text(s) => Json::Text(s@),
        JsonValue::Array(items) => Json::Array(
            Seq::new(
                items@.len(),
                |i: int|
                    if 0 <= i < items@.len() {
                        denoted(items@[i])
                    } else {
                        Json::Null
                    },
            ),
        ),
        JsonValue::Object(list) => Json::Object(
            Seq::new(
                list@.len(),
                |i: int|
                    if 0 <= i < list@.len() {
                        (list@[i].0@, denoted(list@[i].1))
                    } else {
                        (Seq::empty(), Json::Null)
                    },
            ),
        ),
    }
}

impl View for JsonValue {
    type V = Json;

    open spec fn view(&self) -> Json {
        denoted(*self)
    }
}

/// The values of a list of JSON values.
pub open spec fn values(items: Seq<JsonValue>) -> Seq<Json> {
    items.map_values(|item: JsonValue| item@)
}

/// The keys and values of the entries of an object.
pub open spec fn entries(list: Seq<(String, JsonValue)>) -> Seq<(Seq<char>, Json)> {
    list.map_values(|entry: (String, JsonValue)| (entry.0@, entry.1@))
}

/// An array denotes the values of its items.
pub broadcast proof fn array_view(items: Vec<JsonValue>)
    ensures
        #[trigger] JsonValue::Array(items)@ == Json::Array(values(items@)),
{
    assert(JsonValue::Array(items)@->Array_0 =~= values(items@));
}

/// An object denotes its keys and values.
pub broadcast proof fn object_view(list: Vec<(String, JsonValue)>)
    ensures
        #[trigger] JsonValue::Object(list)@ == Json::Object(entries(list@)),
{
    assert(JsonValue::Object(list)@->Object_0 =~= entries(list@));
}

/// What arrays and objects denote.
pub broadcast group group_json_views {
    array_view,
    object_view,
}

/// The position of the first entry with a key, or the number of entries.
pub open spec fn position(object: Seq<(Seq<char>, Json)>, key: Seq<char>) -> int
    decreases object.len(),
{
    if object.len() == 0 || object[0].0 == key {
        0
    } else {
        1 + position(object.skip(1), key)
    }
}

/// The value under a key of an object.
pub open spec fn lookup(object: Seq<(Seq<char>, Json)>, key: Seq<char>) -> Option<Json> {
    let at = position(object, key);
    if at < object.len() {
        Some(object[at].1)
    } else {
        None
    }
}

/// An object with a value set under a key.
pub open spec fn with_entry(object: Seq<(Seq<char>, Json)>, key: Seq<char>, value: Json) -> Seq<
    (Seq<char>, Json),
> {
    let at = position(object, key);
    if at < object.len() {
        object.update(at, (key, value))
    } else {
        object.push((key, value))
    }
}

/// An object without the entry under a key.
pub open spec fn without_entry(object: Seq<(Seq<char>, Json)>, key: Seq<char>) -> Seq<
    (Seq<char>, Json),
> {
    let at = position(object, key);
    if at < object.len() {
        object.remove(at)
    } else {
        object
    }
}

/// Whether no two entries of an object have the same key.
pub open spec fn distinct_keys(object: Seq<(Seq<char>, Json)>) -> bool {
    forall|i: int, j: int|
        0 <= i < j < object.len() ==> (#[trigger] object[i]).0 != (#[trigger] object[j]).0
}

/// Whether no object in a value has two entries with the same key.
pub open spec fn unique_keys(value: Json) -> bool
    decreases value,
{
    match value {
        Json::Array(items) => forall|i: int|
            0 <= i < items.len() ==> unique_keys(#[trigger] items[i]),
        Json::Object(object) => {
            &&& distinct_keys(object)
            &&& forall|i: int| 0 <= i < object.len() ==> unique_keys((#[trigger] object[i]).1)
        },
        _ => true,
    }
}

/// The first entry with a key lies in the object or at its end, and no entry
/// before it has the key.
pub proof fn lemma_position(object: Seq<(Seq<char>, Json)>, key: Seq<char>)
    ensures
        0 <= position(object, key) <= object.len(),
        position(object, key) < object.len() ==> object[position(object, key)].0 == key,
        forall|i: int| 0 <= i < position(object, key) ==> (#[trigger] object[i]).0 != key,
    decreases object.len(),
{
    if object.len() > 0 && object[0].0 != key {
        lemma_position(object.skip(1), key);
        assert forall|i: int| 0 <= i < position(object, key) implies (#[trigger] object[i]).0
            != key by {
            if i > 0 {
                assert(object[i] == object.skip(1)[i - 1]);
            }
        }
    }
}

/// The position of a key is the only place where it stands first.
pub proof fn lemma_position_is(object: Seq<(Seq<char>, Json)>, key: Seq<char>, at: int)
    requires
        0 <= at <= object.len(),
        at < object.len() ==> object[at].0 == key,
        forall|i: int| 0 <= i < at ==> (#[trigger] object[i]).0 != key,
    ensures
        position(object, key) == at,
{
    lemma_position(object, key);
}

/// A key that was set is found with the value that was set; other keys keep
/// their values.
pub proof fn lookup_after_set(
    object: Seq<(Seq<char>, Json)>,
    key: Seq<char>,
    value: Json,
    other: Seq<char>,
)
    ensures
        lookup(with_entry(object, key, value), other) == if other == key {
            Some(value)
        } else {
            lookup(object, other)
        },
{
    lemma_position(object, key);
    lemma_position(object, other);
    let at = position(object, key);
    let found = position(object, other);
    let after = with_entry(object, key, value);
    if other == key {
        lemma_position_is(after, other, at);
    } else if found < object.len() {
        lemma_position_is(after, other, found);
    } else {
        lemma_position_is(after, other, after.len() as int);
    }
}

/// Removing a key leaves the values under other keys alone.
pub proof fn lookup_after_remove(
    object: Seq<(Seq<char>, Json)>,
    key: Seq<char>,
    other: Seq<char>,
)
    requires
        other != key,
    ensures
        lookup(without_entry(object, key), other) == lookup(object, other),
{
    lemma_position(object, key);
    lemma_position(object, other);
    let at = position(object, key);
    let found = position(object, other);
    let after = without_entry(object, key);
    if at < object.len() {
        if found < at {
            lemma_position_is(after, other, found);
        } else {
            assert forall|i: int| 0 <= i < found - 1 implies (#[trigger] after[i]).0 != other by {
                if i < at {
                    assert(after[i] == object[i]);
                } else {
                    assert(after[i] == object[i + 1]);
                }
            }
            lemma_position_is(after, other, found - 1);
        }
    }
}

impl Json {
    /// The value under a key, where this is an object that has it.
    pub open spec fn field(self, key: Seq<char>) -> Option<Json> {
        match self {
            Json::Object(object) => lookup(object, key),
            _ => None,
        }
    }

    /// The text, where this is a string.
    pub open spec fn text(self) -> Option<Seq<char>> {
        match self {
            Json::Text(s) => Some(s),
            _ => None,
        }
    }

    /// The text under a key, where there is a string.
    pub open spec fn text_field(self, key: Seq<char>) -> Option<Seq<char>> {
        match self.field(key) {
            Some(value) => value.text(),
            None => None,
        }
    }

    /// The items under a key, where there is an array.
    pub open spec fn array_field(self, key: Seq<char>) -> Option<Seq<Json>> {
        match self.field(key) {
            Some(Json::Array(items)) => Some(items),
            _ => None,
        }
    }
}

} // verus!
