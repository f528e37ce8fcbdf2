//! Reading, copying and changing JSON values.

use crate::json;
use crate::json::{JsonNumber, JsonValue};
use crate::text::same;
use vstd::prelude::*;

verus! {

broadcast use json::group_json_views;

/// Finds the first entry with a key.
pub fn position_of(list: &Vec<(String, JsonValue)>, key: &str) -> (at: usize)
    ensures
        at == json::position(json::entries(list@), key@),
        at <= list@.len(),
{
    let mut at: usize = 0;
    while at < list.len() && !same(list[at].0.as_str(), key)
        invariant
            at <= list@.len(),
            forall|i: int| 0 <= i < at ==> (#[trigger] json::entries(list@)[i]).0 != key@,
        decreases list@.len() - at,
    {
        at += 1;
    }
    proof {
        json::lemma_position_is(json::entries(list@), key@, at as int);
    }
    at
}

/// Sets the value under a key.
pub fn set_entry(list: &mut Vec<(String, JsonValue)>, key: &str, value: JsonValue)
    ensures
        json::entries(final(list)@) == json::with_entry(json::entries(old(list)@), key@, value@),
{
    let at = position_of(list, key);
    let ghost before = json::entries(list@);
    if at < list.len() {
        list.set(at, (key.to_string(), value));
        assert(json::entries(list@) == before.update(at as int, (key@, value@)));
    } else {
        list.push((key.to_string(), value));
        assert(json::entries(list@) == before.push((key@, value@)));
    }
}

/// Removes the entry under a key.
pub fn remove_entry(list: &mut Vec<(String, JsonValue)>, key: &str) -> (removed: Option<JsonValue>)
    ensures
        json::entries(final(list)@) == json::without_entry(json::entries(old(list)@), key@),
        match removed {
            Some(value) => json::lookup(json::entries(old(list)@), key@) == Some(value@),
            None => json::lookup(json::entries(old(list)@), key@) is None,
        },
{
    let at = position_of(list, key);
    let ghost before = json::entries(list@);
    if at < list.len() {
        assert(before[at as int].1 == list@[at as int].1@);
        let entry = list.remove(at);
        assert(json::entries(list@) == before.remove(at as int));
        Some(entry.1)
    } else {
        None
    }
}

impl JsonNumber {
    /// The same number.
    pub fn copy(&self) -> (r: JsonNumber)
        ensures
            r@ == self@,
    {
        match self {
            JsonNumber::Unsigned(n) => JsonNumber::Unsigned(*n),
            JsonNumber::Negative(n) => JsonNumber::Negative(*n),
            JsonNumber::Decimal(text) => JsonNumber::Decimal(text.clone()),
        }
    }
}

impl JsonValue {
    /// The same value.
    pub fn copy(&self) -> (r: JsonValue)
        ensures
            r@ == self@,
        decreases self,
    {
        match self {
            JsonValue::Null => JsonValue::Null,
            JsonValue::Bool(b) => JsonValue::Bool(*b),
            JsonValue::Number(n) => JsonValue::Number(n.copy()),
            JsonValue::Text(s) => JsonValue::Text(s.clone()),
            JsonValue::Array(items) => {
                let mut copied: Vec<JsonValue> = Vec::new();
                let mut i: usize = 0;
                while i < items.len()
                    invariant
                        i <= items@.len(),
                        *self == JsonValue::Array(*items),
                        json::values(copied@) == json::values(items@).take(i as int),
                    decreases items@.len() - i,
                {
                    let ghost before = json::values(copied@);
                    assert(decreases_to!(*self => self->Array_0));
                    assert(decreases_to!(*items => items@));
                    assert(decreases_to!(items@ => items@[i as int]));
                    let item = items[i].copy();
                    copied.push(item);
                    assert(json::values(copied@) == before.push(item@));
                    assert(json::values(items@).take(i + 1) == before.push(item@));
                    i += 1;
                }
                assert(json::values(items@).take(i as int) == json::values(items@));
                JsonValue::Array(copied)
            },
            JsonValue::Object(list) => {
                let mut copied: Vec<(String, JsonValue)> = Vec::new();
                let mut i: usize = 0;
                while i < list.len()
                    invariant
                        i <= list@.len(),
                        *self == JsonValue::Object(*list),
                        json::entries(copied@) == json::entries(list@).take(i as int),
                    decreases list@.len() - i,
                {
                    let ghost before = json::entries(copied@);
                    assert(decreases_to!(*self => self->Object_0));
                    assert(decreases_to!(*list => list@));
                    assert(decreases_to!(list@ => list@[i as int]));
                    let value = list[i].1.copy();
                    let key = list[i].0.clone();
                    copied.push((key, value));
                    assert(json::entries(copied@) == before.push((key@, value@)));
                    assert(json::entries(list@).take(i + 1) == before.push((key@, value@)));
                    i += 1;
                }
                assert(json::entries(list@).take(i as int) == json::entries(list@));
                JsonValue::Object(copied)
            },
        }
    }

    /// The value under a key, where this is an object that has it.
    pub fn get(&self, key: &str) -> (r: Option<&JsonValue>)
        ensures
            match r {
                Some(value) => self@.field(key@) == Some(value@),
                None => self@.field(key@) is None,
            },
    {
        match self {
            JsonValue::Object(list) => {
                let at = position_of(list, key);
                if at < list.len() {
                    assert(json::entries(list@)[at as int].1 == list@[at as int].1@);
                    Some(&list[at].1)
                } else {
                    None
                }
            },
            _ => None,
        }
    }

    /// The string, where this is one.
    pub fn as_text(&self) -> (r: Option<&str>)
        ensures
            match r {
                Some(s) => self@.text() == Some(s@),
                None => self@.text() is None,
            },
    {
        match self {
            JsonValue::Text(s) => Some(s.as_str()),
            _ => None,
        }
    }

    /// The string under a key.
    pub fn get_text(&self, key: &str) -> (r: Option<&str>)
        ensures
            match r {
                Some(s) => self@.text_field(key@) == Some(s@),
                None => self@.text_field(key@) is None,
            },
    {
        match self.get(key) {
            Some(value) => value.as_text(),
            None => None,
        }
    }

    /// Whether this is an array.
    pub fn is_array(&self) -> (r: bool)
        ensures
            r == (self@ is Array),
    {
        match self {
            JsonValue::Array(_) => true,
            _ => false,
        }
    }
}

} // verus!
