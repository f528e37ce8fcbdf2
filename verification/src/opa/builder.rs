//! Building JSON objects entry by entry.

use crate::json;
use crate::json::{Json, JsonNumber, JsonValue, NumberModel};
use crate::text;
use crate::text::chars_of;
use vstd::prelude::*;

verus! {

broadcast use json::group_json_views;

/// An object's entries.
pub type Entries = Seq<(Seq<char>, Json)>;

/// An integer as JSON.
pub open spec fn number(n: int) -> Json {
    Json::Number(NumberModel::Integer(n))
}

/// Texts as a JSON array.
pub open spec fn text_array(list: Seq<Seq<char>>) -> Json {
    Json::Array(list.map_values(|s: Seq<char>| Json::Text(s)))
}

/// One entry.
pub open spec fn entry(key: Seq<char>, value: Json) -> Entries {
    seq![(key, value)]
}

/// An entry for a text that is not empty.
pub open spec fn some_text(key: Seq<char>, value: Seq<char>) -> Entries {
    if value.len() == 0 {
        seq![]
    } else {
        entry(key, Json::Text(value))
    }
}

/// An entry for a list of texts that is not empty.
pub open spec fn some_texts(key: Seq<char>, list: Seq<Seq<char>>) -> Entries {
    if list.len() == 0 {
        seq![]
    } else {
        entry(key, text_array(list))
    }
}

/// An entry for a flag that is set.
pub open spec fn some_flag(key: Seq<char>, flag: bool) -> Entries {
    if flag {
        entry(key, Json::Bool(true))
    } else {
        seq![]
    }
}

/// An entry for a number that is not zero.
pub open spec fn some_number(key: Seq<char>, n: int) -> Entries {
    if n > 0 {
        entry(key, number(n))
    } else {
        seq![]
    }
}

/// An entry for an optional truth value.
pub open spec fn some_bool(key: Seq<char>, value: Option<bool>) -> Entries {
    match value {
        Some(b) => entry(key, Json::Bool(b)),
        None => seq![],
    }
}

/// An entry for an object that is not empty.
pub open spec fn some_object(key: Seq<char>, object: Entries) -> Entries {
    if object.len() == 0 {
        seq![]
    } else {
        entry(key, Json::Object(object))
    }
}

/// An entry for an array that is not empty.
pub open spec fn some_array(key: Seq<char>, items: Seq<Json>) -> Entries {
    if items.len() == 0 {
        seq![]
    } else {
        entry(key, Json::Array(items))
    }
}

/// The array of a list of strings.
pub fn texts_value(list: &Vec<String>) -> (value: JsonValue)
    ensures
        value@ == text_array(text::texts(list@)),
{
    let ghost all = text_array(text::texts(list@))->Array_0;
    let mut items: Vec<JsonValue> = Vec::new();
    let mut i: usize = 0;
    while i < list.len()
        invariant
            i <= list@.len(),
            all == text_array(text::texts(list@))->Array_0,
            json::values(items@) == all.take(i as int),
        decreases list@.len() - i,
    {
        let ghost before = json::values(items@);
        let item = JsonValue::Text(list[i].clone());
        let ghost model = item@;
        items.push(item);
        assert(json::values(items@) == before.push(model));
        assert(all[i as int] == model);
        assert(all.take(i + 1) == before.push(model));
        i += 1;
    }
    assert(all.take(i as int) == all);
    JsonValue::Array(items)
}

/// The number of an `i32`.
pub fn signed_value(n: i32) -> (value: JsonValue)
    ensures
        value@ == number(n as int),
{
    if n >= 0 {
        JsonValue::Number(JsonNumber::Unsigned(n as u64))
    } else {
        JsonValue::Number(JsonNumber::Negative(n as i64))
    }
}

/// The number of a `u32`.
pub fn unsigned_value(n: u32) -> (value: JsonValue)
    ensures
        value@ == number(n as int),
{
    JsonValue::Number(JsonNumber::Unsigned(n as u64))
}

/// A JSON object that grows at its end.
#[derive(Debug)]
pub struct ObjectBuilder {
    list: Vec<(String, JsonValue)>,
}

impl View for ObjectBuilder {
    type V = Seq<(Seq<char>, Json)>;

    closed spec fn view(&self) -> Seq<(Seq<char>, Json)> {
        json::entries(self.list@)
    }
}

impl ObjectBuilder {
    /// An empty object.
    pub fn new() -> (builder: ObjectBuilder)
        ensures
            builder@ == Seq::<(Seq<char>, Json)>::empty(),
    {
        let builder = ObjectBuilder { list: Vec::new() };
        assert(builder@ == Seq::<(Seq<char>, Json)>::empty());
        builder
    }

    /// Adds an entry.
    pub fn put(&mut self, key: &str, value: JsonValue)
        ensures
            final(self)@ == old(self)@ + entry(key@, value@),
    {
        let ghost before = self@;
        let pair = (key.to_string(), value);
        let ghost model = (pair.0@, pair.1@);
        self.list.push(pair);
        assert(self@ == before + seq![model]);
    }

    /// Adds an entry for a text.
    pub fn put_text(&mut self, key: &str, value: &str)
        ensures
            final(self)@ == old(self)@ + entry(key@, Json::Text(value@)),
    {
        self.put(key, JsonValue::Text(value.to_string()));
    }

    /// Adds an entry for a text that is not empty.
    pub fn put_some_text(&mut self, key: &str, value: &str)
        ensures
            final(self)@ == old(self)@ + some_text(key@, value@),
    {
        let ghost before = self@;
        if chars_of(value).len() > 0 {
            self.put_text(key, value);
        } else {
            assert(before == before + Seq::<(Seq<char>, Json)>::empty());
        }
    }

    /// Adds an entry for a list of texts.
    pub fn put_texts(&mut self, key: &str, list: &Vec<String>)
        ensures
            final(self)@ == old(self)@ + entry(key@, text_array(text::texts(list@))),
    {
        self.put(key, texts_value(list));
    }

    /// Adds an entry for a list of texts that is not empty.
    pub fn put_some_texts(&mut self, key: &str, list: &Vec<String>)
        ensures
            final(self)@ == old(self)@ + some_texts(key@, text::texts(list@)),
    {
        let ghost before = self@;
        assert(text::texts(list@).len() == list@.len());
        if list.len() > 0 {
            self.put_texts(key, list);
        } else {
            assert(before == before + Seq::<(Seq<char>, Json)>::empty());
        }
    }

    /// Adds an entry for a flag that is set.
    pub fn put_some_flag(&mut self, key: &str, flag: bool)
        ensures
            final(self)@ == old(self)@ + some_flag(key@, flag),
    {
        let ghost before = self@;
        if flag {
            self.put(key, JsonValue::Bool(true));
        } else {
            assert(before == before + Seq::<(Seq<char>, Json)>::empty());
        }
    }

    /// Adds an entry for a number that is not zero.
    pub fn put_some_number(&mut self, key: &str, n: u32)
        ensures
            final(self)@ == old(self)@ + some_number(key@, n as int),
    {
        let ghost before = self@;
        if n > 0 {
            self.put(key, unsigned_value(n));
        } else {
            assert(before == before + Seq::<(Seq<char>, Json)>::empty());
        }
    }

    /// Adds an entry for an optional truth value.
    pub fn put_some_bool(&mut self, key: &str, value: Option<bool>)
        ensures
            final(self)@ == old(self)@ + some_bool(key@, value),
    {
        let ghost before = self@;
        match value {
            Some(b) => self.put(key, JsonValue::Bool(b)),
            None => {
                assert(before == before + Seq::<(Seq<char>, Json)>::empty());
            },
        }
    }

    /// Adds an entry for an object that is not empty.
    pub fn put_some_object(&mut self, key: &str, object: ObjectBuilder)
        ensures
            final(self)@ == old(self)@ + some_object(key@, object@),
    {
        let ghost before = self@;
        assert(object@.len() == object.list@.len());
        if object.list.len() > 0 {
            self.put(key, JsonValue::Object(object.list));
        } else {
            assert(before == before + Seq::<(Seq<char>, Json)>::empty());
        }
    }

    /// Adds an entry for an array that is not empty.
    pub fn put_some_array(&mut self, key: &str, items: Vec<JsonValue>)
        ensures
            final(self)@ == old(self)@ + some_array(key@, json::values(items@)),
    {
        let ghost before = self@;
        assert(json::values(items@).len() == items@.len());
        if items.len() > 0 {
            self.put(key, JsonValue::Array(items));
        } else {
            assert(before == before + Seq::<(Seq<char>, Json)>::empty());
        }
    }

    /// Adds the entries of another object at the end.
    pub fn append(&mut self, other: ObjectBuilder)
        ensures
            final(self)@ == old(self)@ + other@,
    {
        let ghost before = self@;
        let ghost added = other@;
        let mut rest = other.list;
        self.list.append(&mut rest);
        assert(self@ == before + added);
    }

    /// The object.
    pub fn build(self) -> (value: JsonValue)
        ensures
            value@ == Json::Object(self@),
    {
        JsonValue::Object(self.list)
    }
}

} // verus!
