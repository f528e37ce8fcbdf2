//! What is found in the objects that are built.

use crate::json;
use crate::json::Json;
use crate::opa::builder;
use crate::opa::builder::Entries;
use vstd::prelude::*;

verus! {

/// What is found under a key.
#[verifier::opaque]
pub open spec fn found(list: Entries, key: Seq<char>) -> Option<Json> {
    json::lookup(list, key)
}

/// What is found under a key of an object is the value of its first entry with
/// that key.
pub proof fn found_is_lookup(list: Entries, key: Seq<char>)
    ensures
        json::lookup(list, key) == found(list, key),
        Json::Object(list).field(key) == found(list, key),
{
    reveal(found);
}

/// Of two rows of entries the first is asked first.
pub broadcast proof fn found_in_either(a: Entries, b: Entries, key: Seq<char>)
    ensures
        #[trigger] found(a + b, key) == if found(a, key) is Some {
            found(a, key)
        } else {
            found(b, key)
        },
{
    reveal(found);
    json::lemma_position(a, key);
    json::lemma_position(b, key);
    let at = json::position(a, key);
    if at < a.len() {
        assert((a + b)[at] == a[at]);
        assert forall|i: int| 0 <= i < at implies (#[trigger] (a + b)[i]).0 != key by {
            assert((a + b)[i] == a[i]);
        }
        json::lemma_position_is(a + b, key, at);
    } else {
        let behind = a.len() + json::position(b, key);
        assert forall|i: int| 0 <= i < behind implies (#[trigger] (a + b)[i]).0 != key by {
            if i < a.len() {
                assert((a + b)[i] == a[i]);
            } else {
                assert((a + b)[i] == b[i - a.len()]);
            }
        }
        json::lemma_position_is(a + b, key, behind);
    }
}

/// An entry is found under its key and under no other.
pub broadcast proof fn found_entry(own: Seq<char>, value: Json, key: Seq<char>)
    ensures
        #[trigger] found(builder::entry(own, value), key) == if own == key {
            Some(value)
        } else {
            None::<Json>
        },
{
    reveal(found);
    let list = builder::entry(own, value);
    assert(list.skip(1).len() == 0);
    assert(json::position(list.skip(1), key) == 0);
}

/// Nothing is found where there is nothing.
pub broadcast proof fn found_nothing(list: Entries, key: Seq<char>)
    requires
        list.len() == 0,
    ensures
        #[trigger] found(list, key) is None,
{
    reveal(found);
}

/// A text is found under its key unless it is empty.
pub broadcast proof fn found_text(own: Seq<char>, value: Seq<char>, key: Seq<char>)
    ensures
        #[trigger] found(builder::some_text(own, value), key) == if own == key && value.len()
            > 0 {
            Some(Json::Text(value))
        } else {
            None::<Json>
        },
{
    found_nothing(Seq::empty(), key);
    found_entry(own, Json::Text(value), key);
}

/// A list of texts is found under its key unless it is empty.
pub broadcast proof fn found_texts(own: Seq<char>, list: Seq<Seq<char>>, key: Seq<char>)
    ensures
        #[trigger] found(builder::some_texts(own, list), key) == if own == key && list.len()
            > 0 {
            Some(builder::text_array(list))
        } else {
            None::<Json>
        },
{
    found_nothing(Seq::empty(), key);
    found_entry(own, builder::text_array(list), key);
}

/// A flag is found under its key where it is set.
pub broadcast proof fn found_flag(own: Seq<char>, flag: bool, key: Seq<char>)
    ensures
        #[trigger] found(builder::some_flag(own, flag), key) == if own == key && flag {
            Some(Json::Bool(true))
        } else {
            None::<Json>
        },
{
    found_nothing(Seq::empty(), key);
    found_entry(own, Json::Bool(true), key);
}

/// A number is found under its key unless it is zero.
pub broadcast proof fn found_number(own: Seq<char>, n: int, key: Seq<char>)
    ensures
        #[trigger] found(builder::some_number(own, n), key) == if own == key && n > 0 {
            Some(Json::Number(json::NumberModel::Integer(n)))
        } else {
            None::<Json>
        },
{
    found_nothing(Seq::empty(), key);
    found_entry(own, builder::number(n), key);
}

/// A truth value is found under its key where there is one.
pub broadcast proof fn found_bool(own: Seq<char>, value: Option<bool>, key: Seq<char>)
    ensures
        #[trigger] found(builder::some_bool(own, value), key) == if own == key && value is Some {
            Some(Json::Bool(value->Some_0))
        } else {
            None::<Json>
        },
{
    found_nothing(Seq::empty(), key);
    if let Some(b) = value {
        found_entry(own, Json::Bool(b), key);
    }
}

/// An object is found under its key unless it is empty.
pub broadcast proof fn found_object(own: Seq<char>, object: Entries, key: Seq<char>)
    ensures
        #[trigger] found(builder::some_object(own, object), key) == if own == key
            && object.len() > 0 {
            Some(Json::Object(object))
        } else {
            None::<Json>
        },
{
    found_nothing(Seq::empty(), key);
    found_entry(own, Json::Object(object), key);
}

/// An array is found under its key unless it is empty.
pub broadcast proof fn found_array(own: Seq<char>, items: Seq<Json>, key: Seq<char>)
    ensures
        #[trigger] found(builder::some_array(own, items), key) == if own == key && items.len()
            > 0 {
            Some(Json::Array(items))
        } else {
            None::<Json>
        },
{
    found_nothing(Seq::empty(), key);
    found_entry(own, Json::Array(items), key);
}

/// What is found in the objects that are built.
pub broadcast group group_found {
    found_in_either,
    found_entry,
    found_nothing,
    found_text,
    found_texts,
    found_flag,
    found_number,
    found_bool,
    found_object,
    found_array,
}

} // verus!
