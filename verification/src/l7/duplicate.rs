//! Duplicate keys in decoded JSON objects.

use crate::json;
use crate::json::{Json, JsonValue};
use crate::numeral;
use crate::numeral::{numeral_of, Base};
use crate::text::same;
use vstd::prelude::*;

verus! {

broadcast use json::group_json_views;

/// A key that occurs twice in one object, and the path of that object.
#[derive(Debug)]
pub struct DuplicateJsonObjectKey {
    pub key: String,
    pub object_path: String,
}

/// What a [`DuplicateJsonObjectKey`] denotes.
#[verifier::ext_equal]
pub struct DuplicateModel {
    pub key: Seq<char>,
    pub object_path: Seq<char>,
}

impl View for DuplicateJsonObjectKey {
    type V = DuplicateModel;

    open spec fn view(&self) -> DuplicateModel {
        DuplicateModel { key: self.key@, object_path: self.object_path@ }
    }
}

/// The duplicate that was found, if any.
pub open spec fn found(duplicate: Option<DuplicateJsonObjectKey>) -> Option<DuplicateModel> {
    match duplicate {
        Some(d) => Some(d@),
        None => None,
    }
}

/// The path of an array item.
pub open spec fn item_path(path: Seq<char>, index: int) -> Seq<char> {
    path + "["@ + numeral::numeral(index as nat, Base::Decimal) + "]"@
}

/// The path of an object member.
pub open spec fn member_path(path: Seq<char>, key: Seq<char>) -> Seq<char> {
    path + "."@ + key
}

/// Whether an entry before `index` has the key of the entry at `index`.
pub open spec fn repeats(object: Seq<(Seq<char>, Json)>, index: int) -> bool {
    exists|i: int| 0 <= i < index && (#[trigger] object[i]).0 == object[index].0
}

/// The first duplicate key in the order of the document: an object is entered
/// entry by entry, and the value of an entry comes after its key.
pub open spec fn first_duplicate(value: Json, path: Seq<char>) -> Option<DuplicateModel>
    decreases value, 0int,
{
    match value {
        Json::Array(items) => first_in_items(items, 0, path),
        Json::Object(object) => first_in_object(object, 0, path),
        _ => None,
    }
}

/// The first duplicate key in the items from `index` on.
pub open spec fn first_in_items(items: Seq<Json>, index: int, path: Seq<char>) -> Option<
    DuplicateModel,
>
    decreases items, items.len() - index,
{
    if index < 0 || index >= items.len() {
        None
    } else {
        match first_duplicate(items[index], item_path(path, index)) {
            Some(duplicate) => Some(duplicate),
            None => first_in_items(items, index + 1, path),
        }
    }
}

/// The first duplicate key in the entries from `index` on.
pub open spec fn first_in_object(
    object: Seq<(Seq<char>, Json)>,
    index: int,
    path: Seq<char>,
) -> Option<DuplicateModel>
    decreases object, object.len() - index,
{
    if index < 0 || index >= object.len() {
        None
    } else if repeats(object, index) {
        Some(DuplicateModel { key: object[index].0, object_path: path })
    } else {
        match first_duplicate(object[index].1, member_path(path, object[index].0)) {
            Some(duplicate) => Some(duplicate),
            None => first_in_object(object, index + 1, path),
        }
    }
}

fn path_of_item(path: &str, index: usize) -> (r: String)
    ensures
        r@ == item_path(path@, index as int),
{
    let mut r = path.to_string();
    r.append("[");
    r.append(numeral_of(index as u64, Base::Decimal).as_str());
    r.append("]");
    r
}

fn path_of_member(path: &str, key: &str) -> (r: String)
    ensures
        r@ == member_path(path@, key@),
{
    let mut r = path.to_string();
    r.append(".");
    r.append(key);
    r
}

fn key_repeats(list: &Vec<(String, JsonValue)>, index: usize) -> (r: bool)
    requires
        index < list@.len(),
    ensures
        r == repeats(json::entries(list@), index as int),
{
    let ghost object = json::entries(list@);
    let mut i: usize = 0;
    while i < index
        invariant
            i <= index < list@.len(),
            object == json::entries(list@),
            forall|k: int| 0 <= k < i ==> (#[trigger] object[k]).0 != object[index as int].0,
        decreases index - i,
    {
        if same(list[i].0.as_str(), list[index].0.as_str()) {
            assert(object[i as int].0 == object[index as int].0);
            return true;
        }
        i += 1;
    }
    false
}

/// Finds the first duplicate key of a decoded value that stands at `path`.
pub fn find_duplicate(value: &JsonValue, path: &str) -> (duplicate: Option<DuplicateJsonObjectKey>)
    ensures
        found(duplicate) == first_duplicate(value@, path@),
    decreases value,
{
    match value {
        JsonValue::Array(items) => {
            let ghost model = json::values(items@);
            let mut i: usize = 0;
            while i < items.len()
                invariant
                    i <= items@.len(),
                    *value == JsonValue::Array(*items),
                    model == json::values(items@),
                    first_in_items(model, 0, path@) == first_in_items(model, i as int, path@),
                decreases items@.len() - i,
            {
                assert(decreases_to!(*value => value->Array_0));
                assert(decreases_to!(*items => items@));
                assert(decreases_to!(items@ => items@[i as int]));
                let below = path_of_item(path, i);
                let duplicate = find_duplicate(&items[i], below.as_str());
                assert(model[i as int] == items@[i as int]@);
                if duplicate.is_some() {
                    return duplicate;
                }
                i += 1;
            }
            None
        },
        JsonValue::Object(list) => {
            let ghost model = json::entries(list@);
            let mut i: usize = 0;
            while i < list.len()
                invariant
                    i <= list@.len(),
                    *value == JsonValue::Object(*list),
                    model == json::entries(list@),
                    first_in_object(model, 0, path@) == first_in_object(model, i as int, path@),
                decreases list@.len() - i,
            {
                assert(decreases_to!(*value => value->Object_0));
                assert(decreases_to!(*list => list@));
                assert(decreases_to!(list@ => list@[i as int]));
                assert(model[i as int] == (list@[i as int].0@, list@[i as int].1@));
                if key_repeats(list, i) {
                    return Some(
                        DuplicateJsonObjectKey {
                            key: list[i].0.clone(),
                            object_path: path.to_string(),
                        },
                    );
                }
                let below = path_of_member(path, list[i].0.as_str());
                let duplicate = find_duplicate(&list[i].1, below.as_str());
                if duplicate.is_some() {
                    return duplicate;
                }
                i += 1;
            }
            None
        },
        _ => None,
    }
}

/// A decoded value is accepted exactly where no object in it, at any depth,
/// has two entries with the same key.
pub proof fn duplicates_are_found_at_any_depth(value: Json, path: Seq<char>)
    ensures
        first_duplicate(value, path) is None <==> json::unique_keys(value),
    decreases value, 0int,
{
    match value {
        Json::Array(items) => {
            lemma_items(items, 0, path);
            assert(first_duplicate(value, path) == first_in_items(items, 0, path));
            assert(json::unique_keys(value) <==> forall|k: int|
                0 <= k < items.len() ==> json::unique_keys(#[trigger] items[k]));
        },
        Json::Object(object) => {
            lemma_object(object, 0, path);
            assert(json::distinct_keys(object) <==> forall|k: int|
                0 <= k < object.len() ==> !#[trigger] repeats(object, k)) by {
                if json::distinct_keys(object) {
                    assert forall|k: int| 0 <= k < object.len() implies !#[trigger] repeats(
                        object,
                        k,
                    ) by {
                        if repeats(object, k) {
                            let i = choose|i: int|
                                0 <= i < k && (#[trigger] object[i]).0 == object[k].0;
                            assert(object[i].0 != object[k].0);
                        }
                    }
                }
                if forall|k: int| 0 <= k < object.len() ==> !#[trigger] repeats(object, k) {
                    assert forall|i: int, j: int| 0 <= i < j < object.len() implies (
                    #[trigger] object[i]).0 != (#[trigger] object[j]).0 by {
                        assert(!repeats(object, j));
                    }
                }
            }
        },
        _ => {},
    }
}

proof fn lemma_items(items: Seq<Json>, index: int, path: Seq<char>)
    requires
        0 <= index <= items.len(),
    ensures
        first_in_items(items, index, path) is None <==> forall|k: int|
            index <= k < items.len() ==> json::unique_keys(#[trigger] items[k]),
    decreases items, items.len() - index,
{
    if index < items.len() {
        duplicates_are_found_at_any_depth(items[index], item_path(path, index));
        lemma_items(items, index + 1, path);
    }
}

proof fn lemma_object(object: Seq<(Seq<char>, Json)>, index: int, path: Seq<char>)
    requires
        0 <= index <= object.len(),
    ensures
        first_in_object(object, index, path) is None <==> (forall|k: int|
            index <= k < object.len() ==> !#[trigger] repeats(object, k)) && (forall|k: int|
            index <= k < object.len() ==> json::unique_keys((#[trigger] object[k]).1)),
    decreases object, object.len() - index,
{
    if index < object.len() {
        assert(decreases_to!(object => object[index]));
        duplicates_are_found_at_any_depth(
            object[index].1,
            member_path(path, object[index].0),
        );
        lemma_object(object, index + 1, path);
    }
}

} // verus!
