//! The configuration of a middleware stage: the part of a rule's value that a
//! struct of plain values can hold. Numbers stay decimal texts.

use crate::opa::rego;
use crate::opa::rego::{Rego, RegoValue};
use vstd::prelude::*;

verus! {

/// A value in a struct.
#[derive(Debug, PartialEq)]
pub enum StructValue {
    Null,
    Bool(bool),
    /// A number in decimal digits.
    Number(String),
    Text(String),
    List(Vec<StructValue>),
    Struct(Vec<(String, StructValue)>),
}

/// What a [`StructValue`] denotes.
#[verifier::ext_equal]
pub enum StructModel {
    Null,
    Bool(bool),
    Number(Seq<char>),
    Text(Seq<char>),
    List(Seq<StructModel>),
    Struct(Seq<(Seq<char>, StructModel)>),
}

/// What a value denotes.
pub open spec fn denoted(value: StructValue) -> StructModel
    decreases value,
{
    match value {
        StructValue::Null => StructModel::Null,
        StructValue::Bool(b) => StructModel::Bool(b),
        StructValue::Number(s) => StructModel::Number(s@),
        StructValue::Text(s) => StructModel::Text(s@),
        StructValue::List(items) => StructModel::List(
            Seq::new(
                items@.len(),
                |i: int|
                    if 0 <= i < items@.len() {
                        denoted(items@[i])
                    } else {
                        StructModel::Null
                    },
            ),
        ),
        StructValue::Struct(list) => StructModel::Struct(
            Seq::new(
                list@.len(),
                |i: int|
                    if 0 <= i < list@.len() {
                        (list@[i].0@, denoted(list@[i].1))
                    } else {
                        (seq![], StructModel::Null)
                    },
            ),
        ),
    }
}

impl View for StructValue {
    type V = StructModel;

    open spec fn view(&self) -> StructModel {
        denoted(*self)
    }
}

/// What a list of values denotes.
pub open spec fn values(items: Seq<StructValue>) -> Seq<StructModel> {
    items.map_values(|item: StructValue| item@)
}

/// What the fields of a struct denote.
pub open spec fn fields(list: Seq<(String, StructValue)>) -> Seq<(Seq<char>, StructModel)> {
    list.map_values(|field: (String, StructValue)| (field.0@, field.1@))
}

/// The value in a struct that stands for a rule's value. What a struct cannot
/// hold is null.
pub open spec fn struct_value(value: Rego) -> StructModel
    decreases value, 1nat, 0nat,
{
    match value {
        Rego::Bool(b) => StructModel::Bool(b),
        Rego::Number(_, decimal) => StructModel::Number(decimal),
        Rego::Text(s) => StructModel::Text(s),
        Rego::Array(items) => StructModel::List(
            Seq::new(
                items.len(),
                |i: int|
                    if 0 <= i < items.len() {
                        struct_value(items[i])
                    } else {
                        StructModel::Null
                    },
            ),
        ),
        Rego::Object(entries) => StructModel::Struct(first_fields(value, entries.len())),
        _ => StructModel::Null,
    }
}

/// The fields that the first `n` entries of an object give. An entry whose key
/// is no text gives none.
pub open spec fn first_fields(value: Rego, n: nat) -> Seq<(Seq<char>, StructModel)>
    decreases value, 0nat, n,
{
    match value {
        Rego::Object(entries) => if n == 0 || n > entries.len() {
            seq![]
        } else {
            let before = first_fields(value, (n - 1) as nat);
            match entries[n - 1].0 {
                Rego::Text(key) => before.push((key, struct_value(entries[n - 1].1))),
                _ => before,
            }
        },
        _ => seq![],
    }
}

/// The struct that stands for a rule's value. Anything but an object is an
/// empty struct.
pub open spec fn struct_fields(value: Rego) -> Seq<(Seq<char>, StructModel)> {
    match value {
        Rego::Object(entries) => first_fields(value, entries.len()),
        _ => seq![],
    }
}

proof fn lemma_list_view(items: Vec<StructValue>)
    ensures
        StructValue::List(items)@ == StructModel::List(values(items@)),
{
    assert(StructValue::List(items)@->List_0 =~= values(items@));
}

proof fn lemma_struct_view(list: Vec<(String, StructValue)>)
    ensures
        StructValue::Struct(list)@ == StructModel::Struct(fields(list@)),
{
    assert(StructValue::Struct(list)@->Struct_0 =~= fields(list@));
}

/// Converts a rule's value to the value in a struct that stands for it.
pub fn regorus_value_to_prost(value: &RegoValue) -> (r: StructValue)
    ensures
        r@ == struct_value(value@),
    decreases value, 1nat,
{
    match value {
        RegoValue::Bool(b) => StructValue::Bool(*b),
        RegoValue::Number(n) => StructValue::Number(n.decimal.clone()),
        RegoValue::Text(s) => StructValue::Text(s.clone()),
        RegoValue::Array(items) => {
            let ghost all = rego::values(items@).map_values(|item: Rego| struct_value(item));
            let mut list: Vec<StructValue> = Vec::new();
            let mut i: usize = 0;
            while i < items.len()
                invariant
                    i <= items@.len(),
                    *value == RegoValue::Array(*items),
                    all == rego::values(items@).map_values(|item: Rego| struct_value(item)),
                    values(list@) == all.take(i as int),
                decreases items@.len() - i,
            {
                let ghost before = values(list@);
                assert(decreases_to!(*value => value->Array_0));
                assert(decreases_to!(*items => items@));
                assert(decreases_to!(items@ => items@[i as int]));
                let item = regorus_value_to_prost(&items[i]);
                assert(all[i as int] == item@);
                let ghost model = item@;
                list.push(item);
                assert(values(list@) == before.push(model));
                assert(all.take(i + 1) == before.push(model));
                i += 1;
            }
            assert(all.take(i as int) == all);
            proof {
                rego::array_view(*items);
                lemma_list_view(list);
                assert(struct_value(value@)->List_0 =~= all);
            }
            StructValue::List(list)
        },
        RegoValue::Object(_) => {
            let list = regorus_value_to_struct(value);
            proof {
                lemma_struct_view(list);
            }
            StructValue::Struct(list)
        },
        RegoValue::Null | RegoValue::Members(_) | RegoValue::Undefined => StructValue::Null,
    }
}

/// Converts a rule's value to the struct that stands for it.
pub fn regorus_value_to_struct(value: &RegoValue) -> (r: Vec<(String, StructValue)>)
    ensures
        fields(r@) == struct_fields(value@),
    decreases value, 0nat,
{
    let mut r: Vec<(String, StructValue)> = Vec::new();
    assert(fields(r@) == Seq::<(Seq<char>, StructModel)>::empty());
    if let RegoValue::Object(list) = value {
        proof {
            rego::object_view(*list);
        }
        let mut i: usize = 0;
        while i < list.len()
            invariant
                i <= list@.len(),
                *value == RegoValue::Object(*list),
                value@ == Rego::Object(rego::entries(list@)),
                fields(r@) == first_fields(value@, i as nat),
            decreases list@.len() - i,
        {
            let ghost before = fields(r@);
            assert(rego::entries(list@)[i as int] == (list@[i as int].0@, list@[i as int].1@));
            assert(decreases_to!(*value => value->Object_0));
            assert(decreases_to!(*list => list@));
            assert(decreases_to!(list@ => list@[i as int]));
            if let RegoValue::Text(key) = &list[i].0 {
                let item = regorus_value_to_prost(&list[i].1);
                let ghost model = (key@, item@);
                r.push((key.clone(), item));
                assert(fields(r@) == before.push(model));
            }
            i += 1;
        }
    }
    r
}

/// A struct has a field for every text key of an object, and no other: what is
/// under a key that is no text is left out.
pub proof fn fields_are_text_entries(entries: Seq<(Rego, Rego)>, key: Seq<char>, value: StructModel)
    ensures
        struct_fields(Rego::Object(entries)).contains((key, value)) <==> exists|i: int|
            0 <= i < entries.len() && (#[trigger] entries[i]).0 == Rego::Text(key) && struct_value(
                entries[i].1,
            ) == value,
{
    lemma_first_fields(entries, entries.len(), key, value);
}

proof fn lemma_first_fields(
    entries: Seq<(Rego, Rego)>,
    n: nat,
    key: Seq<char>,
    value: StructModel,
)
    requires
        n <= entries.len(),
    ensures
        first_fields(Rego::Object(entries), n).contains((key, value)) <==> exists|i: int|
            0 <= i < n && (#[trigger] entries[i]).0 == Rego::Text(key) && struct_value(entries[i].1)
                == value,
    decreases n,
{
    let all = first_fields(Rego::Object(entries), n);
    if n > 0 {
        let before = first_fields(Rego::Object(entries), (n - 1) as nat);
        lemma_first_fields(entries, (n - 1) as nat, key, value);
        if before.contains((key, value)) {
            let k = choose|k: int| 0 <= k < before.len() && before[k] == (key, value);
            assert(all[k] == before[k]);
        }
        if entries[n - 1].0 == Rego::Text(key) && struct_value(entries[n - 1].1) == value {
            assert(all[before.len() as int] == (key, value));
        }
        if all.contains((key, value)) {
            let k = choose|k: int| 0 <= k < all.len() && all[k] == (key, value);
            if k < before.len() {
                assert(before[k] == all[k]);
            }
        }
    }
}

} // verus!
