//! Values that policy rules evaluate to, as plain library values.

use crate::text;
use crate::text::same;
use vstd::prelude::*;

verus! {

/// A number of a policy rule.
#[derive(Debug, PartialEq)]
pub struct RegoNumber {
    /// The number, where it is an integer in the range of `i64`.
    pub integer: Option<i64>,
    /// The number in decimal digits.
    pub decimal: String,
}

/// A value that a policy rule evaluates to.
#[derive(Debug, PartialEq)]
pub enum RegoValue {
    Null,
    Bool(bool),
    Number(RegoNumber),
    Text(String),
    Array(Vec<RegoValue>),
    Members(Vec<RegoValue>),
    Object(Vec<(RegoValue, RegoValue)>),
    Undefined,
}

/// What a [`RegoValue`] denotes.
#[verifier::ext_equal]
pub enum Rego {
    Null,
    Bool(bool),
    Number(Option<i64>, Seq<char>),
    Text(Seq<char>),
    Array(Seq<Rego>),
    Members(Seq<Rego>),
    Object(Seq<(Rego, Rego)>),
    Undefined,
}

/// What a value denotes.
pub open spec fn denoted(value: RegoValue) -> Rego
    decreases value,
{
    match value {
        RegoValue::Null => Rego::Null,
        RegoValue::Bool(b) => Rego::Bool(b),
        RegoValue::Number(n) => Rego::Number(n.integer, n.decimal@),
        RegoValue::Text(s) => Rego::Text(s@),
        RegoValue::Array(items) => Rego::Array(
            Seq::new(
                items@.len(),
                |i: int|
                    if 0 <= i < items@.len() {
                        denoted(items@[i])
                    } else {
                        Rego::Null
                    },
            ),
        ),
        RegoValue::Members(items) => Rego::Members(
            Seq::new(
                items@.len(),
                |i: int|
                    if 0 <= i < items@.len() {
                        denoted(items@[i])
                    } else {
                        Rego::Null
                    },
            ),
        ),
        RegoValue::Object(list) => Rego::Object(
            Seq::new(
                list@.len(),
                |i: int|
                    if 0 <= i < list@.len() {
                        (denoted(list@[i].0), denoted(list@[i].1))
                    } else {
                        (Rego::Null, Rego::Null)
                    },
            ),
        ),
        RegoValue::Undefined => Rego::Undefined,
    }
}

impl View for RegoValue {
    type V = Rego;

    open spec fn view(&self) -> Rego {
        denoted(*self)
    }
}

/// What a list of values denotes.
pub open spec fn values(items: Seq<RegoValue>) -> Seq<Rego> {
    items.map_values(|item: RegoValue| item@)
}

/// What the entries of an object denote.
pub open spec fn entries(list: Seq<(RegoValue, RegoValue)>) -> Seq<(Rego, Rego)> {
    list.map_values(|entry: (RegoValue, RegoValue)| (entry.0@, entry.1@))
}

/// An array denotes the values of its items.
pub proof fn array_view(items: Vec<RegoValue>)
    ensures
        RegoValue::Array(items)@ == Rego::Array(values(items@)),
        RegoValue::Members(items)@ == Rego::Members(values(items@)),
{
    assert(RegoValue::Array(items)@->Array_0 =~= values(items@));
    assert(RegoValue::Members(items)@->Members_0 =~= values(items@));
}

/// An object denotes its keys and values.
pub proof fn object_view(list: Vec<(RegoValue, RegoValue)>)
    ensures
        RegoValue::Object(list)@ == Rego::Object(entries(list@)),
{
    assert(RegoValue::Object(list)@->Object_0 =~= entries(list@));
}

/// The position of the entry under a text key, or the number of entries.
pub open spec fn position(object: Seq<(Rego, Rego)>, key: Seq<char>) -> int
    decreases object.len(),
{
    if object.len() == 0 || object[0].0 == Rego::Text(key) {
        0
    } else {
        1 + position(object.skip(1), key)
    }
}

/// The value under a text key of an object.
pub open spec fn lookup(object: Seq<(Rego, Rego)>, key: Seq<char>) -> Option<Rego> {
    let at = position(object, key);
    if at < object.len() {
        Some(object[at].1)
    } else {
        None
    }
}

/// An object with a value set under a text key.
pub open spec fn with_entry(object: Seq<(Rego, Rego)>, key: Seq<char>, value: Rego) -> Seq<
    (Rego, Rego),
> {
    let at = position(object, key);
    if at < object.len() {
        object.update(at, (Rego::Text(key), value))
    } else {
        object.push((Rego::Text(key), value))
    }
}

/// The value under a key, where a value is an object that has it.
pub open spec fn field(value: Rego, key: Seq<char>) -> Option<Rego> {
    match value {
        Rego::Object(object) => lookup(object, key),
        _ => None,
    }
}

/// The text under a key.
pub open spec fn text_field(value: Rego, key: Seq<char>) -> Option<Seq<char>> {
    match field(value, key) {
        Some(Rego::Text(s)) => Some(s),
        _ => None,
    }
}

/// The truth value under a key.
pub open spec fn bool_field(value: Rego, key: Seq<char>) -> Option<bool> {
    match field(value, key) {
        Some(Rego::Bool(b)) => Some(b),
        _ => None,
    }
}

/// The texts among values.
pub open spec fn texts_among(items: Seq<Rego>) -> Seq<Seq<char>>
    decreases items.len(),
{
    if items.len() == 0 {
        seq![]
    } else {
        let before = texts_among(items.drop_last());
        match items.last() {
            Rego::Text(s) => before.push(s),
            _ => before,
        }
    }
}

/// The texts of the array under a key, or none.
pub open spec fn text_list(value: Rego, key: Seq<char>) -> Seq<Seq<char>> {
    match field(value, key) {
        Some(Rego::Array(items)) => texts_among(items),
        _ => seq![],
    }
}

/// A text that may be absent.
pub open spec fn optional_text(s: Option<String>) -> Option<Seq<char>> {
    match s {
        Some(s) => Some(s@),
        None => None,
    }
}

proof fn lemma_position_skip(object: Seq<(Rego, Rego)>, key: Seq<char>, i: int)
    requires
        0 <= i < object.len(),
        position(object, key) == i + position(object.skip(i), key),
        object[i].0 != Rego::Text(key),
    ensures
        position(object, key) == i + 1 + position(object.skip(i + 1), key),
{
    assert(object.skip(i)[0] == object[i]);
    assert(object.skip(i).skip(1) == object.skip(i + 1));
}

fn position_of(list: &Vec<(RegoValue, RegoValue)>, key: &str) -> (at: usize)
    ensures
        at == position(entries(list@), key@),
        at <= list@.len(),
{
    let ghost all = entries(list@);
    let mut at: usize = 0;
    assert(all.skip(0) == all);
    while at < list.len()
        invariant
            at <= list@.len(),
            all == entries(list@),
            position(all, key@) == at + position(all.skip(at as int), key@),
        decreases list@.len() - at,
    {
        assert(all.skip(at as int)[0] == all[at as int]);
        assert(all[at as int].0 == list@[at as int].0@);
        let found = match &list[at].0 {
            RegoValue::Text(s) => same(s.as_str(), key),
            _ => false,
        };
        if found {
            return at;
        }
        proof {
            lemma_position_skip(all, key@, at as int);
        }
        at += 1;
    }
    assert(all.skip(at as int).len() == 0);
    at
}

/// Finds the value under a key of an object.
pub fn get_field<'a>(value: &'a RegoValue, key: &str) -> (r: Option<&'a RegoValue>)
    ensures
        match r {
            Some(found) => field(value@, key@) == Some(found@),
            None => field(value@, key@) is None,
        },
{
    match value {
        RegoValue::Object(list) => {
            proof {
                object_view(*list);
            }
            let at = position_of(list, key);
            if at < list.len() {
                assert(entries(list@)[at as int].1 == list@[at as int].1@);
                Some(&list[at].1)
            } else {
                None
            }
        },
        _ => None,
    }
}

/// Reads the text under a key of an object.
pub fn get_str(value: &RegoValue, key: &str) -> (r: Option<String>)
    ensures
        optional_text(r) == text_field(value@, key@),
{
    match get_field(value, key) {
        Some(RegoValue::Text(s)) => Some(s.clone()),
        _ => None,
    }
}

/// Reads the truth value under a key of an object.
pub fn get_bool(value: &RegoValue, key: &str) -> (r: Option<bool>)
    ensures
        r == bool_field(value@, key@),
{
    match get_field(value, key) {
        Some(RegoValue::Bool(b)) => Some(*b),
        _ => None,
    }
}

/// Reads the texts of the array under a key of an object.
pub fn get_str_array(value: &RegoValue, key: &str) -> (r: Vec<String>)
    ensures
        text::texts(r@) == text_list(value@, key@),
{
    let mut r: Vec<String> = Vec::new();
    assert(text::texts(r@) == Seq::<Seq<char>>::empty());
    if let Some(RegoValue::Array(items)) = get_field(value, key) {
        proof {
            array_view(*items);
        }
        let ghost all = values(items@);
        let mut i: usize = 0;
        while i < items.len()
            invariant
                i <= items@.len(),
                all == values(items@),
                text::texts(r@) == texts_among(all.take(i as int)),
            decreases items@.len() - i,
        {
            assert(all.take(i + 1).drop_last() == all.take(i as int));
            assert(all.take(i + 1).last() == items@[i as int]@);
            let ghost before = text::texts(r@);
            if let RegoValue::Text(s) = &items[i] {
                r.push(s.clone());
                assert(text::texts(r@) == before.push(s@));
            }
            i += 1;
        }
        assert(all.take(i as int) == all);
    }
    r
}

impl RegoValue {
    /// The same value once more.
    pub fn copy(&self) -> (r: RegoValue)
        ensures
            r@ == self@,
        decreases self,
    {
        match self {
            RegoValue::Null => RegoValue::Null,
            RegoValue::Bool(b) => RegoValue::Bool(*b),
            RegoValue::Number(n) => RegoValue::Number(
                RegoNumber { integer: n.integer, decimal: n.decimal.clone() },
            ),
            RegoValue::Text(s) => RegoValue::Text(s.clone()),
            RegoValue::Array(items) => {
                let mut copied: Vec<RegoValue> = Vec::new();
                let mut i: usize = 0;
                while i < items.len()
                    invariant
                        i <= items@.len(),
                        *self == RegoValue::Array(*items),
                        values(copied@) == values(items@).take(i as int),
                    decreases items@.len() - i,
                {
                    let ghost before = values(copied@);
                    assert(decreases_to!(*self => self->Array_0));
                    assert(decreases_to!(*items => items@));
                    assert(decreases_to!(items@ => items@[i as int]));
                    let item = items[i].copy();
                    copied.push(item);
                    assert(values(copied@) == before.push(item@));
                    assert(values(items@).take(i + 1) == before.push(item@));
                    i += 1;
                }
                assert(values(items@).take(i as int) == values(items@));
                proof {
                    array_view(*items);
                    array_view(copied);
                }
                RegoValue::Array(copied)
            },
            RegoValue::Members(items) => {
                let mut copied: Vec<RegoValue> = Vec::new();
                let mut i: usize = 0;
                while i < items.len()
                    invariant
                        i <= items@.len(),
                        *self == RegoValue::Members(*items),
                        values(copied@) == values(items@).take(i as int),
                    decreases items@.len() - i,
                {
                    let ghost before = values(copied@);
                    assert(decreases_to!(*self => self->Members_0));
                    assert(decreases_to!(*items => items@));
                    assert(decreases_to!(items@ => items@[i as int]));
                    let item = items[i].copy();
                    copied.push(item);
                    assert(values(copied@) == before.push(item@));
                    assert(values(items@).take(i + 1) == before.push(item@));
                    i += 1;
                }
                assert(values(items@).take(i as int) == values(items@));
                proof {
                    array_view(*items);
                    array_view(copied);
                }
                RegoValue::Members(copied)
            },
            RegoValue::Object(list) => {
                let mut copied: Vec<(RegoValue, RegoValue)> = Vec::new();
                let mut i: usize = 0;
                while i < list.len()
                    invariant
                        i <= list@.len(),
                        *self == RegoValue::Object(*list),
                        entries(copied@) == entries(list@).take(i as int),
                    decreases list@.len() - i,
                {
                    let ghost before = entries(copied@);
                    assert(decreases_to!(*self => self->Object_0));
                    assert(decreases_to!(*list => list@));
                    assert(decreases_to!(list@ => list@[i as int]));
                    let key = list[i].0.copy();
                    let value = list[i].1.copy();
                    copied.push((key, value));
                    assert(entries(copied@) == before.push((key@, value@)));
                    assert(entries(list@).take(i + 1) == before.push((key@, value@)));
                    i += 1;
                }
                assert(entries(list@).take(i as int) == entries(list@));
                proof {
                    object_view(*list);
                    object_view(copied);
                }
                RegoValue::Object(copied)
            },
            RegoValue::Undefined => RegoValue::Undefined,
        }
    }
}

/// Copies values.
pub fn copy_values(items: &Vec<RegoValue>) -> (r: Vec<RegoValue>)
    ensures
        values(r@) == values(items@),
{
    let ghost all = values(items@);
    let mut r: Vec<RegoValue> = Vec::new();
    let mut i: usize = 0;
    while i < items.len()
        invariant
            i <= items@.len(),
            all == values(items@),
            values(r@) == all.take(i as int),
        decreases items@.len() - i,
    {
        let ghost before = values(r@);
        let item = items[i].copy();
        r.push(item);
        assert(values(r@) == before.push(item@));
        assert(all.take(i + 1) == before.push(item@));
        i += 1;
    }
    assert(all.take(i as int) == all);
    r
}

/// Sets a value under a text key of an object.
pub fn set_field(list: &mut Vec<(RegoValue, RegoValue)>, key: &str, value: RegoValue)
    ensures
        entries(final(list)@) == with_entry(entries(old(list)@), key@, value@),
{
    let at = position_of(list, key);
    let ghost before = entries(list@);
    let name = RegoValue::Text(key.to_string());
    if at < list.len() {
        list.set(at, (name, value));
        assert(entries(list@) == before.update(at as int, (Rego::Text(key@), value@)));
    } else {
        list.push((name, value));
        assert(entries(list@) == before.push((Rego::Text(key@), value@)));
    }
}

} // verus!
