//! Decoding JSON values into typed values.
//!
//! A type that can be decoded says, as a spec function on JSON values, which
//! values it accepts and what each of them decodes to. Decoding is all or
//! nothing: a value that the type does not accept decodes to nothing, never to
//! a value with parts missing.

use vstd::prelude::*;
use crate::decimal::{parse_u32, spec_parse_u32};
use crate::json::{items_view, lemma_array_view, lemma_object_view, members_view};
use crate::json::{Json, JsonValue};
use crate::text::str_same;

verus! {

/// The value of the member called `name`. Where several members have that
/// name, the one written last counts.
pub open spec fn member_of(members: Seq<(Seq<char>, JsonValue)>, name: Seq<char>) -> Option<
    JsonValue,
>
    decreases members.len(),
{
    if members.len() == 0 {
        None
    } else if members.last().0 == name {
        Some(members.last().1)
    } else {
        member_of(members.drop_last(), name)
    }
}

/// The member called `name` of `value`, which an object alone can have.
pub open spec fn field_of(value: JsonValue, name: Seq<char>) -> Option<JsonValue> {
    match value {
        JsonValue::Object(members) => member_of(members, name),
        _ => None,
    }
}

/// A JSON value that may have been found, as the grammar sees it.
pub open spec fn found_json(r: Option<&Json>) -> Option<JsonValue> {
    match r {
        Some(json) => Some(json@),
        None => None,
    }
}

/// A type whose values can be decoded from JSON values.
pub trait FromJson: Sized {
    /// The mathematical model of a value of this type.
    type Model;

    /// The model of this value.
    spec fn model(&self) -> Self::Model;

    /// What `value` decodes to, where this type accepts it.
    spec fn decoded(value: JsonValue) -> Option<Self::Model>;

    /// Decodes `json`, or gives nothing where this type does not accept it.
    fn from_json(json: &Json) -> (r: Option<Self>)
        ensures
            match r {
                Some(value) => Self::decoded(json@) == Some(value.model()),
                None => Self::decoded(json@) is None,
            },
    ;
}

/// The model of a value that may have been decoded.
pub open spec fn model_of<T: FromJson>(r: Option<T>) -> Option<T::Model> {
    match r {
        Some(value) => Some(value.model()),
        None => None,
    }
}

/// What the member called `name` of `value` decodes to.
pub open spec fn field<T: FromJson>(value: JsonValue, name: Seq<char>) -> Option<T::Model> {
    match field_of(value, name) {
        Some(member) => T::decoded(member),
        None => None,
    }
}

impl Json {
    /// The member called `name`, where this value is an object that has one;
    /// of several with that name, the one written last.
    pub fn get(&self, name: &str) -> (r: Option<&Json>)
        ensures
            found_json(r) == field_of(self@, name@),
    {
        match self {
            Json::Object(members) => {
                proof {
                    lemma_object_view(*members);
                }
                let ghost all = members_view(members@);
                let mut i: usize = members.len();
                assert(all.take(i as int) =~= all);
                while i > 0
                    invariant
                        i <= members.len(),
                        all == members_view(members@),
                        self@ == JsonValue::Object(all),
                        member_of(all, name@) == member_of(all.take(i as int), name@),
                    decreases i,
                {
                    i = i - 1;
                    proof {
                        assert(all.take(i + 1).drop_last() =~= all.take(i as int));
                        assert(all.take(i + 1).last() == members[i as int]@);
                    }
                    if str_same(members[i].name.as_str(), name) {
                        return Some(&members[i].value);
                    }
                }
                None
            },
            _ => None,
        }
    }
}

/// Decodes the member called `name` of `json`, or gives nothing where `json`
/// has no such member or `T` does not accept it.
pub fn read_field<T: FromJson>(json: &Json, name: &str) -> (r: Option<T>)
    ensures
        model_of(r) == field::<T>(json@, name@),
{
    match json.get(name) {
        Some(member) => T::from_json(member),
        None => None,
    }
}

impl FromJson for bool {
    type Model = bool;

    open spec fn model(&self) -> bool {
        *self
    }

    /// A JSON `true` or `false`, and nothing else.
    open spec fn decoded(value: JsonValue) -> Option<bool> {
        match value {
            JsonValue::Bool(b) => Some(b),
            _ => None,
        }
    }

    fn from_json(json: &Json) -> (r: Option<bool>) {
        match json {
            Json::Bool(b) => Some(*b),
            _ => None,
        }
    }
}

impl FromJson for u32 {
    type Model = u32;

    open spec fn model(&self) -> u32 {
        *self
    }

    /// A JSON number written with digits alone, no sign, fraction or
    /// exponent, that is at most `u32::MAX`.
    open spec fn decoded(value: JsonValue) -> Option<u32> {
        match value {
            JsonValue::Number(digits) => spec_parse_u32(digits),
            _ => None,
        }
    }

    fn from_json(json: &Json) -> (r: Option<u32>) {
        match json {
            Json::Number(digits) => parse_u32(digits.as_str()),
            _ => None,
        }
    }
}

impl FromJson for String {
    type Model = Seq<char>;

    open spec fn model(&self) -> Seq<char> {
        self@
    }

    /// A JSON string, and nothing else.
    open spec fn decoded(value: JsonValue) -> Option<Seq<char>> {
        match value {
            JsonValue::Str(text) => Some(text),
            _ => None,
        }
    }

    fn from_json(json: &Json) -> (r: Option<String>) {
        match json {
            Json::Str(text) => Some(text.clone()),
            _ => None,
        }
    }
}

/// Whether `T` accepts every one of `items`.
pub open spec fn all_decode<T: FromJson>(items: Seq<JsonValue>) -> bool {
    forall|i: int| 0 <= i < items.len() ==> (#[trigger] T::decoded(items[i])) is Some
}

/// What `items` decode to, item by item and in their order.
pub open spec fn decoded_items<T: FromJson>(items: Seq<JsonValue>) -> Seq<T::Model> {
    Seq::new(items.len(), |i: int| T::decoded(items[i])->0)
}

/// The models of `items`, item by item and in their order.
pub open spec fn models<T: FromJson>(items: Seq<T>) -> Seq<T::Model> {
    Seq::new(items.len(), |i: int| items[i].model())
}

impl<T: FromJson> FromJson for Vec<T> {
    type Model = Seq<T::Model>;

    open spec fn model(&self) -> Seq<T::Model> {
        models(self@)
    }

    /// A JSON array of which `T` accepts every item: as many items, each
    /// decoded, in the same order.
    open spec fn decoded(value: JsonValue) -> Option<Seq<T::Model>> {
        match value {
            JsonValue::Array(items) => if all_decode::<T>(items) {
                Some(decoded_items::<T>(items))
            } else {
                None
            },
            _ => None,
        }
    }

    fn from_json(json: &Json) -> (r: Option<Vec<T>>) {
        match json {
            Json::Array(items) => {
                proof {
                    lemma_array_view(*items);
                }
                let ghost all = items_view(items@);
                let mut out: Vec<T> = Vec::new();
                let mut i: usize = 0;
                while i < items.len()
                    invariant
                        i <= items.len(),
                        all == items_view(items@),
                        json@ == JsonValue::Array(all),
                        out.len() == i,
                        forall|k: int|
                            0 <= k < i ==> (#[trigger] T::decoded(all[k])) == Some(out[k].model()),
                    decreases items.len() - i,
                {
                    match T::from_json(&items[i]) {
                        Some(item) => {
                            out.push(item);
                        },
                        None => {
                            assert(T::decoded(all[i as int]) is None);
                            return None;
                        },
                    }
                    i = i + 1;
                }
                assert(all_decode::<T>(all));
                assert(models(out@) =~= decoded_items::<T>(all));
                Some(out)
            },
            _ => None,
        }
    }
}

} // verus!
