//! Records in JSON: an object with a member for each field, or a list with an item for each.

use crate::json::{distinct_names, lookup, Json, JsonObject, Tree};
use crate::text::same;
use vstd::prelude::*;

verus! {

/// What an optional borrowed value says.
pub open spec fn ref_view(v: Option<&Json>) -> Option<Tree> {
    match v {
        Some(v) => Some(v@),
        None => None,
    }
}

/// The names of the fields as texts.
pub open spec fn field_names(names: Seq<&'static str>) -> Seq<Seq<char>> {
    names.map_values(|s: &'static str| s@)
}

/// The fields of the record `t`, in the order of `names`; a field that the record leaves out is
/// `None`. There is no record where a member's name occurs twice, where a list has another length,
/// and, if the record is `closed`, where a member has none of the names.
pub open spec fn record(t: Tree, names: Seq<Seq<char>>, closed: bool) -> Option<
    Seq<Option<Tree>>,
> {
    match t {
        Tree::Object(m) => if distinct_names(m) && (closed ==> forall|i: int|
            0 <= i < m.len() ==> names.contains((#[trigger] m[i]).0)) {
            Some(names.map_values(|name: Seq<char>| lookup(m, name)))
        } else {
            None
        },
        Tree::Array(s) => if s.len() == names.len() {
            Some(s.map_values(|t: Tree| Some(t)))
        } else {
            None
        },
        _ => None,
    }
}

/// The value of an optional field, for which `null` stands for nothing.
pub open spec fn nullable(t: Option<Tree>) -> Option<Tree> {
    match t {
        Some(Tree::Null) => None,
        _ => t,
    }
}

/// Whether `name` is one of `names`.
fn is_field(names: &Vec<&'static str>, name: &str) -> (r: bool)
    ensures
        r == field_names(names@).contains(name@),
{
    let mut i: usize = 0;
    while i < names.len()
        invariant
            i <= names@.len(),
            forall|j: int| 0 <= j < i ==> field_names(names@)[j] != name@,
        decreases names@.len() - i,
    {
        if same(names[i], name) {
            assert(field_names(names@)[i as int] == name@);
            return true;
        }
        i = i + 1;
    }
    false
}

/// Whether every member of `o` has one of the names.
fn only_fields(o: &JsonObject, names: &Vec<&'static str>) -> (r: bool)
    ensures
        distinct_names(o@),
        r == forall|i: int|
            0 <= i < o@.len() ==> field_names(names@).contains((#[trigger] o@[i]).0),
{
    let mut i: usize = 0;
    let count: usize = o.len();
    while i < count
        invariant
            i <= count == o@.len(),
            distinct_names(o@),
            forall|j: int| 0 <= j < i ==> field_names(names@).contains((#[trigger] o@[j]).0),
        decreases o@.len() - i,
    {
        if !is_field(names, o.name_at(i)) {
            assert(!field_names(names@).contains(o@[i as int].0));
            return false;
        }
        i = i + 1;
    }
    true
}

/// Reads the fields of a record.
pub fn read_record<'a>(v: &'a Json, names: &Vec<&'static str>, closed: bool) -> (r: Option<
    Vec<Option<&'a Json>>,
>)
    ensures
        match record(v@, field_names(names@), closed) {
            Some(slots) => r matches Some(found) && found@.len() == slots.len() && forall|i: int|
                0 <= i < slots.len() ==> ref_view(#[trigger] found@[i]) == slots[i],
            None => r is None,
        },
{
    broadcast use crate::json::lemma_array;

    match v {
        Json::Object(o) => {
            let known = only_fields(o, names);
            if closed && !known {
                return None;
            }
            let mut found: Vec<Option<&'a Json>> = Vec::new();
            let mut i: usize = 0;
            while i < names.len()
                invariant
                    i <= names@.len(),
                    found@.len() == i,
                    forall|j: int|
                        0 <= j < i ==> ref_view(#[trigger] found@[j]) == lookup(
                            o@,
                            field_names(names@)[j],
                        ),
                decreases names@.len() - i,
            {
                found.push(o.get(names[i]));
                i = i + 1;
            }
            Some(found)
        },
        Json::Array(items) => {
            if items.len() != names.len() {
                return None;
            }
            let mut found: Vec<Option<&'a Json>> = Vec::new();
            let mut i: usize = 0;
            while i < items.len()
                invariant
                    i <= items@.len(),
                    found@.len() == i,
                    forall|j: int| 0 <= j < i ==> ref_view(#[trigger] found@[j]) == Some(items@[j]@),
                decreases items@.len() - i,
            {
                found.push(Some(&items[i]));
                i = i + 1;
            }
            Some(found)
        },
        _ => None,
    }
}

/// Reads an optional field, for which `null` stands for nothing.
pub fn read_nullable(v: Option<&Json>) -> (r: Option<Json>)
    ensures
        match nullable(ref_view(v)) {
            Some(t) => r matches Some(v) && v@ == t,
            None => r is None,
        },
{
    match v {
        Some(v) => if v.is_null() {
            None
        } else {
            Some(v.clone())
        },
        None => None,
    }
}

/// Reads a field that must be a text.
pub fn read_text(v: Option<&Json>) -> (r: Option<String>)
    ensures
        match ref_view(v) {
            Some(Tree::String(s)) => r matches Some(t) && t@ == s,
            _ => r is None,
        },
{
    match v {
        Some(Json::String(s)) => Some(s.clone()),
        _ => None,
    }
}

} // verus!
