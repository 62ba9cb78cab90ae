//! What is found in a document.

use vstd::prelude::*;

use crate::dict;
use crate::dict::Dict;
use crate::json;
use crate::json::{Integer, JsonView};

verus! {

/// The list that an output holds under a name; none is held where the member is
/// no array.
pub open spec fn list_at(raw: JsonView, name: Seq<char>) -> Seq<JsonView> {
    match raw.field(name) {
        Some(JsonView::Array(s)) => s,
        _ => Seq::empty(),
    }
}

/// The string in a member.
pub open spec fn string_at(v: JsonView, name: Seq<char>) -> Option<Seq<char>> {
    match v.field(name) {
        Some(JsonView::Text(s)) => Some(s),
        _ => None,
    }
}

/// In an object the first member of a name is the one that is found.
pub proof fn lemma_field_found(members: Seq<(Seq<char>, JsonView)>, i: int)
    requires
        0 <= i < members.len(),
        forall|j: int| 0 <= j < i ==> (#[trigger] members[j]).0 != members[i].0,
    ensures
        JsonView::Object(members).field(members[i].0) == Some(members[i].1),
    decreases i,
{
    if i > 0 {
        let rest = members.drop_first();
        assert(members[0].0 != members[i].0);
        assert forall|j: int| 0 <= j < i - 1 implies (#[trigger] rest[j]).0 != rest[i - 1].0 by {
            assert(rest[j] == members[j + 1]);
        }
        lemma_field_found(rest, i - 1);
    }
}

/// Nothing is found under a name that no member has, nor in what is no object.
pub proof fn lemma_field_absent(v: JsonView, name: Seq<char>)
    requires
        v matches JsonView::Object(members) ==> forall|j: int|
            0 <= j < members.len() ==> (#[trigger] members[j]).0 != name,
    ensures
        v.field(name) is None,
    decreases v,
{
    if let JsonView::Object(members) = v {
        lemma_member_absent(members, name);
    }
}

proof fn lemma_member_absent(members: Seq<(Seq<char>, JsonView)>, name: Seq<char>)
    requires
        forall|j: int| 0 <= j < members.len() ==> (#[trigger] members[j]).0 != name,
    ensures
        json::member(members, name) is None,
    decreases members.len(),
{
    if members.len() > 0 {
        assert(members[0].0 != name);
        let rest = members.drop_first();
        assert forall|j: int| 0 <= j < rest.len() implies (#[trigger] rest[j]).0 != name by {
            assert(rest[j] == members[j + 1]);
        }
        lemma_member_absent(rest, name);
    }
}

/// What a member is read as depends on what it is: a string as text, a number
/// by its integer and its double, a truth value as such, an array by its
/// elements; anything else is not read as these.
pub proof fn lemma_read_as(v: JsonView, name: Seq<char>, found: JsonView)
    requires
        v.field(name) == Some(found),
    ensures
        match found {
            JsonView::Text(s) => v.text_at(name) == Some(s),
            _ => v.text_at(name) is None,
        },
        match found {
            JsonView::Bool(b) => v.truth_at(name) == Some(b),
            _ => v.truth_at(name) is None,
        },
        match found {
            JsonView::Array(s) => v.elements_at(name) == Some(s),
            _ => v.elements_at(name) is None,
        },
        match found {
            JsonView::Number(n) => v.double_at(name) == Some(n.double),
            _ => v.double_at(name) is None,
        },
        match found {
            JsonView::Number(n) => match n.integer {
                Integer::Unsigned(u) => v.unsigned_at(name) == Some(u) && (u <= i64::MAX ==> (
                v.signed_at(name) matches Some(i) && i == u)) && (u > i64::MAX ==> v.signed_at(
                    name,
                ) is None),
                Integer::Negative(i) => v.unsigned_at(name) is None && v.signed_at(name) == Some(
                    i,
                ),
                Integer::No => v.unsigned_at(name) is None && v.signed_at(name) is None,
            },
            _ => v.unsigned_at(name) is None && v.signed_at(name) is None,
        },
{
}

/// What a value is read as depends on what it is.
pub proof fn lemma_value_read_as(v: JsonView)
    ensures
        v.text() == match v {
            JsonView::Text(s) => Some(s),
            _ => None,
        },
        v.truth() == match v {
            JsonView::Bool(b) => Some(b),
            _ => None,
        },
        v.elements() == match v {
            JsonView::Array(s) => Some(s),
            _ => None,
        },
        v.double() == match v {
            JsonView::Number(n) => Some(n.double),
            _ => None,
        },
        match v {
            JsonView::Number(n) => match n.integer {
                Integer::Unsigned(u) => v.unsigned() == Some(u) && (u <= i64::MAX ==> (
                v.signed() matches Some(i) && i == u)) && (u > i64::MAX ==> v.signed() is None),
                Integer::Negative(i) => v.unsigned() is None && v.signed() == Some(i),
                Integer::No => v.unsigned() is None && v.signed() is None,
            },
            _ => v.unsigned() is None && v.signed() is None,
        },
{
}

/// What is not there is not read as anything.
pub proof fn lemma_read_as_nothing(v: JsonView, name: Seq<char>)
    requires
        v.field(name) is None,
    ensures
        v.text_at(name) is None && v.truth_at(name) is None && v.elements_at(name) is None
            && v.double_at(name) is None && v.unsigned_at(name) is None && v.signed_at(
            name,
        ) is None,
{
}

/// A name is shown as the map says, and as itself where the map says nothing
/// of it or where there is no map.
pub proof fn lemma_shown(d: Dict<String>, name: Seq<char>)
    ensures
        d@.contains_key(name) ==> dict::shown(dict::display_names(Some(&d)), name) == d@[name]@,
        !d@.contains_key(name) ==> dict::shown(dict::display_names(Some(&d)), name) == name,
        dict::shown(dict::display_names(None), name) == name,
{
}

} // verus!
