//! JSON values as plain data.

use vstd::prelude::*;

use crate::text;

verus! {

/// A double, as its bits. The library moves doubles from place to place and
/// never computes with them.
#[derive(Debug, Clone, Copy, PartialEq, Eq, Structural)]
pub struct Double {
    pub bits: u64,
}

/// The integer that a number is, if it is one.
#[derive(Debug, Clone, Copy, PartialEq, Eq, Structural)]
pub enum Integer {
    /// An integer that is not negative.
    Unsigned(u64),
    /// A negative integer.
    Negative(i64),
    /// No integer.
    No,
}

/// A JSON number: the integer that it is, if it is one, and the double that
/// stands for it.
#[derive(Debug, Clone, Copy, PartialEq, Eq, Structural)]
pub struct Numeral {
    pub integer: Integer,
    pub double: Double,
}

impl Numeral {
    /// The number as an unsigned integer, where it is one.
    pub open spec fn unsigned(self) -> Option<u64> {
        match self.integer {
            Integer::Unsigned(u) => Some(u),
            _ => None,
        }
    }

    /// The number as a signed integer, where it is one that fits.
    pub open spec fn signed(self) -> Option<i64> {
        match self.integer {
            Integer::Unsigned(u) => if u <= i64::MAX {
                Some(u as i64)
            } else {
                None
            },
            Integer::Negative(i) => Some(i),
            Integer::No => None,
        }
    }

    /// The number as an unsigned integer, where it is one.
    pub fn as_u64(&self) -> (r: Option<u64>)
        ensures
            r == self.unsigned(),
    {
        match self.integer {
            Integer::Unsigned(u) => Some(u),
            _ => None,
        }
    }

    /// The number as a signed integer, where it is one that fits.
    pub fn as_i64(&self) -> (r: Option<i64>)
        ensures
            r == self.signed(),
    {
        match self.integer {
            Integer::Unsigned(u) => if u <= i64::MAX as u64 {
                Some(u as i64)
            } else {
                None
            },
            Integer::Negative(i) => Some(i),
            Integer::No => None,
        }
    }
}

/// A JSON value.
#[derive(Debug)]
pub enum Json {
    Null,
    Bool(bool),
    Number(Numeral),
    Text(String),
    Array(Vec<Json>),
    /// The members in order. Where a name occurs more than once the first
    /// member of that name counts.
    Object(Vec<(String, Json)>),
}

/// What a JSON value says.
pub enum JsonView {
    Null,
    Bool(bool),
    Number(Numeral),
    Text(Seq<char>),
    Array(Seq<JsonView>),
    Object(Seq<(Seq<char>, JsonView)>),
}

/// The first member of that name.
pub open spec fn member(members: Seq<(Seq<char>, JsonView)>, name: Seq<char>) -> Option<JsonView>
    decreases members.len(),
{
    if members.len() == 0 {
        None
    } else if members.first().0 == name {
        Some(members.first().1)
    } else {
        member(members.drop_first(), name)
    }
}

impl JsonView {
    /// The member of that name, where the value is an object that has one.
    pub open spec fn field(self, name: Seq<char>) -> Option<JsonView> {
        match self {
            JsonView::Object(members) => member(members, name),
            _ => None,
        }
    }

    /// The characters, where the value is a string.
    pub open spec fn text(self) -> Option<Seq<char>> {
        match self {
            JsonView::Text(s) => Some(s),
            _ => None,
        }
    }

    /// The double that stands for the value, where it is a number.
    pub open spec fn double(self) -> Option<Double> {
        match self {
            JsonView::Number(n) => Some(n.double),
            _ => None,
        }
    }

    /// The value as an unsigned integer, where it is one.
    pub open spec fn unsigned(self) -> Option<u64> {
        match self {
            JsonView::Number(n) => n.unsigned(),
            _ => None,
        }
    }

    /// The value as a signed integer, where it is one.
    pub open spec fn signed(self) -> Option<i64> {
        match self {
            JsonView::Number(n) => n.signed(),
            _ => None,
        }
    }

    /// The truth value, where the value is one.
    pub open spec fn truth(self) -> Option<bool> {
        match self {
            JsonView::Bool(b) => Some(b),
            _ => None,
        }
    }

    /// The elements, where the value is an array.
    pub open spec fn elements(self) -> Option<Seq<JsonView>> {
        match self {
            JsonView::Array(s) => Some(s),
            _ => None,
        }
    }

    /// The string that the member of that name holds.
    pub open spec fn text_at(self, name: Seq<char>) -> Option<Seq<char>> {
        match self.field(name) {
            Some(v) => v.text(),
            None => None,
        }
    }

    /// The unsigned integer that the member of that name holds.
    pub open spec fn unsigned_at(self, name: Seq<char>) -> Option<u64> {
        match self.field(name) {
            Some(v) => v.unsigned(),
            None => None,
        }
    }

    /// The signed integer that the member of that name holds.
    pub open spec fn signed_at(self, name: Seq<char>) -> Option<i64> {
        match self.field(name) {
            Some(v) => v.signed(),
            None => None,
        }
    }

    /// The double that stands for the number that the member of that name
    /// holds.
    pub open spec fn double_at(self, name: Seq<char>) -> Option<Double> {
        match self.field(name) {
            Some(v) => v.double(),
            None => None,
        }
    }

    /// The truth value that the member of that name holds.
    pub open spec fn truth_at(self, name: Seq<char>) -> Option<bool> {
        match self.field(name) {
            Some(v) => v.truth(),
            None => None,
        }
    }

    /// The elements of the array that the member of that name holds.
    pub open spec fn elements_at(self, name: Seq<char>) -> Option<Seq<JsonView>> {
        match self.field(name) {
            Some(v) => v.elements(),
            None => None,
        }
    }
}

/// What a JSON value says.
pub open spec fn saying(j: Json) -> JsonView
    decreases j,
{
    match j {
        Json::Null => JsonView::Null,
        Json::Bool(b) => JsonView::Bool(b),
        Json::Number(n) => JsonView::Number(n),
        Json::Text(s) => JsonView::Text(s@),
        Json::Array(v) => JsonView::Array(
            Seq::new(
                v@.len(),
                |i: int|
                    if 0 <= i < v@.len() {
                        saying(v@[i])
                    } else {
                        arbitrary()
                    },
            ),
        ),
        Json::Object(m) => JsonView::Object(
            Seq::new(
                m@.len(),
                |i: int|
                    if 0 <= i < m@.len() {
                        (m@[i].0@, saying(m@[i].1))
                    } else {
                        arbitrary()
                    },
            ),
        ),
    }
}

impl View for Json {
    type V = JsonView;

    open spec fn view(&self) -> JsonView {
        saying(*self)
    }
}

/// What a borrowed value says, where there is one.
pub open spec fn said(r: Option<&Json>) -> Option<JsonView> {
    match r {
        Some(j) => Some(j@),
        None => None,
    }
}

/// What a value says, where there is one.
pub open spec fn stated(r: Option<Json>) -> Option<JsonView> {
    match r {
        Some(j) => Some(j@),
        None => None,
    }
}

/// What each value of a list says.
pub open spec fn views(values: Seq<Json>) -> Seq<JsonView> {
    Seq::new(values.len(), |i: int| values[i]@)
}

/// What a list of members says.
pub open spec fn member_views(members: Seq<(String, Json)>) -> Seq<(Seq<char>, JsonView)> {
    Seq::new(members.len(), |i: int| (members[i].0@, members[i].1@))
}

/// An array says what its elements say, an object what its members say.
pub broadcast proof fn lemma_json_view(j: Json)
    ensures
        #![trigger j.view()]
        j matches Json::Array(v) ==> j@ == JsonView::Array(views(v@)),
        j matches Json::Object(m) ==> j@ == JsonView::Object(member_views(m@)),
{
    reveal_with_fuel(saying, 2);
    if let Json::Array(v) = j {
        assert(j@->Array_0 =~= views(v@));
    }
    if let Json::Object(m) = j {
        assert(j@->Object_0 =~= member_views(m@));
    }
}

/// A member is smaller than the object it is a member of.
pub proof fn lemma_member_smaller(members: Seq<(Seq<char>, JsonView)>, name: Seq<char>)
    ensures
        member(members, name) matches Some(v) ==> decreases_to!(
            JsonView::Object(members) => v
        ),
{
    lemma_member_at(members, name);
    if let Some(v) = member(members, name) {
        let i = choose|i: int| 0 <= i < members.len() && members[i].1 == v;
        let whole = JsonView::Object(members);
        assert(decreases_to!(whole => whole->Object_0));
        assert(decreases_to!(members => members[i]));
        assert(decreases_to!(members[i] => members[i].1));
    }
}

proof fn lemma_member_at(members: Seq<(Seq<char>, JsonView)>, name: Seq<char>)
    ensures
        member(members, name) matches Some(v) ==> exists|i: int|
            0 <= i < members.len() && members[i].1 == v,
    decreases members.len(),
{
    if members.len() > 0 {
        if members.first().0 == name {
            assert(members[0].1 == member(members, name)->0);
        } else {
            lemma_member_at(members.drop_first(), name);
            if let Some(v) = member(members.drop_first(), name) {
                let i = choose|i: int|
                    0 <= i < members.drop_first().len() && members.drop_first()[i].1 == v;
                assert(members[i + 1].1 == v);
            }
        }
    }
}

impl Json {
    /// The member of that name, where the value is an object that has one.
    pub fn get(&self, name: &str) -> (r: Option<&Json>)
        ensures
            said(r) == self@.field(name@),
    {
        broadcast use lemma_json_view;

        match self {
            Json::Object(members) => {
                let ghost all = member_views(members@);
                let mut i: usize = 0;
                assert(all.skip(0) =~= all);
                while i < members.len()
                    invariant
                        i <= members.len(),
                        all == member_views(members@),
                        self@ == JsonView::Object(all),
                        member(all, name@) == member(all.skip(i as int), name@),
                    decreases members.len() - i,
                {
                    assert(all.skip(i as int).first() == all[i as int]);
                    assert(all.skip(i as int).drop_first() =~= all.skip(i + 1));
                    if text::same(members[i].0.as_str(), name) {
                        return Some(&members[i].1);
                    }
                    i += 1;
                }
                None
            },
            _ => None,
        }
    }

    /// The characters, where the value is a string.
    pub fn as_str(&self) -> (r: Option<&str>)
        ensures
            text::read(r) == self@.text(),
    {
        match self {
            Json::Text(s) => Some(s.as_str()),
            _ => None,
        }
    }

    /// The string that the member of that name holds.
    pub fn str_at(&self, name: &str) -> (r: Option<&str>)
        ensures
            text::read(r) == self@.text_at(name@),
    {
        match self.get(name) {
            Some(v) => v.as_str(),
            None => None,
        }
    }

    /// The unsigned integer that the member of that name holds.
    pub fn u64_at(&self, name: &str) -> (r: Option<u64>)
        ensures
            r == self@.unsigned_at(name@),
    {
        match self.get(name) {
            Some(Json::Number(n)) => n.as_u64(),
            _ => None,
        }
    }

    /// The signed integer that the member of that name holds.
    pub fn i64_at(&self, name: &str) -> (r: Option<i64>)
        ensures
            r == self@.signed_at(name@),
    {
        match self.get(name) {
            Some(Json::Number(n)) => n.as_i64(),
            _ => None,
        }
    }

    /// The double that stands for the number that the member of that name
    /// holds.
    pub fn f64_at(&self, name: &str) -> (r: Option<Double>)
        ensures
            r == self@.double_at(name@),
    {
        match self.get(name) {
            Some(Json::Number(n)) => Some(n.double),
            _ => None,
        }
    }

    /// The truth value that the member of that name holds.
    pub fn bool_at(&self, name: &str) -> (r: Option<bool>)
        ensures
            r == self@.truth_at(name@),
    {
        match self.get(name) {
            Some(Json::Bool(b)) => Some(*b),
            _ => None,
        }
    }

    /// The elements of the array that the member of that name holds.
    pub fn array_at(&self, name: &str) -> (r: Option<&Vec<Json>>)
        ensures
            match r {
                Some(v) => self@.elements_at(name@) == Some(views(v@)),
                None => self@.elements_at(name@) is None,
            },
    {
        broadcast use lemma_json_view;

        match self.get(name) {
            Some(Json::Array(v)) => Some(v),
            _ => None,
        }
    }
}

impl Clone for Json {
    fn clone(&self) -> (r: Self)
        ensures
            r@ == self@,
        decreases self,
    {
        broadcast use lemma_json_view;

        match self {
            Json::Null => Json::Null,
            Json::Bool(b) => Json::Bool(*b),
            Json::Number(n) => Json::Number(*n),
            Json::Text(s) => Json::Text(s.clone()),
            Json::Array(v) => {
                let mut copy: Vec<Json> = Vec::new();
                let mut i: usize = 0;
                while i < v.len()
                    invariant
                        i <= v.len(),
                        views(copy@) == views(v@).take(i as int),
                        *self == Json::Array(*v),
                    decreases v.len() - i,
                {
                    let ghost done = copy@;
                    assert(decreases_to!(*self => self->Array_0));
                    assert(decreases_to!(*v => v@[i as int]));
                    assert(decreases_to!(*self => v@[i as int]));
                    copy.push(v[i].clone());
                    assert(views(copy@) =~= views(done).push(v@[i as int]@));
                    assert(views(v@).take(i + 1) =~= views(v@).take(i as int).push(v@[i as int]@));
                    i += 1;
                }
                assert(views(v@).take(v@.len() as int) =~= views(v@));
                Json::Array(copy)
            },
            Json::Object(m) => {
                let mut copy: Vec<(String, Json)> = Vec::new();
                let mut i: usize = 0;
                while i < m.len()
                    invariant
                        i <= m.len(),
                        member_views(copy@) == member_views(m@).take(i as int),
                        *self == Json::Object(*m),
                    decreases m.len() - i,
                {
                    let ghost done = copy@;
                    assert(decreases_to!(*self => self->Object_0));
                    assert(decreases_to!(*m => m@[i as int]));
                    assert(decreases_to!(m@[i as int] => m@[i as int].1));
                    assert(decreases_to!(*self => m@[i as int].1));
                    let ghost entry = (m@[i as int].0@, m@[i as int].1@);
                    copy.push((m[i].0.clone(), m[i].1.clone()));
                    assert(member_views(copy@) =~= member_views(done).push(entry));
                    assert(member_views(m@).take(i + 1) =~= member_views(m@).take(i as int).push(
                        entry,
                    ));
                    i += 1;
                }
                assert(member_views(m@).take(m@.len() as int) =~= member_views(m@));
                Json::Object(copy)
            },
        }
    }
}

} // verus!
