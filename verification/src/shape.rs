//! Answers as trees of plain data, ready to be written as JSON.

use vstd::prelude::*;

use crate::json::{Double, Json, JsonView};
use crate::text;

verus! {

/// An answer, or a part of one.
#[derive(Debug)]
pub enum Shape {
    Null,
    Flag(bool),
    Count(u64),
    Signed(i64),
    Real(Double),
    Text(String),
    List(Vec<Shape>),
    /// Members in the order in which they are written.
    Record(Vec<(String, Shape)>),
    /// A document that is handed on as it is.
    Raw(Json),
}

/// What an answer says.
pub enum ShapeModel {
    Null,
    Flag(bool),
    Count(u64),
    Signed(i64),
    Real(Double),
    Text(Seq<char>),
    List(Seq<ShapeModel>),
    Record(Seq<(Seq<char>, ShapeModel)>),
    Raw(JsonView),
}

/// The members of a record.
pub type Members = Seq<(Seq<char>, ShapeModel)>;

/// What an answer says.
pub open spec fn telling(s: Shape) -> ShapeModel
    decreases s,
{
    match s {
        Shape::Null => ShapeModel::Null,
        Shape::Flag(b) => ShapeModel::Flag(b),
        Shape::Count(n) => ShapeModel::Count(n),
        Shape::Signed(n) => ShapeModel::Signed(n),
        Shape::Real(d) => ShapeModel::Real(d),
        Shape::Text(t) => ShapeModel::Text(t@),
        Shape::List(v) => ShapeModel::List(
            Seq::new(
                v@.len(),
                |i: int|
                    if 0 <= i < v@.len() {
                        telling(v@[i])
                    } else {
                        arbitrary()
                    },
            ),
        ),
        Shape::Record(m) => ShapeModel::Record(
            Seq::new(
                m@.len(),
                |i: int|
                    if 0 <= i < m@.len() {
                        (m@[i].0@, telling(m@[i].1))
                    } else {
                        arbitrary()
                    },
            ),
        ),
        Shape::Raw(j) => ShapeModel::Raw(j@),
    }
}

impl View for Shape {
    type V = ShapeModel;

    open spec fn view(&self) -> ShapeModel {
        telling(*self)
    }
}

/// What each answer of a list says.
pub open spec fn models(list: Seq<Shape>) -> Seq<ShapeModel> {
    Seq::new(list.len(), |i: int| list[i]@)
}

/// What a list of members says.
pub open spec fn member_models(members: Seq<(String, Shape)>) -> Members {
    Seq::new(members.len(), |i: int| (members[i].0@, members[i].1@))
}

/// A list says what its elements say, a record what its members say.
pub broadcast proof fn lemma_shape_view(s: Shape)
    ensures
        #![trigger s.view()]
        s matches Shape::List(v) ==> s@ == ShapeModel::List(models(v@)),
        s matches Shape::Record(m) ==> s@ == ShapeModel::Record(member_models(m@)),
{
    reveal_with_fuel(telling, 2);
    if let Shape::List(v) = s {
        assert(s@->List_0 =~= models(v@));
    }
    if let Shape::Record(m) = s {
        assert(s@->Record_0 =~= member_models(m@));
    }
}

/// A member that is left out where there is no value for it.
pub open spec fn optional(name: Seq<char>, value: Option<ShapeModel>) -> Members {
    match value {
        Some(v) => seq![(name, v)],
        None => Seq::empty(),
    }
}

/// The text that an answer may hold.
pub open spec fn text_model(t: Option<Seq<char>>) -> Option<ShapeModel> {
    match t {
        Some(s) => Some(ShapeModel::Text(s)),
        None => None,
    }
}

/// The number that an answer may hold.
pub open spec fn count_model(n: Option<u64>) -> Option<ShapeModel> {
    match n {
        Some(n) => Some(ShapeModel::Count(n)),
        None => None,
    }
}

/// The double that an answer may hold.
pub open spec fn real_model(d: Option<Double>) -> Option<ShapeModel> {
    match d {
        Some(d) => Some(ShapeModel::Real(d)),
        None => None,
    }
}

/// A value that is written as `null` where there is none.
pub open spec fn or_null(value: Option<ShapeModel>) -> ShapeModel {
    match value {
        Some(v) => v,
        None => ShapeModel::Null,
    }
}

/// What an answer that may be missing says.
pub open spec fn given(s: Option<Shape>) -> Option<ShapeModel> {
    match s {
        Some(s) => Some(s@),
        None => None,
    }
}

/// A record that is being written.
#[derive(Debug)]
pub struct Fields {
    members: Vec<(String, Shape)>,
}

impl View for Fields {
    type V = Members;

    closed spec fn view(&self) -> Members {
        member_models(self.members@)
    }
}

impl Fields {
    /// A record without members.
    pub fn new() -> (f: Fields)
        ensures
            f@ == Members::empty(),
    {
        let f = Fields { members: Vec::new() };
        assert(f@ =~= Members::empty());
        f
    }

    /// Adds a member.
    pub fn put(&mut self, name: &str, value: Shape)
        ensures
            final(self)@ == old(self)@.push((name@, value@)),
    {
        let ghost before = self.members@;
        let ghost v = value@;
        self.members.push((name.to_owned(), value));
        assert(self@ =~= member_models(before).push((name@, v)));
    }

    /// Adds a member where there is a value for it.
    pub fn put_some(&mut self, name: &str, value: Option<Shape>)
        ensures
            final(self)@ == old(self)@ + optional(name@, given(value)),
    {
        let ghost before = self@;
        match value {
            Some(v) => {
                let ghost m = v@;
                self.put(name, v);
                assert(self@ =~= before + seq![(name@, m)]);
            },
            None => {
                assert(before + Members::empty() =~= before);
            },
        }
    }

    /// Adds a text.
    pub fn put_text(&mut self, name: &str, value: &str)
        ensures
            final(self)@ == old(self)@.push((name@, ShapeModel::Text(value@))),
    {
        self.put(name, Shape::Text(value.to_owned()));
    }

    /// Adds a truth value.
    pub fn put_flag(&mut self, name: &str, value: bool)
        ensures
            final(self)@ == old(self)@.push((name@, ShapeModel::Flag(value))),
    {
        self.put(name, Shape::Flag(value));
    }

    /// Adds the members of another record.
    pub fn put_all(&mut self, other: Fields)
        ensures
            final(self)@ == old(self)@ + other@,
    {
        let ghost before = self.members@;
        let ghost more = other.members@;
        let mut rest = other.members;
        self.members.append(&mut rest);
        assert(self@ =~= member_models(before) + member_models(more));
    }

    /// The record.
    pub fn finish(self) -> (s: Shape)
        ensures
            s@ == ShapeModel::Record(self@),
    {
        broadcast use lemma_shape_view;

        Shape::Record(self.members)
    }
}

/// The text, where there is one.
pub fn text_of(t: &Option<String>) -> (r: Option<Shape>)
    ensures
        given(r) == text_model(text::held(*t)),
{
    match t {
        Some(s) => Some(Shape::Text(s.clone())),
        None => None,
    }
}

/// The number, where there is one.
pub fn count_of(n: Option<u64>) -> (r: Option<Shape>)
    ensures
        given(r) == count_model(n),
{
    match n {
        Some(n) => Some(Shape::Count(n)),
        None => None,
    }
}

/// The double, where there is one.
pub fn real_of(d: Option<Double>) -> (r: Option<Shape>)
    ensures
        given(r) == real_model(d),
{
    match d {
        Some(d) => Some(Shape::Real(d)),
        None => None,
    }
}

/// The value, or `null`.
pub fn null_or(s: Option<Shape>) -> (r: Shape)
    ensures
        r@ == or_null(given(s)),
{
    match s {
        Some(s) => s,
        None => Shape::Null,
    }
}

/// What a list of texts says as a list.
pub open spec fn texts_model(list: Seq<Seq<char>>) -> ShapeModel {
    ShapeModel::List(list.map_values(|t: Seq<char>| ShapeModel::Text(t)))
}

/// A list of texts.
pub fn texts_of(list: &Vec<String>) -> (r: Shape)
    ensures
        r@ == texts_model(text::texts(list@)),
{
    broadcast use lemma_shape_view;

    let ghost all = text::texts(list@).map_values(|t: Seq<char>| ShapeModel::Text(t));
    let mut out: Vec<Shape> = Vec::new();
    let mut i: usize = 0;
    while i < list.len()
        invariant
            i <= list.len(),
            all == text::texts(list@).map_values(|t: Seq<char>| ShapeModel::Text(t)),
            models(out@) == all.take(i as int),
        decreases list.len() - i,
    {
        let ghost done = out@;
        out.push(Shape::Text(list[i].clone()));
        assert(models(out@) =~= models(done).push(all[i as int]));
        assert(all.take(i + 1) =~= all.take(i as int).push(all[i as int]));
        i += 1;
    }
    assert(all.take(all.len() as int) =~= all);
    Shape::List(out)
}

} // verus!
