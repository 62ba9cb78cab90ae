//! JSON text in and out, through `serde_json`.
//!
//! Everything that is believed of `serde_json` stands in this file: the opaque
//! types, the names for what its functions return, and one small function for
//! each call.

use vstd::prelude::*;

use crate::json;
use crate::json::{Double, Integer, Json, JsonView, Numeral};

verus! {

/// A parsed JSON document of `serde_json`.
#[verifier::external_type_specification]
#[verifier::external_body]
pub struct ExValue(serde_json::Value);

/// A JSON number of `serde_json`.
#[verifier::external_type_specification]
#[verifier::external_body]
pub struct ExNumber(serde_json::Number);

/// The reason for which `serde_json` refused a text.
#[verifier::external_type_specification]
#[verifier::external_body]
pub struct ExError(serde_json::Error);

/// The tree that a document of `serde_json` holds.
pub uninterp spec fn tree(value: serde_json::Value) -> JsonView;

/// The number that a number of `serde_json` holds.
pub uninterp spec fn number(n: serde_json::Number) -> Numeral;

/// The document that `serde_json::from_str` reads from a text, `None` where it
/// refuses the text.
pub uninterp spec fn document(text: Seq<char>) -> Option<JsonView>;

/// The text that `serde_json` displays for a document.
pub uninterp spec fn displayed(tree: JsonView) -> Seq<char>;

/// One layer of a document: its kind, with what stands directly below it still
/// in the form of `serde_json`.
enum Layer {
    Null,
    Bool(bool),
    Number(serde_json::Number),
    Text(String),
    Array(Vec<serde_json::Value>),
    Object(Vec<(String, serde_json::Value)>),
}

/// The trees of a list of documents.
spec fn trees(values: Seq<serde_json::Value>) -> Seq<JsonView> {
    Seq::new(values.len(), |i: int| tree(values[i]))
}

/// The names and trees of a list of members.
spec fn member_trees(members: Seq<(String, serde_json::Value)>) -> Seq<
    (Seq<char>, JsonView),
> {
    Seq::new(members.len(), |i: int| (members[i].0@, tree(members[i].1)))
}

/// `serde_json::from_str`, read into a `serde_json::Value`: whether the text is
/// accepted, and the document it is read as, depend on the text alone.
#[verifier::external_body]
fn read_value(text: &str) -> (r: Result<serde_json::Value, serde_json::Error>)
    ensures
        match r {
            Ok(v) => document(text@) == Some(tree(v)),
            Err(_) => document(text@) is None,
        },
{
    serde_json::from_str(text)
}

/// The variants of `serde_json::Value`, told apart, with the entries that
/// `serde_json::Map` hands out for an object: the layer says what the tree of
/// the document says at its root.
#[verifier::external_body]
fn open_value(value: serde_json::Value) -> (layer: Layer)
    ensures
        tree(value) == match layer {
            Layer::Null => JsonView::Null,
            Layer::Bool(b) => JsonView::Bool(b),
            Layer::Number(n) => JsonView::Number(number(n)),
            Layer::Text(s) => JsonView::Text(s@),
            Layer::Array(v) => JsonView::Array(trees(v@)),
            Layer::Object(m) => JsonView::Object(member_trees(m@)),
        },
{
    match value {
        serde_json::Value::Null => Layer::Null,
        serde_json::Value::Bool(b) => Layer::Bool(b),
        serde_json::Value::Number(n) => Layer::Number(n),
        serde_json::Value::String(s) => Layer::Text(s),
        serde_json::Value::Array(v) => Layer::Array(v),
        serde_json::Value::Object(m) => Layer::Object(m.into_iter().collect()),
    }
}

/// `serde_json::Number::as_u64` gives an integer that is not negative, and
/// nothing for any other number.
pub assume_specification[ serde_json::Number::as_u64 ](n: &serde_json::Number) -> (r: Option<u64>)
    ensures
        r == number(*n).unsigned(),
;

/// `serde_json::Number::as_i64` gives an integer that fits, and nothing for
/// any other number.
pub assume_specification[ serde_json::Number::as_i64 ](n: &serde_json::Number) -> (r: Option<i64>)
    ensures
        r == number(*n).signed(),
;

/// `serde_json::Number::as_f64`, as the bits of the double: there is one for
/// every number. Which double stands for an integer is not stated.
#[verifier::external_body]
fn double_bits(n: &serde_json::Number) -> (r: Option<u64>)
    ensures
        r == Some(number(*n).double.bits),
{
    match n.as_f64() {
        Some(double) => Some(double.to_bits()),
        None => None,
    }
}

/// The `Display` of `serde_json::Value`: the text depends on the tree alone.
#[verifier::external_body]
fn display_value(value: &serde_json::Value) -> (text: String)
    ensures
        text@ == displayed(tree(*value)),
{
    value.to_string()
}

/// A hexadecimal digit in lower case.
pub open spec fn hex_digit(d: nat) -> char {
    if d < 10 {
        (48 + d) as char
    } else {
        (87 + d) as char
    }
}

/// A character as it stands in a JSON literal.
pub open spec fn escape(c: char) -> Seq<char> {
    if c == '"' || c == '\\' {
        seq!['\\', c]
    } else if c == '\u{8}' {
        seq!['\\', 'b']
    } else if c == '\t' {
        seq!['\\', 't']
    } else if c == '\n' {
        seq!['\\', 'n']
    } else if c == '\u{c}' {
        seq!['\\', 'f']
    } else if c == '\r' {
        seq!['\\', 'r']
    } else if c <= '\u{1f}' {
        seq!['\\', 'u', '0', '0', hex_digit(c as nat / 16), hex_digit(c as nat % 16)]
    } else {
        seq![c]
    }
}

/// The characters of a string as they stand in a JSON literal.
pub open spec fn escaped(s: Seq<char>) -> Seq<char>
    decreases s.len(),
{
    if s.len() == 0 {
        Seq::empty()
    } else {
        escaped(s.drop_last()) + escape(s.last())
    }
}

/// A string as a JSON literal.
pub open spec fn literal(s: Seq<char>) -> Seq<char> {
    seq!['"'] + escaped(s) + seq!['"']
}

/// `serde_json::to_string` on a string: it always succeeds and writes the
/// characters between quotes. A quote, a backslash and a character below U+0020
/// are escaped, every other character stays as it is.
#[verifier::external_body]
fn quote(s: &str) -> (r: Result<String, serde_json::Error>)
    ensures
        match r {
            Ok(t) => t@ == literal(s@),
            Err(_) => false,
        },
{
    serde_json::to_string(s)
}

fn import_number(n: &serde_json::Number) -> (r: Numeral)
    ensures
        r == number(*n),
{
    let integer = match n.as_u64() {
        Some(u) => Integer::Unsigned(u),
        None => match n.as_i64() {
            Some(i) => Integer::Negative(i),
            None => Integer::No,
        },
    };
    let bits: u64 = match double_bits(n) {
        Some(bits) => bits,
        None => 0,
    };
    Numeral { integer, double: Double { bits } }
}

/// A document of `serde_json` as plain data.
pub fn import(value: serde_json::Value) -> (json: Json)
    ensures
        json@ == tree(value),
    decreases tree(value),
{
    broadcast use crate::json::lemma_json_view;

    let ghost whole = tree(value);
    match open_value(value) {
        Layer::Null => Json::Null,
        Layer::Bool(b) => Json::Bool(b),
        Layer::Number(n) => Json::Number(import_number(&n)),
        Layer::Text(s) => Json::Text(s),
        Layer::Array(values) => {
            let ghost all = trees(values@);
            let mut out: Vec<Json> = Vec::new();
            for v in it: values
                invariant
                    it.seq() == values@,
                    all == trees(values@),
                    whole == JsonView::Array(all),
                    whole == tree(value),
                    json::views(out@) == all.take(it.index()),
            {
                let ghost done = out@;
                let ghost i = it.index();
                assert(v == values@[i]);
                assert(decreases_to!(whole => whole->Array_0));
                assert(decreases_to!(all => all[i]));
                let item = import(v);
                out.push(item);
                assert(json::views(out@) =~= json::views(done).push(all[i]));
                assert(all.take(i + 1) =~= all.take(i).push(all[i]));
            }
            assert(all.take(all.len() as int) =~= all);
            Json::Array(out)
        },
        Layer::Object(members) => {
            let ghost all = member_trees(members@);
            let mut out: Vec<(String, Json)> = Vec::new();
            for m in it: members
                invariant
                    it.seq() == members@,
                    all == member_trees(members@),
                    whole == JsonView::Object(all),
                    whole == tree(value),
                    json::member_views(out@) == all.take(it.index()),
            {
                let ghost done = out@;
                let ghost i = it.index();
                assert(m == members@[i]);
                assert(decreases_to!(whole => whole->Object_0));
                assert(decreases_to!(all => all[i]));
                assert(decreases_to!(all[i] => all[i].1));
                let name = m.0;
                let item = import(m.1);
                out.push((name, item));
                assert(json::member_views(out@) =~= json::member_views(done).push(all[i]));
                assert(all.take(i + 1) =~= all.take(i).push(all[i]));
            }
            assert(all.take(all.len() as int) =~= all);
            Json::Object(out)
        },
    }
}

/// The document that a text holds, `None` where the text is no JSON.
pub fn parse(text: &str) -> (r: Option<Json>)
    ensures
        json::stated(r) == document(text@),
{
    match read_value(text) {
        Ok(value) => Some(import(value)),
        Err(_) => None,
    }
}

/// A string as a JSON literal.
pub fn json_str(s: &str) -> (r: String)
    ensures
        r@ == literal(s@),
{
    match quote(s) {
        Ok(t) => t,
        Err(_) => "\"\"".to_owned(),
    }
}

/// A document of `serde_json` as plain data, with the text it is displayed as.
pub fn import_displayed(value: serde_json::Value) -> (r: (Json, String))
    ensures
        r.0@ == tree(value),
        r.1@ == displayed(tree(value)),
{
    let text = display_value(&value);
    (import(value), text)
}

} // verus!
