//! JSON values as `serde_json` holds them, their text, and values from TOML
//! documents.

use crate::json::{self, Json, JsonValue, Numeral};
use crate::text;
use vstd::prelude::*;

verus! {

/// A number of `serde_json`.
#[verifier::external_type_specification]
#[verifier::external_body]
pub struct ExNumber(serde_json::Number);

/// A value of `serde_json`.
#[verifier::external_type_specification]
#[verifier::external_body]
pub struct ExValue(serde_json::Value);

/// What a number of `serde_json` stands for.
pub uninterp spec fn numeral(n: serde_json::Number) -> Numeral;

/// What a value of `serde_json` stands for.
pub uninterp spec fn meaning(v: serde_json::Value) -> Json;

/// The text that `serde_json` writes for a value.
pub uninterp spec fn json_text(v: Json) -> Seq<char>;

/// The value that `serde_json` reads from a text, if it is the text of one.
pub uninterp spec fn json_parsed(s: Seq<char>) -> Option<Json>;

/// The value that `toml` reads from a document, or what it says of a text that
/// is none.
pub uninterp spec fn toml_parsed(s: Seq<char>) -> Result<Json, Seq<char>>;

/// The text of a number.
pub open spec fn numeral_text(n: Numeral) -> Seq<char> {
    match n {
        Numeral::PosInt(n) => text::decimal(n as nat),
        Numeral::NegInt(n) => if n < 0 {
            "-"@ + text::decimal((-n) as nat)
        } else {
            text::decimal(n as nat)
        },
        Numeral::Float(s) => s,
    }
}

/// `serde_json::Number::clone` gives a number that stands for the same.
pub assume_specification[ <serde_json::Number as Clone>::clone ](n: &serde_json::Number) -> (r:
    serde_json::Number)
    ensures
        numeral(r) == numeral(*n),
;

/// `serde_json::Number::as_u64` gives the number where it is an integer that
/// is not negative.
pub assume_specification[ serde_json::Number::as_u64 ](n: &serde_json::Number) -> (r: Option<u64>)
    ensures
        r == (match numeral(*n) {
            Numeral::PosInt(u) => Some(u),
            _ => None,
        }),
;

/// `serde_json::Number::as_i64` gives the number where it is an integer within
/// the range of `i64`.
pub assume_specification[ serde_json::Number::as_i64 ](n: &serde_json::Number) -> (r: Option<i64>)
    ensures
        r == (match numeral(*n) {
            Numeral::PosInt(u) => if u <= i64::MAX {
                Some(u as i64)
            } else {
                None
            },
            Numeral::NegInt(i) => Some(i),
            Numeral::Float(s) => None,
        }),
;

/// `Display` of `serde_json::Number` writes an integer in decimal digits, with
/// a minus sign where it is negative. The text of any other number is what that
/// number stands for here.
#[verifier::external_body]
pub(crate) fn number_text(n: &serde_json::Number) -> (r: String)
    ensures
        r@ == numeral_text(numeral(*n)),
{
    n.to_string()
}

/// `serde_json::Number::from::<u64>` makes the number that is not negative.
#[verifier::external_body]
pub(crate) fn number_of_u64(n: u64) -> (r: serde_json::Number)
    ensures
        numeral(r) == Numeral::PosInt(n),
{
    serde_json::Number::from(n)
}

/// `serde_json::Number::from::<i64>` makes the integer: of the negative kind
/// exactly where it is below zero.
#[verifier::external_body]
pub(crate) fn number_of_i64(n: i64) -> (r: serde_json::Number)
    ensures
        numeral(r) == (if n < 0 {
            Numeral::NegInt(n)
        } else {
            Numeral::PosInt(n as u64)
        }),
{
    serde_json::Number::from(n)
}

/// A value of `serde_json` with its outermost layer opened.
pub enum Shape {
    Null,
    Bool(bool),
    Num(serde_json::Number),
    Text(String),
    Array(Vec<serde_json::Value>),
    Object(Vec<(String, serde_json::Value)>),
}

/// What named values of `serde_json` stand for: of several with one name the
/// last counts.
pub open spec fn named_meanings(pairs: Seq<(String, serde_json::Value)>) -> Map<Seq<char>, Json>
    decreases pairs.len(),
{
    if pairs.len() == 0 {
        Map::empty()
    } else {
        named_meanings(pairs.drop_last()).insert(pairs.last().0@, meaning(pairs.last().1))
    }
}

/// No two fields share a name.
pub open spec fn unique_names(pairs: Seq<(String, serde_json::Value)>) -> bool {
    forall|i: int, j: int|
        0 <= i < j < pairs.len() ==> (#[trigger] pairs[i]).0@ != (#[trigger] pairs[j]).0@
}

/// What an opened value stands for.
pub open spec fn shape_meaning(s: Shape) -> Json {
    match s {
        Shape::Null => Json::Null,
        Shape::Bool(b) => Json::Bool(b),
        Shape::Num(n) => Json::Num(numeral(n)),
        Shape::Text(s) => Json::Text(s@),
        Shape::Array(items) => Json::Array(
            items@.map_values(|v: serde_json::Value| meaning(v)),
        ),
        Shape::Object(pairs) => Json::Object(named_meanings(pairs@)),
    }
}

/// The variants of `serde_json::Value` are told apart and their contents moved
/// out; `serde_json::Map::into_iter` gives each field of an object once.
#[verifier::external_body]
pub(crate) fn open(v: serde_json::Value) -> (r: Shape)
    ensures
        shape_meaning(r) == meaning(v),
        r matches Shape::Object(pairs) ==> unique_names(pairs@),
{
    match v {
        serde_json::Value::Null => Shape::Null,
        serde_json::Value::Bool(b) => Shape::Bool(b),
        serde_json::Value::Number(n) => Shape::Num(n),
        serde_json::Value::String(s) => Shape::Text(s),
        serde_json::Value::Array(items) => Shape::Array(items),
        serde_json::Value::Object(map) => Shape::Object(map.into_iter().collect()),
    }
}

/// A `serde_json::Value` is made of its contents; `serde_json::Map` collected
/// from fields keeps the last of several with one key.
#[verifier::external_body]
pub(crate) fn close(s: Shape) -> (r: serde_json::Value)
    ensures
        meaning(r) == shape_meaning(s),
{
    match s {
        Shape::Null => serde_json::Value::Null,
        Shape::Bool(b) => serde_json::Value::Bool(b),
        Shape::Num(n) => serde_json::Value::Number(n),
        Shape::Text(s) => serde_json::Value::String(s),
        Shape::Array(items) => serde_json::Value::Array(items),
        Shape::Object(pairs) => serde_json::Value::Object(pairs.into_iter().collect()),
    }
}

/// `Display` of `serde_json::Value` writes the compact text, which depends on
/// what the value stands for alone: the fields of an object come in the order
/// of their keys.
#[verifier::external_body]
pub(crate) fn write(v: &serde_json::Value) -> (r: String)
    ensures
        r@ == json_text(meaning(*v)),
{
    v.to_string()
}

/// `serde_json::from_str` reads a value from its text, or fails on a text that
/// is none; which of them, and the value, depends on the text alone.
#[verifier::external_body]
pub(crate) fn read(s: &str) -> (r: Option<serde_json::Value>)
    ensures
        match r {
            Some(v) => json_parsed(s@) == Some(meaning(v)),
            None => json_parsed(s@) is None,
        },
{
    serde_json::from_str(s).ok()
}

/// `toml::from_str`, asked for a `serde_json::Value`, reads a document, or
/// fails with an error that has a text; which of them, the value and the text
/// depend on the document alone.
#[verifier::external_body]
pub(crate) fn read_toml(s: &str) -> (r: Result<serde_json::Value, String>)
    ensures
        match r {
            Ok(v) => toml_parsed(s@) == Ok::<Json, Seq<char>>(meaning(v)),
            Err(e) => toml_parsed(s@) == Err::<Json, Seq<char>>(e@),
        },
{
    match toml::from_str::<serde_json::Value>(s) {
        Ok(v) => Ok(v),
        Err(e) => Err(e.to_string()),
    }
}

fn items_to_serde(items: &Vec<JsonValue>) -> (r: Vec<serde_json::Value>)
    ensures
        r@.map_values(|v: serde_json::Value| meaning(v)) == json::item_models(items@),
    decreases items@,
{
    let mut r: Vec<serde_json::Value> = Vec::new();
    let mut i: usize = 0;
    while i < items.len()
        invariant
            i <= items.len(),
            r.len() == i,
            forall|j: int| 0 <= j < i ==> meaning(#[trigger] r@[j]) == json::model(items@[j]),
        decreases items.len() - i,
    {
        let item = to_serde(&items[i]);
        r.push(item);
        i += 1;
    }
    proof {
        json::lemma_item_models(items@);
        assert(r@.map_values(|v: serde_json::Value| meaning(v)) =~= json::item_models(items@));
    }
    r
}

fn fields_to_serde(fields: &Vec<(String, JsonValue)>) -> (r: Vec<(String, serde_json::Value)>)
    ensures
        named_meanings(r@) == json::field_models(fields@),
    decreases fields@,
{
    let mut r: Vec<(String, serde_json::Value)> = Vec::new();
    let mut i: usize = 0;
    while i < fields.len()
        invariant
            i <= fields.len(),
            named_meanings(r@) == json::field_models(fields@.take(i as int)),
        decreases fields.len() - i,
    {
        let ghost before = r@;
        let name = fields[i].0.clone();
        let value = to_serde(&fields[i].1);
        r.push((name, value));
        i += 1;
        assert(fields@.take(i as int).drop_last() =~= fields@.take(i - 1));
        assert(r@.drop_last() =~= before);
    }
    assert(fields@.take(fields@.len() as int) =~= fields@);
    r
}

/// The value as `serde_json` holds it.
pub fn to_serde(v: &JsonValue) -> (r: serde_json::Value)
    ensures
        meaning(r) == v@,
    decreases v,
{
    match v {
        JsonValue::Null => close(Shape::Null),
        JsonValue::Bool(b) => close(Shape::Bool(*b)),
        JsonValue::Num(n) => close(Shape::Num(n.clone())),
        JsonValue::Text(s) => close(Shape::Text(s.clone())),
        JsonValue::Array(items) => close(Shape::Array(items_to_serde(items))),
        JsonValue::Object(fields) => close(Shape::Object(fields_to_serde(fields))),
    }
}

fn items_from_serde(items: Vec<serde_json::Value>, Ghost(whole): Ghost<Json>) -> (r: Vec<JsonValue>)
    requires
        whole == Json::Array(items@.map_values(|v: serde_json::Value| meaning(v))),
    ensures
        json::item_models(r@) == items@.map_values(|v: serde_json::Value| meaning(v)),
    decreases whole, 0nat,
{
    let ghost all = items@;
    let ghost models = all.map_values(|v: serde_json::Value| meaning(v));
    let mut r: Vec<JsonValue> = Vec::new();
    for item in it: items
        invariant
            it.seq() == all,
            whole == Json::Array(models),
            models == all.map_values(|v: serde_json::Value| meaning(v)),
            r.len() == it.index(),
            forall|j: int| 0 <= j < r.len() ==> json::model(#[trigger] r@[j]) == models[j],
    {
        let ghost n = it.index();
        assert(models[n] == meaning(item));
        assert(decreases_to!(whole => whole->Array_0));
        assert(decreases_to!(whole->Array_0 => whole->Array_0[n as int]));
        r.push(from_serde(item));
    }
    proof {
        json::lemma_item_models(r@);
        assert(json::item_models(r@) =~= models);
    }
    r
}

proof fn lemma_finite_fields(pairs: Seq<(String, serde_json::Value)>)
    ensures
        named_meanings(pairs).dom().finite(),
    decreases pairs.len(),
{
    if pairs.len() > 0 {
        lemma_finite_fields(pairs.drop_last());
    }
}

proof fn lemma_unique_field(pairs: Seq<(String, serde_json::Value)>, i: int)
    requires
        unique_names(pairs),
        0 <= i < pairs.len(),
    ensures
        named_meanings(pairs).contains_key(pairs[i].0@),
        named_meanings(pairs)[pairs[i].0@] == meaning(pairs[i].1),
    decreases pairs.len(),
{
    let rest = pairs.drop_last();
    if i < rest.len() {
        assert(unique_names(rest)) by {
            assert forall|a: int, b: int| 0 <= a < b < rest.len() implies (#[trigger] rest[a]).0@
                != (#[trigger] rest[b]).0@ by {
                assert(rest[a] == pairs[a]);
                assert(rest[b] == pairs[b]);
            }
        }
        lemma_unique_field(rest, i);
        assert(pairs[i].0@ != pairs[pairs.len() - 1].0@);
    }
}

fn fields_from_serde(
    pairs: Vec<(String, serde_json::Value)>,
    Ghost(whole): Ghost<Json>,
) -> (r: Vec<(String, JsonValue)>)
    requires
        unique_names(pairs@),
        whole == Json::Object(named_meanings(pairs@)),
    ensures
        json::field_models(r@) == named_meanings(pairs@),
    decreases whole, 0nat,
{
    let ghost all = pairs@;
    let mut r: Vec<(String, JsonValue)> = Vec::new();
    for pair in it: pairs
        invariant
            it.seq() == all,
            unique_names(all),
            whole == Json::Object(named_meanings(all)),
            json::field_models(r@) == named_meanings(all.take(it.index() as int)),
    {
        let ghost n = it.index() as int;
        let ghost before = r@;
        proof {
            lemma_unique_field(all, n);
            lemma_finite_fields(all);
            assert(decreases_to!(whole => whole->Object_0));
            assert(decreases_to!(whole->Object_0 => whole->Object_0[all[n].0@]));
            assert(all.take(n + 1).drop_last() =~= all.take(n));
        }
        let (name, value) = pair;
        r.push((name, from_serde(value)));
        assert(r@.drop_last() =~= before);
    }
    assert(all.take(all.len() as int) =~= all);
    r
}

/// The value that a value of `serde_json` stands for.
pub fn from_serde(v: serde_json::Value) -> (r: JsonValue)
    ensures
        r@ == meaning(v),
    decreases meaning(v), 1nat,
{
    match open(v) {
        Shape::Null => JsonValue::Null,
        Shape::Bool(b) => JsonValue::Bool(b),
        Shape::Num(n) => JsonValue::Num(n),
        Shape::Text(s) => JsonValue::Text(s),
        Shape::Array(items) => JsonValue::Array(items_from_serde(items, Ghost(meaning(v)))),
        Shape::Object(pairs) => JsonValue::Object(fields_from_serde(pairs, Ghost(meaning(v)))),
    }
}

/// The compact text of a value.
pub fn render(v: &JsonValue) -> (r: String)
    ensures
        r@ == json_text(v@),
{
    write(&to_serde(v))
}

/// The value that a text stands for, if it is the text of one.
pub fn parse(s: &str) -> (r: Option<JsonValue>)
    ensures
        r.deep_view() == json_parsed(s@),
{
    match read(s) {
        Some(v) => Some(from_serde(v)),
        None => None,
    }
}

/// The value that a TOML document holds, or what is wrong with it.
pub fn parse_toml(s: &str) -> (r: Result<JsonValue, String>)
    ensures
        match r {
            Ok(v) => toml_parsed(s@) == Ok::<Json, Seq<char>>(v@),
            Err(e) => toml_parsed(s@) == Err::<Json, Seq<char>>(e@),
        },
{
    match read_toml(s) {
        Ok(v) => Ok(from_serde(v)),
        Err(e) => Err(e),
    }
}

} // verus!
