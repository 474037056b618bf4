//! JSON values: the payloads of events, the parameters of requests and the
//! snapshots of the runtime state.

use crate::text;
use crate::wire;
use vstd::prelude::*;

verus! {

/// A JSON value. Where an object names a key more than once, the last field
/// with that key counts.
#[derive(Debug)]
pub enum JsonValue {
    Null,
    Bool(bool),
    Num(serde_json::Number),
    Text(String),
    Array(Vec<JsonValue>),
    Object(Vec<(String, JsonValue)>),
}

/// What a JSON number stands for.
#[verifier::ext_equal]
pub enum Numeral {
    PosInt(u64),
    NegInt(i64),
    Float(Seq<char>),
}

/// What a JSON value stands for.
#[verifier::ext_equal]
pub enum Json {
    Null,
    Bool(bool),
    Num(Numeral),
    Text(Seq<char>),
    Array(Seq<Json>),
    Object(Map<Seq<char>, Json>),
}

/// What a value stands for.
pub open spec fn model(v: JsonValue) -> Json
    decreases v,
{
    match v {
        JsonValue::Null => Json::Null,
        JsonValue::Bool(b) => Json::Bool(b),
        JsonValue::Num(n) => Json::Num(wire::numeral(n)),
        JsonValue::Text(s) => Json::Text(s@),
        JsonValue::Array(items) => Json::Array(item_models(items@)),
        JsonValue::Object(fields) => Json::Object(field_models(fields@)),
    }
}

/// What the items of an array stand for.
pub open spec fn item_models(items: Seq<JsonValue>) -> Seq<Json>
    decreases items,
{
    if items.len() == 0 {
        Seq::empty()
    } else {
        item_models(items.drop_last()).push(model(items.last()))
    }
}

/// What the fields of an object stand for.
pub open spec fn field_models(fields: Seq<(String, JsonValue)>) -> Map<Seq<char>, Json>
    decreases fields,
{
    if fields.len() == 0 {
        Map::empty()
    } else {
        field_models(fields.drop_last()).insert(fields.last().0@, model(fields.last().1))
    }
}

impl View for JsonValue {
    type V = Json;

    open spec fn view(&self) -> Json {
        model(*self)
    }
}

impl DeepView for JsonValue {
    type V = Json;

    open spec fn deep_view(&self) -> Json {
        model(*self)
    }
}

impl Json {
    /// The value under `key`, when this is an object that has the key.
    pub open spec fn get(self, key: Seq<char>) -> Option<Json> {
        match self {
            Json::Object(m) if m.contains_key(key) => Some(m[key]),
            _ => None,
        }
    }

    /// The text under `key`, when there is a text under that key.
    pub open spec fn text(self, key: Seq<char>) -> Option<Seq<char>> {
        match self.get(key) {
            Some(Json::Text(s)) => Some(s),
            _ => None,
        }
    }

    /// The text under `key`, or `default` when there is none.
    pub open spec fn text_or(self, key: Seq<char>, default: Seq<char>) -> Seq<char> {
        match self.text(key) {
            Some(s) => s,
            None => default,
        }
    }

    /// The truth value under `key`, when there is one under that key.
    pub open spec fn flag(self, key: Seq<char>) -> Option<bool> {
        match self.get(key) {
            Some(Json::Bool(b)) => Some(b),
            _ => None,
        }
    }

    /// The truth value under `key`, or `default` when there is none.
    pub open spec fn flag_or(self, key: Seq<char>, default: bool) -> bool {
        match self.flag(key) {
            Some(b) => b,
            None => default,
        }
    }

    /// The unsigned number under `key`, when there is one under that key.
    pub open spec fn unsigned(self, key: Seq<char>) -> Option<u64> {
        match self.get(key) {
            Some(Json::Num(Numeral::PosInt(n))) => Some(n),
            _ => None,
        }
    }

    /// This object with the value `v` under `key`; anything else is unchanged.
    pub open spec fn with(self, key: Seq<char>, v: Json) -> Json {
        match self {
            Json::Object(m) => Json::Object(m.insert(key, v)),
            _ => self,
        }
    }

    /// The object without fields.
    pub open spec fn empty() -> Json {
        Json::Object(Map::empty())
    }

    /// The value that is reached by following the keys of `path` in turn.
    pub open spec fn follow(self, path: Seq<Seq<char>>) -> Option<Json>
        decreases path.len(),
    {
        if path.len() == 0 {
            Some(self)
        } else {
            match self.get(path[0]) {
                Some(v) => v.follow(path.drop_first()),
                None => None,
            }
        }
    }
}

/// The text, or null when there is none.
pub open spec fn text_or_null(s: Option<Seq<char>>) -> Json {
    match s {
        Some(s) => Json::Text(s),
        None => Json::Null,
    }
}

pub proof fn lemma_item_models(items: Seq<JsonValue>)
    ensures
        item_models(items).len() == items.len(),
        forall|i: int|
            0 <= i < items.len() ==> #[trigger] item_models(items)[i] == model(items[i]),
    decreases items.len(),
{
    if items.len() > 0 {
        lemma_item_models(items.drop_last());
        assert forall|i: int| 0 <= i < items.len() implies #[trigger] item_models(items)[i]
            == model(items[i]) by {
            if i < items.len() - 1 {
                assert(item_models(items.drop_last())[i] == model(items.drop_last()[i]));
            }
        }
    }
}

/// The position before `end` of the last field with the given key, or -1.
pub open spec fn last_field(fields: Seq<(String, JsonValue)>, key: Seq<char>, end: int) -> int
    decreases end,
{
    if end <= 0 || end > fields.len() {
        -1
    } else if fields[end - 1].0@ == key {
        end - 1
    } else {
        last_field(fields, key, end - 1)
    }
}

/// A key is present exactly when some field has it, and the last such field
/// gives its value.
pub proof fn lemma_last_field(fields: Seq<(String, JsonValue)>, key: Seq<char>, end: int)
    requires
        0 <= end <= fields.len(),
    ensures
        ({
            let i = last_field(fields, key, end);
            let m = field_models(fields.take(end));
            &&& -1 <= i < end
            &&& m.contains_key(key) <==> i >= 0
            &&& i >= 0 ==> fields[i].0@ == key && m[key] == model(fields[i].1)
        }),
    decreases end,
{
    if end > 0 {
        lemma_last_field(fields, key, end - 1);
        assert(fields.take(end).drop_last() =~= fields.take(end - 1));
    }
}

proof fn lemma_key_present(fields: Seq<(String, JsonValue)>, i: int)
    requires
        0 <= i < fields.len(),
    ensures
        field_models(fields).contains_key(fields[i].0@),
    decreases fields.len(),
{
    if i < fields.len() - 1 {
        assert(fields.drop_last()[i] == fields[i]);
        lemma_key_present(fields.drop_last(), i);
    }
}

/// Whether both numbers stand for the same.
fn same_number(a: &serde_json::Number, b: &serde_json::Number) -> (r: bool)
    ensures
        r == (wire::numeral(*a) == wire::numeral(*b)),
{
    match (a.as_u64(), b.as_u64()) {
        (Some(x), Some(y)) => x == y,
        (None, None) => match (a.as_i64(), b.as_i64()) {
            (Some(x), Some(y)) => x == y,
            (None, None) => wire::number_text(a).eq(&wire::number_text(b)),
            _ => false,
        },
        _ => false,
    }
}

/// The position of the last field with the given key.
fn field_index(fields: &Vec<(String, JsonValue)>, key: &str) -> (r: Option<usize>)
    ensures
        match r {
            Some(i) => i == last_field(fields@, key@, fields@.len() as int) && i < fields.len()
                && field_models(fields@).contains_key(key@) && fields@[i as int].0@ == key@
                && field_models(fields@)[key@] == model(fields@[i as int].1),
            None => !field_models(fields@).contains_key(key@),
        },
{
    proof {
        lemma_last_field(fields@, key@, fields@.len() as int);
        assert(fields@.take(fields@.len() as int) =~= fields@);
    }
    let mut i: usize = fields.len();
    while i > 0
        invariant
            i <= fields.len(),
            last_field(fields@, key@, fields@.len() as int) == last_field(
                fields@,
                key@,
                i as int,
            ),
            fields@.take(fields@.len() as int) == fields@,
        decreases i,
    {
        proof {
            lemma_last_field(fields@, key@, fields@.len() as int);
        }
        if text::same(fields[i - 1].0.as_str(), key) {
            return Some(i - 1);
        }
        i -= 1;
    }
    None
}

/// The value of the last field with the given key.
pub fn field<'a>(fields: &'a Vec<(String, JsonValue)>, key: &str) -> (r: Option<&'a JsonValue>)
    ensures
        match r {
            Some(v) => field_models(fields@).contains_key(key@) && v@ == field_models(
                fields@,
            )[key@],
            None => !field_models(fields@).contains_key(key@),
        },
{
    match field_index(fields, key) {
        Some(i) => Some(&fields[i].1),
        None => None,
    }
}

fn same_items(a: &Vec<JsonValue>, b: &Vec<JsonValue>) -> (r: bool)
    ensures
        r == (item_models(a@) == item_models(b@)),
    decreases a@,
{
    proof {
        lemma_item_models(a@);
        lemma_item_models(b@);
    }
    if a.len() != b.len() {
        return false;
    }
    let mut i: usize = 0;
    while i < a.len()
        invariant
            i <= a.len(),
            a.len() == b.len(),
            forall|j: int| 0 <= j < i ==> model(a@[j]) == model(b@[j]),
        decreases a.len() - i,
    {
        if !a[i].equals(&b[i]) {
            proof {
                lemma_item_models(a@);
                lemma_item_models(b@);
                assert(item_models(a@)[i as int] != item_models(b@)[i as int]);
            }
            return false;
        }
        i += 1;
    }
    proof {
        lemma_item_models(a@);
        lemma_item_models(b@);
        assert(item_models(a@) =~= item_models(b@));
    }
    true
}

fn same_fields(a: &Vec<(String, JsonValue)>, b: &Vec<(String, JsonValue)>) -> (r: bool)
    ensures
        r == (field_models(a@) == field_models(b@)),
    decreases a@,
{
    let mut i: usize = 0;
    while i < a.len()
        invariant
            i <= a.len(),
            forall|j: int|
                0 <= j < i ==> field_models(b@).contains_key((#[trigger] a@[j]).0@) && field_models(
                    b@,
                )[a@[j].0@] == field_models(a@)[a@[j].0@],
        decreases a.len() - i,
    {
        let mine = field_index(a, a[i].0.as_str());
        let theirs = field_index(b, a[i].0.as_str());
        proof {
            lemma_key_present(a@, i as int);
        }
        match (mine, theirs) {
            (Some(m), Some(t)) => {
                if !a[m].1.equals(&b[t].1) {
                    return false;
                }
            },
            _ => {
                return false;
            },
        }
        i += 1;
    }
    let mut k: usize = 0;
    while k < b.len()
        invariant
            k <= b.len(),
            forall|j: int|
                0 <= j < k ==> field_models(a@).contains_key((#[trigger] b@[j]).0@),
        decreases b.len() - k,
    {
        proof {
            lemma_key_present(b@, k as int);
        }
        if field_index(a, b[k].0.as_str()).is_none() {
            return false;
        }
        k += 1;
    }
    proof {
        assert forall|key: Seq<char>| #[trigger] field_models(a@).contains_key(key) implies
            field_models(b@).contains_key(key) && field_models(b@)[key] == field_models(a@)[key] by {
            lemma_last_field(a@, key, a@.len() as int);
            assert(a@.take(a@.len() as int) =~= a@);
            let j = last_field(a@, key, a@.len() as int);
            assert(a@[j].0@ == key);
        }
        assert forall|key: Seq<char>| #[trigger] field_models(b@).contains_key(key) implies
            field_models(a@).contains_key(key) by {
            lemma_last_field(b@, key, b@.len() as int);
            assert(b@.take(b@.len() as int) =~= b@);
            let j = last_field(b@, key, b@.len() as int);
            assert(b@[j].0@ == key);
        }
        assert(field_models(a@) =~= field_models(b@));
    }
    true
}

fn duplicate_items(items: &Vec<JsonValue>) -> (r: Vec<JsonValue>)
    ensures
        item_models(r@) == item_models(items@),
    decreases items@,
{
    let mut r: Vec<JsonValue> = Vec::new();
    let mut i: usize = 0;
    while i < items.len()
        invariant
            i <= items.len(),
            item_models(r@) == item_models(items@.take(i as int)),
        decreases items.len() - i,
    {
        let ghost before = r@;
        let item = items[i].duplicate();
        r.push(item);
        i += 1;
        assert(items@.take(i as int).drop_last() =~= items@.take(i - 1));
        assert(r@.drop_last() =~= before);
    }
    assert(items@.take(items@.len() as int) =~= items@);
    r
}

pub fn duplicate_fields(fields: &Vec<(String, JsonValue)>) -> (r: Vec<(String, JsonValue)>)
    ensures
        field_models(r@) == field_models(fields@),
    decreases fields@,
{
    let mut r: Vec<(String, JsonValue)> = Vec::new();
    let mut i: usize = 0;
    while i < fields.len()
        invariant
            i <= fields.len(),
            field_models(r@) == field_models(fields@.take(i as int)),
        decreases fields.len() - i,
    {
        let ghost before = r@;
        let name = fields[i].0.clone();
        let value = fields[i].1.duplicate();
        r.push((name, value));
        i += 1;
        assert(fields@.take(i as int).drop_last() =~= fields@.take(i - 1));
        assert(r@.drop_last() =~= before);
    }
    assert(fields@.take(fields@.len() as int) =~= fields@);
    r
}

impl JsonValue {
    /// A value that stands for the same.
    pub fn duplicate(&self) -> (r: JsonValue)
        ensures
            r@ == self@,
        decreases self,
    {
        match self {
            JsonValue::Null => JsonValue::Null,
            JsonValue::Bool(b) => JsonValue::Bool(*b),
            JsonValue::Num(n) => JsonValue::Num(n.clone()),
            JsonValue::Text(s) => JsonValue::Text(s.clone()),
            JsonValue::Array(items) => JsonValue::Array(duplicate_items(items)),
            JsonValue::Object(fields) => JsonValue::Object(duplicate_fields(fields)),
        }
    }

    /// Whether both values stand for the same.
    pub fn equals(&self, other: &JsonValue) -> (r: bool)
        ensures
            r == (self@ == other@),
        decreases self,
    {
        match (self, other) {
            (JsonValue::Null, JsonValue::Null) => true,
            (JsonValue::Bool(a), JsonValue::Bool(b)) => *a == *b,
            (JsonValue::Num(a), JsonValue::Num(b)) => same_number(a, b),
            (JsonValue::Text(a), JsonValue::Text(b)) => a.eq(b),
            (JsonValue::Array(a), JsonValue::Array(b)) => same_items(a, b),
            (JsonValue::Object(a), JsonValue::Object(b)) => same_fields(a, b),
            _ => false,
        }
    }

    /// The value under `key`, when this is an object that has the key.
    pub fn get(&self, key: &str) -> (r: Option<&JsonValue>)
        ensures
            match r {
                Some(v) => self@.get(key@) == Some(v@),
                None => self@.get(key@) is None,
            },
    {
        match self {
            JsonValue::Object(fields) => field(fields, key),
            _ => None,
        }
    }

    /// The text that this value is, if it is one.
    pub fn as_str(&self) -> (r: Option<&str>)
        ensures
            match r {
                Some(s) => self@ == Json::Text(s@),
                None => !(self@ is Text),
            },
    {
        match self {
            JsonValue::Text(s) => Some(s.as_str()),
            _ => None,
        }
    }

    /// The truth value that this value is, if it is one.
    pub fn as_bool(&self) -> (r: Option<bool>)
        ensures
            match r {
                Some(b) => self@ == Json::Bool(b),
                None => !(self@ is Bool),
            },
    {
        match self {
            JsonValue::Bool(b) => Some(*b),
            _ => None,
        }
    }

    /// The unsigned number that this value is, if it is one.
    pub fn as_u64(&self) -> (r: Option<u64>)
        ensures
            match r {
                Some(n) => self@ == Json::Num(Numeral::PosInt(n)),
                None => !(self@ matches Json::Num(Numeral::PosInt(n))),
            },
    {
        match self {
            JsonValue::Num(n) => n.as_u64(),
            _ => None,
        }
    }

    /// The items of this value, if it is an array.
    pub fn as_array(&self) -> (r: Option<&Vec<JsonValue>>)
        ensures
            match r {
                Some(items) => self@ == Json::Array(item_models(items@)),
                None => !(self@ is Array),
            },
    {
        match self {
            JsonValue::Array(items) => Some(items),
            _ => None,
        }
    }

    /// The text under `key`, when there is a text under that key.
    pub fn text(&self, key: &str) -> (r: Option<&str>)
        ensures
            match r {
                Some(s) => self@.text(key@) == Some(s@),
                None => self@.text(key@) is None,
            },
    {
        match self.get(key) {
            Some(v) => v.as_str(),
            None => None,
        }
    }

    /// The text under `key`, when there is a text under that key.
    pub fn owned_text(&self, key: &str) -> (r: Option<String>)
        ensures
            r.deep_view() == self@.text(key@),
    {
        match self.text(key) {
            Some(s) => Some(s.to_owned()),
            None => None,
        }
    }

    /// The text under `key`, or `default` when there is none.
    pub fn text_or(&self, key: &str, default: &str) -> (r: String)
        ensures
            r@ == self@.text_or(key@, default@),
    {
        match self.text(key) {
            Some(s) => s.to_owned(),
            None => default.to_owned(),
        }
    }

    /// The truth value under `key`, when there is one under that key.
    pub fn flag(&self, key: &str) -> (r: Option<bool>)
        ensures
            r == self@.flag(key@),
    {
        match self.get(key) {
            Some(v) => v.as_bool(),
            None => None,
        }
    }

    /// The truth value under `key`, or `default` when there is none.
    pub fn flag_or(&self, key: &str, default: bool) -> (r: bool)
        ensures
            r == self@.flag_or(key@, default),
    {
        match self.flag(key) {
            Some(b) => b,
            None => default,
        }
    }

    /// The unsigned number under `key`, when there is one under that key.
    pub fn unsigned(&self, key: &str) -> (r: Option<u64>)
        ensures
            r == self@.unsigned(key@),
    {
        match self.get(key) {
            Some(v) => v.as_u64(),
            None => None,
        }
    }

    /// The object without fields.
    pub fn empty() -> (r: JsonValue)
        ensures
            r@ == Json::empty(),
    {
        JsonValue::Object(Vec::new())
    }

    /// This object with the value `v` under `key`; anything else is unchanged.
    pub fn with(self, key: &str, v: JsonValue) -> (r: JsonValue)
        ensures
            r@ == self@.with(key@, v@),
    {
        match self {
            JsonValue::Object(fields) => {
                let ghost before = fields@;
                let mut fields = fields;
                fields.push((key.to_owned(), v));
                assert(fields@.drop_last() =~= before);
                JsonValue::Object(fields)
            },
            other => other,
        }
    }

    /// The text as a value.
    pub fn of_text(s: &str) -> (r: JsonValue)
        ensures
            r@ == Json::Text(s@),
    {
        JsonValue::Text(s.to_owned())
    }

    /// The number as a value.
    pub fn of_u64(n: u64) -> (r: JsonValue)
        ensures
            r@ == Json::Num(Numeral::PosInt(n)),
    {
        JsonValue::Num(wire::number_of_u64(n))
    }

    /// The text, or null when there is none.
    pub fn of_option(s: &Option<String>) -> (r: JsonValue)
        ensures
            r@ == text_or_null(s.deep_view()),
    {
        match s {
            Some(s) => JsonValue::Text(s.clone()),
            None => JsonValue::Null,
        }
    }
}

impl PartialEq for JsonValue {
    fn eq(&self, other: &JsonValue) -> (r: bool) {
        self.equals(other)
    }
}

impl vstd::std_specs::cmp::PartialEqSpecImpl for JsonValue {
    open spec fn obeys_eq_spec() -> bool {
        true
    }

    open spec fn eq_spec(&self, other: &JsonValue) -> bool {
        model(*self) == model(*other)
    }
}

/// The value at a path of keys that dots separate; the empty path names the
/// value itself.
pub open spec fn at_path(v: Json, path: Seq<char>) -> Option<Json> {
    if path.len() == 0 {
        Some(v)
    } else {
        v.follow(text::split(path, '.'))
    }
}

/// The value at a path of keys that dots separate; the empty path names the
/// value itself.
pub fn value_at_path(value: &JsonValue, path: &str) -> (r: Option<JsonValue>)
    ensures
        r.deep_view() == at_path(value@, path@),
{
    if path.is_empty() {
        return Some(value.duplicate());
    }
    let parts = text::split_on(path, '.');
    let mut current: &JsonValue = value;
    let mut i: usize = 0;
    assert(parts.deep_view().subrange(0, parts@.len() as int) =~= parts.deep_view());
    while i < parts.len()
        invariant
            i <= parts.len(),
            parts.deep_view() == text::split(path@, '.'),
            value@.follow(parts.deep_view()) == current@.follow(
                parts.deep_view().subrange(i as int, parts@.len() as int),
            ),
            path@.len() != 0,
        decreases parts.len() - i,
    {
        let ghost rest = parts.deep_view().subrange(i as int, parts@.len() as int);
        assert(rest[0] == parts@[i as int]@);
        assert(rest.drop_first() =~= parts.deep_view().subrange(i + 1, parts@.len() as int));
        match current.get(parts[i].as_str()) {
            Some(v) => {
                current = v;
            },
            None => {
                return None;
            },
        }
        i += 1;
    }
    Some(current.duplicate())
}

proof fn lemma_follow(v: Json, a: Seq<Seq<char>>, b: Seq<Seq<char>>)
    ensures
        v.follow(a + b) == (match v.follow(a) {
            Some(w) => w.follow(b),
            None => None,
        }),
    decreases a.len(),
{
    if a.len() == 0 {
        assert(a + b =~= b);
    } else {
        assert((a + b)[0] == a[0]);
        assert((a + b).drop_first() =~= a.drop_first() + b);
        if let Some(w) = v.get(a[0]) {
            lemma_follow(w, a.drop_first(), b);
        }
    }
}

/// To follow a path and then another is to follow the one that a dot joins from
/// them.
pub proof fn law_paths_compose(v: Json, first: Seq<char>, second: Seq<char>)
    requires
        first.len() > 0,
        second.len() > 0,
    ensures
        at_path(v, first + "."@ + second) == (match at_path(v, first) {
            Some(w) => at_path(w, second),
            None => None,
        }),
{
    reveal_strlit(".");
    assert("."@ =~= seq!['.']);
    text::lemma_split_joined(first, '.', second);
    lemma_follow(v, text::split(first, '.'), text::split(second, '.'));
}

/// A path without dots is a key.
pub proof fn law_plain_path_is_a_key(v: Json, key: Seq<char>)
    requires
        key.len() > 0,
        forall|i: int| 0 <= i < key.len() ==> #[trigger] key[i] != '.',
    ensures
        at_path(v, key) == v.get(key),
{
    text::lemma_index_from(key, '.', 0);
    let parts = text::split(key, '.');
    assert(key.subrange(0, key.len() as int) =~= key);
    assert(parts =~= seq![key]);
    assert(parts.drop_first() =~= Seq::empty());
    if let Some(w) = v.get(key) {
        assert(w.follow(Seq::empty()) == Some(w));
    }
}

/// What was put under a key of an object is what the key holds, and what the other
/// keys hold stays.
pub proof fn law_value_put_is_held(v: Json, key: Seq<char>, x: Json, other: Seq<char>)
    requires
        v is Object,
    ensures
        v.with(key, x).get(key) == Some(x),
        other != key ==> v.with(key, x).get(other) == v.get(other),
        Json::empty().get(other) is None,
{
}

} // verus!
