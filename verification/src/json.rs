//! JSON values.

use serde_json::Value;
use vstd::prelude::*;
use vstd::string::*;

use crate::strmap::StrMap;
use crate::text;

verus! {

/// A JSON value.
///
/// Numbers come in three kinds: integers from zero up, integers below zero, and all others,
/// which are kept as the bit pattern of their IEEE 754 double.
#[derive(Debug, PartialEq)]
pub enum Json {
    Null,
    Bool(bool),
    Unsigned(u64),
    Negative(i64),
    Real(u64),
    Text(String),
    List(Vec<Json>),
    Object(StrMap<Json>),
}

/// The mathematical value of a [`Json`].
pub enum JsonV {
    Null,
    Bool(bool),
    Unsigned(u64),
    Negative(i64),
    Real(u64),
    Text(Seq<char>),
    List(Seq<JsonV>),
    Object(Map<Seq<char>, JsonV>),
}

pub open spec fn json_view(j: Json) -> JsonV
    decreases j,
{
    match j {
        Json::Null => JsonV::Null,
        Json::Bool(b) => JsonV::Bool(b),
        Json::Unsigned(n) => JsonV::Unsigned(n),
        Json::Negative(n) => JsonV::Negative(n),
        Json::Real(bits) => JsonV::Real(bits),
        Json::Text(s) => JsonV::Text(s@),
        Json::List(v) => JsonV::List(list_view(v@)),
        Json::Object(m) => JsonV::Object(object_view(m.entries@)),
    }
}

pub open spec fn list_view(list: Seq<Json>) -> Seq<JsonV>
    decreases list,
{
    if list.len() == 0 {
        Seq::empty()
    } else {
        list_view(list.drop_last()).push(json_view(list.last()))
    }
}

pub open spec fn object_view(entries: Seq<(String, Json)>) -> Map<Seq<char>, JsonV>
    decreases entries,
{
    if entries.len() == 0 {
        Map::empty()
    } else {
        object_view(entries.drop_last()).insert(entries.last().0@, json_view(entries.last().1))
    }
}

impl View for Json {
    type V = JsonV;

    open spec fn view(&self) -> JsonV {
        json_view(*self)
    }
}

impl JsonV {
    /// The value under a key of an object.
    pub open spec fn get(self, key: Seq<char>) -> Option<JsonV> {
        match self {
            JsonV::Object(m) => if m.dom().contains(key) {
                Some(m[key])
            } else {
                None
            },
            _ => None,
        }
    }

    /// The value under a key of an object that is itself a value of an object.
    pub open spec fn get2(self, outer: Seq<char>, inner: Seq<char>) -> Option<JsonV> {
        match self.get(outer) {
            Some(v) => v.get(inner),
            None => None,
        }
    }

    pub open spec fn as_text(self) -> Option<Seq<char>> {
        match self {
            JsonV::Text(s) => Some(s),
            _ => None,
        }
    }

    pub open spec fn as_bool(self) -> Option<bool> {
        match self {
            JsonV::Bool(b) => Some(b),
            _ => None,
        }
    }

    pub open spec fn as_list(self) -> Option<Seq<JsonV>> {
        match self {
            JsonV::List(l) => Some(l),
            _ => None,
        }
    }

    /// The value of an integer in the range of `u64`.
    pub open spec fn as_unsigned(self) -> Option<u64> {
        match self {
            JsonV::Unsigned(n) => Some(n),
            _ => None,
        }
    }

    /// The value of an integer in the range of `i64`.
    pub open spec fn as_integer(self) -> Option<i64> {
        match self {
            JsonV::Unsigned(n) => if n <= i64::MAX {
                Some(n as i64)
            } else {
                None
            },
            JsonV::Negative(n) => Some(n),
            _ => None,
        }
    }

    pub open spec fn is_number(self) -> bool {
        self is Unsigned || self is Negative || self is Real
    }
}

/// The text under a key of an object.
pub open spec fn text_at(j: JsonV, key: Seq<char>) -> Option<Seq<char>> {
    match j.get(key) {
        Some(v) => v.as_text(),
        None => None,
    }
}

/// The integer under a key of an object.
pub open spec fn integer_at(j: JsonV, key: Seq<char>) -> Option<i64> {
    match j.get(key) {
        Some(v) => v.as_integer(),
        None => None,
    }
}

/// The JSON number of an integer.
pub open spec fn integer(n: i64) -> JsonV {
    if n < 0 {
        JsonV::Negative(n)
    } else {
        JsonV::Unsigned(n as u64)
    }
}

/// The JSON value of an optional integer: the number, or null.
pub open spec fn integer_or_null(n: Option<i64>) -> JsonV {
    match n {
        Some(v) => integer(v),
        None => JsonV::Null,
    }
}

/// The JSON list of a list of texts.
pub open spec fn text_list(list: Seq<Seq<char>>) -> JsonV {
    JsonV::List(Seq::new(list.len(), |i: int| JsonV::Text(list[i])))
}

/// The JSON list of a list of truth values.
pub open spec fn bool_list(list: Seq<bool>) -> JsonV {
    JsonV::List(Seq::new(list.len(), |i: int| JsonV::Bool(list[i])))
}

pub open spec fn view_ref(o: Option<&Json>) -> Option<JsonV> {
    match o {
        Some(j) => Some(j@),
        None => None,
    }
}

pub proof fn list_view_index(list: Seq<Json>)
    ensures
        list_view(list).len() == list.len(),
        forall|i: int| 0 <= i < list.len() ==> #[trigger] list_view(list)[i] == list[i]@,
    decreases list.len(),
{
    if list.len() > 0 {
        list_view_index(list.drop_last());
        assert forall|i: int| 0 <= i < list.len() implies #[trigger] list_view(list)[i]
            == list[i]@ by {
            if i < list.len() - 1 {
                assert(list.drop_last()[i] == list[i]);
                assert(list_view(list)[i] == list_view(list.drop_last())[i]);
            }
        }
    }
}

/// The object that a list of entries stands for, read off the map of its values.
pub proof fn object_view_lookup(entries: Seq<(String, Json)>)
    ensures
        object_view(entries).dom() == crate::strmap::assoc(entries).dom(),
        forall|k: Seq<char>|
            object_view(entries).dom().contains(k) ==> #[trigger] object_view(entries)[k]
                == crate::strmap::assoc(entries)[k]@,
    decreases entries.len(),
{
    if entries.len() > 0 {
        object_view_lookup(entries.drop_last());
    }
    assert(object_view(entries).dom() =~= crate::strmap::assoc(entries).dom());
}

/// The value of an object.
pub open spec fn fields(m: StrMap<Json>) -> Map<Seq<char>, JsonV> {
    object_view(m.entries@)
}

/// Sets a field of an object.
pub fn put(m: &mut StrMap<Json>, key: &str, value: Json)
    ensures
        fields(*final(m)) == fields(*old(m)).insert(key@, value@),
{
    proof {
        object_view_lookup(m.entries@);
    }
    m.insert(key.to_owned(), value);
    proof {
        object_view_lookup(m.entries@);
        assert(fields(*m) =~= fields(*old(m)).insert(key@, value@));
    }
}

/// Whether an object has a field.
pub fn has_field(m: &StrMap<Json>, key: &str) -> (r: bool)
    ensures
        r == fields(*m).dom().contains(key@),
{
    proof {
        object_view_lookup(m.entries@);
    }
    m.contains_key(key)
}

/// Whether an object has no fields.
pub fn no_fields(m: &StrMap<Json>) -> (r: bool)
    ensures
        r == (fields(*m) == Map::<Seq<char>, JsonV>::empty()),
{
    let empty = m.entries.len() == 0;
    proof {
        object_view_lookup(m.entries@);
        if !empty {
            assert(fields(*m).dom().contains(m.entries@.last().0@));
        }
    }
    empty
}

/// An object without fields.
pub fn empty_object() -> (m: StrMap<Json>)
    ensures
        fields(m) == Map::<Seq<char>, JsonV>::empty(),
{
    StrMap::new()
}

impl Json {
    pub fn get(&self, key: &str) -> (r: Option<&Json>)
        ensures
            view_ref(r) == self@.get(key@),
    {
        match self {
            Json::Object(m) => {
                proof {
                    object_view_lookup(m.entries@);
                }
                m.get(key)
            },
            _ => None,
        }
    }

    pub fn get2(&self, outer: &str, inner: &str) -> (r: Option<&Json>)
        ensures
            view_ref(r) == self@.get2(outer@, inner@),
    {
        match self.get(outer) {
            Some(v) => v.get(inner),
            None => None,
        }
    }

    pub fn as_str(&self) -> (r: Option<&str>)
        ensures
            match r {
                Some(s) => self@.as_text() == Some(s@),
                None => self@.as_text() is None,
            },
    {
        match self {
            Json::Text(s) => Some(s.as_str()),
            _ => None,
        }
    }

    pub fn as_bool(&self) -> (r: Option<bool>)
        ensures
            r == self@.as_bool(),
    {
        match self {
            Json::Bool(b) => Some(*b),
            _ => None,
        }
    }

    pub fn as_u64(&self) -> (r: Option<u64>)
        ensures
            r == self@.as_unsigned(),
    {
        match self {
            Json::Unsigned(n) => Some(*n),
            _ => None,
        }
    }

    pub fn as_i64(&self) -> (r: Option<i64>)
        ensures
            r == self@.as_integer(),
    {
        match self {
            Json::Unsigned(n) => if *n <= 0x7fff_ffff_ffff_ffff {
                Some(*n as i64)
            } else {
                None
            },
            Json::Negative(n) => Some(*n),
            _ => None,
        }
    }

    pub fn as_array(&self) -> (r: Option<&Vec<Json>>)
        ensures
            match r {
                Some(v) => self@.as_list() == Some(list_view(v@)) && *self == Json::List(*v),
                None => self@.as_list() is None,
            },
    {
        match self {
            Json::List(v) => Some(v),
            _ => None,
        }
    }

    pub fn is_null(&self) -> (r: bool)
        ensures
            r == (self@ == JsonV::Null),
    {
        match self {
            Json::Null => true,
            _ => false,
        }
    }

    pub fn is_object(&self) -> (r: bool)
        ensures
            r == (self@ is Object),
    {
        match self {
            Json::Object(_) => true,
            _ => false,
        }
    }

    /// The text under a key of an object.
    pub fn text_field(&self, key: &str) -> (r: Option<&str>)
        ensures
            match r {
                Some(s) => text_at(self@, key@) == Some(s@),
                None => text_at(self@, key@) is None,
            },
    {
        match self.get(key) {
            Some(v) => v.as_str(),
            None => None,
        }
    }

    /// The integer under a key of an object.
    pub fn integer_field(&self, key: &str) -> (r: Option<i64>)
        ensures
            r == integer_at(self@, key@),
    {
        match self.get(key) {
            Some(v) => v.as_i64(),
            None => None,
        }
    }

    /// A copy of a value.
    pub fn duplicate(&self) -> (r: Json)
        ensures
            r@ == self@,
        decreases self,
    {
        match self {
            Json::Null => Json::Null,
            Json::Bool(b) => Json::Bool(*b),
            Json::Unsigned(n) => Json::Unsigned(*n),
            Json::Negative(n) => Json::Negative(*n),
            Json::Real(bits) => Json::Real(*bits),
            Json::Text(s) => Json::Text(s.clone()),
            Json::List(v) => {
                let mut out: Vec<Json> = Vec::new();
                let mut i: usize = 0;
                while i < v.len()
                    invariant
                        i <= v@.len(),
                        *self == Json::List(*v),
                        list_view(out@) == list_view(v@.take(i as int)),
                    decreases v@.len() - i,
                {
                    let ghost before = out@;
                    proof {
                        assert(decreases_to!(self => self->List_0));
                        assert(decreases_to!(v => v@));
                        assert(decreases_to!(v@ => v@[i as int]));
                    }
                    let item = v[i].duplicate();
                    out.push(item);
                    proof {
                        assert(out@.drop_last() =~= before);
                        assert(v@.take(i + 1).drop_last() =~= v@.take(i as int));
                    }
                    i += 1;
                }
                proof {
                    assert(v@.take(i as int) =~= v@);
                }
                Json::List(out)
            },
            Json::Object(m) => {
                let mut out: Vec<(String, Json)> = Vec::new();
                let mut i: usize = 0;
                while i < m.entries.len()
                    invariant
                        i <= m.entries@.len(),
                        *self == Json::Object(*m),
                        object_view(out@) == object_view(m.entries@.take(i as int)),
                    decreases m.entries@.len() - i,
                {
                    let ghost before = out@;
                    proof {
                        assert(decreases_to!(self => self->Object_0));
                        assert(decreases_to!(m => m.entries));
                        assert(decreases_to!(m.entries => m.entries@));
                        assert(decreases_to!(m.entries@ => m.entries@[i as int]));
                        assert(decreases_to!(m.entries@[i as int] => m.entries@[i as int].1));
                    }
                    let item = m.entries[i].1.duplicate();
                    out.push((m.entries[i].0.clone(), item));
                    proof {
                        assert(out@.drop_last() =~= before);
                        assert(m.entries@.take(i + 1).drop_last() =~= m.entries@.take(i as int));
                    }
                    i += 1;
                }
                proof {
                    assert(m.entries@.take(i as int) =~= m.entries@);
                }
                Json::Object(StrMap { entries: out })
            },
        }
    }
}

/// A copy of a list of values.
pub fn copy_list(list: &Vec<Json>) -> (r: Vec<Json>)
    ensures
        list_view(r@) == list_view(list@),
{
    let mut out: Vec<Json> = Vec::new();
    let mut i: usize = 0;
    while i < list.len()
        invariant
            i <= list@.len(),
            list_view(out@) == list_view(list@.take(i as int)),
        decreases list@.len() - i,
    {
        let ghost before = out@;
        out.push(list[i].duplicate());
        proof {
            assert(out@.drop_last() =~= before);
            assert(list@.take(i + 1).drop_last() =~= list@.take(i as int));
        }
        i += 1;
    }
    proof {
        assert(list@.take(i as int) =~= list@);
    }
    out
}

/// The JSON text `s`.
pub fn text(s: &str) -> (r: Json)
    ensures
        r@ == JsonV::Text(s@),
{
    Json::Text(s.to_owned())
}

/// The JSON number `n`.
pub fn number(n: i64) -> (r: Json)
    ensures
        r@ == integer(n),
{
    if n < 0 {
        Json::Negative(n)
    } else {
        Json::Unsigned(n as u64)
    }
}

pub fn number_or_null(n: Option<i64>) -> (r: Json)
    ensures
        r@ == integer_or_null(n),
{
    match n {
        Some(v) => number(v),
        None => Json::Null,
    }
}

pub fn texts_to_json(list: &Vec<String>) -> (r: Json)
    ensures
        r@ == text_list(text::texts(list@)),
{
    let mut out: Vec<Json> = Vec::new();
    let mut i: usize = 0;
    while i < list.len()
        invariant
            i <= list@.len(),
            out@.len() == i,
            forall|j: int| 0 <= j < i ==> (#[trigger] out@[j])@ == JsonV::Text(list@[j]@),
        decreases list@.len() - i,
    {
        out.push(Json::Text(list[i].clone()));
        i += 1;
    }
    proof {
        list_view_index(out@);
        assert(list_view(out@) =~= Seq::new(
            text::texts(list@).len(),
            |j: int| JsonV::Text(text::texts(list@)[j]),
        ));
    }
    Json::List(out)
}

pub fn bools_to_json(list: &Vec<bool>) -> (r: Json)
    ensures
        r@ == bool_list(list@),
{
    let mut out: Vec<Json> = Vec::new();
    let mut i: usize = 0;
    while i < list.len()
        invariant
            i <= list@.len(),
            out@.len() == i,
            forall|j: int| 0 <= j < i ==> (#[trigger] out@[j])@ == JsonV::Bool(list@[j]),
        decreases list@.len() - i,
    {
        out.push(Json::Bool(list[i]));
        i += 1;
    }
    proof {
        list_view_index(out@);
        assert(list_view(out@) =~= Seq::new(list@.len(), |j: int| JsonV::Bool(list@[j])));
    }
    Json::List(out)
}

// ---------------------------------------------------------------------------
// Reading JSON text
// ---------------------------------------------------------------------------

/// `serde_json::Value`, the value that `serde_json` reads a JSON text into.
#[verifier::external_type_specification]
#[verifier::external_body]
pub struct ExValue(serde_json::Value);

/// What a `serde_json::Value` holds.
pub uninterp spec fn value_content(v: serde_json::Value) -> JsonV;

/// What `serde_json::from_str::<serde_json::Value>` makes of a text: the value, or the text of
/// its error.
pub uninterp spec fn json_of_text(s: Seq<char>) -> Result<JsonV, Seq<char>>;

/// `serde_json::from_str::<serde_json::Value>`. What it accepts is JSON and is not written out
/// here; the value or the error text depends on the text alone.
#[verifier::external_body]
fn read_value(s: &str) -> (r: Result<serde_json::Value, String>)
    ensures
        match r {
            Ok(v) => json_of_text(s@) == Ok::<JsonV, Seq<char>>(value_content(v)),
            Err(e) => json_of_text(s@) == Err::<JsonV, Seq<char>>(e@),
        },
{
    serde_json::from_str::<serde_json::Value>(s).map_err(|e| e.to_string())
}

/// The variants of `serde_json::Value`, taken over one for one.
#[verifier::external_body]
fn from_value(v: Value) -> (r: Json)
    ensures
        r@ == value_content(v),
{
    match v {
        Value::Null => Json::Null,
        Value::Bool(b) => Json::Bool(b),
        Value::Number(n) => match (n.as_u64(), n.as_i64()) {
            (Some(u), _) => Json::Unsigned(u),
            (_, Some(i)) => Json::Negative(i),
            _ => Json::Real(n.as_f64().map_or(0, |x| x.to_bits())),
        },
        Value::String(s) => Json::Text(s),
        Value::Array(a) => Json::List(a.into_iter().map(from_value).collect()),
        Value::Object(m) => Json::Object(
            StrMap { entries: m.into_iter().map(|(k, x)| (k, from_value(x))).collect() },
        ),
    }
}

pub open spec fn view_result(r: Result<Json, String>) -> Result<JsonV, Seq<char>> {
    match r {
        Ok(j) => Ok(j@),
        Err(e) => Err(e@),
    }
}

/// Reads a JSON text.
pub fn parse_json(s: &str) -> (r: Result<Json, String>)
    ensures
        view_result(r) == json_of_text(s@),
{
    match read_value(s) {
        Ok(v) => Ok(from_value(v)),
        Err(e) => Err(e),
    }
}

/// A number that is written is read back, as are texts, truth values and lists.
pub proof fn values_read_back(n: i64, s: Seq<char>, b: bool, texts: Seq<Seq<char>>, i: int)
    ensures
        integer(n).as_integer() == Some(n),
        integer(n).is_number(),
        n >= 0 ==> integer(n).as_unsigned() == Some(n as u64),
        n < 0 ==> integer(n).as_unsigned() is None,
        integer_or_null(Some(n)).as_integer() == Some(n),
        integer_or_null(None) is Null,
        JsonV::Text(s).as_text() == Some(s),
        JsonV::Bool(b).as_bool() == Some(b),
        text_list(texts).as_list() is Some,
        text_list(texts).as_list()->0.len() == texts.len(),
        0 <= i < texts.len() ==> text_list(texts).as_list()->0[i].as_text() == Some(texts[i]),
{
}

/// What is put under a key is found there, and what stands under the other keys stays.
pub proof fn fields_are_found(m: Map<Seq<char>, JsonV>, key: Seq<char>, v: JsonV, other: Seq<char>)
    ensures
        JsonV::Object(m.insert(key, v)).get(key) == Some(v),
        other != key ==> JsonV::Object(m.insert(key, v)).get(other) == JsonV::Object(m).get(other),
{
}

} // verus!
