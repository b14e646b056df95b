//! JSON values as the library holds them, and their mathematical view.
use vstd::prelude::*;

use crate::keyed::{entries_get, entries_insert, first_key_at, has_key, key_index, lemma_first_key};
use crate::text::{decimal, i64_to_decimal, signed_decimal, u64_to_decimal};

verus! {

/// A JSON number: a non-negative integer, a negative integer, or a float kept as the
/// text that represents it.
#[derive(Debug, PartialEq)]
pub enum JsonNumber {
    PosInt(u64),
    NegInt(i64),
    Float(String),
}

/// A JSON value. Object entries keep their order; a key is looked up at its first entry.
#[derive(Debug, PartialEq)]
pub enum Json {
    Null,
    Bool(bool),
    Number(JsonNumber),
    String(String),
    Array(Vec<Json>),
    Object(Vec<(String, Json)>),
}

/// The mathematical JSON value.
pub enum JsonV {
    Null,
    Bool(bool),
    PosInt(u64),
    NegInt(i64),
    Float(Seq<char>),
    Str(Seq<char>),
    Array(Seq<JsonV>),
    Object(Seq<(Seq<char>, JsonV)>),
}

impl Json {
    pub open spec fn view_json(self) -> JsonV
        decreases self,
    {
        match self {
            Json::Null => JsonV::Null,
            Json::Bool(b) => JsonV::Bool(b),
            Json::Number(JsonNumber::PosInt(n)) => JsonV::PosInt(n),
            Json::Number(JsonNumber::NegInt(n)) => JsonV::NegInt(n),
            Json::Number(JsonNumber::Float(s)) => JsonV::Float(s@),
            Json::String(s) => JsonV::Str(s@),
            Json::Array(items) => JsonV::Array(
                Seq::new(
                    items.len() as nat,
                    |i: int|
                        if 0 <= i < items.len() {
                            items@[i].view_json()
                        } else {
                            JsonV::Null
                        },
                ),
            ),
            Json::Object(entries) => JsonV::Object(
                Seq::new(
                    entries.len() as nat,
                    |i: int|
                        if 0 <= i < entries.len() {
                            (entries@[i].0@, entries@[i].1.view_json())
                        } else {
                            (Seq::empty(), JsonV::Null)
                        },
                ),
            ),
        }
    }
}

impl View for Json {
    type V = JsonV;

    open spec fn view(&self) -> JsonV {
        self.view_json()
    }
}

/// The view of a list of object entries.
pub open spec fn entries_view(e: Seq<(String, Json)>) -> Seq<(Seq<char>, JsonV)> {
    Seq::new(e.len(), |i: int| (e[i].0@, e[i].1@))
}

/// The view of a list of values.
pub open spec fn items_view(e: Seq<Json>) -> Seq<JsonV> {
    Seq::new(e.len(), |i: int| e[i]@)
}

pub proof fn lemma_object_view(entries: Vec<(String, Json)>)
    ensures
        Json::Object(entries)@ == JsonV::Object(entries_view(entries@)),
{
    assert(entries_view(entries@) =~= Json::Object(entries)@->Object_0);
}

pub proof fn lemma_array_view(items: Vec<Json>)
    ensures
        Json::Array(items)@ == JsonV::Array(items_view(items@)),
{
    assert(items_view(items@) =~= Json::Array(items)@->Array_0);
}

/// The view of `get(key)` on a value: only an object has entries.
pub open spec fn get_spec(v: JsonV, key: Seq<char>) -> Option<JsonV> {
    match v {
        JsonV::Object(e) => entries_get(e, key),
        _ => None,
    }
}

/// The string inside a value, if it is a string.
pub open spec fn as_str_spec(v: JsonV) -> Option<Seq<char>> {
    match v {
        JsonV::Str(s) => Some(s),
        _ => None,
    }
}

/// What `as_i64` gives: an integer that fits in `i64`.
pub open spec fn as_i64_spec(v: JsonV) -> Option<i64> {
    match v {
        JsonV::PosInt(n) => if n <= i64::MAX {
            Some(n as i64)
        } else {
            None
        },
        JsonV::NegInt(n) => Some(n),
        _ => None,
    }
}

pub open spec fn is_number_spec(v: JsonV) -> bool {
    v is PosInt || v is NegInt || v is Float
}

/// The text `Display` gives a number or a boolean (the scalars that are written bare).
pub open spec fn scalar_text(v: JsonV) -> Seq<char> {
    match v {
        JsonV::PosInt(n) => decimal(n as nat),
        JsonV::NegInt(n) => signed_decimal(n as int),
        JsonV::Float(s) => s,
        JsonV::Bool(b) => if b {
            "true"@
        } else {
            "false"@
        },
        _ => Seq::empty(),
    }
}

/// The `Debug` text of a scalar value, as it appears in messages.
pub open spec fn scalar_debug(v: JsonV) -> Seq<char> {
    match v {
        JsonV::Null => "Null"@,
        JsonV::Bool(b) => "Bool("@ + scalar_text(v) + ")"@,
        _ => "Number("@ + scalar_text(v) + ")"@,
    }
}

pub open spec fn empty_object() -> JsonV {
    JsonV::Object(Seq::empty())
}

impl Clone for JsonNumber {
    fn clone(&self) -> (r: Self)
        ensures
            r == *self,
    {
        match self {
            JsonNumber::PosInt(n) => JsonNumber::PosInt(*n),
            JsonNumber::NegInt(n) => JsonNumber::NegInt(*n),
            JsonNumber::Float(s) => JsonNumber::Float(s.clone()),
        }
    }
}

impl Json {
    pub fn null() -> (r: Json)
        ensures
            r@ == JsonV::Null,
    {
        Json::Null
    }

    pub fn empty_object() -> (r: Json)
        ensures
            r@ == empty_object(),
    {
        let v: Vec<(String, Json)> = Vec::new();
        proof {
            lemma_object_view(v);
            assert(entries_view(v@) =~= Seq::empty());
        }
        Json::Object(v)
    }

    pub fn from_str(s: &str) -> (r: Json)
        ensures
            r@ == JsonV::Str(s@),
    {
        Json::String(s.to_owned())
    }

    pub fn from_u64(n: u64) -> (r: Json)
        ensures
            r@ == JsonV::PosInt(n),
    {
        Json::Number(JsonNumber::PosInt(n))
    }

    /// An integer as serde_json holds it: non-negative values are unsigned.
    pub fn from_i64(n: i64) -> (r: Json)
        ensures
            r@ == (if n >= 0 {
                JsonV::PosInt(n as u64)
            } else {
                JsonV::NegInt(n)
            }),
    {
        if n >= 0 {
            Json::Number(JsonNumber::PosInt(n as u64))
        } else {
            Json::Number(JsonNumber::NegInt(n))
        }
    }

    pub fn deep_clone(&self) -> (r: Json)
        ensures
            r@ == self@,
        decreases self,
    {
        match self {
            Json::Null => Json::Null,
            Json::Bool(b) => Json::Bool(*b),
            Json::Number(n) => Json::Number(n.clone()),
            Json::String(s) => Json::String(s.clone()),
            Json::Array(items) => {
                let mut out: Vec<Json> = Vec::new();
                let mut i: usize = 0;
                while i < items.len()
                    invariant
                        *self == Json::Array(*items),
                        i <= items.len(),
                        out.len() == i,
                        forall|j: int| 0 <= j < i ==> (#[trigger] out@[j])@ == items@[j]@,
                    decreases items.len() - i,
                {
                    proof {
                        lemma_dec(*self, i as int);
                    }
                    let c = items[i].deep_clone();
                    out.push(c);
                    i = i + 1;
                }
                proof {
                    lemma_array_view(out);
                    lemma_array_view(*items);
                    assert(items_view(out@) =~= items_view(items@));
                }
                Json::Array(out)
            },
            Json::Object(entries) => {
                let mut out: Vec<(String, Json)> = Vec::new();
                let mut i: usize = 0;
                while i < entries.len()
                    invariant
                        *self == Json::Object(*entries),
                        i <= entries.len(),
                        out.len() == i,
                        forall|j: int|
                            0 <= j < i ==> (#[trigger] out@[j]).0@ == entries@[j].0@ && out@[j].1@
                                == entries@[j].1@,
                    decreases entries.len() - i,
                {
                    proof {
                        lemma_dec_entry(*self, i as int);
                    }
                    let c = entries[i].1.deep_clone();
                    out.push((entries[i].0.clone(), c));
                    i = i + 1;
                }
                proof {
                    lemma_object_view(out);
                    lemma_object_view(*entries);
                    assert(entries_view(out@) =~= entries_view(entries@));
                }
                Json::Object(out)
            },
        }
    }

    pub fn is_null(&self) -> (r: bool)
        ensures
            r == (self@ is Null),
    {
        match self {
            Json::Null => true,
            _ => false,
        }
    }

    pub fn is_object(&self) -> (r: bool)
        ensures
            r == (self@ is Object),
    {
        match self {
            Json::Object(_) => true,
            _ => false,
        }
    }

    pub fn is_number_or_bool(&self) -> (r: bool)
        ensures
            r == (is_number_spec(self@) || self@ is Bool),
    {
        match self {
            Json::Number(_) => true,
            Json::Bool(_) => true,
            _ => false,
        }
    }

    pub fn as_str(&self) -> (r: Option<&String>)
        ensures
            r.is_some() == as_str_spec(self@).is_some(),
            r matches Some(s) ==> s@ == as_str_spec(self@)->0,
    {
        match self {
            Json::String(s) => Some(s),
            _ => None,
        }
    }

    pub fn as_i64(&self) -> (r: Option<i64>)
        ensures
            r == as_i64_spec(self@),
    {
        match self {
            Json::Number(JsonNumber::PosInt(n)) => {
                if *n <= 9223372036854775807u64 {
                    Some(*n as i64)
                } else {
                    None
                }
            },
            Json::Number(JsonNumber::NegInt(n)) => Some(*n),
            _ => None,
        }
    }

    pub fn as_object(&self) -> (r: Option<&Vec<(String, Json)>>)
        ensures
            r.is_some() == (self@ is Object),
            r matches Some(e) ==> self@ == JsonV::Object(entries_view(e@)),
    {
        match self {
            Json::Object(e) => {
                proof {
                    lemma_object_view(*e);
                }
                Some(e)
            },
            _ => None,
        }
    }

    pub fn as_array(&self) -> (r: Option<&Vec<Json>>)
        ensures
            r.is_some() == (self@ is Array),
            r matches Some(e) ==> self@ == JsonV::Array(items_view(e@)),
    {
        match self {
            Json::Array(e) => {
                proof {
                    lemma_array_view(*e);
                }
                Some(e)
            },
            _ => None,
        }
    }

    /// The value at `key`, when this is an object that has it.
    pub fn get(&self, key: &str) -> (r: Option<&Json>)
        ensures
            r.is_some() == get_spec(self@, key@).is_some(),
            r matches Some(v) ==> v@ == get_spec(self@, key@)->0,
    {
        match self {
            Json::Object(e) => {
                proof {
                    lemma_object_view(*e);
                }
                match entries_find(e, key) {
                    Some(k) => Some(&e[k].1),
                    None => None,
                }
            },
            _ => None,
        }
    }

    /// `Display` text of a number or boolean.
    pub fn scalar_to_string(&self) -> (r: String)
        requires
            is_number_spec(self@) || self@ is Bool,
        ensures
            r@ == scalar_text(self@),
    {
        match self {
            Json::Number(JsonNumber::PosInt(n)) => u64_to_decimal(*n),
            Json::Number(JsonNumber::NegInt(n)) => i64_to_decimal(*n),
            Json::Number(JsonNumber::Float(s)) => s.clone(),
            Json::Bool(b) => if *b {
                "true".to_owned()
            } else {
                "false".to_owned()
            },
            _ => String::new(),
        }
    }

    /// `Debug` text of null, a number or a boolean.
    pub fn scalar_debug_string(&self) -> (r: String)
        requires
            is_number_spec(self@) || self@ is Bool || self@ is Null,
        ensures
            r@ == scalar_debug(self@),
    {
        match self {
            Json::Null => "Null".to_owned(),
            Json::Bool(_) => {
                let mut r = "Bool(".to_owned();
                let t = self.scalar_to_string();
                r.append(t.as_str());
                r.append(")");
                r
            },
            _ => {
                let mut r = "Number(".to_owned();
                let t = self.scalar_to_string();
                r.append(t.as_str());
                r.append(")");
                r
            },
        }
    }
}

/// Index of the first entry with key `key`.
pub fn entries_find(e: &Vec<(String, Json)>, key: &str) -> (r: Option<usize>)
    ensures
        r is None ==> !has_key(entries_view(e@), key@),
        r is None ==> entries_get(entries_view(e@), key@) is None,
        r matches Some(k) ==> first_key_at(entries_view(e@), key@, k as int) && k < e.len(),
        r matches Some(k) ==> entries_get(entries_view(e@), key@) == Some(e@[k as int].1@),
        r matches Some(k) ==> key_index(entries_view(e@), key@) == k,
{
    let ghost ev = entries_view(e@);
    let mut i: usize = 0;
    while i < e.len()
        invariant
            ev == entries_view(e@),
            i <= e.len(),
            forall|j: int| 0 <= j < i ==> ev[j].0 != key@,
        decreases e.len() - i,
    {
        if crate::text::str_eq(e[i].0.as_str(), key) {
            proof {
                lemma_first_key(ev, key@, i as int);
            }
            return Some(i);
        }
        i = i + 1;
    }
    proof {
        if has_key(ev, key@) {
            let k = choose|k: int| 0 <= k < ev.len() && #[trigger] ev[k].0 == key@;
            assert(ev[k].0 != key@);
        }
    }
    None
}

/// Sets `key` to `value` in an entry list.
pub fn entries_set(e: &mut Vec<(String, Json)>, key: String, value: Json)
    ensures
        entries_view(final(e)@) == entries_insert(entries_view(old(e)@), key@, value@),
{
    let ghost kv = key@;
    let ghost vv = value@;
    match entries_find(e, key.as_str()) {
        Some(k) => {
            e.set(k, (key, value));
            assert(entries_view(e@) =~= entries_view(old(e)@).update(k as int, (kv, vv)));
        },
        None => {
            e.push((key, value));
            assert(entries_view(e@) =~= entries_view(old(e)@).push((kv, vv)));
        },
    }
}

/// Sets `key` to `value` when `key` has no entry yet; otherwise leaves the entries as they are.
pub fn entries_set_default(e: &mut Vec<(String, Json)>, key: String, value: Json)
    ensures
        entries_view(final(e)@) == (if has_key(entries_view(old(e)@), key@) {
            entries_view(old(e)@)
        } else {
            entries_view(old(e)@).push((key@, value@))
        }),
{
    let ghost kv = key@;
    let ghost vv = value@;
    match entries_find(e, key.as_str()) {
        Some(_) => {},
        None => {
            e.push((key, value));
            assert(entries_view(e@) =~= entries_view(old(e)@).push((kv, vv)));
        },
    }
}

proof fn lemma_dec(j: Json, i: int)
    requires
        j is Array,
        0 <= i < j->Array_0.len(),
    ensures
        decreases_to!(j => j->Array_0@[i]),
{
    let v = j->Array_0;
    assert(decreases_to!(j => v));
    assert(decreases_to!(v => v@));
    assert(decreases_to!(v@ => v@[i]));
}

proof fn lemma_dec_entry(j: Json, i: int)
    requires
        j is Object,
        0 <= i < j->Object_0.len(),
    ensures
        decreases_to!(j => j->Object_0@[i].1),
{
    let v = j->Object_0;
    assert(decreases_to!(j => v));
    assert(decreases_to!(v => v@));
    assert(decreases_to!(v@ => v@[i]));
    assert(decreases_to!(v@[i] => v@[i].1));
}

} // verus!
