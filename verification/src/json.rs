//! A plain JSON value model. Status documents, chat descriptions and
//! disconnect reasons are carried as values of this type, so that the logic
//! that reads them is ordinary verified code; serde_json only parses text
//! into it at the trust boundary.

use vstd::prelude::*;

verus! {

/// A JSON document as plain values. Numbers are kept as their integral part;
/// the status fields this worker reads are all integral.
#[derive(Debug)]
pub enum Json {
    Null,
    Bool(bool),
    Int(i64),
    Str(String),
    Arr(Vec<Json>),
    Obj(Vec<(String, Json)>),
}

/// The mathematical shape of a JSON document: the same tree over sequences
/// and unbounded integers. `Json::view` abstracts a value to this shape.
pub enum JsonV {
    Null,
    Bool(bool),
    Int(int),
    Str(Seq<char>),
    Arr(Seq<JsonV>),
    Obj(Seq<(Seq<char>, JsonV)>),
}

/// The abstract shape of a JSON value.
pub open spec fn json_view(j: Json) -> JsonV
    decreases j, 1int,
{
    match j {
        Json::Null => JsonV::Null,
        Json::Bool(b) => JsonV::Bool(b),
        Json::Int(x) => JsonV::Int(x as int),
        Json::Str(s) => JsonV::Str(s@),
        Json::Arr(items) => JsonV::Arr(items_view(items@)),
        Json::Obj(fields) => JsonV::Obj(fields_view(fields@)),
    }
}

/// The abstract shapes of a list's elements, in order.
pub open spec fn items_view(items: Seq<Json>) -> Seq<JsonV>
    decreases items, 0int,
{
    Seq::new(
        items.len(),
        |i: int|
            if 0 <= i < items.len() {
                json_view(items[i])
            } else {
                JsonV::Null
            },
    )
}

/// The abstract shapes of an object's bindings, in order.
pub open spec fn fields_view(fields: Seq<(String, Json)>) -> Seq<(Seq<char>, JsonV)>
    decreases fields, 0int,
{
    Seq::new(
        fields.len(),
        |i: int|
            if 0 <= i < fields.len() {
                (fields[i].0@, json_view(fields[i].1))
            } else {
                (Seq::<char>::empty(), JsonV::Null)
            },
    )
}

impl View for Json {
    type V = JsonV;

    open spec fn view(&self) -> JsonV {
        json_view(*self)
    }
}

/// The first value bound to `key`, searching left to right.
pub open spec fn obj_lookup(fields: Seq<(String, Json)>, key: Seq<char>) -> Option<Json>
    decreases fields.len(),
{
    if fields.len() == 0 {
        None
    } else if fields[0].0@ == key {
        Some(fields[0].1)
    } else {
        obj_lookup(fields.skip(1), key)
    }
}

/// Look a key up in an object; `None` on any other shape or a missing key.
pub open spec fn json_get(j: Json, key: Seq<char>) -> Option<Json> {
    match j {
        Json::Obj(fields) => obj_lookup(fields@, key),
        _ => None,
    }
}

/// The first value bound to `key` at the abstract level.
pub open spec fn jv_lookup(fields: Seq<(Seq<char>, JsonV)>, key: Seq<char>) -> Option<JsonV>
    decreases fields.len(),
{
    if fields.len() == 0 {
        None
    } else if fields[0].0 == key {
        Some(fields[0].1)
    } else {
        jv_lookup(fields.skip(1), key)
    }
}

/// Look a key up in an abstract document.
pub open spec fn jv_get(j: JsonV, key: Seq<char>) -> Option<JsonV> {
    match j {
        JsonV::Obj(fields) => jv_lookup(fields, key),
        _ => None,
    }
}

/// A value and its abstract shape have the same top constructor.
pub proof fn lemma_view_shape(j: Json)
    ensures
        (j@ is Null <==> j is Null),
        (j@ is Bool <==> j is Bool),
        (j@ is Int <==> j is Int),
        (j@ is Str <==> j is Str),
        (j@ is Arr <==> j is Arr),
        (j@ is Obj <==> j is Obj),
{
    match j {
        Json::Null => {},
        Json::Bool(_) => {},
        Json::Int(_) => {},
        Json::Str(_) => {},
        Json::Arr(_) => {},
        Json::Obj(_) => {},
    }
}

/// Looking a key up commutes with abstraction.
pub proof fn lemma_obj_lookup_view(fields: Seq<(String, Json)>, key: Seq<char>)
    ensures
        match obj_lookup(fields, key) {
            Some(v) => jv_lookup(fields_view(fields), key) == Some(v@),
            None => jv_lookup(fields_view(fields), key) is None,
        },
    decreases fields.len(),
{
    if fields.len() > 0 {
        assert(fields_view(fields)[0] == (fields[0].0@, fields[0].1@));
        if fields[0].0@ != key {
            lemma_obj_lookup_view(fields.skip(1), key);
            assert(fields_view(fields).skip(1) =~= fields_view(fields.skip(1)));
        }
    }
}

/// `json_get` commutes with abstraction.
pub proof fn lemma_json_get_view(j: Json, key: Seq<char>)
    ensures
        match json_get(j, key) {
            Some(v) => jv_get(j@, key) == Some(v@),
            None => jv_get(j@, key) is None,
        },
{
    lemma_view_shape(j);
    match j {
        Json::Obj(fields) => {
            lemma_obj_lookup_view(fields@, key);
        },
        _ => {},
    }
}

/// Relies on str's PartialEq: string slices compare equal exactly when
/// their characters do.
#[verifier::external_body]
pub(crate) fn str_eq(a: &str, b: &str) -> (r: bool)
    ensures
        r == (a@ == b@),
{
    a == b
}

impl Json {
    /// Look `key` up in this value, if it is an object that binds it.
    pub fn get<'a>(&'a self, key: &str) -> (r: Option<&'a Json>)
        ensures
            match r {
                Some(v) => json_get(*self, key@) == Some(*v),
                None => json_get(*self, key@) is None,
            },
    {
        match self {
            Json::Obj(fields) => {
                let n = fields.len();
                let mut i: usize = 0;
                proof {
                    assert(fields@.skip(0) =~= fields@);
                }
                while i < n
                    invariant
                        0 <= i <= n,
                        n == fields@.len(),
                        json_get(*self, key@) == obj_lookup(fields@.skip(i as int), key@),
                    decreases n - i,
                {
                    proof {
                        assert(fields@.skip(i as int).skip(1) =~= fields@.skip(i as int + 1));
                        assert(fields@.skip(i as int)[0] == fields@[i as int]);
                    }
                    if str_eq(fields[i].0.as_str(), key) {
                        return Some(&fields[i].1);
                    }
                    i = i + 1;
                }
                None
            },
            _ => None,
        }
    }

    /// Whether this value is an object binding `key`.
    pub fn has(&self, key: &str) -> (r: bool)
        ensures
            r == (json_get(*self, key@) is Some),
    {
        self.get(key).is_some()
    }

    /// The string inside, if this is a string value.
    pub fn as_str<'a>(&'a self) -> (r: Option<&'a String>)
        ensures
            match *self {
                Json::Str(_) => r matches Some(s) && *self == Json::Str(*s),
                _ => r is None,
            },
    {
        match self {
            Json::Str(s) => Some(s),
            _ => None,
        }
    }

    /// The integer inside, if this is an integer value.
    pub fn as_int(&self) -> (r: Option<i64>)
        ensures
            match *self {
                Json::Int(x) => r == Some(x),
                _ => r is None,
            },
    {
        match self {
            Json::Int(x) => Some(*x),
            _ => None,
        }
    }

    /// The boolean inside, if this is a boolean value.
    pub fn as_bool(&self) -> (r: Option<bool>)
        ensures
            match *self {
                Json::Bool(b) => r == Some(b),
                _ => r is None,
            },
    {
        match self {
            Json::Bool(b) => Some(*b),
            _ => None,
        }
    }

    /// A fresh value with the same abstract shape.
    pub fn deep_copy(&self) -> (r: Json)
        ensures
            r@ == self@,
        decreases *self, 1int,
    {
        match self {
            Json::Null => Json::Null,
            Json::Bool(b) => Json::Bool(*b),
            Json::Int(x) => Json::Int(*x),
            Json::Str(s) => Json::Str(s.clone()),
            Json::Arr(items) => {
                let out = deep_copy_list(items);
                let r = Json::Arr(out);
                proof {
                    assert(r@ matches JsonV::Arr(a) && self@ matches JsonV::Arr(b) && a =~= b);
                }
                r
            },
            Json::Obj(fields) => {
                let out = deep_copy_fields(fields);
                let r = Json::Obj(out);
                proof {
                    assert(r@ matches JsonV::Obj(a) && self@ matches JsonV::Obj(b) && a =~= b);
                }
                r
            },
        }
    }

    /// The elements inside, if this is an array.
    pub fn as_arr<'a>(&'a self) -> (r: Option<&'a Vec<Json>>)
        ensures
            match *self {
                Json::Arr(_) => r matches Some(a) && *self == Json::Arr(*a),
                _ => r is None,
            },
    {
        match self {
            Json::Arr(a) => Some(a),
            _ => None,
        }
    }
}

/// Fresh copies of a list of values, shape for shape.
fn deep_copy_list(items: &Vec<Json>) -> (out: Vec<Json>)
    ensures
        out@.len() == items@.len(),
        forall|k: int| 0 <= k < items@.len() ==> (#[trigger] out@[k])@ == items@[k]@,
    decreases *items, 0int,
{
    let mut out: Vec<Json> = Vec::new();
    let n = items.len();
    let mut i: usize = 0;
    while i < n
        invariant
            0 <= i <= n,
            n == items@.len(),
            out@.len() == i,
            forall|k: int| 0 <= k < i ==> (#[trigger] out@[k])@ == items@[k]@,
        decreases n - i,
    {
        let piece = items[i].deep_copy();
        out.push(piece);
        i = i + 1;
    }
    out
}

/// Fresh copies of an object's bindings, key and shape for key and shape.
fn deep_copy_fields(fields: &Vec<(String, Json)>) -> (out: Vec<(String, Json)>)
    ensures
        out@.len() == fields@.len(),
        forall|k: int|
            0 <= k < fields@.len() ==> (#[trigger] out@[k]).0@ == fields@[k].0@ && out@[k].1@
                == fields@[k].1@,
    decreases *fields, 0int,
{
    let mut out: Vec<(String, Json)> = Vec::new();
    let n = fields.len();
    let mut i: usize = 0;
    while i < n
        invariant
            0 <= i <= n,
            n == fields@.len(),
            out@.len() == i,
            forall|k: int|
                0 <= k < i ==> (#[trigger] out@[k]).0@ == fields@[k].0@ && out@[k].1@
                    == fields@[k].1@,
        decreases n - i,
    {
        let key = fields[i].0.clone();
        let val = fields[i].1.deep_copy();
        out.push((key, val));
        i = i + 1;
    }
    out
}

#[verifier::external_type_specification]
#[verifier::external_body]
pub struct ExValue(serde_json::Value);

/// What serde_json's parse yields for given text, rebuilt as the plain
/// model's abstract shape: a function of the input characters alone, `None`
/// exactly on text serde_json rejects.
pub uninterp spec fn parse_of(s: Seq<char>) -> Option<JsonV>;

/// A disconnect reason as stored: the parsed document when the text is
/// JSON, and otherwise a JSON string holding the raw text.
pub open spec fn reason_of(s: Seq<char>) -> JsonV {
    match parse_of(s) {
        Some(v) => v,
        None => JsonV::Str(s),
    }
}

/// Relies on serde_json::Value's variants: rebuilds the tree as plain values,
/// one arm for each variant. A number is carried as its i64 value; one that
/// i64 cannot represent (a float or an out-of-range integer) is carried
/// as 0. No field this worker reads can hold such a number.
#[verifier::external_body]
fn json_of_value(v: &serde_json::Value) -> (r: Json) {
    match v {
        serde_json::Value::Null => Json::Null,
        serde_json::Value::Bool(b) => Json::Bool(*b),
        serde_json::Value::Number(n) => Json::Int(n.as_i64().unwrap_or(0)),
        serde_json::Value::String(s) => Json::Str(s.clone()),
        serde_json::Value::Array(a) => Json::Arr(a.iter().map(json_of_value).collect()),
        serde_json::Value::Object(o) => Json::Obj(
            o.iter().map(|(k, x)| (k.clone(), json_of_value(x))).collect(),
        ),
    }
}

/// Parse a JSON document into the plain model. Relies on serde_json::from_str
/// (deterministic in its input text; fails exactly on text that is not
/// JSON): the result is the named parse of the input, `None` exactly when
/// the name is.
#[verifier::external_body]
pub fn parse_json(s: &str) -> (r: Option<Json>)
    ensures
        match r {
            Some(j) => parse_of(s@) == Some(j@),
            None => parse_of(s@) is None,
        },
{
    match serde_json::from_str::<serde_json::Value>(s) {
        Ok(v) => Some(json_of_value(&v)),
        Err(_) => None,
    }
}

/// A disconnect reason as stored: the parsed JSON document, falling back to a
/// JSON string holding the raw text.
pub fn reason_json(reason: String) -> (r: Json)
    ensures
        r@ == reason_of(reason@),
{
    match parse_json(reason.as_str()) {
        Some(j) => j,
        None => Json::Str(reason),
    }
}

} // verus!
