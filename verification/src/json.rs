//! JSON values as the library builds and reads them.
//!
//! Objects keep their members in the order they were built; a key occurs at
//! most once in objects the library builds. Numbers are integers, or the
//! decimal text of a finite floating-point number.
use vstd::prelude::*;
use crate::text::{chars_of, owned, str_eq, vec_eq};

verus! {

broadcast use vstd::string::group_string_axioms;

/// Mathematical model of a JSON value.
pub enum JsonV {
    Null,
    Bool(bool),
    Int(int),
    Float(Seq<char>),
    Str(Seq<char>),
    Array(Seq<JsonV>),
    Object(Seq<(Seq<char>, JsonV)>),
}

/// A JSON value.
#[derive(Debug, PartialEq)]
pub enum Json {
    Null,
    Bool(bool),
    Int(i128),
    /// A finite non-integer number, as its decimal text.
    Float(String),
    Str(String),
    Array(Vec<Json>),
    Object(Vec<(String, Json)>),
}

impl View for Json {
    type V = JsonV;

    open spec fn view(&self) -> JsonV
        decreases self,
    {
        match self {
            Json::Null => JsonV::Null,
            Json::Bool(b) => JsonV::Bool(*b),
            Json::Int(n) => JsonV::Int(*n as int),
            Json::Float(s) => JsonV::Float(s@),
            Json::Str(s) => JsonV::Str(s@),
            Json::Array(v) => JsonV::Array(
                Seq::new(
                    v.len() as nat,
                    |i: int|
                        if 0 <= i < v.len() {
                            v@[i].view()
                        } else {
                            JsonV::Null
                        },
                ),
            ),
            Json::Object(v) => JsonV::Object(
                Seq::new(
                    v.len() as nat,
                    |i: int|
                        if 0 <= i < v.len() {
                            (v@[i].0@, v@[i].1.view())
                        } else {
                            (Seq::empty(), JsonV::Null)
                        },
                ),
            ),
        }
    }
}

// ─── Spec vocabulary ────────────────────────────────────────────────────────

/// Position of the first member named `k`, or `-1`.
pub open spec fn member_pos(fields: Seq<(Seq<char>, JsonV)>, k: Seq<char>) -> int
    decreases fields.len(),
{
    if fields.len() == 0 {
        -1
    } else if fields[0].0 == k {
        0
    } else {
        let r = member_pos(fields.drop_first(), k);
        if r < 0 {
            -1
        } else {
            r + 1
        }
    }
}

/// The member named `k` of an object; `None` for a missing member or a non-object.
pub open spec fn jget(v: JsonV, k: Seq<char>) -> Option<JsonV> {
    match v {
        JsonV::Object(fields) => if member_pos(fields, k) >= 0 {
            Some(fields[member_pos(fields, k)].1)
        } else {
            None
        },
        _ => None,
    }
}

/// `jget` lifted to an optional value.
pub open spec fn jget_opt(v: Option<JsonV>, k: Seq<char>) -> Option<JsonV> {
    match v {
        Some(x) => jget(x, k),
        None => None,
    }
}

/// The text of a string value.
pub open spec fn jstr(v: Option<JsonV>) -> Option<Seq<char>> {
    match v {
        Some(JsonV::Str(s)) => Some(s),
        _ => None,
    }
}

/// The elements of an array value.
pub open spec fn jarray(v: Option<JsonV>) -> Option<Seq<JsonV>> {
    match v {
        Some(JsonV::Array(a)) => Some(a),
        _ => None,
    }
}

/// The truth value of a boolean value.
pub open spec fn jbool(v: Option<JsonV>) -> Option<bool> {
    match v {
        Some(JsonV::Bool(b)) => Some(b),
        _ => None,
    }
}

pub proof fn lemma_member_pos(fields: Seq<(Seq<char>, JsonV)>, k: Seq<char>)
    ensures
        -1 <= member_pos(fields, k) < fields.len(),
        member_pos(fields, k) >= 0 ==> fields[member_pos(fields, k)].0 == k,
        member_pos(fields, k) == -1 <==> (forall|i: int| 0 <= i < fields.len() ==> fields[i].0 != k),
        member_pos(fields, k) >= 0 ==> (forall|i: int| 0 <= i < member_pos(fields, k) ==> fields[i].0 != k),
    decreases fields.len(),
{
    if fields.len() > 0 && fields[0].0 != k {
        let t = fields.drop_first();
        lemma_member_pos(t, k);
        assert forall|i: int| 1 <= i < fields.len() implies fields[i] == t[i - 1] by {}
        if member_pos(t, k) == -1 {
            assert forall|i: int| 0 <= i < fields.len() implies fields[i].0 != k by {
                if i > 0 {
                    assert(fields[i] == t[i - 1]);
                }
            }
        } else {
            assert forall|i: int| 0 <= i < member_pos(fields, k) implies fields[i].0 != k by {
                if i > 0 {
                    assert(fields[i] == t[i - 1]);
                }
            }
        }
    }
}

// ─── Building ───────────────────────────────────────────────────────────────

impl Json {
    /// A string value.
    pub fn str_of(s: &str) -> (r: Json)
        ensures
            r@ == JsonV::Str(s@),
    {
        Json::Str(owned(s))
    }

    /// An empty object.
    pub fn empty_object() -> (r: Json)
        ensures
            r@ == JsonV::Object(Seq::empty()),
    {
        let r = Json::Object(Vec::new());
        assert(r@ =~= JsonV::Object(Seq::empty())) by {
            reveal_with_fuel(<Json as View>::view, 2);
            if let JsonV::Object(a) = r@ {
                assert(a =~= Seq::empty());
            }
        }
        r
    }

    /// An empty array.
    pub fn empty_array() -> (r: Json)
        ensures
            r@ == JsonV::Array(Seq::empty()),
    {
        let r = Json::Array(Vec::new());
        assert(r@ =~= JsonV::Array(Seq::empty())) by {
            reveal_with_fuel(<Json as View>::view, 2);
            if let JsonV::Array(a) = r@ {
                assert(a =~= Seq::empty());
            }
        }
        r
    }

    /// A deep copy.
    pub fn deep_clone(&self) -> (r: Json)
        ensures
            r@ == self@,
        decreases self@,
    {
        match self {
            Json::Null => Json::Null,
            Json::Bool(b) => Json::Bool(*b),
            Json::Int(n) => Json::Int(*n),
            Json::Float(s) => Json::Float(s.clone()),
            Json::Str(s) => Json::Str(s.clone()),
            Json::Array(v) => {
                let mut out: Vec<Json> = Vec::new();
                let mut i: usize = 0;
                proof {
                    reveal_with_fuel(<Json as View>::view, 2);
                }
                while i < v.len()
                    invariant
                        i <= v.len(),
                        self@ is Array,
                        self@->Array_0.len() == v.len(),
                        forall|j: int| 0 <= j < v.len() ==> #[trigger] self@->Array_0[j] == v@[j]@,
                        out.len() == i,
                        forall|j: int| 0 <= j < i ==> (#[trigger] out@[j])@ == v@[j]@,
                    decreases v.len() - i,
                {
                    proof {
                        assert(self@->Array_0[i as int] == v@[i as int]@);
                        assert(decreases_to!(self@ => self@->Array_0));
                        assert(decreases_to!(self@->Array_0 => self@->Array_0[i as int]));
                    }
                    out.push(v[i].deep_clone());
                    i = i + 1;
                }
                let r = Json::Array(out);
                assert(r@ =~= self@) by {
                    reveal_with_fuel(<Json as View>::view, 2);
                    if let JsonV::Array(a) = r@ {
                        if let JsonV::Array(b) = self@ {
                            assert(a =~= b);
                        }
                    }
                }
                r
            },
            Json::Object(v) => {
                let mut out: Vec<(String, Json)> = Vec::new();
                let mut i: usize = 0;
                proof {
                    reveal_with_fuel(<Json as View>::view, 2);
                }
                while i < v.len()
                    invariant
                        i <= v.len(),
                        self@ is Object,
                        self@->Object_0.len() == v.len(),
                        forall|j: int| 0 <= j < v.len() ==> #[trigger] self@->Object_0[j] == (v@[j].0@, v@[j].1@),
                        out.len() == i,
                        forall|j: int|
                            0 <= j < i ==> (#[trigger] out@[j]).0@ == v@[j].0@ && out@[j].1@
                                == v@[j].1@,
                    decreases v.len() - i,
                {
                    proof {
                        assert(self@->Object_0[i as int].1 == v@[i as int].1@);
                        assert(decreases_to!(self@ => self@->Object_0));
                        assert(decreases_to!(self@->Object_0 => self@->Object_0[i as int]));
                        assert(decreases_to!(self@->Object_0[i as int] => self@->Object_0[i as int].1));
                    }
                    out.push((v[i].0.clone(), v[i].1.deep_clone()));
                    i = i + 1;
                }
                let r = Json::Object(out);
                assert(r@ =~= self@) by {
                    reveal_with_fuel(<Json as View>::view, 2);
                    if let JsonV::Object(a) = r@ {
                        if let JsonV::Object(b) = self@ {
                            assert(a =~= b);
                        }
                    }
                }
                r
            },
        }
    }

    // ─── Reading ────────────────────────────────────────────────────────────

    /// The member named `key` of an object.
    pub fn get(&self, key: &str) -> (r: Option<&Json>)
        ensures
            match r {
                Some(x) => jget(self@, key@) == Some(x@),
                None => jget(self@, key@) is None,
            },
    {
        match self {
            Json::Object(fields) => {
                let kv = chars_of(key);
                let ghost fv = self@->Object_0;
                proof {
                    reveal_with_fuel(<Json as View>::view, 2);
                    lemma_member_pos(fv, key@);
                    assert forall|j: int| 0 <= j < fields.len() implies #[trigger] fv[j] == (
                        fields@[j].0@,
                        fields@[j].1@,
                    ) by {}
                }
                let mut i: usize = 0;
                while i < fields.len()
                    invariant
                        i <= fields.len(),
                        kv@ == key@,
                        fv.len() == fields.len(),
                        forall|j: int| 0 <= j < fields.len() ==> #[trigger] fv[j] == (
                            fields@[j].0@,
                            fields@[j].1@,
                        ),
                        forall|j: int| 0 <= j < i ==> fv[j].0 != key@,
                        self@ == JsonV::Object(fv),
                        -1 <= member_pos(fv, key@) < fv.len(),
                        member_pos(fv, key@) >= 0 ==> fv[member_pos(fv, key@)].0 == key@,
                        member_pos(fv, key@) == -1 <==> (forall|j: int|
                            0 <= j < fv.len() ==> fv[j].0 != key@),
                        member_pos(fv, key@) >= 0 ==> (forall|j: int|
                            0 <= j < member_pos(fv, key@) ==> fv[j].0 != key@),
                    decreases fields.len() - i,
                {
                    if vec_eq(&chars_of(fields[i].0.as_str()), &kv) {
                        assert(fv[i as int].0 == key@);
                        assert(member_pos(fv, key@) == i);
                        return Some(&fields[i].1);
                    }
                    i = i + 1;
                }
                None
            },
            _ => None,
        }
    }

    /// The text of a string value.
    pub fn as_str(&self) -> (r: Option<&String>)
        ensures
            match r {
                Some(s) => self@ == JsonV::Str(s@),
                None => !(self@ is Str),
            },
    {
        match self {
            Json::Str(s) => Some(s),
            _ => None,
        }
    }

    /// The truth value of a boolean value.
    pub fn as_bool(&self) -> (r: Option<bool>)
        ensures
            r == jbool(Some(self@)),
    {
        match self {
            Json::Bool(b) => Some(*b),
            _ => None,
        }
    }

    /// The elements of an array value.
    pub fn as_array(&self) -> (r: Option<&Vec<Json>>)
        ensures
            match r {
                Some(v) => self@ is Array && self@->Array_0.len() == v.len() && forall|j: int|
                    0 <= j < v.len() ==> #[trigger] self@->Array_0[j] == v@[j]@,
                None => !(self@ is Array),
            },
    {
        match self {
            Json::Array(v) => Some(v),
            _ => None,
        }
    }

    pub fn is_null(&self) -> (r: bool)
        ensures
            r == (self@ is Null),
    {
        match self {
            Json::Null => true,
            _ => false,
        }
    }

    pub fn is_object(&self) -> (r: bool)
        ensures
            r == (self@ is Object),
    {
        match self {
            Json::Object(_) => true,
            _ => false,
        }
    }

    /// Is this the string `s`?
    pub fn is_str_eq(&self, s: &str) -> (r: bool)
        ensures
            r == (self@ == JsonV::Str(s@)),
    {
        match self {
            Json::Str(x) => str_eq(x.as_str(), s),
            _ => false,
        }
    }
}

/// An object member.
pub fn member(key: &str, value: Json) -> (r: (String, Json))
    ensures
        r.0@ == key@,
        r.1@ == value@,
{
    (owned(key), value)
}

/// The model of an object built from members.
pub open spec fn fields_view(v: Seq<(String, Json)>) -> Seq<(Seq<char>, JsonV)> {
    Seq::new(v.len(), |i: int| (v[i].0@, v[i].1@))
}

/// An object with the given members, in order.
pub fn object(fields: Vec<(String, Json)>) -> (r: Json)
    ensures
        r@ == JsonV::Object(fields_view(fields@)),
{
    let ghost f = fields@;
    let r = Json::Object(fields);
    assert(r@ =~= JsonV::Object(fields_view(f))) by {
        reveal_with_fuel(<Json as View>::view, 2);
        if let JsonV::Object(a) = r@ {
            assert(a =~= fields_view(f));
        }
    }
    r
}

/// The model of an array built from elements.
pub open spec fn elems_view(v: Seq<Json>) -> Seq<JsonV> {
    Seq::new(v.len(), |i: int| v[i]@)
}

/// An array with the given elements, in order.
pub fn array(elems: Vec<Json>) -> (r: Json)
    ensures
        r@ == JsonV::Array(elems_view(elems@)),
{
    let ghost e = elems@;
    let r = Json::Array(elems);
    assert(r@ =~= JsonV::Array(elems_view(e))) by {
        reveal_with_fuel(<Json as View>::view, 2);
        if let JsonV::Array(a) = r@ {
            assert(a =~= elems_view(e));
        }
    }
    r
}

// ─── Reading JSON text ──────────────────────────────────────────────────────

#[verifier::external_type_specification]
#[verifier::external_body]
pub struct ExSerdeValue(serde_json::Value);

/// What `serde_json::from_str::<serde_json::Value>` reads from a text: the
/// value, or the text of its syntax error.
pub uninterp spec fn json_text_reading(text: Seq<char>) -> Result<JsonV, Seq<char>>;

/// The library's value for a `serde_json::Value`, one for one: integers that
/// fit `i64` or `u64` as integers, other numbers as their decimal text,
/// object members in the order the value holds them.
#[verifier::external_body]
pub(crate) fn json_of_value(v: &serde_json::Value) -> Json {
    match v {
        serde_json::Value::Null => Json::Null,
        serde_json::Value::Bool(b) => Json::Bool(*b),
        serde_json::Value::Number(n) => match n.as_i128() {
            Some(i) => Json::Int(i),
            None => Json::Float(n.to_string()),
        },
        serde_json::Value::String(t) => Json::Str(t.clone()),
        serde_json::Value::Array(a) => Json::Array(a.iter().map(json_of_value).collect()),
        serde_json::Value::Object(o) => Json::Object(o.iter().map(|(k, x)| (k.clone(), json_of_value(x))).collect()),
    }
}

/// Reads JSON text with `serde_json::from_str`: the value, or the text of
/// the syntax error. The contract names the reading `json_text_reading`.
#[verifier::external_body]
pub fn parse_json_text(text: &str) -> (r: Result<Json, String>)
    ensures
        match r {
            Ok(j) => json_text_reading(text@) == Ok::<JsonV, Seq<char>>(j@),
            Err(e) => json_text_reading(text@) == Err::<JsonV, Seq<char>>(e@),
        },
{
    match serde_json::from_str::<serde_json::Value>(text) {
        Ok(v) => Ok(json_of_value(&v)),
        Err(e) => Err(e.to_string()),
    }
}

} // verus!
