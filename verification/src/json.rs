//! A model of JSON values. The protocol logic (envelope construction and
//! dispatch, event classification, result post-processing) is written and
//! verified against this type; only the conversion between its values and
//! JSON text goes through `serde_json`.

use serde_json::Value;
use vstd::prelude::*;

verus! {

/// The mathematical shape of a JSON value, used in specifications.
pub enum JsonView {
    Null,
    Bool(bool),
    Int(i64),
    Num(Seq<char>),
    Str(Seq<char>),
    Arr(Seq<JsonView>),
    Obj(Seq<(Seq<char>, JsonView)>),
}

/// A JSON value. Numbers that fit in `i64` are `Int`; any other numeric
/// literal is kept as its decimal text in `Num`.
#[derive(Debug)]
pub enum JsonVal {
    Null,
    Bool(bool),
    Int(i64),
    Num(String),
    Str(String),
    Arr(Vec<JsonVal>),
    Obj(Vec<(String, JsonVal)>),
}

/// The shapes of the elements of a JSON array.
pub open spec fn arr_views(s: Seq<JsonVal>) -> Seq<JsonView>
    decreases s,
{
    if s.len() == 0 {
        Seq::empty()
    } else {
        seq![s[0]@] + arr_views(s.drop_first())
    }
}

/// The shapes of the fields of a JSON object.
pub open spec fn obj_views(s: Seq<(String, JsonVal)>) -> Seq<(Seq<char>, JsonView)>
    decreases s,
{
    if s.len() == 0 {
        Seq::empty()
    } else {
        seq![(s[0].0@, s[0].1@)] + obj_views(s.drop_first())
    }
}

impl View for JsonVal {
    type V = JsonView;

    open spec fn view(&self) -> JsonView
        decreases self,
    {
        match self {
            JsonVal::Null => JsonView::Null,
            JsonVal::Bool(b) => JsonView::Bool(*b),
            JsonVal::Int(i) => JsonView::Int(*i),
            JsonVal::Num(s) => JsonView::Num(s@),
            JsonVal::Str(s) => JsonView::Str(s@),
            JsonVal::Arr(a) => JsonView::Arr(arr_views(a@)),
            JsonVal::Obj(o) => JsonView::Obj(obj_views(o@)),
        }
    }
}

pub broadcast proof fn lemma_arr_views_len(s: Seq<JsonVal>)
    ensures
        (#[trigger] arr_views(s)).len() == s.len(),
    decreases s,
{
    if s.len() != 0 {
        lemma_arr_views_len(s.drop_first());
        assert(arr_views(s) == seq![s[0]@] + arr_views(s.drop_first()));
    } else {
        assert(arr_views(s) == Seq::<JsonView>::empty());
    }
}

pub broadcast proof fn lemma_arr_views_index(s: Seq<JsonVal>, i: int)
    requires
        0 <= i < s.len(),
    ensures
        #[trigger] arr_views(s)[i] == s[i]@,
    decreases s,
{
    lemma_arr_views_len(s.drop_first());
    assert(arr_views(s) == seq![s[0]@] + arr_views(s.drop_first()));
    if i > 0 {
        lemma_arr_views_index(s.drop_first(), i - 1);
        assert(arr_views(s)[i] == arr_views(s.drop_first())[i - 1]);
    }
}

pub broadcast proof fn lemma_obj_views_len(s: Seq<(String, JsonVal)>)
    ensures
        (#[trigger] obj_views(s)).len() == s.len(),
    decreases s,
{
    if s.len() != 0 {
        lemma_obj_views_len(s.drop_first());
        assert(obj_views(s) == seq![(s[0].0@, s[0].1@)] + obj_views(s.drop_first()));
    } else {
        assert(obj_views(s) == Seq::<(Seq<char>, JsonView)>::empty());
    }
}

pub broadcast proof fn lemma_obj_views_index(s: Seq<(String, JsonVal)>, i: int)
    requires
        0 <= i < s.len(),
    ensures
        #[trigger] obj_views(s)[i] == (s[i].0@, s[i].1@),
    decreases s,
{
    lemma_obj_views_len(s.drop_first());
    assert(obj_views(s) == seq![(s[0].0@, s[0].1@)] + obj_views(s.drop_first()));
    if i > 0 {
        lemma_obj_views_index(s.drop_first(), i - 1);
        assert(obj_views(s)[i] == obj_views(s.drop_first())[i - 1]);
    }
}

/// The pointwise characterisation of the views of arrays and objects.
pub broadcast group group_json_views {
    lemma_arr_views_len,
    lemma_arr_views_index,
    lemma_obj_views_len,
    lemma_obj_views_index,
}

/// First entry of `fields` whose key is `key`, searching from the front.
pub open spec fn obj_lookup(fields: Seq<(Seq<char>, JsonView)>, key: Seq<char>) -> Option<
    JsonView,
>
    decreases fields.len(),
{
    if fields.len() == 0 {
        None
    } else if fields[0].0 == key {
        Some(fields[0].1)
    } else {
        obj_lookup(fields.drop_first(), key)
    }
}

/// Field lookup on a JSON value: a key's value in an object, `None` on
/// anything else.
pub open spec fn spec_get(v: JsonView, key: Seq<char>) -> Option<JsonView> {
    match v {
        JsonView::Obj(fields) => obj_lookup(fields, key),
        _ => None,
    }
}

/// Whether `v` is a JSON string equal to `s`.
pub open spec fn is_str(v: JsonView, s: Seq<char>) -> bool {
    v == JsonView::Str(s)
}

/// If no entry before index `i` matches `key`, the lookup over the whole
/// field list equals the lookup over the tail starting at `i`.
pub proof fn lemma_obj_lookup_skip_pub(fields: Seq<(Seq<char>, JsonView)>, key: Seq<char>, i: int)
    requires
        0 <= i <= fields.len(),
        forall|j: int| 0 <= j < i ==> #[trigger] fields[j].0 != key,
    ensures
        obj_lookup(fields, key) == obj_lookup(fields.skip(i), key),
    decreases i,
{
    if i > 0 {
        assert(fields[0].0 != key);
        lemma_obj_lookup_skip_pub(fields.drop_first(), key, i - 1);
        assert(fields.drop_first().skip(i - 1) =~= fields.skip(i));
    } else {
        assert(fields.skip(0) =~= fields);
    }
}

/// Whether two string slices hold the same characters.
pub fn str_eq(a: &str, b: &str) -> (r: bool)
    ensures
        r == (a@ == b@),
{
    let x: String = a.to_owned();
    let y: String = b.to_owned();
    x == y
}

impl JsonVal {
    /// The value under `key` if this is an object with such a field.
    pub fn get<'a>(&'a self, key: &str) -> (r: Option<&'a JsonVal>)
        ensures
            match spec_get(self@, key@) {
                Some(j) => r matches Some(x) && x@ == j,
                None => r is None,
            },
    {
        broadcast use group_json_views;

        match self {
            JsonVal::Obj(fields) => {
                let ghost fs = obj_views(fields@);
                let n = fields.len();
                for i in 0..n
                    invariant
                        n == fields.len(),
                        fs == obj_views(fields@),
                        fs.len() == n,
                        forall|j: int| 0 <= j < n ==> fs[j] == (fields@[j].0@, fields@[j].1@),
                        forall|j: int| 0 <= j < i ==> #[trigger] fs[j].0 != key@,
                        spec_get(self@, key@) == obj_lookup(fs, key@),
                {
                    if str_eq(fields[i].0.as_str(), key) {
                        proof {
                            lemma_obj_lookup_skip_pub(fs, key@, i as int);
                            assert(fs.skip(i as int)[0] == fs[i as int]);
                        }
                        return Some(&fields[i].1);
                    }
                }
                proof {
                    lemma_obj_lookup_skip_pub(fs, key@, n as int);
                }
                None
            },
            _ => None,
        }
    }

    /// The characters of this value if it is a JSON string.
    pub fn as_str<'a>(&'a self) -> (r: Option<&'a String>)
        ensures
            match r {
                Some(s) => self@ == JsonView::Str(s@),
                None => !(self@ is Str),
            },
    {
        match self {
            JsonVal::Str(s) => Some(s),
            _ => None,
        }
    }

    /// Whether this value is an object.
    pub fn is_object(&self) -> (r: bool)
        ensures
            r == (self@ is Obj),
    {
        matches!(self, JsonVal::Obj(_))
    }

    /// Whether this value is an array.
    pub fn is_array(&self) -> (r: bool)
        ensures
            r == (self@ is Arr),
    {
        matches!(self, JsonVal::Arr(_))
    }

    /// Whether this value is a string, a boolean or a number.
    pub fn is_scalar(&self) -> (r: bool)
        ensures
            r == (self@ is Str || self@ is Bool || self@ is Int || self@ is Num),
    {
        matches!(
            self,
            JsonVal::Str(_) | JsonVal::Bool(_) | JsonVal::Int(_) | JsonVal::Num(_)
        )
    }

    /// Whether this value is the JSON string `s`.
    pub fn str_is(&self, s: &str) -> (r: bool)
        ensures
            r == is_str(self@, s@),
    {
        match self {
            JsonVal::Str(t) => str_eq(t.as_str(), s),
            _ => false,
        }
    }

    /// A structurally equal copy of this value.
    pub fn clone_val(&self) -> (r: JsonVal)
        ensures
            r@ == self@,
        decreases self,
    {
        broadcast use group_json_views;

        match self {
            JsonVal::Null => JsonVal::Null,
            JsonVal::Bool(b) => JsonVal::Bool(*b),
            JsonVal::Int(i) => JsonVal::Int(*i),
            JsonVal::Num(s) => JsonVal::Num(s.clone()),
            JsonVal::Str(s) => JsonVal::Str(s.clone()),
            JsonVal::Arr(a) => {
                let mut out: Vec<JsonVal> = Vec::new();
                let n = a.len();
                for i in 0..n
                    invariant
                        *self is Arr,
                        self->Arr_0 == *a,
                        n == a.len(),
                        out@.len() == i,
                        forall|j: int| 0 <= j < i ==> #[trigger] out@[j]@ == a@[j]@,
                {
                    proof {
                        assert(decreases_to!(*self => self->Arr_0));
                        assert(decreases_to!(self->Arr_0 => self->Arr_0@));
                        assert(decreases_to!(self->Arr_0@ => self->Arr_0@[i as int]));
                        assert(decreases_to!(*self => a@[i as int]));
                    }
                    let c = a[i].clone_val();
                    out.push(c);
                }
                let r = JsonVal::Arr(out);
                proof {
                    assert(arr_views(out@) =~= arr_views(a@));
                }
                r
            },
            JsonVal::Obj(o) => {
                let mut out: Vec<(String, JsonVal)> = Vec::new();
                let n = o.len();
                for i in 0..n
                    invariant
                        *self is Obj,
                        self->Obj_0 == *o,
                        n == o.len(),
                        out@.len() == i,
                        forall|j: int| 0 <= j < i ==> #[trigger] out@[j].0@ == o@[j].0@,
                        forall|j: int| 0 <= j < i ==> #[trigger] out@[j].1@ == o@[j].1@,
                {
                    proof {
                        assert(decreases_to!(*self => self->Obj_0));
                        assert(decreases_to!(self->Obj_0 => self->Obj_0@));
                        assert(decreases_to!(self->Obj_0@ => self->Obj_0@[i as int]));
                        assert(decreases_to!(self->Obj_0@[i as int] => self->Obj_0@[i as int].1));
                        assert(decreases_to!(*self => o@[i as int].1));
                    }
                    let k = o[i].0.clone();
                    let v = o[i].1.clone_val();
                    out.push((k, v));
                }
                let r = JsonVal::Obj(out);
                proof {
                    assert(obj_views(out@) =~= obj_views(o@));
                }
                r
            },
        }
    }
}

impl JsonVal {
    /// This object with `(key, val)` appended to its fields.
    pub fn push_field(self, key: &str, val: JsonVal) -> (r: JsonVal)
        requires
            self@ is Obj,
        ensures
            r@ == JsonView::Obj(self@->Obj_0.push((key@, val@))),
    {
        broadcast use group_json_views;

        let mut fields = match self {
            JsonVal::Obj(f) => f,
            _ => Vec::new(),
        };
        let ghost before = obj_views(fields@);
        let ghost oldf = fields@;
        let ghost vv = val@;
        let k2 = key.to_owned();
        fields.push((k2, val));
        let r = JsonVal::Obj(fields);
        proof {
            assert(fields@.len() == oldf.len() + 1);
            assert forall|j: int|
                0 <= j < oldf.len() implies obj_views(fields@)[j] == before[j] by {
                assert(fields@[j] == oldf[j]);
                assert(obj_views(fields@)[j] == (fields@[j].0@, fields@[j].1@));
                assert(before[j] == (oldf[j].0@, oldf[j].1@));
            }
            assert(obj_views(fields@)[oldf.len() as int] == (fields@[oldf.len() as int].0@,
                fields@[oldf.len() as int].1@));
            assert(fields@[oldf.len() as int].0@ == key@);
            assert(fields@[oldf.len() as int].1@ == vv);
            assert(r@ is Obj);
            assert(r@->Obj_0 == obj_views(fields@));
            assert(r@->Obj_0 =~= before.push((key@, vv)));
        }
        r
    }
}

impl Clone for JsonVal {
    /// Cloning copies the value structurally.
    fn clone(&self) -> (r: Self)
        ensures
            r@ == self@,
    {
        self.clone_val()
    }
}

/// A JSON string value with the characters of `s`.
pub fn val_str(s: &str) -> (r: JsonVal)
    ensures
        r@ == JsonView::Str(s@),
{
    JsonVal::Str(s.to_owned())
}

} // verus!

verus! {

#[verifier::external_type_specification]
#[verifier::external_body]
/// The parsed form that `serde_json` hands out; opaque to the library.
pub struct ExSerdeValue(Value);

/// Relies on `serde_json::Value`: the body rebuilds the tree variant by
/// variant, one arm each. `None` where a kept numeric literal is not a JSON
/// number.
#[verifier::external_body]
fn to_serde(v: &JsonVal) -> Option<Value> {
    match v {
        JsonVal::Null => Some(Value::Null),
        JsonVal::Bool(b) => Some(Value::from(*b)),
        JsonVal::Int(i) => Some(Value::from(*i)),
        JsonVal::Num(s) => s.parse().ok().map(Value::Number),
        JsonVal::Str(s) => Some(Value::from(s.clone())),
        JsonVal::Arr(a) => a.iter().map(to_serde).collect::<Option<Vec<_>>>().map(Value::Array),
        JsonVal::Obj(o) => o.iter().map(|(k, x)| Some((k.clone(), to_serde(x)?))).collect::<
            Option<serde_json::Map<_, _>>,
        >().map(Value::Object),
    }
}

/// Relies on `serde_json::Value`: the body rebuilds the tree variant by
/// variant, one arm each; a number keeps its `i64` value or its literal text.
#[verifier::external_body]
fn from_serde(v: Value) -> JsonVal {
    match v {
        Value::Null => JsonVal::Null,
        Value::Bool(b) => JsonVal::Bool(b),
        Value::Number(n) => match n.as_i64() {
            Some(i) => JsonVal::Int(i),
            None => JsonVal::Num(n.to_string()),
        },
        Value::String(s) => JsonVal::Str(s),
        Value::Array(a) => JsonVal::Arr(a.into_iter().map(from_serde).collect()),
        Value::Object(o) => JsonVal::Obj(o.into_iter().map(|(k, x)| (k, from_serde(x))).collect()),
    }
}

/// The text that `serde_json::to_string` returns for the JSON tree `v`;
/// `None` where the tree holds a numeric literal that is not a JSON number.
pub uninterp spec fn json_text_of(v: JsonView) -> Option<Seq<char>>;

/// The bytes that `serde_json::to_vec` returns for the JSON tree `v`;
/// `None` where the tree holds a numeric literal that is not a JSON number.
pub uninterp spec fn json_bytes_of(v: JsonView) -> Option<Seq<u8>>;

/// The JSON tree that `serde_json::from_str` parses out of `s`; `None` where
/// `s` is not valid JSON.
pub uninterp spec fn json_of_text(s: Seq<char>) -> Option<JsonView>;

/// The JSON tree that `serde_json::from_slice` parses out of `b`; `None`
/// where `b` is not valid JSON.
pub uninterp spec fn json_of_bytes(b: Seq<u8>) -> Option<JsonView>;

/// Relies on `serde_json::to_string`: the text depends on the tree alone.
#[verifier::external_body]
pub fn json_to_text(v: &JsonVal) -> (r: Option<String>)
    ensures
        r is Some <==> json_text_of(v@) is Some,
        r matches Some(s) ==> json_text_of(v@) matches Some(t) && s@ == t,
{
    let val = to_serde(v)?;
    serde_json::to_string(&val).ok()
}

/// Relies on `serde_json::to_vec`: the bytes depend on the tree alone.
#[verifier::external_body]
pub fn json_to_bytes(v: &JsonVal) -> (r: Option<Vec<u8>>)
    ensures
        r is Some <==> json_bytes_of(v@) is Some,
        r matches Some(b) ==> json_bytes_of(v@) matches Some(t) && b@ == t,
{
    let val = to_serde(v)?;
    serde_json::to_vec(&val).ok()
}

/// Relies on `serde_json::from_str`: the parse depends on the text alone.
#[verifier::external_body]
pub fn json_from_text(s: &str) -> (r: Option<JsonVal>)
    ensures
        r is Some <==> json_of_text(s@) is Some,
        r matches Some(j) ==> json_of_text(s@) matches Some(t) && j@ == t,
{
    serde_json::from_str::<Value>(s).ok().map(from_serde)
}

/// Relies on `serde_json::from_slice`: the parse depends on the bytes alone.
#[verifier::external_body]
pub fn json_from_bytes(b: &[u8]) -> (r: Option<JsonVal>)
    ensures
        r is Some <==> json_of_bytes(b@) is Some,
        r matches Some(j) ==> json_of_bytes(b@) matches Some(t) && j@ == t,
{
    serde_json::from_slice::<Value>(b).ok().map(from_serde)
}

} // verus!
