//! A plain JSON document model.
//!
//! Transcript lines are JSON text; the normalizer's rules read the parsed
//! shape.  Parsing is delegated to `serde_json` behind a trusted boundary
//! that converts the document into [`JsonValue`], a value the verifier can
//! reason about structurally through its mathematical view [`JsonView`].
//! Numbers are carried as their decimal rendering: the normalizer only ever
//! turns them into strings.

use vstd::prelude::*;

verus! {

broadcast use vstd::std_specs::vec::group_vec_axioms;

/// One JSON value. Object fields keep one entry per key.
pub enum JsonValue {
    Null,
    Bool(bool),
    /// The number's decimal rendering.
    Num(String),
    Str(String),
    Arr(Vec<JsonValue>),
    Obj(Vec<(String, JsonValue)>),
}

/// The mathematical shape of a [`JsonValue`]: text as character sequences,
/// collections as sequences.
pub ghost enum JsonView {
    Null,
    Bool(bool),
    Num(Seq<char>),
    Str(Seq<char>),
    Arr(Seq<JsonView>),
    Obj(Seq<(Seq<char>, JsonView)>),
}

pub open spec fn jv_view(v: JsonValue) -> JsonView
    decreases v,
{
    match v {
        JsonValue::Null => JsonView::Null,
        JsonValue::Bool(b) => JsonView::Bool(b),
        JsonValue::Num(n) => JsonView::Num(n@),
        JsonValue::Str(s) => JsonView::Str(s@),
        JsonValue::Arr(items) => JsonView::Arr(jv_views(items@)),
        JsonValue::Obj(fields) => JsonView::Obj(jv_fields(fields@)),
    }
}

pub open spec fn jv_views(items: Seq<JsonValue>) -> Seq<JsonView>
    decreases items,
{
    if items.len() == 0 {
        Seq::empty()
    } else {
        seq![jv_view(items[0])] + jv_views(items.drop_first())
    }
}

pub open spec fn jv_fields(fields: Seq<(String, JsonValue)>) -> Seq<(Seq<char>, JsonView)>
    decreases fields,
{
    if fields.len() == 0 {
        Seq::empty()
    } else {
        seq![(fields[0].0@, jv_view(fields[0].1))] + jv_fields(fields.drop_first())
    }
}

impl View for JsonValue {
    type V = JsonView;

    open spec fn view(&self) -> JsonView {
        jv_view(*self)
    }
}

pub broadcast proof fn lemma_jv_views_index(items: Seq<JsonValue>)
    ensures
        (#[trigger] jv_views(items)).len() == items.len(),
        forall|i: int| 0 <= i < items.len() ==> jv_views(items)[i] == jv_view(items[i]),
    decreases items,
{
    if items.len() > 0 {
        lemma_jv_views_index(items.drop_first());
        assert forall|i: int| 0 <= i < items.len() implies jv_views(items)[i] == jv_view(
            items[i],
        ) by {
            if i > 0 {
                assert(items.drop_first()[i - 1] == items[i]);
            }
        }
    }
}

pub broadcast proof fn lemma_jv_fields_index(fields: Seq<(String, JsonValue)>)
    ensures
        (#[trigger] jv_fields(fields)).len() == fields.len(),
        forall|i: int|
            0 <= i < fields.len() ==> jv_fields(fields)[i] == (
            fields[i].0@,
            jv_view(fields[i].1),
            ),
    decreases fields,
{
    if fields.len() > 0 {
        lemma_jv_fields_index(fields.drop_first());
        assert forall|i: int|
            0 <= i < fields.len() implies jv_fields(fields)[i] == (
            fields[i].0@,
            jv_view(fields[i].1),
        ) by {
            if i > 0 {
                assert(fields.drop_first()[i - 1] == fields[i]);
            }
        }
    }
}

/// The value under `key` in a field list: the first entry with that key.
pub open spec fn fields_get(fields: Seq<(Seq<char>, JsonView)>, key: Seq<char>) -> Option<
    JsonView,
>
    decreases fields.len(),
{
    if fields.len() == 0 {
        None
    } else if fields[0].0 == key {
        Some(fields[0].1)
    } else {
        fields_get(fields.drop_first(), key)
    }
}

/// The value under `key` when `v` is an object that has it.
pub open spec fn obj_get(v: JsonView, key: Seq<char>) -> Option<JsonView> {
    match v {
        JsonView::Obj(fields) => fields_get(fields, key),
        _ => None,
    }
}

/// The text of a JSON string value.
pub open spec fn as_text(v: JsonView) -> Option<Seq<char>> {
    match v {
        JsonView::Str(s) => Some(s),
        _ => None,
    }
}

/// The text under `key` when `v` is an object holding a string there.
pub open spec fn get_text(v: JsonView, key: Seq<char>) -> Option<Seq<char>> {
    match obj_get(v, key) {
        Some(f) => as_text(f),
        None => None,
    }
}

/// True when `v` carries `"type": t`.
pub open spec fn type_is(v: JsonView, t: Seq<char>) -> bool {
    get_text(v, "type"@) == Some(t)
}

impl JsonValue {
    /// Field lookup on an object value; `None` on other shapes.  A found
    /// value stands structurally below `self`, so callers may recurse
    /// into it.
    pub fn get<'a>(&'a self, key: &str) -> (r: Option<&'a JsonValue>)
        ensures
            match r {
                Some(f) => obj_get(self@, key@) == Some(f@) && decreases_to!(*self => *f),
                None => obj_get(self@, key@) is None,
            },
    {
        match self {
            JsonValue::Obj(fields) => {
                proof {
                    lemma_jv_fields_index(fields@);
                }
                let ghost vf = jv_fields(fields@);
                let mut i: usize = 0;
                proof {
                    assert(vf.skip(0) =~= vf);
                }
                while i < fields.len()
                    invariant
                        i <= fields@.len(),
                        vf == jv_fields(fields@),
                        vf.len() == fields@.len(),
                        forall|k: int|
                            0 <= k < fields@.len() ==> vf[k] == (
                            fields@[k].0@,
                            jv_view(fields@[k].1),
                            ),
                        self@ == JsonView::Obj(vf),
                        *self == JsonValue::Obj(*fields),
                        fields_get(vf, key@) == fields_get(vf.skip(i as int), key@),
                    decreases fields@.len() - i,
                {
                    proof {
                        assert(vf.skip(i as int)[0] == vf[i as int]);
                        assert(vf.skip(i as int).drop_first() =~= vf.skip(i + 1));
                    }
                    if crate::text::str_eq(fields[i].0.as_str(), key) {
                        proof {
                            assert(decreases_to!(*self => (*self)->Obj_0));
                            assert((*self)->Obj_0 == *fields);
                            assert(decreases_to!(*fields => fields@));
                            assert(decreases_to!(fields@ => fields@[i as int]));
                            assert(decreases_to!(
                                fields@[i as int] => fields@[i as int].1));
                        }
                        return Some(&fields[i].1);
                    }
                    i += 1;
                }
                proof {
                    assert(vf.skip(fields@.len() as int).len() == 0);
                }
                None
            },
            _ => None,
        }
    }

    /// The borrowed text of a string value.
    pub fn as_str(&self) -> (r: Option<&String>)
        ensures
            match r {
                Some(s) => as_text(self@) == Some(s@),
                None => as_text(self@) is None,
            },
    {
        match self {
            JsonValue::Str(s) => Some(s),
            _ => None,
        }
    }

    /// The elements of an array value.
    pub fn as_array(&self) -> (r: Option<&Vec<JsonValue>>)
        ensures
            match r {
                Some(items) => self@ == JsonView::Arr(jv_views(items@)),
                None => !(self@ is Arr),
            },
    {
        match self {
            JsonValue::Arr(items) => Some(items),
            _ => None,
        }
    }

    /// The borrowed text under `key`, when present and a string.
    pub fn get_str<'a>(&'a self, key: &str) -> (r: Option<&'a String>)
        ensures
            match r {
                Some(s) => get_text(self@, key@) == Some(s@),
                None => get_text(self@, key@) is None,
            },
    {
        match self.get(key) {
            Some(f) => f.as_str(),
            None => None,
        }
    }

    /// True when the value carries `"type": t`.
    pub fn type_is(&self, t: &str) -> (r: bool)
        ensures
            r == type_is(self@, t@),
    {
        match self.get_str("type") {
            Some(s) => crate::text::str_eq(s.as_str(), t),
            None => false,
        }
    }

    /// True when the value is an object.
    pub fn is_object(&self) -> (r: bool)
        ensures
            r == (self@ is Obj),
    {
        match self {
            JsonValue::Obj(_) => true,
            _ => false,
        }
    }

    /// A copy with the same view.
    pub fn clone_value(&self) -> (r: JsonValue)
        ensures
            r@ == self@,
        decreases *self,
    {
        match self {
            JsonValue::Null => JsonValue::Null,
            JsonValue::Bool(b) => JsonValue::Bool(*b),
            JsonValue::Num(n) => JsonValue::Num(n.clone()),
            JsonValue::Str(s) => JsonValue::Str(s.clone()),
            JsonValue::Arr(items) => {
                let mut out: Vec<JsonValue> = Vec::new();
                let mut i: usize = 0;
                proof {
                    lemma_jv_views_index(items@);
                    lemma_jv_views_index(out@);
                }
                while i < items.len()
                    invariant
                        i <= items@.len(),
                        out@.len() == i,
                        *self == JsonValue::Arr(*items),
                        jv_views(out@) =~= jv_views(items@).take(i as int),
                    decreases items@.len() - i,
                {
                    let ghost old_out = out@;
                    proof {
                        assert(decreases_to!(*self => (*self)->Arr_0));
                        assert((*self)->Arr_0 == *items);
                        assert(decreases_to!(*items => items@));
                        assert(decreases_to!(items@ => items@[i as int]));
                    }
                    out.push(items[i].clone_value());
                    proof {
                        lemma_jv_views_index(items@);
                        lemma_jv_views_index(old_out);
                        lemma_jv_views_index(out@);
                        assert forall|k: int| 0 <= k < out@.len() implies jv_views(out@)[k]
                            == jv_views(items@).take(i + 1)[k] by {
                            if k < i {
                                assert(out@[k] == old_out[k]);
                            }
                        }
                        assert(jv_views(out@) =~= jv_views(items@).take(i + 1));
                    }
                    i += 1;
                }
                proof {
                    lemma_jv_views_index(items@);
                    assert(jv_views(items@).take(items@.len() as int) =~= jv_views(items@));
                }
                JsonValue::Arr(out)
            },
            JsonValue::Obj(fields) => {
                let mut out: Vec<(String, JsonValue)> = Vec::new();
                let mut i: usize = 0;
                while i < fields.len()
                    invariant
                        i <= fields@.len(),
                        out@.len() == i,
                        *self == JsonValue::Obj(*fields),
                        jv_fields(out@) =~= jv_fields(fields@).take(i as int),
                    decreases fields@.len() - i,
                {
                    let ghost old_out = out@;
                    proof {
                        assert(decreases_to!(*self => (*self)->Obj_0));
                        assert((*self)->Obj_0 == *fields);
                        assert(decreases_to!(*fields => fields@));
                        assert(decreases_to!(fields@ => fields@[i as int]));
                        assert(decreases_to!(fields@[i as int] => fields@[i as int].1));
                    }
                    out.push((fields[i].0.clone(), fields[i].1.clone_value()));
                    proof {
                        lemma_jv_fields_index(fields@);
                        lemma_jv_fields_index(old_out);
                        lemma_jv_fields_index(out@);
                        assert forall|k: int| 0 <= k < out@.len() implies jv_fields(out@)[k]
                            == jv_fields(fields@).take(i + 1)[k] by {
                            if k < i {
                                assert(out@[k] == old_out[k]);
                            }
                        }
                        assert(jv_fields(out@) =~= jv_fields(fields@).take(i + 1));
                    }
                    i += 1;
                }
                proof {
                    lemma_jv_fields_index(fields@);
                    assert(jv_fields(fields@).take(fields@.len() as int) =~= jv_fields(fields@));
                }
                JsonValue::Obj(out)
            },
        }
    }
}

#[verifier::external_type_specification]
#[verifier::external_body]
pub struct ExSerdeJsonError(serde_json::Error);

#[verifier::external_type_specification]
#[verifier::external_body]
pub struct ExSerdeJsonValue(serde_json::Value);

/// The JSON document a text denotes, when it is valid JSON: whether
/// `serde_json` accepts a text, and the value it produces, depend on the
/// text alone.
pub uninterp spec fn json_doc(s: Seq<char>) -> Option<JsonView>;

/// Relies on `serde_json::from_str::<serde_json::Value>`: parses one JSON
/// document, deterministically in the input text; the body converts the
/// parsed value into the crate's own model.
#[verifier::external_body]
pub fn parse_json_text(s: &str) -> (r: Result<JsonValue, serde_json::Error>)
    ensures
        match r {
            Ok(v) => json_doc(s@) == Some(v@),
            Err(_) => json_doc(s@) is None,
        },
{
    match serde_json::from_str::<serde_json::Value>(s) {
        Ok(v) => Ok(value_into_model(v)),
        Err(e) => Err(e),
    }
}

/// Converts a `serde_json::Value` into the crate's model, one arm per
/// variant; numbers keep their decimal rendering.
#[verifier::external_body]
fn value_into_model(v: serde_json::Value) -> JsonValue {
    match v {
        serde_json::Value::Null => JsonValue::Null,
        serde_json::Value::Bool(b) => JsonValue::Bool(b),
        serde_json::Value::Number(n) => JsonValue::Num(n.to_string()),
        serde_json::Value::String(s) => JsonValue::Str(s),
        serde_json::Value::Array(items) => JsonValue::Arr(
            items.into_iter().map(value_into_model).collect(),
        ),
        serde_json::Value::Object(fields) => JsonValue::Obj(
            fields.into_iter().map(|(k, f)| (k, value_into_model(f))).collect(),
        ),
    }
}

} // verus!
