//! The content normalizer: turns raw transcript text in one of the three
//! supported formats into a canonical parsed session.
//!
//! Message extraction from a JSON value follows a fixed fallback chain;
//! absence of a field degrades to nothing extracted rather than an error.
//! Only malformed JSON is fatal, and only for the one file.

use vstd::prelude::*;

use crate::json::{
    JsonValue, JsonView, as_text, get_text, json_doc, jv_views, lemma_jv_views_index, obj_get,
    type_is,
};
use crate::model::{MsgView, ParsedMessage, ParsedSession, SessionView};
use crate::text::{
    is_blank, join_lines, join_nl, lower, spec_lines, spec_trim, split_lines, str_eq,
    to_lower_str, trim_of,
};

verus! {

broadcast use vstd::std_specs::vec::group_vec_axioms;

/// Why a transcript failed to parse: malformed JSON, at file level for a
/// single document, or at a one-based line for line-delimited input.
#[derive(Debug)]
pub enum ParseError {
    InvalidJson { source: serde_json::Error },
    InvalidJsonl { line: usize, source: serde_json::Error },
}

/// The trimmed text when it is non-empty.
pub open spec fn trimmed_nonempty(s: Seq<char>) -> Option<Seq<char>> {
    if spec_trim(s).len() == 0 {
        None
    } else {
        Some(spec_trim(s))
    }
}

/// A role normalized for storage: trimmed, then ASCII-lowercased.  Case
/// folding is deliberately ASCII-only: the recognized role names (user,
/// assistant, system, developer, tool) are ASCII, and other characters
/// pass through unchanged.
pub open spec fn spec_normalize_role(s: Seq<char>) -> Seq<char> {
    lower(spec_trim(s))
}

/// Normalizes a role for storage: trims it and lowercases its ASCII
/// letters (only; see [`spec_normalize_role`]).
pub fn normalize_role(role: &str) -> (r: String)
    ensures
        r@ == spec_normalize_role(role@),
{
    to_lower_str(trim_of(role))
}

/// The string form of the field under `key`: a string field trimmed and
/// non-empty, or a number field's decimal rendering.
pub open spec fn spec_extract_string_field(v: JsonView, key: Seq<char>) -> Option<Seq<char>> {
    match obj_get(v, key) {
        Some(JsonView::Str(s)) => trimmed_nonempty(s),
        Some(JsonView::Num(n)) => Some(n),
        _ => None,
    }
}

/// Reads the field under `key` as text: a non-blank string is trimmed, a
/// number is kept as its decimal rendering.
pub fn extract_string_field(v: &JsonValue, key: &str) -> (r: Option<String>)
    ensures
        r.deep_view() == spec_extract_string_field(v@, key@),
{
    match v.get(key) {
        Some(f) => match f {
            JsonValue::Str(s) => {
                let t = trim_of(s.as_str());
                if t.is_empty() {
                    None
                } else {
                    Some(t.to_owned())
                }
            },
            JsonValue::Num(n) => Some(n.clone()),
            _ => None,
        },
        None => None,
    }
}

/// The message timestamp: the first of `created_at`, `timestamp`, `time`,
/// `ts` that yields text.
pub open spec fn spec_extract_timestamp(v: JsonView) -> Option<Seq<char>> {
    if spec_extract_string_field(v, "created_at"@) is Some {
        spec_extract_string_field(v, "created_at"@)
    } else if spec_extract_string_field(v, "timestamp"@) is Some {
        spec_extract_string_field(v, "timestamp"@)
    } else if spec_extract_string_field(v, "time"@) is Some {
        spec_extract_string_field(v, "time"@)
    } else {
        spec_extract_string_field(v, "ts"@)
    }
}

/// Extracts a timestamp by the documented key fallback order.
pub fn extract_timestamp(v: &JsonValue) -> (r: Option<String>)
    ensures
        r.deep_view() == spec_extract_timestamp(v@),
{
    if let Some(t) = extract_string_field(v, "created_at") {
        return Some(t);
    }
    if let Some(t) = extract_string_field(v, "timestamp") {
        return Some(t);
    }
    if let Some(t) = extract_string_field(v, "time") {
        return Some(t);
    }
    extract_string_field(v, "ts")
}

/// The raw role text of a value: `message.role`, else `payload.role`, else
/// the value's own `role`, each only when it is a string.
pub open spec fn spec_role_text(v: JsonView) -> Option<Seq<char>> {
    let from_message = match obj_get(v, "message"@) {
        Some(m) => get_text(m, "role"@),
        None => None,
    };
    if from_message is Some {
        from_message
    } else {
        let from_payload = match obj_get(v, "payload"@) {
            Some(p) => get_text(p, "role"@),
            None => None,
        };
        if from_payload is Some {
            from_payload
        } else {
            get_text(v, "role"@)
        }
    }
}

/// The normalized role of a value, when any of the fallback spots holds one.
pub open spec fn spec_extract_role(v: JsonView) -> Option<Seq<char>> {
    match spec_role_text(v) {
        Some(r) => Some(spec_normalize_role(r)),
        None => None,
    }
}

/// Extracts and normalizes a role by the documented fallback order.
pub fn extract_role(v: &JsonValue) -> (r: Option<String>)
    ensures
        r.deep_view() == spec_extract_role(v@),
{
    let text = match v.get("message") {
        Some(m) => m.get_str("role"),
        None => None,
    };
    let text = match text {
        Some(t) => Some(t),
        None => match v.get("payload") {
            Some(p) => p.get_str("role"),
            None => None,
        },
    };
    let text = match text {
        Some(t) => Some(t),
        None => v.get_str("role"),
    };
    match text {
        Some(t) => Some(normalize_role(t.as_str())),
        None => None,
    }
}

/// The parts of an array that coerce to content text, in order.
pub open spec fn spec_coerce_parts(items: Seq<JsonView>) -> Seq<Seq<char>>
    decreases items,
{
    if items.len() == 0 {
        Seq::empty()
    } else {
        match spec_coerce(items[0]) {
            Some(t) => seq![t] + spec_coerce_parts(items.drop_first()),
            None => spec_coerce_parts(items.drop_first()),
        }
    }
}

/// Content coercion: a string is trimmed (empty meaning absent); an array
/// flattens its coercible parts joined by newlines; an object yields its
/// `input_text` text, else coerces its `content`, else its `text` field.
pub open spec fn spec_coerce(v: JsonView) -> Option<Seq<char>>
    decreases v,
    via spec_coerce_decreases
{
    match v {
        JsonView::Str(s) => trimmed_nonempty(s),
        JsonView::Arr(items) => {
            let parts = spec_coerce_parts(items);
            if parts.len() == 0 {
                None
            } else {
                Some(join_nl(parts))
            }
        },
        JsonView::Obj(_) => {
            if type_is(v, "input_text"@) && get_text(v, "text"@) is Some {
                trimmed_nonempty(get_text(v, "text"@)->Some_0)
            } else if obj_get(v, "content"@) is Some {
                spec_coerce(obj_get(v, "content"@)->Some_0)
            } else if obj_get(v, "text"@) is Some {
                spec_coerce(obj_get(v, "text"@)->Some_0)
            } else {
                None
            }
        },
        _ => None,
    }
}

/// A field-list lookup yields a value structurally below the list.
proof fn lemma_fields_get_smaller(fields: Seq<(Seq<char>, JsonView)>, key: Seq<char>)
    ensures
        match crate::json::fields_get(fields, key) {
            Some(f) => decreases_to!(fields => f),
            None => true,
        },
    decreases fields.len(),
{
    if fields.len() > 0 {
        if fields[0].0 == key {
            assert(decreases_to!(fields => fields[0]));
            assert(decreases_to!(fields[0] => fields[0].1));
        } else {
            lemma_fields_get_smaller(fields.drop_first(), key);
            assert(decreases_to!(fields => fields.drop_first()));
        }
    }
}

#[via_fn]
proof fn spec_coerce_decreases(v: JsonView) {
    match v {
        JsonView::Obj(fields) => {
            assert(decreases_to!(v => fields));
            lemma_fields_get_smaller(fields, "content"@);
            lemma_fields_get_smaller(fields, "text"@);
        },
        _ => {},
    }
}

pub proof fn lemma_coerce_parts_push(items: Seq<JsonView>, x: JsonView)
    ensures
        spec_coerce_parts(items.push(x)) == match spec_coerce(x) {
            Some(t) => spec_coerce_parts(items).push(t),
            None => spec_coerce_parts(items),
        },
    decreases items.len(),
{
    if items.len() == 0 {
        assert(items.push(x)[0] == x);
        assert(items.push(x).drop_first() =~= Seq::<JsonView>::empty());
        assert(spec_coerce_parts(Seq::<JsonView>::empty()) =~= Seq::<Seq<char>>::empty());
        assert(spec_coerce_parts(items) =~= Seq::<Seq<char>>::empty());
        match spec_coerce(x) {
            Some(t) => {
                assert(spec_coerce_parts(items.push(x)) == seq![t]
                    + spec_coerce_parts(items.push(x).drop_first()));
                assert(seq![t] + Seq::<Seq<char>>::empty() =~= seq![t]);
                assert(spec_coerce_parts(items).push(t) =~= seq![t]);
            },
            None => {},
        }
    } else {
        lemma_coerce_parts_push(items.drop_first(), x);
        assert(items.push(x)[0] == items[0]);
        assert(items.push(x).drop_first() =~= items.drop_first().push(x));
        match spec_coerce(items[0]) {
            Some(h) => {
                match spec_coerce(x) {
                    Some(t) => {
                        assert(seq![h] + spec_coerce_parts(items.drop_first()).push(t)
                            =~= (seq![h] + spec_coerce_parts(items.drop_first())).push(t));
                    },
                    None => {},
                }
            },
            None => {},
        }
    }
}

/// Coerces a JSON value to content text by the documented rules.
pub fn coerce_content(v: &JsonValue) -> (r: Option<String>)
    ensures
        r.deep_view() == spec_coerce(v@),
    decreases *v,
{
    match v {
        JsonValue::Str(s) => {
            let t = trim_of(s.as_str());
            if t.is_empty() {
                None
            } else {
                Some(t.to_owned())
            }
        },
        JsonValue::Arr(items) => {
            let ghost iv = jv_views(items@);
            proof {
                lemma_jv_views_index(items@);
            }
            let mut parts: Vec<String> = Vec::new();
            let mut i: usize = 0;
            proof {
                assert(parts.deep_view() =~= spec_coerce_parts(iv.take(0)));
            }
            while i < items.len()
                invariant
                    i <= items@.len(),
                    *v == JsonValue::Arr(*items),
                    iv == jv_views(items@),
                    iv.len() == items@.len(),
                    forall|k: int| 0 <= k < items@.len() ==> iv[k] == jv_views(items@)[k],
                    parts.deep_view() == spec_coerce_parts(iv.take(i as int)),
                decreases items@.len() - i,
            {
                proof {
                    lemma_jv_views_index(items@);
                    assert(decreases_to!(*v => (*v)->Arr_0));
                    assert((*v)->Arr_0 == *items);
                    assert(decreases_to!(*items => items@));
                    assert(decreases_to!(items@ => items@[i as int]));
                }
                let ghost old_parts = parts.deep_view();
                let part = coerce_content(&items[i]);
                proof {
                    assert(items@[i as int]@ == iv[i as int]);
                }
                match part {
                    Some(p) => {
                        parts.push(p);
                        proof {
                            assert(parts.deep_view() =~= old_parts.push(p@));
                        }
                    },
                    None => {},
                }
                proof {
                    assert(iv.take(i + 1) =~= iv.take(i as int).push(iv[i as int]));
                    lemma_coerce_parts_push(iv.take(i as int), iv[i as int]);
                }
                i += 1;
            }
            proof {
                assert(iv.take(items@.len() as int) =~= iv);
            }
            if parts.len() == 0 {
                None
            } else {
                Some(join_lines(&parts))
            }
        },
        JsonValue::Obj(_) => {
            if v.type_is("input_text") {
                if let Some(t) = v.get_str("text") {
                    let tt = trim_of(t.as_str());
                    if tt.is_empty() {
                        return None;
                    } else {
                        return Some(tt.to_owned());
                    }
                }
            }
            if let Some(c) = v.get("content") {
                return coerce_content(c);
            }
            if let Some(t) = v.get("text") {
                return coerce_content(t);
            }
            None
        },
        _ => None,
    }
}

/// The content a message object carries: its `content` field coerced, else
/// its `text`, else its `message` field.
pub open spec fn spec_message_content(v: JsonView) -> Option<Seq<char>> {
    let c = match obj_get(v, "content"@) {
        Some(f) => spec_coerce(f),
        None => None,
    };
    if c is Some {
        c
    } else {
        let t = match obj_get(v, "text"@) {
            Some(f) => spec_coerce(f),
            None => None,
        };
        if t is Some {
            t
        } else {
            match obj_get(v, "message"@) {
                Some(f) => spec_coerce(f),
                None => None,
            }
        }
    }
}

/// The message an object value denotes on its own: role from its `role`
/// field, text from the content chain, trimmed and required non-empty.
pub open spec fn spec_message_from_object(v: JsonView) -> Option<MsgView> {
    match spec_message_content(v) {
        None => None,
        Some(c) => {
            let t = spec_trim(c);
            if t.len() == 0 {
                None
            } else {
                Some(MsgView {
                    role: match get_text(v, "role"@) {
                        Some(r) => Some(spec_normalize_role(r)),
                        None => None,
                    },
                    text: t,
                    timestamp: spec_extract_timestamp(v),
                })
            }
        },
    }
}

/// Extracts a message from a plain object by the documented field chain.
pub fn message_from_object(v: &JsonValue) -> (r: Option<ParsedMessage>)
    ensures
        match r {
            Some(m) => spec_message_from_object(v@) == Some(m@),
            None => spec_message_from_object(v@) is None,
        },
{
    let content = match v.get("content") {
        Some(f) => coerce_content(f),
        None => None,
    };
    let content = match content {
        Some(c) => Some(c),
        None => match v.get("text") {
            Some(f) => coerce_content(f),
            None => None,
        },
    };
    let content = match content {
        Some(c) => Some(c),
        None => match v.get("message") {
            Some(f) => coerce_content(f),
            None => None,
        },
    };
    match content {
        None => None,
        Some(c) => {
            let t = trim_of(c.as_str());
            if t.is_empty() {
                None
            } else {
                let role = match v.get_str("role") {
                    Some(r) => Some(normalize_role(r.as_str())),
                    None => None,
                };
                Some(ParsedMessage { role, text: t.to_owned(), timestamp: extract_timestamp(v) })
            }
        },
    }
}

/// The content array a value carries: under `message.content`, else under a
/// `response_item` envelope's message payload, else the value's own
/// `content`, each only when it is an array.
pub open spec fn spec_extract_content_array(v: JsonView) -> Option<Seq<JsonView>> {
    let m = match obj_get(v, "message"@) {
        Some(mv) => match obj_get(mv, "content"@) {
            Some(JsonView::Arr(items)) => Some(items),
            _ => None,
        },
        None => None,
    };
    if m is Some {
        m
    } else {
        let p = if type_is(v, "response_item"@) {
            match obj_get(v, "payload"@) {
                Some(pv) => if type_is(pv, "message"@) {
                    match obj_get(pv, "content"@) {
                        Some(JsonView::Arr(items)) => Some(items),
                        _ => None,
                    }
                } else {
                    None
                },
                None => None,
            }
        } else {
            None
        };
        if p is Some {
            p
        } else {
            match obj_get(v, "content"@) {
                Some(JsonView::Arr(items)) => Some(items),
                _ => None,
            }
        }
    }
}

/// Finds the content array by the documented envelope fallback order.
pub fn extract_content_array<'a>(v: &'a JsonValue) -> (r: Option<&'a Vec<JsonValue>>)
    ensures
        match r {
            Some(items) => spec_extract_content_array(v@) == Some(jv_views(items@)),
            None => spec_extract_content_array(v@) is None,
        },
{
    if let Some(mv) = v.get("message") {
        if let Some(cf) = mv.get("content") {
            if let Some(items) = cf.as_array() {
                return Some(items);
            }
        }
    }
    if v.type_is("response_item") {
        if let Some(pv) = v.get("payload") {
            if pv.type_is("message") {
                if let Some(cf) = pv.get("content") {
                    if let Some(items) = cf.as_array() {
                        return Some(items);
                    }
                }
            }
        }
    }
    if let Some(cf) = v.get("content") {
        if let Some(items) = cf.as_array() {
            return Some(items);
        }
    }
    None
}

/// True when the value's content array holds an embedded tool invocation.
pub open spec fn spec_has_tool_call(v: JsonView) -> bool {
    match spec_extract_content_array(v) {
        Some(items) => exists|i: int|
            0 <= i < items.len() && #[trigger] type_is(items[i], "toolCall"@),
        None => false,
    }
}

/// Looks for an embedded `toolCall` item in the value's content array.
pub fn has_tool_call(v: &JsonValue) -> (r: bool)
    ensures
        r == spec_has_tool_call(v@),
{
    let items = match extract_content_array(v) {
        Some(items) => items,
        None => {
            return false;
        },
    };
    let ghost iv = jv_views(items@);
    proof {
        lemma_jv_views_index(items@);
    }
    let mut i: usize = 0;
    while i < items.len()
        invariant
            i <= items@.len(),
            iv == jv_views(items@),
            iv.len() == items@.len(),
            forall|k: int| 0 <= k < items@.len() ==> iv[k] == items@[k]@,
            spec_extract_content_array(v@) == Some(iv),
            forall|k: int| 0 <= k < i ==> !type_is(iv[k], "toolCall"@),
        decreases items@.len() - i,
    {
        if items[i].type_is("toolCall") {
            proof {
                let w = i as int;
                let cav = spec_extract_content_array(v@)->Some_0;
                assert(cav == iv);
                assert(0 <= w < cav.len() && type_is(cav[w], "toolCall"@));
                assert(exists|k: int|
                    0 <= k < cav.len() && #[trigger] type_is(cav[k], "toolCall"@));
                assert(spec_has_tool_call(v@));
            }
            return true;
        }
        i += 1;
    }
    false
}

/// `m` with its timestamp filled from the surrounding value when absent.
pub open spec fn fill_timestamp(m: MsgView, v: JsonView) -> MsgView {
    MsgView {
        role: m.role,
        text: m.text,
        timestamp: if m.timestamp is Some {
            m.timestamp
        } else {
            spec_extract_timestamp(v)
        },
    }
}

/// `m` with its role filled from the surrounding value when absent.
pub open spec fn fill_role(m: MsgView, v: JsonView) -> MsgView {
    MsgView {
        role: if m.role is Some {
            m.role
        } else {
            match get_text(v, "role"@) {
                Some(r) => Some(spec_normalize_role(r)),
                None => None,
            }
        },
        text: m.text,
        timestamp: m.timestamp,
    }
}

/// The last resort of the entry chain: the value itself as a message object.
pub open spec fn spec_entry_fallback(v: JsonView) -> Option<MsgView> {
    match spec_message_from_object(v) {
        Some(m) => Some(fill_timestamp(m, v)),
        None => None,
    }
}

/// The message a transcript entry denotes: session metadata yields none; a
/// `response_item` envelope whose payload is typed `message` is read
/// through that payload; a `message` field is read as an object or coerced
/// as content; else the value itself is read as a message object.
pub open spec fn spec_format_session_entry(v: JsonView) -> Option<MsgView> {
    if type_is(v, "session_meta"@) {
        None
    } else {
        let resp = if type_is(v, "response_item"@) && obj_get(v, "payload"@) is Some && type_is(
            obj_get(v, "payload"@)->Some_0,
            "message"@,
        ) {
            match spec_message_from_object(obj_get(v, "payload"@)->Some_0) {
                Some(m) => Some(fill_timestamp(m, v)),
                None => None,
            }
        } else {
            None
        };
        if resp is Some {
            resp
        } else {
            match obj_get(v, "message"@) {
                Some(mv) => if mv is Obj {
                    match spec_message_from_object(mv) {
                        Some(m) => Some(fill_timestamp(fill_role(m, v), v)),
                        None => spec_entry_fallback(v),
                    }
                } else {
                    match spec_coerce(mv) {
                        Some(t) => Some(MsgView {
                            role: match get_text(v, "role"@) {
                                Some(r) => Some(spec_normalize_role(r)),
                                None => None,
                            },
                            text: spec_trim(t),
                            timestamp: spec_extract_timestamp(v),
                        }),
                        None => spec_entry_fallback(v),
                    }
                },
                None => spec_entry_fallback(v),
            }
        }
    }
}

/// Extracts the message a transcript entry denotes, by the documented
/// fallback chain.
pub fn format_session_entry(v: &JsonValue) -> (r: Option<ParsedMessage>)
    ensures
        match r {
            Some(m) => spec_format_session_entry(v@) == Some(m@),
            None => spec_format_session_entry(v@) is None,
        },
{
    if v.type_is("session_meta") {
        return None;
    }
    if v.type_is("response_item") {
        if let Some(pv) = v.get("payload") {
            if pv.type_is("message") {
                if let Some(m) = message_from_object(pv) {
                    let m = fill_entry_timestamp(m, v);
                    return Some(m);
                }
            }
        }
    }
    if let Some(mv) = v.get("message") {
        if mv.is_object() {
            if let Some(m) = message_from_object(mv) {
                let m = fill_entry_role(m, v);
                let m = fill_entry_timestamp(m, v);
                return Some(m);
            }
        } else {
            if let Some(t) = coerce_content(mv) {
                let role = match v.get_str("role") {
                    Some(r) => Some(normalize_role(r.as_str())),
                    None => None,
                };
                return Some(ParsedMessage {
                    role,
                    text: trim_of(t.as_str()).to_owned(),
                    timestamp: extract_timestamp(v),
                });
            }
        }
    }
    match message_from_object(v) {
        Some(m) => Some(fill_entry_timestamp(m, v)),
        None => None,
    }
}

/// Fills a message's timestamp from the surrounding entry when absent.
fn fill_entry_timestamp(m: ParsedMessage, v: &JsonValue) -> (r: ParsedMessage)
    ensures
        r@ == fill_timestamp(m@, v@),
{
    if m.timestamp.is_none() {
        ParsedMessage { role: m.role, text: m.text, timestamp: extract_timestamp(v) }
    } else {
        m
    }
}

/// Fills a message's role from the surrounding entry when absent.
fn fill_entry_role(m: ParsedMessage, v: &JsonValue) -> (r: ParsedMessage)
    ensures
        r@ == fill_role(m@, v@),
{
    if m.role.is_none() {
        let role = match v.get_str("role") {
            Some(r) => Some(normalize_role(r.as_str())),
            None => None,
        };
        ParsedMessage { role, text: m.text, timestamp: m.timestamp }
    } else {
        m
    }
}

/// The message a value yields: the entry chain's result, else an empty-text
/// message when the value carries an embedded tool call (so tool-call-only
/// turns still consume a turn index).
pub open spec fn spec_extract_message(v: JsonView) -> Option<MsgView> {
    match spec_format_session_entry(v) {
        Some(m) => Some(m),
        None => if spec_has_tool_call(v) {
            Some(MsgView {
                role: spec_extract_role(v),
                text: Seq::empty(),
                timestamp: spec_extract_timestamp(v),
            })
        } else {
            None
        },
    }
}

/// Extracts the message a value yields, counting tool-call-only turns.
pub fn extract_message(v: &JsonValue) -> (r: Option<ParsedMessage>)
    ensures
        match r {
            Some(m) => spec_extract_message(v@) == Some(m@),
            None => spec_extract_message(v@) is None,
        },
{
    if let Some(m) = format_session_entry(v) {
        return Some(m);
    }
    if has_tool_call(v) {
        let m = ParsedMessage {
            role: extract_role(v),
            text: String::new(),
            timestamp: extract_timestamp(v),
        };
        proof {
            assert(m@.text =~= Seq::<char>::empty());
        }
        return Some(m);
    }
    None
}

/// Session-level metadata merged across transcript entries.
pub ghost struct MetaView {
    pub created_at: Option<Seq<char>>,
    pub last_message_at: Option<Seq<char>>,
    pub agent: Option<Seq<char>>,
    pub workspace: Option<Seq<char>>,
}

/// No metadata seen yet.
pub open spec fn empty_meta() -> MetaView {
    MetaView { created_at: None, last_message_at: None, agent: None, workspace: None }
}

/// Running session metadata while a transcript is folded entry by entry.
pub struct Meta {
    pub created_at: Option<String>,
    pub last_message_at: Option<String>,
    pub agent: Option<String>,
    pub workspace: Option<String>,
}

impl View for Meta {
    type V = MetaView;

    open spec fn view(&self) -> MetaView {
        MetaView {
            created_at: self.created_at.deep_view(),
            last_message_at: self.last_message_at.deep_view(),
            agent: self.agent.deep_view(),
            workspace: self.workspace.deep_view(),
        }
    }
}

/// Metadata after seeing one entry: agent and workspace are first-write-wins,
/// `created_at` fills if absent, `last_message_at` is overwritten by each
/// explicit value seen.
pub open spec fn spec_update_meta(m: MetaView, v: JsonView) -> MetaView {
    MetaView {
        agent: if m.agent is Some {
            m.agent
        } else {
            get_text(v, "agent"@)
        },
        workspace: if m.workspace is Some {
            m.workspace
        } else {
            get_text(v, "workspace"@)
        },
        created_at: if m.created_at is Some {
            m.created_at
        } else {
            spec_extract_string_field(v, "created_at"@)
        },
        last_message_at: if m.last_message_at is None {
            spec_extract_string_field(v, "last_message_at"@)
        } else {
            match spec_extract_string_field(v, "last_message_at"@) {
                Some(x) => Some(x),
                None => m.last_message_at,
            }
        },
    }
}

/// Sets `target` only when it is still unset.
fn maybe_set(target: &mut Option<String>, value: Option<String>)
    ensures
        final(target).deep_view() == if old(target).deep_view() is Some {
            old(target).deep_view()
        } else {
            value.deep_view()
        },
{
    if target.is_none() {
        *target = value;
    }
}

/// Merges one entry's metadata into the running session metadata.
fn update_meta_from_value(meta: &mut Meta, v: &JsonValue)
    ensures
        final(meta)@ == spec_update_meta(old(meta)@, v@),
{
    let agent = match v.get_str("agent") {
        Some(s) => Some(s.clone()),
        None => None,
    };
    maybe_set(&mut meta.agent, agent);
    let workspace = match v.get_str("workspace") {
        Some(s) => Some(s.clone()),
        None => None,
    };
    maybe_set(&mut meta.workspace, workspace);
    if meta.created_at.is_none() {
        meta.created_at = extract_string_field(v, "created_at");
    }
    match extract_string_field(v, "last_message_at") {
        Some(x) => {
            meta.last_message_at = Some(x);
        },
        None => {},
    }
}

/// The views of a parsed message list.
pub open spec fn msg_views(ms: Seq<ParsedMessage>) -> Seq<MsgView> {
    Seq::new(ms.len(), |i: int| ms[i]@)
}

/// The first user message with non-blank text, trimmed: the title source.
pub open spec fn spec_first_user_title(msgs: Seq<MsgView>) -> Option<Seq<char>>
    decreases msgs.len(),
{
    if msgs.len() == 0 {
        None
    } else if msgs[0].role == Some("user"@) && spec_trim(msgs[0].text).len() > 0 {
        Some(spec_trim(msgs[0].text))
    } else {
        spec_first_user_title(msgs.drop_first())
    }
}

/// The session title: the first non-blank user message, else the first
/// message's trimmed text, else none.
pub open spec fn spec_title(msgs: Seq<MsgView>) -> Option<Seq<char>> {
    match spec_first_user_title(msgs) {
        Some(t) => Some(t),
        None => if msgs.len() > 0 {
            Some(spec_trim(msgs[0].text))
        } else {
            None
        },
    }
}

/// Finds the first non-blank user message's trimmed text.
pub fn first_user_title(messages: &Vec<ParsedMessage>) -> (r: Option<String>)
    ensures
        r.deep_view() == spec_first_user_title(msg_views(messages@)),
{
    let ghost mv = msg_views(messages@);
    let mut i: usize = 0;
    proof {
        assert(mv.skip(0) =~= mv);
    }
    while i < messages.len()
        invariant
            i <= messages@.len(),
            mv == msg_views(messages@),
            spec_first_user_title(mv) == spec_first_user_title(mv.skip(i as int)),
        decreases messages@.len() - i,
    {
        proof {
            assert(mv.skip(i as int)[0] == mv[i as int]);
            assert(mv.skip(i as int).drop_first() =~= mv.skip(i + 1));
        }
        let is_user = match &messages[i].role {
            Some(r) => str_eq(r.as_str(), "user"),
            None => false,
        };
        if is_user {
            let t = trim_of(messages[i].text.as_str());
            if !t.is_empty() {
                return Some(t.to_owned());
            }
        }
        i += 1;
    }
    None
}

/// The ceiling on snippet length, in characters.
pub const MAX_SNIPPET_LEN: usize = 240;

/// The stored snippet: the trimmed content, cut to the snippet ceiling.
pub open spec fn spec_make_snippet(content: Seq<char>) -> Seq<char> {
    let t = spec_trim(content);
    if t.len() > MAX_SNIPPET_LEN {
        t.take(MAX_SNIPPET_LEN as int)
    } else {
        t
    }
}

/// Builds the bounded snippet of a content blob.
pub fn make_snippet(content: &str) -> (r: String)
    ensures
        r@ == spec_make_snippet(content@),
{
    let t = trim_of(content);
    let n = t.unicode_len();
    let end = if n > MAX_SNIPPET_LEN {
        MAX_SNIPPET_LEN
    } else {
        n
    };
    let r = t.substring_char(0, end).to_owned();
    proof {
        if n <= MAX_SNIPPET_LEN {
            assert(t@.subrange(0, n as int) =~= t@);
        }
    }
    r
}

/// One content line: `[role] text`, or the bare text for roleless turns.
pub open spec fn spec_format_line(role: Option<Seq<char>>, text: Seq<char>) -> Seq<char> {
    match role {
        Some(r) => seq!['['] + r + seq![']', ' '] + text,
        None => text,
    }
}

/// Renders one message as its content line.
pub fn format_message_line(role: &Option<String>, text: &str) -> (r: String)
    ensures
        r@ == spec_format_line(role.deep_view(), text@),
{
    match role {
        Some(ro) => {
            let mut s = String::new();
            s.append("[");
            s.append(ro.as_str());
            s.append("] ");
            s.append(text);
            proof {
                reveal_strlit("[");
                reveal_strlit("] ");
                assert("["@ =~= seq!['[']);
                assert("] "@ =~= seq![']', ' ']);
                assert(s@ =~= seq!['['] + ro@ + seq![']', ' '] + text@);
            }
            s
        },
        None => text.to_owned(),
    }
}

/// The content lines of a message list.
pub open spec fn spec_content_lines(msgs: Seq<MsgView>) -> Seq<Seq<char>> {
    Seq::new(msgs.len(), |i: int| spec_format_line(msgs[i].role, msgs[i].text))
}

/// The aggregated content blob: all content lines newline-joined.
pub open spec fn spec_content(msgs: Seq<MsgView>) -> Seq<char> {
    join_nl(spec_content_lines(msgs))
}

/// The session a message list and its merged metadata denote: timestamps
/// fall back to the first and last message, the title follows
/// [`spec_title`], and the content blob determines the snippet.
pub open spec fn spec_build_session(msgs: Seq<MsgView>, m: MetaView) -> SessionView {
    SessionView {
        created_at: if m.created_at is Some {
            m.created_at
        } else if msgs.len() > 0 {
            msgs[0].timestamp
        } else {
            None
        },
        last_message_at: if m.last_message_at is Some {
            m.last_message_at
        } else if msgs.len() > 0 {
            msgs[msgs.len() - 1].timestamp
        } else {
            None
        },
        agent: m.agent,
        workspace: m.workspace,
        title: spec_title(msgs),
        message_count: msgs.len() as int,
        snippet: spec_make_snippet(spec_content(msgs)),
        content: spec_content(msgs),
        messages: msgs,
    }
}

/// Builds the canonical session from extracted messages and metadata.
pub fn build_parsed_session(messages: Vec<ParsedMessage>, meta: Meta) -> (r: ParsedSession)
    ensures
        r@ == spec_build_session(msg_views(messages@), meta@),
{
    let ghost mv = msg_views(messages@);
    let created_at = match meta.created_at {
        Some(c) => Some(c),
        None => if messages.len() > 0 {
            match &messages[0].timestamp {
                Some(t) => Some(t.clone()),
                None => None,
            }
        } else {
            None
        },
    };
    let last_message_at = match meta.last_message_at {
        Some(c) => Some(c),
        None => if messages.len() > 0 {
            match &messages[messages.len() - 1].timestamp {
                Some(t) => Some(t.clone()),
                None => None,
            }
        } else {
            None
        },
    };
    let mut lines: Vec<String> = Vec::new();
    let mut i: usize = 0;
    while i < messages.len()
        invariant
            i <= messages@.len(),
            mv == msg_views(messages@),
            lines.deep_view() =~= spec_content_lines(mv).take(i as int),
        decreases messages@.len() - i,
    {
        let line = format_message_line(&messages[i].role, messages[i].text.as_str());
        let ghost prev = lines.deep_view();
        lines.push(line);
        proof {
            assert(mv[i as int] == messages@[i as int]@);
            assert(line@ == spec_content_lines(mv)[i as int]);
            assert(lines.deep_view() =~= prev.push(line@));
            assert(spec_content_lines(mv).take(i + 1) =~= spec_content_lines(mv).take(
                i as int,
            ).push(spec_content_lines(mv)[i as int]));
        }
        i += 1;
    }
    proof {
        assert(spec_content_lines(mv).take(mv.len() as int) =~= spec_content_lines(mv));
    }
    let content = join_lines(&lines);
    let title = match first_user_title(&messages) {
        Some(t) => Some(t),
        None => if messages.len() > 0 {
            Some(trim_of(messages[0].text.as_str()).to_owned())
        } else {
            None
        },
    };
    let snippet = make_snippet(content.as_str());
    let r = ParsedSession {
        created_at,
        last_message_at,
        agent: meta.agent,
        workspace: meta.workspace,
        title,
        message_count: messages.len(),
        snippet,
        content,
        messages,
    };
    r
}

/// The fold of line-delimited parsing from line `i` on: blank lines are
/// skipped, a malformed line aborts with its one-based number, and each
/// parsed value updates the metadata and may add one message.
pub open spec fn spec_jsonl_step(
    lines: Seq<Seq<char>>,
    i: int,
    m: MetaView,
    msgs: Seq<MsgView>,
) -> Result<(MetaView, Seq<MsgView>), int>
    decreases lines.len() - i,
{
    if i < 0 || i >= lines.len() {
        Ok((m, msgs))
    } else {
        let t = spec_trim(lines[i]);
        if t.len() == 0 {
            spec_jsonl_step(lines, i + 1, m, msgs)
        } else {
            match json_doc(t) {
                None => Err(i + 1),
                Some(v) => {
                    let m2 = spec_update_meta(m, v);
                    let msgs2 = match spec_extract_message(v) {
                        Some(x) => msgs.push(x),
                        None => msgs,
                    };
                    spec_jsonl_step(lines, i + 1, m2, msgs2)
                },
            }
        }
    }
}

/// What parsing a line-delimited transcript yields: the session, or the
/// one-based number of the first malformed line.
pub open spec fn spec_parse_jsonl(text: Seq<char>) -> Result<SessionView, int> {
    match spec_jsonl_step(spec_lines(text), 0, empty_meta(), Seq::empty()) {
        Ok((m, msgs)) => Ok(spec_build_session(msgs, m)),
        Err(line) => Err(line),
    }
}

/// Parses a line-delimited JSON transcript: each non-blank line is one JSON
/// value; one malformed line fails the whole file with its line number.
pub fn parse_jsonl(input: &str) -> (r: Result<ParsedSession, ParseError>)
    ensures
        match r {
            Ok(s) => spec_parse_jsonl(input@) == Ok::<SessionView, int>(s@),
            Err(e) => e matches ParseError::InvalidJsonl { line, .. } && spec_parse_jsonl(input@)
                == Err::<SessionView, int>(line as int),
        },
{
    let lines = split_lines(input);
    let ghost lv = spec_lines(input@);
    let mut meta = Meta { created_at: None, last_message_at: None, agent: None, workspace: None };
    let mut messages: Vec<ParsedMessage> = Vec::new();
    let mut i: usize = 0;
    proof {
        assert(msg_views(messages@) =~= Seq::<MsgView>::empty());
    }
    while i < lines.len()
        invariant
            i <= lines@.len(),
            lv == spec_lines(input@),
            lines.deep_view() == lv,
            lines@.len() == lv.len(),
            spec_jsonl_step(lv, 0, empty_meta(), Seq::empty()) == spec_jsonl_step(
                lv,
                i as int,
                meta@,
                msg_views(messages@),
            ),
        decreases lines@.len() - i,
    {
        proof {
            assert(lines@[i as int]@ == lines.deep_view()[i as int]);
        }
        let line = trim_of(lines[i].as_str());
        if !line.is_empty() {
            match crate::json::parse_json_text(line) {
                Err(e) => {
                    return Err(ParseError::InvalidJsonl { line: i + 1, source: e });
                },
                Ok(value) => {
                    let ghost m0 = meta@;
                    let ghost g0 = msg_views(messages@);
                    update_meta_from_value(&mut meta, &value);
                    match extract_message(&value) {
                        Some(m) => {
                            let ghost mvw = m@;
                            messages.push(m);
                            proof {
                                assert(msg_views(messages@) =~= g0.push(mvw));
                            }
                        },
                        None => {},
                    }
                },
            }
        }
        i += 1;
    }
    proof {
        assert(spec_jsonl_step(lv, lv.len() as int, meta@, msg_views(messages@)) == Ok::<
            (MetaView, Seq<MsgView>),
            int,
        >((meta@, msg_views(messages@))));
    }
    Ok(build_parsed_session(messages, meta))
}

/// The candidate entries of a single JSON document: the elements of an
/// array root; an object's `messages` or `events` array when one is
/// present, else the object itself; nothing for scalar roots.
pub open spec fn spec_json_entries(root: JsonView) -> Seq<JsonView> {
    match root {
        JsonView::Arr(items) => items,
        JsonView::Obj(_) => match obj_get(root, "messages"@) {
            Some(JsonView::Arr(ms)) => ms,
            _ => match obj_get(root, "events"@) {
                Some(JsonView::Arr(es)) => es,
                _ => seq![root],
            },
        },
        _ => Seq::empty(),
    }
}

/// The fold of the candidate entries from `i` on: each updates the metadata
/// and may add one message.
pub open spec fn spec_entries_step(
    entries: Seq<JsonView>,
    i: int,
    m: MetaView,
    msgs: Seq<MsgView>,
) -> (MetaView, Seq<MsgView>)
    decreases entries.len() - i,
{
    if i < 0 || i >= entries.len() {
        (m, msgs)
    } else {
        let v = entries[i];
        let m2 = spec_update_meta(m, v);
        let msgs2 = match spec_extract_message(v) {
            Some(x) => msgs.push(x),
            None => msgs,
        };
        spec_entries_step(entries, i + 1, m2, msgs2)
    }
}

/// What parsing a single JSON document yields, when the text is valid JSON.
pub open spec fn spec_parse_json(text: Seq<char>) -> Option<SessionView> {
    match json_doc(text) {
        None => None,
        Some(root) => {
            let m0 = spec_update_meta(empty_meta(), root);
            let folded = spec_entries_step(spec_json_entries(root), 0, m0, Seq::empty());
            Some(spec_build_session(folded.1, folded.0))
        },
    }
}

/// The array under `key`, when the field holds one.
fn array_field<'a>(v: &'a JsonValue, key: &str) -> (r: Option<&'a Vec<JsonValue>>)
    ensures
        match r {
            Some(items) => obj_get(v@, key@) == Some(JsonView::Arr(jv_views(items@))),
            None => match obj_get(v@, key@) {
                Some(f) => !(f is Arr),
                None => true,
            },
        },
{
    match v.get(key) {
        Some(f) => f.as_array(),
        None => None,
    }
}

/// Parses a single JSON document: an array root's elements, or an object's
/// `messages`/`events` array (else the object itself), are the candidate
/// messages; invalid JSON fails the whole file.
pub fn parse_json(input: &str) -> (r: Result<ParsedSession, ParseError>)
    ensures
        match r {
            Ok(s) => spec_parse_json(input@) == Some(s@),
            Err(e) => e matches ParseError::InvalidJson { .. } && spec_parse_json(input@) is None,
        },
{
    let root = match crate::json::parse_json_text(input) {
        Ok(v) => v,
        Err(e) => {
            return Err(ParseError::InvalidJson { source: e });
        },
    };
    let mut meta = Meta { created_at: None, last_message_at: None, agent: None, workspace: None };
    update_meta_from_value(&mut meta, &root);
    let ghost ev = spec_json_entries(root@);
    let mut entries: Vec<&JsonValue> = Vec::new();
    match &root {
        JsonValue::Arr(items) => {
            proof {
                lemma_jv_views_index(items@);
            }
            let mut i: usize = 0;
            while i < items.len()
                invariant
                    i <= items@.len(),
                    entries@.len() == i,
                    ev == jv_views(items@),
                    ev.len() == items@.len(),
                    forall|k: int| 0 <= k < items@.len() ==> ev[k] == items@[k]@,
                    root@ == JsonView::Arr(jv_views(items@)),
                    forall|k: int| 0 <= k < i ==> entries@[k]@ == ev[k],
                decreases items@.len() - i,
            {
                entries.push(&items[i]);
                i += 1;
            }
        },
        JsonValue::Obj(_) => {
            let found = match array_field(&root, "messages") {
                Some(items) => Some(items),
                None => match array_field(&root, "events") {
                    Some(items) => Some(items),
                    None => None,
                },
            };
            match found {
                Some(items) => {
                    proof {
                        lemma_jv_views_index(items@);
                    }
                    let mut i: usize = 0;
                    while i < items.len()
                        invariant
                            i <= items@.len(),
                            entries@.len() == i,
                            ev == jv_views(items@),
                            ev.len() == items@.len(),
                            forall|k: int| 0 <= k < items@.len() ==> ev[k] == items@[k]@,
                            forall|k: int| 0 <= k < i ==> entries@[k]@ == ev[k],
                        decreases items@.len() - i,
                    {
                        entries.push(&items[i]);
                        i += 1;
                    }
                },
                None => {
                    entries.push(&root);
                    proof {
                        assert(ev =~= seq![root@]);
                    }
                },
            }
        },
        _ => {
            proof {
                assert(ev =~= Seq::<JsonView>::empty());
            }
        },
    }
    let ghost m0 = meta@;
    let mut messages: Vec<ParsedMessage> = Vec::new();
    let mut i: usize = 0;
    proof {
        assert(msg_views(messages@) =~= Seq::<MsgView>::empty());
    }
    while i < entries.len()
        invariant
            i <= entries@.len(),
            entries@.len() == ev.len(),
            forall|k: int| 0 <= k < ev.len() ==> entries@[k]@ == ev[k],
            spec_entries_step(ev, 0, m0, Seq::empty()) == spec_entries_step(
                ev,
                i as int,
                meta@,
                msg_views(messages@),
            ),
        decreases entries@.len() - i,
    {
        let entry = entries[i];
        let ghost g0 = msg_views(messages@);
        update_meta_from_value(&mut meta, entry);
        match extract_message(entry) {
            Some(m) => {
                let ghost mvw = m@;
                messages.push(m);
                proof {
                    assert(msg_views(messages@) =~= g0.push(mvw));
                }
            },
            None => {},
        }
        i += 1;
    }
    Ok(build_parsed_session(messages, meta))
}

/// True when the text names one of the recognized roles, in any ASCII
/// case; the recognized names are ASCII, so ASCII folding decides exactly.
pub open spec fn spec_matches_role(role: Seq<char>) -> bool {
    lower(role) == "user"@ || lower(role) == "assistant"@ || lower(role) == "system"@ || lower(
        role,
    ) == "developer"@ || lower(role) == "tool"@
}

/// Tests a candidate role name, ignoring ASCII case.
pub fn matches_role(role: &str) -> (r: bool)
    ensures
        r == spec_matches_role(role@),
{
    let l = to_lower_str(role);
    str_eq(l.as_str(), "user") || str_eq(l.as_str(), "assistant") || str_eq(l.as_str(), "system")
        || str_eq(l.as_str(), "developer") || str_eq(l.as_str(), "tool")
}

/// How a Markdown line splits at its first colon: a recognized role prefix
/// yields the normalized role and trimmed text; no colon, a blank remainder,
/// or an unrecognized prefix yields nothing.
pub open spec fn spec_split_role_prefix(line: Seq<char>) -> Option<(Seq<char>, Seq<char>)> {
    let i = crate::text::find_char(line, ':', 0);
    if i == line.len() {
        None
    } else {
        let role = spec_trim(line.take(i));
        let text = spec_trim(line.skip(i + 1));
        if text.len() == 0 {
            None
        } else if spec_matches_role(role) {
            Some((spec_normalize_role(role), text))
        } else {
            None
        }
    }
}

/// Splits a leading `role:` prefix off a Markdown line.
pub fn split_role_prefix(line: &str) -> (r: Option<(String, String)>)
    ensures
        match r {
            Some(p) => spec_split_role_prefix(line@) == Some((p.0@, p.1@)),
            None => spec_split_role_prefix(line@) is None,
        },
{
    let n = line.unicode_len();
    let ci = crate::text::find_char_from(line, ':', 0);
    if ci == n {
        return None;
    }
    let role = trim_of(line.substring_char(0, ci));
    let text = trim_of(line.substring_char(ci + 1, n));
    proof {
        assert(line@.subrange(0, ci as int) =~= line@.take(ci as int));
        assert(line@.subrange(ci + 1, n as int) =~= line@.skip(ci + 1));
    }
    if text.is_empty() {
        return None;
    }
    if matches_role(role) {
        Some((normalize_role(role), text.to_owned()))
    } else {
        None
    }
}

/// The fold of Markdown parsing from line `i` on: blank lines are skipped;
/// a recognized `role:` prefix sets the role; other non-blank lines become
/// roleless messages.
pub open spec fn spec_md_step(lines: Seq<Seq<char>>, i: int, msgs: Seq<MsgView>) -> Seq<MsgView>
    decreases lines.len() - i,
{
    if i < 0 || i >= lines.len() {
        msgs
    } else {
        let t = spec_trim(lines[i]);
        if t.len() == 0 {
            spec_md_step(lines, i + 1, msgs)
        } else {
            let pair = match spec_split_role_prefix(t) {
                Some(p) => (Some(p.0), p.1),
                None => (None, t),
            };
            if spec_trim(pair.1).len() == 0 {
                spec_md_step(lines, i + 1, msgs)
            } else {
                spec_md_step(
                    lines,
                    i + 1,
                    msgs.push(MsgView { role: pair.0, text: pair.1, timestamp: None }),
                )
            }
        }
    }
}

/// What parsing a Markdown transcript yields; no line can fail.
pub open spec fn spec_parse_markdown(text: Seq<char>) -> SessionView {
    spec_build_session(spec_md_step(spec_lines(text), 0, Seq::empty()), empty_meta())
}

/// Parses a lightweight Markdown transcript: each non-blank line is one
/// message, with an optional recognized `role:` prefix.
pub fn parse_markdown(input: &str) -> (r: ParsedSession)
    ensures
        r@ == spec_parse_markdown(input@),
{
    let lines = split_lines(input);
    let ghost lv = spec_lines(input@);
    let mut messages: Vec<ParsedMessage> = Vec::new();
    let mut i: usize = 0;
    proof {
        assert(msg_views(messages@) =~= Seq::<MsgView>::empty());
    }
    while i < lines.len()
        invariant
            i <= lines@.len(),
            lv == spec_lines(input@),
            lines.deep_view() == lv,
            lines@.len() == lv.len(),
            spec_md_step(lv, 0, Seq::empty()) == spec_md_step(
                lv,
                i as int,
                msg_views(messages@),
            ),
        decreases lines@.len() - i,
    {
        proof {
            assert(lines@[i as int]@ == lines.deep_view()[i as int]);
        }
        let line = trim_of(lines[i].as_str());
        if !line.is_empty() {
            let pair = match split_role_prefix(line) {
                Some(p) => (Some(p.0), p.1),
                None => (None, line.to_owned()),
            };
            let keep = !is_blank(pair.1.as_str());
            if keep {
                let ghost g0 = msg_views(messages@);
                let m = ParsedMessage { role: pair.0, text: pair.1, timestamp: None };
                let ghost mvw = m@;
                messages.push(m);
                proof {
                    assert(msg_views(messages@) =~= g0.push(mvw));
                }
            }
        }
        i += 1;
    }
    build_parsed_session(messages, Meta {
        created_at: None,
        last_message_at: None,
        agent: None,
        workspace: None,
    })
}

proof fn lemma_all_space_trims_empty(s: Seq<char>)
    requires
        forall|k: int| 0 <= k < s.len() ==> crate::text::is_space(s[k]),
    ensures
        spec_trim(s).len() == 0,
{
    crate::text::lemma_scan_non_space(s, 0, s.len() as int);
}

proof fn lemma_lines_of_blank(text: Seq<char>)
    requires
        forall|k: int| 0 <= k < text.len() ==> crate::text::is_space(text[k]),
    ensures
        forall|j: int, k: int|
            0 <= j < spec_lines(text).len() && 0 <= k < spec_lines(text)[j].len()
                ==> crate::text::is_space(#[trigger] spec_lines(text)[j][k]),
    decreases text.len(),
{
    if text.len() > 0 {
        let i = crate::text::find_char(text, '\n', 0);
        crate::text::lemma_find_char_le(text, '\n', 0);
        if i == text.len() {
            assert forall|j: int, k: int|
                0 <= j < spec_lines(text).len() && 0 <= k < spec_lines(text)[j].len()
                    implies crate::text::is_space(#[trigger] spec_lines(text)[j][k]) by {
                assert(spec_lines(text)[j] == crate::text::strip_cr(text));
                assert(spec_lines(text)[j][k] == text[k]);
            }
        } else {
            let rest = text.skip(i + 1);
            assert forall|k: int| 0 <= k < rest.len() implies crate::text::is_space(
                #[trigger] rest[k],
            ) by {
                assert(rest[k] == text[k + i + 1]);
            }
            lemma_lines_of_blank(rest);
            let head = crate::text::strip_cr(text.take(i));
            assert forall|j: int, k: int|
                0 <= j < spec_lines(text).len() && 0 <= k < spec_lines(text)[j].len()
                    implies crate::text::is_space(#[trigger] spec_lines(text)[j][k]) by {
                if j == 0 {
                    assert(spec_lines(text)[0] == head);
                    assert(head[k] == text[k]);
                } else {
                    assert(spec_lines(text)[j] == spec_lines(rest)[j - 1]);
                    assert(crate::text::is_space(spec_lines(rest)[j - 1][k]));
                }
            }
        }
    }
}

proof fn lemma_jsonl_blank_steps(lines: Seq<Seq<char>>, i: int, m: MetaView, msgs: Seq<MsgView>)
    requires
        forall|j: int| 0 <= j < lines.len() ==> spec_trim(#[trigger] lines[j]).len() == 0,
    ensures
        spec_jsonl_step(lines, i, m, msgs) == Ok::<(MetaView, Seq<MsgView>), int>((m, msgs)),
    decreases lines.len() - i,
{
    if 0 <= i < lines.len() {
        lemma_jsonl_blank_steps(lines, i + 1, m, msgs);
    }
}

proof fn lemma_md_blank_steps(lines: Seq<Seq<char>>, i: int, msgs: Seq<MsgView>)
    requires
        forall|j: int| 0 <= j < lines.len() ==> spec_trim(#[trigger] lines[j]).len() == 0,
    ensures
        spec_md_step(lines, i, msgs) == msgs,
    decreases lines.len() - i,
{
    if 0 <= i < lines.len() {
        lemma_md_blank_steps(lines, i + 1, msgs);
    }
}

/// An empty or whitespace-only input parses, in the formats whose grammar
/// accepts it, to a session with zero messages, no title, no metadata, and
/// empty content.
pub proof fn lemma_blank_input_yields_nothing(text: Seq<char>)
    requires
        forall|k: int| 0 <= k < text.len() ==> crate::text::is_space(#[trigger] text[k]),
    ensures
        spec_parse_jsonl(text) == Ok::<SessionView, int>(
            spec_build_session(Seq::empty(), empty_meta()),
        ),
        spec_parse_markdown(text) == spec_build_session(Seq::empty(), empty_meta()),
        spec_build_session(Seq::empty(), empty_meta()).message_count == 0,
        spec_build_session(Seq::empty(), empty_meta()).title is None,
        spec_build_session(Seq::empty(), empty_meta()).content.len() == 0,
        spec_build_session(Seq::empty(), empty_meta()).snippet.len() == 0,
{
    let lines = spec_lines(text);
    lemma_lines_of_blank(text);
    assert forall|j: int| 0 <= j < lines.len() implies spec_trim(#[trigger] lines[j]).len()
        == 0 by {
        lemma_all_space_trims_empty(lines[j]);
    }
    lemma_jsonl_blank_steps(lines, 0, empty_meta(), Seq::empty());
    lemma_md_blank_steps(lines, 0, Seq::empty());
    let s = spec_build_session(Seq::empty(), empty_meta());
    assert(spec_content_lines(Seq::empty()).len() == 0);
    assert(s.content =~= Seq::<char>::empty());
    lemma_all_space_trims_empty(s.content);
}

} // verus!
