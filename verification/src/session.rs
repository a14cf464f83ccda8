//! The session inspector: answers turn, line and tool-call lookups against
//! one transcript file's text directly, without requiring the file to be
//! indexed, replaying the normalizer's extraction rules line by line.

use vstd::prelude::*;

use crate::json::{JsonValue, JsonView, get_text, json_doc, jv_views, lemma_jv_views_index, obj_get, type_is};
use crate::model::MsgView;
use crate::parse::{spec_extract_content_array, spec_extract_message};
use crate::text::{lower, spec_lines, spec_trim, split_lines, str_eq, starts_with_str, to_lower_str, trim_of};

verus! {

broadcast use vstd::std_specs::vec::group_vec_axioms;

/// One raw transcript entry, addressed by line or by turn.
pub struct SessionEntry {
    /// One-based source line number.
    pub line: usize,
    /// The turn index, when the entry was found by turn.
    pub message_index: Option<usize>,
    pub role: Option<String>,
    pub timestamp: Option<String>,
    pub value: JsonValue,
}

/// One embedded tool invocation: its name and raw arguments.
pub struct ToolCall {
    pub name: String,
    pub arguments: JsonValue,
}

/// A tool call found while streaming a transcript.
pub struct ToolCallMatch {
    pub line: usize,
    pub message_index: Option<usize>,
    pub tool: ToolCall,
}

/// Why an inspection failed.
#[derive(Debug)]
pub enum SessionError {
    InvalidJson { line: usize, source: serde_json::Error },
    UnsupportedFormat { path: String },
    TurnOutOfRange { turn: usize, available: usize },
    LineOutOfRange { line: usize },
    NotFound { input: String },
    Ambiguous { input: String, candidates: Vec<String> },
}

/// The file name of a path: everything after its last slash.
pub open spec fn spec_base_name(path: Seq<char>) -> Seq<char> {
    path.skip(crate::text::rfind_char(path, '/', path.len() as int) + 1)
}

/// The extension of a path: what follows the base name's last dot, absent
/// when there is no dot or the dot leads the name.
pub open spec fn spec_extension(path: Seq<char>) -> Option<Seq<char>> {
    let b = spec_base_name(path);
    let d = crate::text::rfind_char(b, '.', b.len() as int);
    if d <= 0 {
        None
    } else {
        Some(b.skip(d + 1))
    }
}

/// Extracts a path's file name extension.
pub fn extension_of(path: &str) -> (r: Option<String>)
    ensures
        match r {
            Some(e) => spec_extension(path@) == Some(e@),
            None => spec_extension(path@) is None,
        },
{
    let n = path.unicode_len();
    let base_start = match crate::text::rfind_char_from(path, '/') {
        Some(w) => w + 1,
        None => 0,
    };
    let base = path.substring_char(base_start, n);
    proof {
        assert(base@ =~= spec_base_name(path@));
    }
    let bn = base.unicode_len();
    match crate::text::rfind_char_from(base, '.') {
        Some(d) => {
            if d == 0 {
                None
            } else {
                let e = base.substring_char(d + 1, bn).to_owned();
                proof {
                    assert(e@ =~= spec_base_name(path@).skip(d + 1));
                }
                Some(e)
            }
        },
        None => None,
    }
}

/// Requires the inspected file to be line-delimited JSON, by extension.
pub fn ensure_jsonl(path: &str) -> (r: Result<(), SessionError>)
    ensures
        match r {
            Ok(()) => spec_extension(path@) == Some("jsonl"@),
            Err(e) => e matches SessionError::UnsupportedFormat { .. } && spec_extension(path@)
                != Some("jsonl"@),
        },
{
    match extension_of(path) {
        Some(e) => {
            if str_eq(e.as_str(), "jsonl") {
                Ok(())
            } else {
                Err(SessionError::UnsupportedFormat { path: path.to_owned() })
            }
        },
        None => Err(SessionError::UnsupportedFormat { path: path.to_owned() }),
    }
}

/// What scanning a transcript for its `n`-th extractable message yields.
pub ghost enum TurnOutcome {
    /// The turn exists: its one-based line, raw value, and derived message.
    Found { line: int, value: JsonView, msg: MsgView },
    /// A malformed line stopped the scan, at this one-based line.
    BadLine { line: int },
    /// The scan ended with only `available` extractable messages.
    End { available: int },
}

/// The scan for turn `turn`, from line `i` with `count` messages seen:
/// blank lines are skipped, every other line must parse, and each extracted
/// message consumes one turn index.
pub open spec fn spec_find_turn(lines: Seq<Seq<char>>, i: int, count: int, turn: int) -> TurnOutcome
    decreases lines.len() - i,
{
    if i < 0 || i >= lines.len() {
        TurnOutcome::End { available: count }
    } else {
        let t = spec_trim(lines[i]);
        if t.len() == 0 {
            spec_find_turn(lines, i + 1, count, turn)
        } else {
            match json_doc(t) {
                None => TurnOutcome::BadLine { line: i + 1 },
                Some(v) => match spec_extract_message(v) {
                    Some(m) => if count == turn {
                        TurnOutcome::Found { line: i + 1, value: v, msg: m }
                    } else {
                        spec_find_turn(lines, i + 1, count + 1, turn)
                    },
                    None => spec_find_turn(lines, i + 1, count, turn),
                },
            }
        }
    }
}

/// Replays message extraction over the file's text until the `turn`-th
/// extracted message, returning its raw value, line number and derived
/// role and timestamp; fails out-of-range with the count actually found.
pub fn load_entry_by_turn(path: &str, contents: &str, turn: usize) -> (r: Result<
    SessionEntry,
    SessionError,
>)
    ensures
        match r {
            Ok(entry) => {
                &&& spec_extension(path@) == Some("jsonl"@)
                &&& spec_find_turn(spec_lines(contents@), 0, 0, turn as int) matches
                    TurnOutcome::Found { line, value, msg } && entry.line == line && entry.value@
                    == value && entry.role.deep_view() == msg.role && entry.timestamp.deep_view()
                    == msg.timestamp
                &&& entry.message_index == Some(turn)
            },
            Err(SessionError::UnsupportedFormat { .. }) => spec_extension(path@) != Some(
                "jsonl"@,
            ),
            Err(SessionError::TurnOutOfRange { turn: t, available }) => {
                &&& spec_extension(path@) == Some("jsonl"@)
                &&& t == turn
                &&& spec_find_turn(spec_lines(contents@), 0, 0, turn as int)
                    == (TurnOutcome::End { available: available as int })
            },
            Err(SessionError::InvalidJson { line, .. }) => {
                &&& spec_extension(path@) == Some("jsonl"@)
                &&& spec_find_turn(spec_lines(contents@), 0, 0, turn as int)
                    == (TurnOutcome::BadLine { line: line as int })
            },
            Err(_) => false,
        },
{
    match ensure_jsonl(path) {
        Ok(()) => {},
        Err(e) => {
            return Err(e);
        },
    }
    let lines = split_lines(contents);
    let ghost lv = spec_lines(contents@);
    let mut count: usize = 0;
    let mut i: usize = 0;
    while i < lines.len()
        invariant
            i <= lines@.len(),
            count <= i,
            lv == spec_lines(contents@),
            lines.deep_view() == lv,
            lines@.len() == lv.len(),
            spec_extension(path@) == Some("jsonl"@),
            spec_find_turn(lv, 0, 0, turn as int) == spec_find_turn(
                lv,
                i as int,
                count as int,
                turn as int,
            ),
        decreases lines@.len() - i,
    {
        proof {
            assert(lines@[i as int]@ == lines.deep_view()[i as int]);
        }
        let line = trim_of(lines[i].as_str());
        if !line.is_empty() {
            proof {
                assert(line@ == spec_trim(lv[i as int]));
            }
            let value = match crate::json::parse_json_text(line) {
                Ok(v) => v,
                Err(e) => {
                    proof {
                        assert(spec_find_turn(lv, i as int, count as int, turn as int)
                            == (TurnOutcome::BadLine { line: i + 1 }));
                    }
                    return Err(SessionError::InvalidJson { line: i + 1, source: e });
                },
            };
            match crate::parse::extract_message(&value) {
                Some(m) => {
                    if count == turn {
                        proof {
                            assert(spec_find_turn(lv, i as int, count as int, turn as int)
                                matches TurnOutcome::Found { line, value: vv, msg } && line == i
                                + 1 && vv == value@ && msg == m@);
                        }
                        return Ok(SessionEntry {
                            line: i + 1,
                            message_index: Some(turn),
                            role: m.role,
                            timestamp: m.timestamp,
                            value,
                        });
                    }
                    count += 1;
                },
                None => {},
            }
        }
        i += 1;
    }
    Err(SessionError::TurnOutOfRange { turn, available: count })
}

/// What reading one exact line yields.
pub ghost enum LineOutcome {
    /// The line holds a JSON value, with the message it denotes, if any.
    Value { value: JsonView, msg: Option<MsgView> },
    /// The line does not exist or is blank.
    Missing,
    /// The line is malformed.
    Bad,
}

/// The raw value at one-based line `line`, regardless of whether the line
/// yields an extractable message.
pub open spec fn spec_line_entry(lines: Seq<Seq<char>>, line: int) -> LineOutcome {
    if line < 1 || line > lines.len() {
        LineOutcome::Missing
    } else {
        let t = spec_trim(lines[line - 1]);
        if t.len() == 0 {
            LineOutcome::Missing
        } else {
            match json_doc(t) {
                None => LineOutcome::Bad,
                Some(v) => LineOutcome::Value { value: v, msg: spec_extract_message(v) },
            }
        }
    }
}

/// Returns the raw parsed value of exactly line `line` (one-based); role
/// and timestamp are filled when the line also yields a message.
pub fn load_entry_by_line(path: &str, contents: &str, line: usize) -> (r: Result<
    SessionEntry,
    SessionError,
>)
    ensures
        match r {
            Ok(entry) => {
                &&& spec_extension(path@) == Some("jsonl"@)
                &&& spec_line_entry(spec_lines(contents@), line as int) matches LineOutcome::Value {
                    value,
                    msg,
                } && entry.value@ == value && (match msg {
                    Some(m) => entry.role.deep_view() == m.role && entry.timestamp.deep_view()
                        == m.timestamp,
                    None => entry.role is None && entry.timestamp is None,
                })
                &&& entry.line == line
                &&& entry.message_index is None
            },
            Err(SessionError::UnsupportedFormat { .. }) => spec_extension(path@) != Some(
                "jsonl"@,
            ),
            Err(SessionError::LineOutOfRange { line: l }) => {
                &&& spec_extension(path@) == Some("jsonl"@)
                &&& l == line
                &&& spec_line_entry(spec_lines(contents@), line as int) is Missing
            },
            Err(SessionError::InvalidJson { line: l, .. }) => {
                &&& spec_extension(path@) == Some("jsonl"@)
                &&& l == line
                &&& spec_line_entry(spec_lines(contents@), line as int) is Bad
            },
            Err(_) => false,
        },
{
    match ensure_jsonl(path) {
        Ok(()) => {},
        Err(e) => {
            return Err(e);
        },
    }
    let lines = split_lines(contents);
    if line < 1 || line > lines.len() {
        return Err(SessionError::LineOutOfRange { line });
    }
    proof {
        assert(lines@[line - 1]@ == lines.deep_view()[line - 1]);
    }
    let trimmed = trim_of(lines[line - 1].as_str());
    if trimmed.is_empty() {
        return Err(SessionError::LineOutOfRange { line });
    }
    let value = match crate::json::parse_json_text(trimmed) {
        Ok(v) => v,
        Err(e) => {
            return Err(SessionError::InvalidJson { line, source: e });
        },
    };
    let (role, timestamp) = match crate::parse::extract_message(&value) {
        Some(m) => (m.role, m.timestamp),
        None => (None, None),
    };
    Ok(SessionEntry { line, message_index: None, role, timestamp, value })
}

/// One tool invocation, mathematically.
pub ghost struct ToolView {
    pub name: Seq<char>,
    pub arguments: JsonView,
}

impl View for ToolCall {
    type V = ToolView;

    open spec fn view(&self) -> ToolView {
        ToolView { name: self.name@, arguments: self.arguments@ }
    }
}

/// The tool calls among content items: each item typed `toolCall`, with its
/// name (or `unknown`) and raw arguments (or null).
pub open spec fn spec_tools_of_items(items: Seq<JsonView>) -> Seq<ToolView>
    decreases items.len(),
{
    if items.len() == 0 {
        Seq::empty()
    } else {
        let rest = spec_tools_of_items(items.drop_first());
        if type_is(items[0], "toolCall"@) {
            seq![
                ToolView {
                    name: match get_text(items[0], "name"@) {
                        Some(n) => n,
                        None => "unknown"@,
                    },
                    arguments: match obj_get(items[0], "arguments"@) {
                        Some(a) => a,
                        None => JsonView::Null,
                    },
                },
            ] + rest
        } else {
            rest
        }
    }
}

/// The embedded tool invocations a transcript value carries.
pub open spec fn spec_tool_calls(v: JsonView) -> Seq<ToolView> {
    match spec_extract_content_array(v) {
        Some(items) => spec_tools_of_items(items),
        None => Seq::empty(),
    }
}

/// The views of a tool-call list.
pub open spec fn tool_views(ts: Seq<ToolCall>) -> Seq<ToolView> {
    Seq::new(ts.len(), |i: int| ts[i]@)
}

/// Extracts the embedded tool invocations of one transcript value.
pub fn extract_tool_calls(value: &JsonValue) -> (r: Vec<ToolCall>)
    ensures
        tool_views(r@) == spec_tool_calls(value@),
{
    let mut tools: Vec<ToolCall> = Vec::new();
    let items = match crate::parse::extract_content_array(value) {
        Some(items) => items,
        None => {
            proof {
                assert(tool_views(tools@) =~= Seq::<ToolView>::empty());
            }
            return tools;
        },
    };
    let ghost iv = jv_views(items@);
    proof {
        lemma_jv_views_index(items@);
        assert(iv.skip(0) =~= iv);
        assert(tool_views(tools@) =~= Seq::<ToolView>::empty());
        assert(tool_views(tools@) + spec_tools_of_items(iv) =~= spec_tools_of_items(iv));
    }
    let mut i: usize = 0;
    while i < items.len()
        invariant
            i <= items@.len(),
            iv == jv_views(items@),
            iv.len() == items@.len(),
            forall|k: int| 0 <= k < items@.len() ==> iv[k] == items@[k]@,
            spec_tool_calls(value@) == spec_tools_of_items(iv),
            spec_tools_of_items(iv) == tool_views(tools@) + spec_tools_of_items(
                iv.skip(i as int),
            ),
        decreases items@.len() - i,
    {
        proof {
            assert(iv.skip(i as int)[0] == iv[i as int]);
            assert(iv.skip(i as int).drop_first() =~= iv.skip(i + 1));
        }
        let item = &items[i];
        if item.type_is("toolCall") {
            let name = match item.get_str("name") {
                Some(n) => n.clone(),
                None => "unknown".to_owned(),
            };
            let arguments = match item.get("arguments") {
                Some(a) => a.clone_value(),
                None => JsonValue::Null,
            };
            let ghost prev = tool_views(tools@);
            let tool = ToolCall { name, arguments };
            let ghost tv = tool@;
            tools.push(tool);
            proof {
                assert(tool_views(tools@) =~= prev.push(tv));
                assert(prev.push(tv) + spec_tools_of_items(iv.skip(i + 1)) =~= prev + (seq![tv]
                    + spec_tools_of_items(iv.skip(i + 1))));
            }
        }
        i += 1;
    }
    proof {
        assert(spec_tools_of_items(iv.skip(iv.len() as int)) =~= Seq::<ToolView>::empty());
        assert(tool_views(tools@) + Seq::<ToolView>::empty() =~= tool_views(tools@));
    }
    tools
}

/// Whether a tool name passes the optional name filter, ignoring ASCII
/// case (as `str::eq_ignore_ascii_case` would).
pub open spec fn spec_tool_passes(name: Seq<char>, filter: Option<Seq<char>>) -> bool {
    match filter {
        Some(f) => lower(name) == lower(f),
        None => true,
    }
}

/// One found tool call, mathematically.
pub ghost struct MatchView {
    pub line: int,
    pub message_index: Option<int>,
    pub tool: ToolView,
}

impl View for ToolCallMatch {
    type V = MatchView;

    open spec fn view(&self) -> MatchView {
        MatchView {
            line: self.line as int,
            message_index: match self.message_index {
                Some(x) => Some(x as int),
                None => None,
            },
            tool: self.tool@,
        }
    }
}

/// The views of a match list.
pub open spec fn match_views(ms: Seq<ToolCallMatch>) -> Seq<MatchView> {
    Seq::new(ms.len(), |k: int| ms[k]@)
}

/// The matches one line's tools contribute: those passing the filter, each
/// stamped with the line number and the line's turn index, if any.
pub open spec fn spec_line_matches(
    tools: Seq<ToolView>,
    filter: Option<Seq<char>>,
    line: int,
    midx: Option<int>,
) -> Seq<MatchView>
    decreases tools.len(),
{
    if tools.len() == 0 {
        Seq::empty()
    } else {
        let rest = spec_line_matches(tools.drop_first(), filter, line, midx);
        if spec_tool_passes(tools[0].name, filter) {
            seq![MatchView { line, message_index: midx, tool: tools[0] }] + rest
        } else {
            rest
        }
    }
}

/// The streaming tool-call scan from line `i` on, with `count` messages
/// seen and `acc` matches found: every non-blank line must parse; each
/// line's passing tool calls are collected until the optional match cap is
/// reached (checked after each match, so a zero cap still yields the first).
pub open spec fn spec_scan_tools(
    lines: Seq<Seq<char>>,
    i: int,
    count: int,
    acc: Seq<MatchView>,
    filter: Option<Seq<char>>,
    limit: Option<int>,
) -> Result<Seq<MatchView>, int>
    decreases lines.len() - i,
{
    if i < 0 || i >= lines.len() {
        Ok(acc)
    } else {
        let t = spec_trim(lines[i]);
        if t.len() == 0 {
            spec_scan_tools(lines, i + 1, count, acc, filter, limit)
        } else {
            match json_doc(t) {
                None => Err(i + 1),
                Some(v) => {
                    let midx: Option<int> = if spec_extract_message(v) is Some {
                        Some(count)
                    } else {
                        None
                    };
                    let ms = spec_line_matches(spec_tool_calls(v), filter, i + 1, midx);
                    let count2 = if midx is Some {
                        count + 1
                    } else {
                        count
                    };
                    match limit {
                        Some(l) => {
                            let cap = if l <= acc.len() {
                                1int
                            } else {
                                l - acc.len()
                            };
                            if ms.len() >= cap {
                                Ok(acc + ms.take(cap))
                            } else {
                                spec_scan_tools(lines, i + 1, count2, acc + ms, filter, limit)
                            }
                        },
                        None => spec_scan_tools(lines, i + 1, count2, acc + ms, filter, limit),
                    }
                },
            }
        }
    }
}

/// Appends the first `upto` collected matches of one line to the result.
fn append_matches(matches: &mut Vec<ToolCallMatch>, kept: &Vec<ToolCallMatch>, upto: usize)
    requires
        upto <= kept@.len(),
    ensures
        match_views(final(matches)@) == match_views(old(matches)@) + match_views(kept@).take(
            upto as int,
        ),
{
    let ghost acc0 = match_views(matches@);
    let ghost line_ms = match_views(kept@);
    let mut k: usize = 0;
    proof {
        assert(match_views(matches@) =~= acc0 + line_ms.take(0));
    }
    while k < upto
        invariant
            k <= upto,
            upto <= kept@.len(),
            line_ms == match_views(kept@),
            match_views(matches@) =~= acc0 + line_ms.take(k as int),
        decreases upto - k,
    {
        let ghost prev = match_views(matches@);
        let item = ToolCallMatch {
            line: kept[k].line,
            message_index: kept[k].message_index,
            tool: ToolCall {
                name: kept[k].tool.name.clone(),
                arguments: kept[k].tool.arguments.clone_value(),
            },
        };
        proof {
            assert(item@ == kept@[k as int]@);
            assert(kept@[k as int]@ == line_ms[k as int]);
        }
        matches.push(item);
        proof {
            assert(match_views(matches@) =~= prev.push(line_ms[k as int]));
            assert(prev.push(line_ms[k as int]) =~= acc0 + line_ms.take(k + 1));
        }
        k += 1;
    }
}

/// Decides the optional case-insensitive name filter.
fn tool_passes(name: &str, filter: &Option<&str>) -> (r: bool)
    ensures
        r == spec_tool_passes(
            name@,
            match *filter {
                Some(f) => Some(f@),
                None => None,
            },
        ),
{
    match filter {
        Some(f) => {
            let ln = to_lower_str(name);
            let lf = to_lower_str(f);
            str_eq(ln.as_str(), lf.as_str())
        },
        None => true,
    }
}

/// Streams the file once, extracting embedded tool invocations from every
/// line regardless of whether the line also yields a message, optionally
/// filtered by name (ignoring ASCII case) and capped by a match limit.
pub fn scan_tool_calls(path: &str, contents: &str, tool: Option<&str>, limit: Option<usize>) -> (r:
    Result<Vec<ToolCallMatch>, SessionError>)
    ensures
        ({
            let fv = match tool {
                Some(f) => Some(f@),
                None => None,
            };
            let limv = match limit {
                Some(l) => Some(l as int),
                None => None,
            };
            match r {
                Ok(ms) => spec_extension(path@) == Some("jsonl"@) && spec_scan_tools(
                    spec_lines(contents@),
                    0,
                    0,
                    Seq::empty(),
                    fv,
                    limv,
                ) == Ok::<Seq<MatchView>, int>(match_views(ms@)),
                Err(SessionError::UnsupportedFormat { .. }) => spec_extension(path@) != Some(
                    "jsonl"@,
                ),
                Err(SessionError::InvalidJson { line, .. }) => spec_extension(path@) == Some(
                    "jsonl"@,
                ) && spec_scan_tools(spec_lines(contents@), 0, 0, Seq::empty(), fv, limv)
                    == Err::<Seq<MatchView>, int>(line as int),
                Err(_) => false,
            }
        }),
{
    let ghost fv: Option<Seq<char>> = match tool {
        Some(f) => Some(f@),
        None => None,
    };
    let ghost limv: Option<int> = match limit {
        Some(l) => Some(l as int),
        None => None,
    };
    match ensure_jsonl(path) {
        Ok(()) => {},
        Err(e) => {
            return Err(e);
        },
    }
    let lines = split_lines(contents);
    let ghost lv = spec_lines(contents@);
    let mut matches: Vec<ToolCallMatch> = Vec::new();
    let mut count: usize = 0;
    let mut i: usize = 0;
    proof {
        assert(match_views(matches@) =~= Seq::<MatchView>::empty());
    }
    while i < lines.len()
        invariant
            i <= lines@.len(),
            count <= i,
            lv == spec_lines(contents@),
            lines.deep_view() == lv,
            lines@.len() == lv.len(),
            spec_extension(path@) == Some("jsonl"@),
            fv == (match tool {
                Some(f) => Some(f@),
                None => None,
            }),
            limv == (match limit {
                Some(l) => Some(l as int),
                None => None,
            }),
            spec_scan_tools(lv, 0, 0, Seq::empty(), fv, limv) == spec_scan_tools(
                lv,
                i as int,
                count as int,
                match_views(matches@),
                fv,
                limv,
            ),
        decreases lines@.len() - i,
    {
        proof {
            assert(lines@[i as int]@ == lines.deep_view()[i as int]);
        }
        let line = trim_of(lines[i].as_str());
        if !line.is_empty() {
            proof {
                assert(line@ == spec_trim(lv[i as int]));
            }
            let value = match crate::json::parse_json_text(line) {
                Ok(v) => v,
                Err(e) => {
                    return Err(SessionError::InvalidJson { line: i + 1, source: e });
                },
            };
            let line_no: usize = i + 1;
            let midx: Option<usize> = match crate::parse::extract_message(&value) {
                Some(_) => Some(count),
                None => None,
            };
            let ghost midx_v: Option<int> = match midx {
                Some(x) => Some(x as int),
                None => None,
            };
            let tools = extract_tool_calls(&value);
            let ghost tv = tool_views(tools@);
            let ghost line_ms = spec_line_matches(tv, fv, i + 1, midx_v);
            let mut kept: Vec<ToolCallMatch> = Vec::new();
            let mut j: usize = 0;
            proof {
                assert(tv.skip(0) =~= tv);
                assert(match_views(kept@) =~= Seq::<MatchView>::empty());
                assert(match_views(kept@) + spec_line_matches(tv, fv, i + 1, midx_v)
                    =~= spec_line_matches(tv, fv, i + 1, midx_v));
            }
            while j < tools.len()
                invariant
                    j <= tools@.len(),
                    tv == tool_views(tools@),
                    tv.len() == tools@.len(),
                    forall|k: int| 0 <= k < tools@.len() ==> tv[k] == tools@[k]@,
                    i < lines@.len(),
                    line_no == i + 1,
                    midx_v == (match midx {
                        Some(x) => Some(x as int),
                        None => None,
                    }),
                    fv == (match tool {
                        Some(f) => Some(f@),
                        None => None,
                    }),
                    line_ms == match_views(kept@) + spec_line_matches(
                        tv.skip(j as int),
                        fv,
                        i + 1,
                        midx_v,
                    ),
                decreases tools@.len() - j,
            {
                proof {
                    assert(tv.skip(j as int)[0] == tv[j as int]);
                    assert(tv.skip(j as int).drop_first() =~= tv.skip(j + 1));
                }
                if tool_passes(tools[j].name.as_str(), &tool) {
                    let item = ToolCallMatch {
                        line: line_no,
                        message_index: midx,
                        tool: ToolCall {
                            name: tools[j].name.clone(),
                            arguments: tools[j].arguments.clone_value(),
                        },
                    };
                    let ghost prev = match_views(kept@);
                    let ghost itemv = item@;
                    kept.push(item);
                    proof {
                        assert(itemv == MatchView {
                            line: i + 1,
                            message_index: midx_v,
                            tool: tv[j as int],
                        });
                        assert(match_views(kept@) =~= prev.push(itemv));
                        assert(prev.push(itemv) + spec_line_matches(tv.skip(j + 1), fv, i + 1, midx_v)
                            =~= prev + (seq![itemv] + spec_line_matches(
                            tv.skip(j + 1),
                            fv,
                            i + 1,
                            midx_v,
                        )));
                    }
                }
                j += 1;
            }
            proof {
                assert(spec_line_matches(tv.skip(tv.len() as int), fv, i + 1, midx_v)
                    =~= Seq::<MatchView>::empty());
                assert(match_views(kept@) + Seq::<MatchView>::empty() =~= match_views(kept@));
                assert(line_ms == match_views(kept@));
            }
            match limit {
                Some(l) => {
                    let cap: usize = if l <= matches.len() {
                        1
                    } else {
                        l - matches.len()
                    };
                    if kept.len() >= cap {
                        append_matches(&mut matches, &kept, cap);
                        return Ok(matches);
                    } else {
                        append_matches(&mut matches, &kept, kept.len());
                        proof {
                            assert(line_ms.take(line_ms.len() as int) =~= line_ms);
                        }
                    }
                },
                None => {
                    append_matches(&mut matches, &kept, kept.len());
                    proof {
                        assert(line_ms.take(line_ms.len() as int) =~= line_ms);
                    }
                },
            }
            match midx {
                Some(_) => {
                    count += 1;
                },
                None => {},
            }
        }
        i += 1;
    }
    Ok(matches)
}

/// The indices of the names the prefix matches, in order.
pub open spec fn spec_prefix_matches(names: Seq<String>, input: Seq<char>, j: int) -> Seq<int>
    decreases names.len() - j,
{
    if j < 0 || j >= names.len() {
        Seq::empty()
    } else if names[j]@.len() >= input.len() && names[j]@.take(input.len() as int) == input {
        seq![j] + spec_prefix_matches(names, input, j + 1)
    } else {
        spec_prefix_matches(names, input, j + 1)
    }
}

/// How many ambiguous candidates are listed before the list is cut off.
pub const AMBIGUOUS_LIST_CAP: usize = 5;

/// Resolves a session-id prefix against candidate file names: succeeds only
/// when exactly one name starts with the input; zero matches is a not-found
/// failure, several an ambiguity listing up to a small cap of candidates.
pub fn resolve_session_prefix(input: &str, names: &Vec<String>) -> (r: Result<usize, SessionError>)
    ensures
        ({
            let ms = spec_prefix_matches(names@, input@, 0);
            match r {
                Ok(idx) => ms == seq![idx as int] && idx < names@.len(),
                Err(SessionError::NotFound { input: inp }) => ms.len() == 0 && inp@ == input@,
                Err(SessionError::Ambiguous { input: inp, candidates }) => {
                    &&& ms.len() >= 2
                    &&& inp@ == input@
                    &&& candidates@.len() == (if ms.len() < AMBIGUOUS_LIST_CAP {
                        ms.len() as int
                    } else {
                        AMBIGUOUS_LIST_CAP as int
                    })
                    &&& forall|k: int|
                        0 <= k < candidates@.len() ==> #[trigger] candidates@[k]@
                            == names@[ms[k]]@
                },
                Err(_) => false,
            }
        }),
{
    let ghost msv = spec_prefix_matches(names@, input@, 0);
    let mut found: Vec<usize> = Vec::new();
    let mut j: usize = 0;
    proof {
        assert(crate::scan::read_indices(found@) =~= Seq::<int>::empty());
        assert(crate::scan::read_indices(found@) + spec_prefix_matches(names@, input@, 0)
            =~= spec_prefix_matches(names@, input@, 0));
    }
    while j < names.len()
        invariant
            j <= names@.len(),
            msv == spec_prefix_matches(names@, input@, 0),
            msv == crate::scan::read_indices(found@) + spec_prefix_matches(
                names@,
                input@,
                j as int,
            ),
            forall|k: int| 0 <= k < found@.len() ==> #[trigger] found@[k] < names@.len(),
        decreases names@.len() - j,
    {
        let ghost prev = crate::scan::read_indices(found@);
        if starts_with_str(names[j].as_str(), input) {
            found.push(j);
            proof {
                assert(crate::scan::read_indices(found@) =~= prev.push(j as int));
                assert(prev.push(j as int) + spec_prefix_matches(names@, input@, j + 1) =~= prev
                    + (seq![j as int] + spec_prefix_matches(names@, input@, j + 1)));
            }
        }
        j += 1;
    }
    proof {
        assert(crate::scan::read_indices(found@) + Seq::<int>::empty() =~= crate::scan::read_indices(
            found@,
        ));
        assert(msv == crate::scan::read_indices(found@));
        assert(msv.len() == found@.len());
    }
    if found.len() == 0 {
        return Err(SessionError::NotFound { input: input.to_owned() });
    }
    if found.len() == 1 {
        proof {
            assert(msv =~= seq![found@[0] as int]);
        }
        return Ok(found[0]);
    }
    let cap: usize = if found.len() < AMBIGUOUS_LIST_CAP {
        found.len()
    } else {
        AMBIGUOUS_LIST_CAP
    };
    let mut candidates: Vec<String> = Vec::new();
    let mut k: usize = 0;
    while k < cap
        invariant
            k <= cap,
            cap <= found@.len(),
            msv == crate::scan::read_indices(found@),
            forall|w: int| 0 <= w < found@.len() ==> #[trigger] found@[w] < names@.len(),
            candidates@.len() == k,
            forall|w: int|
                0 <= w < k ==> #[trigger] candidates@[w]@ == names@[found@[w] as int]@,
        decreases cap - k,
    {
        candidates.push(names[found[k]].clone());
        k += 1;
    }
    proof {
        assert(forall|w: int| 0 <= w < cap ==> #[trigger] msv[w] == found@[w] as int);
    }
    Err(SessionError::Ambiguous { input: input.to_owned(), candidates })
}

} // verus!
