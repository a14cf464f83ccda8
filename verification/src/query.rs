//! The query engine: translates a search request into ranked hits over the
//! store's full-text shadows, with structured filters and optional context
//! expansion around message hits.
//!
//! Ranking and filtering run inside the full-text engine; this module
//! validates the request, builds the statement parameters, and decodes the
//! returned rows.

use vstd::prelude::*;

use crate::index::{SqlParam, SqlValue, sql_query};
use crate::model::{MessageContext, MessageHit, SessionHit};
use crate::text::spec_trim;

verus! {

broadcast use vstd::std_specs::vec::group_vec_axioms;

/// Why a search failed: an empty query, the underlying engine's error, or
/// a result row of an unexpected shape.
#[derive(Debug)]
pub enum QueryError {
    EmptyQuery,
    Sqlite { source: rusqlite::Error },
    BadRow,
}

/// Whether a search ranks whole sessions or individual messages.
#[derive(Debug, Clone, Copy, PartialEq, Eq)]
pub enum FindScope {
    Session,
    Message,
}

impl Default for FindScope {
    /// Message scope, the default search granularity.
    fn default() -> (r: Self)
        ensures
            r is Message,
    {
        FindScope::Message
    }
}

/// The one filter set both query shapes share; `role` applies to message
/// scope only, `around` enables context expansion when positive.
pub struct FindFilters {
    pub agent: Option<String>,
    pub workspace: Option<String>,
    pub repo: Option<String>,
    pub branch: Option<String>,
    pub role: Option<String>,
    pub after: Option<String>,
    pub before: Option<String>,
    pub limit: usize,
    pub around: usize,
    pub scope: FindScope,
}

impl Default for FindFilters {
    /// No filters, no context, the default limit signal, message scope.
    fn default() -> (r: Self)
        ensures
            r.agent is None,
            r.workspace is None,
            r.repo is None,
            r.branch is None,
            r.role is None,
            r.after is None,
            r.before is None,
            r.limit == 0,
            r.around == 0,
            r.scope is Message,
    {
        FindFilters {
            agent: None,
            workspace: None,
            repo: None,
            branch: None,
            role: None,
            after: None,
            before: None,
            limit: 0,
            around: 0,
            scope: FindScope::Message,
        }
    }
}

/// Rejects a blank query before it reaches the full-text engine; a usable
/// query is passed on trimmed.
pub fn normalize_query<'a>(query: &'a str) -> (r: Result<&'a str, QueryError>)
    ensures
        match r {
            Ok(q) => q@ == spec_trim(query@) && spec_trim(query@).len() > 0,
            Err(e) => e is EmptyQuery && spec_trim(query@).len() == 0,
        },
{
    let q = crate::text::trim_of(query);
    if q.is_empty() {
        Err(QueryError::EmptyQuery)
    } else {
        Ok(q)
    }
}

/// The effective hit cap: a non-positive requested limit becomes a small
/// positive default rather than meaning unlimited.
pub open spec fn spec_normalize_limit(limit: int) -> int {
    if limit == 0 {
        5
    } else if limit > i64::MAX {
        i64::MAX as int
    } else {
        limit
    }
}

/// Bounds the requested limit for the statement.
pub fn normalize_limit(limit: usize) -> (r: i64)
    ensures
        r == spec_normalize_limit(limit as int),
{
    if limit == 0 {
        5
    } else if (limit as u64) > (i64::MAX as u64) {
        i64::MAX
    } else {
        limit as i64
    }
}

/// `Some(text)` as a text parameter, `None` as a null (matched by the
/// statement's `IS NULL` guards).
fn opt_param(o: &Option<String>) -> (r: SqlParam)
    ensures
        match o {
            Some(s) => r matches SqlParam::Text(t) && t@ == s@,
            None => r is Null,
        },
{
    match o {
        Some(s) => SqlParam::Text(s.clone()),
        None => SqlParam::Null,
    }
}

/// The text of a required text cell.
pub fn cell_text(c: &SqlValue) -> (r: Option<String>)
    ensures
        match r {
            Some(s) => *c matches SqlValue::Text(t) && t@ == s@,
            None => !(*c is Text),
        },
{
    match c {
        SqlValue::Text(t) => Some(t.clone()),
        _ => None,
    }
}

/// The text of a nullable text cell; the outer `None` is a shape mismatch.
pub fn cell_opt_text(c: &SqlValue) -> (r: Option<Option<String>>)
    ensures
        match r {
            Some(Some(s)) => *c matches SqlValue::Text(t) && t@ == s@,
            Some(None) => *c is Null,
            None => !(*c is Text) && !(*c is Null),
        },
{
    match c {
        SqlValue::Text(t) => Some(Some(t.clone())),
        SqlValue::Null => Some(None),
        _ => None,
    }
}

/// The value of a required integer cell.
pub fn cell_int(c: &SqlValue) -> (r: Option<i64>)
    ensures
        match r {
            Some(x) => *c matches SqlValue::Int(y) && y == x,
            None => !(*c is Int),
        },
{
    match c {
        SqlValue::Int(x) => Some(*x),
        _ => None,
    }
}

/// What a required text cell denotes, when it has the right shape.
pub open spec fn text_cell(c: SqlValue) -> Option<Seq<char>> {
    match c {
        SqlValue::Text(t) => Some(t@),
        _ => None,
    }
}

/// What a nullable text cell denotes, when it has the right shape.
pub open spec fn opt_text_cell(c: SqlValue) -> Option<Option<Seq<char>>> {
    match c {
        SqlValue::Text(t) => Some(Some(t@)),
        SqlValue::Null => Some(None),
        _ => None,
    }
}

/// The shape a session-scope hit row must have: ten cells, text where the
/// schema guarantees text, text-or-null where a column is optional.
pub open spec fn session_row_ok(row: Seq<SqlValue>) -> bool {
    &&& row.len() == 10
    &&& text_cell(row[0]) is Some
    &&& opt_text_cell(row[1]) is Some
    &&& opt_text_cell(row[2]) is Some
    &&& opt_text_cell(row[3]) is Some
    &&& opt_text_cell(row[4]) is Some
    &&& opt_text_cell(row[5]) is Some
    &&& opt_text_cell(row[6]) is Some
    &&& opt_text_cell(row[7]) is Some
    &&& opt_text_cell(row[8]) is Some
    &&& text_cell(row[9]) is Some
}

/// Decodes one session-scope hit row: path, title, agent, workspace,
/// repo_root, repo_name, branch, last_message_at, snippet, score.  Exactly
/// the well-shaped rows decode; a decoded hit carries every cell.
fn decode_session_hit(row: &Vec<SqlValue>) -> (r: Option<SessionHit>)
    ensures
        match r {
            Some(h) => {
                &&& session_row_ok(row@)
                &&& text_cell(row@[0]) == Some(h.path@)
                &&& opt_text_cell(row@[1]) == Some(h.title.deep_view())
                &&& opt_text_cell(row@[2]) == Some(h.agent.deep_view())
                &&& opt_text_cell(row@[3]) == Some(h.workspace.deep_view())
                &&& opt_text_cell(row@[4]) == Some(h.repo_root.deep_view())
                &&& opt_text_cell(row@[5]) == Some(h.repo_name.deep_view())
                &&& opt_text_cell(row@[6]) == Some(h.branch.deep_view())
                &&& opt_text_cell(row@[7]) == Some(h.last_message_at.deep_view())
                &&& opt_text_cell(row@[8]) == Some(h.snippet.deep_view())
                &&& text_cell(row@[9]) == Some(h.score@)
            },
            None => !session_row_ok(row@),
        },
{
    if row.len() != 10 {
        return None;
    }
    let path = match cell_text(&row[0]) {
        Some(p) => p,
        None => {
            return None;
        },
    };
    let title = match cell_opt_text(&row[1]) {
        Some(t) => t,
        None => {
            return None;
        },
    };
    let agent = match cell_opt_text(&row[2]) {
        Some(t) => t,
        None => {
            return None;
        },
    };
    let workspace = match cell_opt_text(&row[3]) {
        Some(t) => t,
        None => {
            return None;
        },
    };
    let repo_root = match cell_opt_text(&row[4]) {
        Some(t) => t,
        None => {
            return None;
        },
    };
    let repo_name = match cell_opt_text(&row[5]) {
        Some(t) => t,
        None => {
            return None;
        },
    };
    let branch = match cell_opt_text(&row[6]) {
        Some(t) => t,
        None => {
            return None;
        },
    };
    let last_message_at = match cell_opt_text(&row[7]) {
        Some(t) => t,
        None => {
            return None;
        },
    };
    let snippet = match cell_opt_text(&row[8]) {
        Some(t) => t,
        None => {
            return None;
        },
    };
    let score = match cell_text(&row[9]) {
        Some(s) => s,
        None => {
            return None;
        },
    };
    Some(
        SessionHit {
            path,
            title,
            agent,
            workspace,
            repo_root,
            repo_name,
            branch,
            last_message_at,
            snippet,
            score,
        },
    )
}

/// Decodes one message-scope hit row: session_path, turn_index, role,
/// timestamp, text, title, agent, workspace, repo_root, repo_name, branch,
/// score.
/// The shape a message-scope hit row must have: twelve cells, an integer
/// turn index, text where the schema guarantees text, text-or-null where a
/// column is optional.
pub open spec fn message_row_ok(row: Seq<SqlValue>) -> bool {
    &&& row.len() == 12
    &&& text_cell(row[0]) is Some
    &&& row[1] is Int
    &&& opt_text_cell(row[2]) is Some
    &&& opt_text_cell(row[3]) is Some
    &&& text_cell(row[4]) is Some
    &&& opt_text_cell(row[5]) is Some
    &&& opt_text_cell(row[6]) is Some
    &&& opt_text_cell(row[7]) is Some
    &&& opt_text_cell(row[8]) is Some
    &&& opt_text_cell(row[9]) is Some
    &&& opt_text_cell(row[10]) is Some
    &&& text_cell(row[11]) is Some
}

fn decode_message_hit(row: &Vec<SqlValue>) -> (r: Option<MessageHit>)
    ensures
        match r {
            Some(h) => {
                &&& message_row_ok(row@)
                &&& text_cell(row@[0]) == Some(h.path@)
                &&& row@[1] matches SqlValue::Int(t) && t == h.turn_index
                &&& opt_text_cell(row@[2]) == Some(h.role.deep_view())
                &&& opt_text_cell(row@[3]) == Some(h.timestamp.deep_view())
                &&& text_cell(row@[4]) == Some(h.text@)
                &&& opt_text_cell(row@[5]) == Some(h.title.deep_view())
                &&& opt_text_cell(row@[6]) == Some(h.agent.deep_view())
                &&& opt_text_cell(row@[7]) == Some(h.workspace.deep_view())
                &&& opt_text_cell(row@[8]) == Some(h.repo_root.deep_view())
                &&& opt_text_cell(row@[9]) == Some(h.repo_name.deep_view())
                &&& opt_text_cell(row@[10]) == Some(h.branch.deep_view())
                &&& text_cell(row@[11]) == Some(h.score@)
                &&& h.context is None
            },
            None => !message_row_ok(row@),
        },
{
    if row.len() != 12 {
        return None;
    }
    let path = match cell_text(&row[0]) {
        Some(p) => p,
        None => {
            return None;
        },
    };
    let turn_index = match cell_int(&row[1]) {
        Some(t) => t,
        None => {
            return None;
        },
    };
    let role = match cell_opt_text(&row[2]) {
        Some(t) => t,
        None => {
            return None;
        },
    };
    let timestamp = match cell_opt_text(&row[3]) {
        Some(t) => t,
        None => {
            return None;
        },
    };
    let text = match cell_text(&row[4]) {
        Some(x) => x,
        None => {
            return None;
        },
    };
    let title = match cell_opt_text(&row[5]) {
        Some(t) => t,
        None => {
            return None;
        },
    };
    let agent = match cell_opt_text(&row[6]) {
        Some(t) => t,
        None => {
            return None;
        },
    };
    let workspace = match cell_opt_text(&row[7]) {
        Some(t) => t,
        None => {
            return None;
        },
    };
    let repo_root = match cell_opt_text(&row[8]) {
        Some(t) => t,
        None => {
            return None;
        },
    };
    let repo_name = match cell_opt_text(&row[9]) {
        Some(t) => t,
        None => {
            return None;
        },
    };
    let branch = match cell_opt_text(&row[10]) {
        Some(t) => t,
        None => {
            return None;
        },
    };
    let score = match cell_text(&row[11]) {
        Some(s) => s,
        None => {
            return None;
        },
    };
    Some(
        MessageHit {
            path,
            turn_index,
            role,
            timestamp,
            text,
            title,
            agent,
            workspace,
            repo_root,
            repo_name,
            branch,
            score,
            context: None,
        },
    )
}

/// The ranked-session statement: relevance over the session shadow, the
/// shared filter set, recency as the tie-breaker.
fn find_sessions_sql() -> &'static str {
    "SELECT s.path,
       s.title,
       s.agent,
       s.workspace,
       s.repo_root,
       s.repo_name,
       s.branch,
       s.last_message_at,
       s.snippet,
       bm25(sessions_fts) AS score
FROM sessions_fts
JOIN sessions s ON s.path = sessions_fts.path
WHERE sessions_fts MATCH ?1
  AND (?2 IS NULL OR s.agent = ?2)
  AND (?3 IS NULL OR s.workspace = ?3)
  AND (?4 IS NULL OR s.repo_name = ?4 OR s.repo_root = ?4)
  AND (?5 IS NULL OR s.branch = ?5)
  AND (?6 IS NULL OR s.last_message_at >= ?6)
  AND (?7 IS NULL OR s.last_message_at <= ?7)
ORDER BY score ASC, s.last_message_at DESC
LIMIT ?8"
}

/// The ranked-message statement: relevance over the message shadow, the
/// shared filters plus role, recency (message timestamp falling back to the
/// session's) as the tie-breaker.
fn find_messages_sql() -> &'static str {
    "SELECT m.session_path,
       m.turn_index,
       m.role,
       m.timestamp,
       m.text,
       s.title,
       s.agent,
       s.workspace,
       s.repo_root,
       s.repo_name,
       s.branch,
       bm25(messages_fts) AS score
FROM messages_fts
JOIN messages m ON m.id = messages_fts.message_id
JOIN sessions s ON s.path = m.session_path
WHERE messages_fts MATCH ?1
  AND (?2 IS NULL OR s.agent = ?2)
  AND (?3 IS NULL OR s.workspace = ?3)
  AND (?4 IS NULL OR s.repo_name = ?4 OR s.repo_root = ?4)
  AND (?5 IS NULL OR s.branch = ?5)
  AND (?6 IS NULL OR m.role = ?6)
  AND (?7 IS NULL OR COALESCE(m.timestamp, s.last_message_at) >= ?7)
  AND (?8 IS NULL OR COALESCE(m.timestamp, s.last_message_at) <= ?8)
ORDER BY score ASC, COALESCE(m.timestamp, s.last_message_at) DESC
LIMIT ?9"
}

/// Searches whole sessions: relevance-ranked over each session's aggregated
/// content, under the shared filter set; a blank query is rejected before
/// reaching the engine.
pub fn find_sessions(
    conn: &rusqlite::Connection,
    query: &str,
    filters: &FindFilters,
) -> (r: Result<Vec<SessionHit>, QueryError>)
    ensures
        r matches Err(QueryError::EmptyQuery) <==> spec_trim(query@).len() == 0,
{
    let q = match normalize_query(query) {
        Ok(q) => q,
        Err(e) => {
            return Err(e);
        },
    };
    let limit = normalize_limit(filters.limit);
    let mut ps: Vec<SqlParam> = Vec::new();
    ps.push(SqlParam::Text(q.to_owned()));
    ps.push(opt_param(&filters.agent));
    ps.push(opt_param(&filters.workspace));
    ps.push(opt_param(&filters.repo));
    ps.push(opt_param(&filters.branch));
    ps.push(opt_param(&filters.after));
    ps.push(opt_param(&filters.before));
    ps.push(SqlParam::Int(limit));
    let rows = match sql_query(conn, find_sessions_sql(), &ps) {
        Ok(rows) => rows,
        Err(e) => {
            return Err(QueryError::Sqlite { source: e });
        },
    };
    let mut out: Vec<SessionHit> = Vec::new();
    let mut i: usize = 0;
    while i < rows.len()
        invariant
            i <= rows@.len(),
            spec_trim(query@).len() > 0,
        decreases rows@.len() - i,
    {
        match decode_session_hit(&rows[i]) {
            Some(h) => out.push(h),
            None => {
                return Err(QueryError::BadRow);
            },
        }
        i += 1;
    }
    Ok(out)
}

/// Saturating difference of a turn index and a window radius.
pub open spec fn spec_window_start(turn: int, around: int) -> int {
    if turn - around >= i64::MIN {
        turn - around
    } else {
        i64::MIN as int
    }
}

/// Saturating sum of a turn index and a window radius.
pub open spec fn spec_window_end(turn: int, around: int) -> int {
    if turn + around <= i64::MAX {
        turn + around
    } else {
        i64::MAX as int
    }
}

/// Computes the inclusive turn window around a hit, saturating at the
/// integer bounds.
pub fn window_bounds(turn_index: i64, around: i64) -> (r: (i64, i64))
    requires
        around >= 0,
    ensures
        r.0 == spec_window_start(turn_index as int, around as int),
        r.1 == spec_window_end(turn_index as int, around as int),
{
    let start = if turn_index >= i64::MIN + around {
        turn_index - around
    } else {
        i64::MIN
    };
    let end = if turn_index <= i64::MAX - around {
        turn_index + around
    } else {
        i64::MAX
    };
    (start, end)
}

/// The shape a context row must have: four cells, an integer turn index,
/// nullable role and timestamp, required text.
pub open spec fn context_row_ok(row: Seq<SqlValue>) -> bool {
    &&& row.len() == 4
    &&& row[0] is Int
    &&& opt_text_cell(row[1]) is Some
    &&& opt_text_cell(row[2]) is Some
    &&& text_cell(row[3]) is Some
}

/// Decodes one context row: turn_index, role, timestamp, text.  Exactly
/// the well-shaped rows decode; a decoded entry carries every cell.
fn decode_context_row(row: &Vec<SqlValue>) -> (r: Option<MessageContext>)
    ensures
        match r {
            Some(c) => {
                &&& context_row_ok(row@)
                &&& row@[0] matches SqlValue::Int(t) && t == c.turn_index
                &&& opt_text_cell(row@[1]) == Some(c.role.deep_view())
                &&& opt_text_cell(row@[2]) == Some(c.timestamp.deep_view())
                &&& text_cell(row@[3]) == Some(c.text@)
            },
            None => !context_row_ok(row@),
        },
{
    if row.len() != 4 {
        return None;
    }
    let turn = match cell_int(&row[0]) {
        Some(t) => t,
        None => {
            return None;
        },
    };
    let role = match cell_opt_text(&row[1]) {
        Some(t) => t,
        None => {
            return None;
        },
    };
    let timestamp = match cell_opt_text(&row[2]) {
        Some(t) => t,
        None => {
            return None;
        },
    };
    let text = match cell_text(&row[3]) {
        Some(x) => x,
        None => {
            return None;
        },
    };
    Some(MessageContext { turn_index: turn, role, timestamp, text })
}

/// Loads the messages of one session whose turn index falls in the
/// symmetric window around a hit, ordered ascending; display only, with no
/// effect on ranking.
pub fn load_context(
    conn: &rusqlite::Connection,
    session_path: &str,
    turn_index: i64,
    around: i64,
) -> (r: Result<Vec<MessageContext>, QueryError>)
    requires
        around >= 0,
    ensures
        r matches Err(e) ==> e is Sqlite || e is BadRow,
{
    let (start, end) = window_bounds(turn_index, around);
    let mut ps: Vec<SqlParam> = Vec::new();
    ps.push(SqlParam::Text(session_path.to_owned()));
    ps.push(SqlParam::Int(start));
    ps.push(SqlParam::Int(end));
    let rows = match sql_query(
        conn,
        "SELECT turn_index, role, timestamp, text
         FROM messages
         WHERE session_path = ?1 AND turn_index BETWEEN ?2 AND ?3
         ORDER BY turn_index ASC",
        &ps,
    ) {
        Ok(rows) => rows,
        Err(e) => {
            return Err(QueryError::Sqlite { source: e });
        },
    };
    let mut out: Vec<MessageContext> = Vec::new();
    let mut i: usize = 0;
    while i < rows.len()
        invariant
            i <= rows@.len(),
        decreases rows@.len() - i,
    {
        match decode_context_row(&rows[i]) {
            Some(c) => out.push(c),
            None => {
                return Err(QueryError::BadRow);
            },
        }
        i += 1;
    }
    Ok(out)
}

/// Searches individual messages: relevance-ranked over message text, under
/// the shared filters plus role; each hit optionally carries its context
/// window when `around` is positive.
pub fn find_messages(
    conn: &rusqlite::Connection,
    query: &str,
    filters: &FindFilters,
) -> (r: Result<Vec<MessageHit>, QueryError>)
    ensures
        r matches Err(QueryError::EmptyQuery) <==> spec_trim(query@).len() == 0,
{
    let q = match normalize_query(query) {
        Ok(q) => q,
        Err(e) => {
            return Err(e);
        },
    };
    let limit = normalize_limit(filters.limit);
    let mut ps: Vec<SqlParam> = Vec::new();
    ps.push(SqlParam::Text(q.to_owned()));
    ps.push(opt_param(&filters.agent));
    ps.push(opt_param(&filters.workspace));
    ps.push(opt_param(&filters.repo));
    ps.push(opt_param(&filters.branch));
    ps.push(opt_param(&filters.role));
    ps.push(opt_param(&filters.after));
    ps.push(opt_param(&filters.before));
    ps.push(SqlParam::Int(limit));
    let rows = match sql_query(conn, find_messages_sql(), &ps) {
        Ok(rows) => rows,
        Err(e) => {
            return Err(QueryError::Sqlite { source: e });
        },
    };
    let around = if (filters.around as u64) > (i64::MAX as u64) {
        i64::MAX
    } else {
        filters.around as i64
    };
    let mut out: Vec<MessageHit> = Vec::new();
    let mut i: usize = 0;
    while i < rows.len()
        invariant
            i <= rows@.len(),
            around >= 0,
            spec_trim(query@).len() > 0,
        decreases rows@.len() - i,
    {
        let mut hit = match decode_message_hit(&rows[i]) {
            Some(h) => h,
            None => {
                return Err(QueryError::BadRow);
            },
        };
        if around > 0 {
            let context = match load_context(conn, hit.path.as_str(), hit.turn_index, around) {
                Ok(c) => c,
                Err(e) => {
                    return Err(e);
                },
            };
            hit.context = Some(context);
        }
        out.push(hit);
        i += 1;
    }
    Ok(out)
}

} // verus!
