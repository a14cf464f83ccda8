//! The index store: the persistent schema and its transactional upsert,
//! replace and remove primitives, keyed by file path.
//!
//! SQLite, through `rusqlite`, owns the persistence; every call into it
//! crosses a small trusted boundary that binds parameters built by verified
//! code and hands rows back as plain values.  The full-text shadow entries
//! are written in the same operations as their source rows, never
//! independently.

use vstd::prelude::*;

verus! {

broadcast use vstd::std_specs::vec::group_vec_axioms;

#[verifier::external_type_specification]
#[verifier::external_body]
pub struct ExConnection(rusqlite::Connection);

#[verifier::external_type_specification]
#[verifier::external_body]
pub struct ExRusqliteError(rusqlite::Error);

/// One SQL statement parameter, as verified code builds it.
pub enum SqlParam {
    Null,
    Int(i64),
    Text(String),
}

/// One SQL result cell. Floating-point cells arrive as their decimal
/// rendering: nothing in the store's schema reads them back as numbers.
pub enum SqlValue {
    Null,
    Int(i64),
    Text(String),
}

/// A store failure: the underlying engine's error, or a result row whose
/// shape does not match the schema.
#[derive(Debug)]
pub enum IndexError {
    Sqlite { source: rusqlite::Error },
    BadRow,
}

/// Relies on `rusqlite::Connection::execute_batch`: runs the statements of
/// `sql` against the connection's database.
#[verifier::external_body]
pub fn exec_batch(conn: &rusqlite::Connection, sql: &str) -> (r: Result<(), rusqlite::Error>) {
    conn.execute_batch(sql)
}

/// Relies on `rusqlite::Statement::raw_bind_parameter`: binds one parameter
/// of a prepared statement, converting the crate's parameter value.
#[verifier::external_body]
fn bind_params(
    stmt: &mut rusqlite::Statement<'_>,
    ps: &Vec<SqlParam>,
) -> (r: Result<(), rusqlite::Error>) {
    for (i, p) in ps.iter().enumerate() {
        match p {
            SqlParam::Null => stmt.raw_bind_parameter(i + 1, rusqlite::types::Null)?,
            SqlParam::Int(x) => stmt.raw_bind_parameter(i + 1, x)?,
            SqlParam::Text(s) => stmt.raw_bind_parameter(i + 1, s)?,
        }
    }
    Ok(())
}

/// Relies on `rusqlite::Connection::prepare` and
/// `rusqlite::Statement::raw_execute`: runs one data-changing statement with
/// the given parameters.
#[verifier::external_body]
pub fn sql_exec(
    conn: &rusqlite::Connection,
    sql: &str,
    ps: &Vec<SqlParam>,
) -> (r: Result<usize, rusqlite::Error>) {
    let mut stmt = conn.prepare(sql)?;
    bind_params(&mut stmt, ps)?;
    stmt.raw_execute()
}

/// Relies on `rusqlite::Row::get_ref`: reads the cells of one result row,
/// converting each into the crate's cell value (a floating-point cell to
/// its decimal rendering, a blob to null).
#[verifier::external_body]
fn row_values(row: &rusqlite::Row<'_>, ncols: usize) -> (r: Result<Vec<SqlValue>, rusqlite::Error>) {
    let mut out = Vec::new();
    for c in 0..ncols {
        out.push(match row.get_ref(c)? {
            rusqlite::types::ValueRef::Null => SqlValue::Null,
            rusqlite::types::ValueRef::Integer(x) => SqlValue::Int(x),
            rusqlite::types::ValueRef::Real(x) => SqlValue::Text(x.to_string()),
            rusqlite::types::ValueRef::Text(t) => SqlValue::Text(
                String::from_utf8_lossy(t).into_owned(),
            ),
            rusqlite::types::ValueRef::Blob(_) => SqlValue::Null,
        });
    }
    Ok(out)
}

#[verifier::external_type_specification]
#[verifier::external_body]
pub struct ExStatement<'a>(rusqlite::Statement<'a>);

#[verifier::external_type_specification]
#[verifier::external_body]
pub struct ExRow<'a>(rusqlite::Row<'a>);

/// Relies on `rusqlite::Connection::prepare` and `rusqlite::Rows::next`:
/// runs one query with the given parameters and collects every result row.
#[verifier::external_body]
pub fn sql_query(
    conn: &rusqlite::Connection,
    sql: &str,
    ps: &Vec<SqlParam>,
) -> (r: Result<Vec<Vec<SqlValue>>, rusqlite::Error>) {
    let mut stmt = conn.prepare(sql)?;
    bind_params(&mut stmt, ps)?;
    let ncols = stmt.column_count();
    let mut rows = stmt.raw_query();
    let mut out = Vec::new();
    while let Some(row) = rows.next()? {
        out.push(row_values(row, ncols)?);
    }
    Ok(out)
}

/// Relies on `rusqlite::Connection::last_insert_rowid`: the row id of the
/// most recent successful insert on this connection.
#[verifier::external_body]
pub fn last_insert_rowid(conn: &rusqlite::Connection) -> (r: i64) {
    conn.last_insert_rowid()
}

/// The staleness triple of one indexed session.
pub struct IndexedSession {
    pub path: String,
    pub mtime: i64,
    pub size: i64,
}

/// The persistent schema: session rows with their full-text shadow, message
/// rows with theirs.
fn schema_sql() -> &'static str {
    "CREATE TABLE IF NOT EXISTS sessions (
  path TEXT PRIMARY KEY,
  mtime INTEGER NOT NULL,
  size INTEGER NOT NULL,
  hash TEXT,
  created_at TEXT,
  last_message_at TEXT,
  agent TEXT,
  workspace TEXT,
  title TEXT,
  message_count INTEGER,
  snippet TEXT,
  repo_root TEXT,
  repo_name TEXT,
  branch TEXT
);

CREATE VIRTUAL TABLE IF NOT EXISTS sessions_fts USING fts5(
  content,
  path UNINDEXED
);

CREATE TABLE IF NOT EXISTS messages (
  id INTEGER PRIMARY KEY AUTOINCREMENT,
  session_path TEXT NOT NULL,
  turn_index INTEGER NOT NULL,
  role TEXT,
  timestamp TEXT,
  text TEXT NOT NULL
);

CREATE VIRTUAL TABLE IF NOT EXISTS messages_fts USING fts5(
  text,
  message_id UNINDEXED
);

CREATE INDEX IF NOT EXISTS idx_sessions_last_message_at ON sessions(last_message_at);
CREATE INDEX IF NOT EXISTS idx_sessions_agent ON sessions(agent);
CREATE INDEX IF NOT EXISTS idx_messages_session ON messages(session_path, turn_index);
"
}

/// The optional session columns later versions added; an older database
/// file is upgraded in place by adding whichever are missing.
fn optional_session_columns() -> (r: Vec<(&'static str, &'static str)>)
    ensures
        r@.len() == 4,
{
    let mut v: Vec<(&'static str, &'static str)> = Vec::new();
    v.push(("hash", "ALTER TABLE sessions ADD COLUMN hash TEXT"));
    v.push(("repo_root", "ALTER TABLE sessions ADD COLUMN repo_root TEXT"));
    v.push(("repo_name", "ALTER TABLE sessions ADD COLUMN repo_name TEXT"));
    v.push(("branch", "ALTER TABLE sessions ADD COLUMN branch TEXT"));
    v
}

/// True when some row's second cell (the column name in `PRAGMA
/// table_info` output) is the text `name`.
pub open spec fn spec_has_column(rows: Seq<Vec<SqlValue>>, name: Seq<char>) -> bool {
    exists|i: int|
        0 <= i < rows.len() && rows[i]@.len() > 1 && (#[trigger] rows[i]@[1] matches
        SqlValue::Text(t) && t@ == name)
}

/// Decides whether the column listing holds `name`.
fn has_column(rows: &Vec<Vec<SqlValue>>, name: &str) -> (r: bool)
    ensures
        r == spec_has_column(rows@, name@),
{
    let mut i: usize = 0;
    while i < rows.len()
        invariant
            i <= rows@.len(),
            forall|k: int|
                0 <= k < i ==> !(rows@[k]@.len() > 1 && (#[trigger] rows@[k]@[1] matches
                SqlValue::Text(t) && t@ == name@)),
        decreases rows@.len() - i,
    {
        let row = &rows[i];
        if row.len() > 1 {
            if let SqlValue::Text(t) = &row[1] {
                if crate::text::str_eq(t.as_str(), name) {
                    proof {
                        let w = i as int;
                        assert(rows@[w]@.len() > 1 && (rows@[w]@[1] matches SqlValue::Text(tt)
                            && tt@ == name@));
                    }
                    return true;
                }
            }
        }
        i += 1;
    }
    false
}

/// Maps an engine error into the store's error kind.
fn store_err(e: rusqlite::Error) -> (r: IndexError)
    ensures
        r matches IndexError::Sqlite { .. },
{
    IndexError::Sqlite { source: e }
}

/// Creates the schema when absent and adds any optional columns an older
/// database file lacks; safe to call at every startup.
pub fn init_schema(conn: &rusqlite::Connection) -> (r: Result<(), IndexError>)
    ensures
        r matches Err(e) ==> e is Sqlite,
{
    match exec_batch(conn, schema_sql()) {
        Ok(()) => {},
        Err(e) => {
            return Err(store_err(e));
        },
    }
    let empty: Vec<SqlParam> = Vec::new();
    let cols = match sql_query(conn, "PRAGMA table_info(sessions)", &empty) {
        Ok(rows) => rows,
        Err(e) => {
            return Err(store_err(e));
        },
    };
    let wanted = optional_session_columns();
    let mut i: usize = 0;
    while i < wanted.len()
        invariant
            i <= wanted@.len(),
        decreases wanted@.len() - i,
    {
        let (name, alter) = wanted[i];
        if !has_column(&cols, name) {
            match sql_exec(conn, alter, &empty) {
                Ok(_) => {},
                Err(e) => {
                    return Err(store_err(e));
                },
            }
        }
        i += 1;
    }
    Ok(())
}

/// Configures the connection: write-ahead durability, relaxed sync, and a
/// multi-second lock wait so an index run does not fail a concurrent read.
pub fn configure_connection(conn: &rusqlite::Connection) -> (r: Result<(), IndexError>)
    ensures
        r matches Err(e) ==> e is Sqlite,
{
    match exec_batch(
        conn,
        "PRAGMA journal_mode = WAL; PRAGMA synchronous = NORMAL; PRAGMA busy_timeout = 5000;",
    ) {
        Ok(()) => Ok(()),
        Err(e) => Err(store_err(e)),
    }
}

/// The shape a staleness row must have: a text path and two integers.
pub open spec fn indexed_row_ok(row: Seq<SqlValue>) -> bool {
    &&& row.len() == 3
    &&& row[0] is Text
    &&& row[1] is Int
    &&& row[2] is Int
}

/// Decodes one staleness row: `(path, mtime, size)`.  Exactly the
/// well-shaped rows decode; a decoded triple carries every cell.
fn decode_indexed(row: &Vec<SqlValue>) -> (r: Option<IndexedSession>)
    ensures
        match r {
            Some(s) => {
                &&& indexed_row_ok(row@)
                &&& row@[0] matches SqlValue::Text(p) && p@ == s.path@
                &&& row@[1] matches SqlValue::Int(m) && m == s.mtime
                &&& row@[2] matches SqlValue::Int(z) && z == s.size
            },
            None => !indexed_row_ok(row@),
        },
{
    if row.len() != 3 {
        return None;
    }
    let path = match &row[0] {
        SqlValue::Text(p) => p.clone(),
        _ => {
            return None;
        },
    };
    let mtime = match &row[1] {
        SqlValue::Int(m) => *m,
        _ => {
            return None;
        },
    };
    let size = match &row[2] {
        SqlValue::Int(z) => *z,
        _ => {
            return None;
        },
    };
    Some(IndexedSession { path, mtime, size })
}

/// Loads every indexed session's staleness triple: the one read the
/// synchronizer performs before scanning.
pub fn load_indexed_sessions(conn: &rusqlite::Connection) -> Result<Vec<IndexedSession>, IndexError> {
    let empty: Vec<SqlParam> = Vec::new();
    let rows = match sql_query(conn, "SELECT path, mtime, size FROM sessions", &empty) {
        Ok(rows) => rows,
        Err(e) => {
            return Err(store_err(e));
        },
    };
    let mut out: Vec<IndexedSession> = Vec::new();
    let mut i: usize = 0;
    while i < rows.len()
        invariant
            i <= rows@.len(),
        decreases rows@.len() - i,
    {
        match decode_indexed(&rows[i]) {
            Some(s) => out.push(s),
            None => {
                return Err(IndexError::BadRow);
            },
        }
        i += 1;
    }
    Ok(out)
}

/// `Some(text)` as a text parameter, `None` as a null.
fn opt_param(o: &Option<String>) -> (r: SqlParam)
    ensures
        match o {
            Some(s) => r matches SqlParam::Text(t) && t@ == s@,
            None => r is Null,
        },
{
    match o {
        Some(s) => SqlParam::Text(s.clone()),
        None => SqlParam::Null,
    }
}

/// What a text parameter carries.
pub open spec fn param_text(p: SqlParam) -> Option<Seq<char>> {
    match p {
        SqlParam::Text(t) => Some(t@),
        _ => None,
    }
}

/// True when the parameter carries the optional text: the value itself, or
/// a null for an absent value.
pub open spec fn param_carries_opt(p: SqlParam, o: Option<Seq<char>>) -> bool {
    match o {
        Some(s) => param_text(p) == Some(s),
        None => p is Null,
    }
}

/// Builds the fourteen bound values of the session upsert statement, in its
/// column order: identity, staleness fields, summary fields, repository
/// context.
fn session_row_params(record: &crate::model::SessionRecord) -> (ps: Vec<SqlParam>)
    ensures
        ps@.len() == 14,
        param_text(ps@[0]) == Some(record.path@),
        ps@[1] matches SqlParam::Int(x) && x == record.mtime,
        ps@[2] matches SqlParam::Int(x) && x == record.size,
        param_carries_opt(ps@[3], record.hash.deep_view()),
        param_carries_opt(ps@[4], record.created_at.deep_view()),
        param_carries_opt(ps@[5], record.last_message_at.deep_view()),
        param_carries_opt(ps@[6], record.agent.deep_view()),
        param_carries_opt(ps@[7], record.workspace.deep_view()),
        param_carries_opt(ps@[8], record.title.deep_view()),
        ps@[9] matches SqlParam::Int(x) && x == record.message_count,
        param_text(ps@[10]) == Some(record.snippet@),
        param_carries_opt(ps@[11], record.repo_root.deep_view()),
        param_carries_opt(ps@[12], record.repo_name.deep_view()),
        param_carries_opt(ps@[13], record.branch.deep_view()),
{
    let mut ps: Vec<SqlParam> = Vec::new();
    ps.push(SqlParam::Text(record.path.clone()));
    ps.push(SqlParam::Int(record.mtime));
    ps.push(SqlParam::Int(record.size));
    ps.push(opt_param(&record.hash));
    ps.push(opt_param(&record.created_at));
    ps.push(opt_param(&record.last_message_at));
    ps.push(opt_param(&record.agent));
    ps.push(opt_param(&record.workspace));
    ps.push(opt_param(&record.title));
    ps.push(SqlParam::Int(record.message_count));
    ps.push(SqlParam::Text(record.snippet.clone()));
    ps.push(opt_param(&record.repo_root));
    ps.push(opt_param(&record.repo_name));
    ps.push(opt_param(&record.branch));
    ps
}

/// Builds the five bound values of one message-row insert, in its column
/// order: owning path, turn index, role, timestamp, text.
fn message_row_params(session_path: &str, m: &crate::model::MessageRecord) -> (ps: Vec<SqlParam>)
    ensures
        ps@.len() == 5,
        param_text(ps@[0]) == Some(session_path@),
        ps@[1] matches SqlParam::Int(x) && x == m.turn_index,
        param_carries_opt(ps@[2], m.role.deep_view()),
        param_carries_opt(ps@[3], m.timestamp.deep_view()),
        param_text(ps@[4]) == Some(m.text@),
{
    let mut ps: Vec<SqlParam> = Vec::new();
    ps.push(SqlParam::Text(session_path.to_owned()));
    ps.push(SqlParam::Int(m.turn_index));
    ps.push(opt_param(&m.role));
    ps.push(opt_param(&m.timestamp));
    ps.push(SqlParam::Text(m.text.clone()));
    ps
}

/// Inserts or fully replaces the session row under its path, then replaces
/// its full-text shadow entry, inside the caller's open transaction.
pub fn upsert_session_tx(
    conn: &rusqlite::Connection,
    record: &crate::model::SessionRecord,
) -> (r: Result<(), IndexError>)
    ensures
        r matches Err(e) ==> e is Sqlite,
{
    let ps = session_row_params(record);
    let sql = "INSERT INTO sessions (
            path, mtime, size, hash, created_at, last_message_at,
            agent, workspace, title, message_count, snippet,
            repo_root, repo_name, branch
        ) VALUES (?1, ?2, ?3, ?4, ?5, ?6, ?7, ?8, ?9, ?10, ?11, ?12, ?13, ?14)
        ON CONFLICT(path) DO UPDATE SET
            mtime = excluded.mtime,
            size = excluded.size,
            hash = excluded.hash,
            created_at = excluded.created_at,
            last_message_at = excluded.last_message_at,
            agent = excluded.agent,
            workspace = excluded.workspace,
            title = excluded.title,
            message_count = excluded.message_count,
            snippet = excluded.snippet,
            repo_root = excluded.repo_root,
            repo_name = excluded.repo_name,
            branch = excluded.branch";
    match sql_exec(conn, sql, &ps) {
        Ok(_) => {},
        Err(e) => {
            return Err(store_err(e));
        },
    }
    let mut del: Vec<SqlParam> = Vec::new();
    del.push(SqlParam::Text(record.path.clone()));
    match sql_exec(conn, "DELETE FROM sessions_fts WHERE path = ?1", &del) {
        Ok(_) => {},
        Err(e) => {
            return Err(store_err(e));
        },
    }
    let mut ins: Vec<SqlParam> = Vec::new();
    ins.push(SqlParam::Text(record.content.clone()));
    ins.push(SqlParam::Text(record.path.clone()));
    match sql_exec(conn, "INSERT INTO sessions_fts (content, path) VALUES (?1, ?2)", &ins) {
        Ok(_) => Ok(()),
        Err(e) => Err(store_err(e)),
    }
}

/// Deletes every message row and shadow entry of the path, then inserts the
/// full new set in turn order, mirroring each row into the message shadow;
/// a full replace, never a diff, inside the caller's open transaction.
pub fn replace_messages_tx(
    conn: &rusqlite::Connection,
    session_path: &str,
    messages: &Vec<crate::model::MessageRecord>,
) -> (r: Result<(), IndexError>)
    ensures
        r matches Err(e) ==> e is Sqlite,
{
    let mut key: Vec<SqlParam> = Vec::new();
    key.push(SqlParam::Text(session_path.to_owned()));
    match sql_exec(
        conn,
        "DELETE FROM messages_fts WHERE message_id IN (SELECT id FROM messages WHERE session_path = ?1)",
        &key,
    ) {
        Ok(_) => {},
        Err(e) => {
            return Err(store_err(e));
        },
    }
    match sql_exec(conn, "DELETE FROM messages WHERE session_path = ?1", &key) {
        Ok(_) => {},
        Err(e) => {
            return Err(store_err(e));
        },
    }
    let mut i: usize = 0;
    while i < messages.len()
        invariant
            i <= messages@.len(),
        decreases messages@.len() - i,
    {
        let m = &messages[i];
        let ps = message_row_params(session_path, m);
        match sql_exec(
            conn,
            "INSERT INTO messages (session_path, turn_index, role, timestamp, text)
             VALUES (?1, ?2, ?3, ?4, ?5)",
            &ps,
        ) {
            Ok(_) => {},
            Err(e) => {
                return Err(store_err(e));
            },
        }
        let rowid = last_insert_rowid(conn);
        let mut fs: Vec<SqlParam> = Vec::new();
        fs.push(SqlParam::Text(m.text.clone()));
        fs.push(SqlParam::Int(rowid));
        match sql_exec(conn, "INSERT INTO messages_fts (text, message_id) VALUES (?1, ?2)", &fs) {
            Ok(_) => {},
            Err(e) => {
                return Err(store_err(e));
            },
        }
        i += 1;
    }
    Ok(())
}

/// Deletes the path's shadow entries, message rows, and session row, in
/// that dependency order, inside the caller's open transaction.
pub fn remove_session_tx(conn: &rusqlite::Connection, path: &str) -> (r: Result<(), IndexError>)
    ensures
        r matches Err(e) ==> e is Sqlite,
{
    let mut key: Vec<SqlParam> = Vec::new();
    key.push(SqlParam::Text(path.to_owned()));
    match sql_exec(conn, "DELETE FROM sessions_fts WHERE path = ?1", &key) {
        Ok(_) => {},
        Err(e) => {
            return Err(store_err(e));
        },
    }
    match sql_exec(
        conn,
        "DELETE FROM messages_fts WHERE message_id IN (SELECT id FROM messages WHERE session_path = ?1)",
        &key,
    ) {
        Ok(_) => {},
        Err(e) => {
            return Err(store_err(e));
        },
    }
    match sql_exec(conn, "DELETE FROM messages WHERE session_path = ?1", &key) {
        Ok(_) => {},
        Err(e) => {
            return Err(store_err(e));
        },
    }
    match sql_exec(conn, "DELETE FROM sessions WHERE path = ?1", &key) {
        Ok(_) => Ok(()),
        Err(e) => Err(store_err(e)),
    }
}

/// Opens a transaction on the connection.
pub fn begin_tx(conn: &rusqlite::Connection) -> (r: Result<(), IndexError>)
    ensures
        r matches Err(e) ==> e is Sqlite,
{
    match exec_batch(conn, "BEGIN") {
        Ok(()) => Ok(()),
        Err(e) => Err(store_err(e)),
    }
}

/// Commits the open transaction.
pub fn commit_tx(conn: &rusqlite::Connection) -> (r: Result<(), IndexError>)
    ensures
        r matches Err(e) ==> e is Sqlite,
{
    match exec_batch(conn, "COMMIT") {
        Ok(()) => Ok(()),
        Err(e) => Err(store_err(e)),
    }
}

/// Rolls the open transaction back; a failure here is ignored, since the
/// connection discards an uncommitted transaction anyway.
pub fn rollback_tx(conn: &rusqlite::Connection) {
    let _ = exec_batch(conn, "ROLLBACK");
}

/// Upserts one session row and its shadow entry in a transaction of its own.
pub fn upsert_session(
    conn: &mut rusqlite::Connection,
    record: &crate::model::SessionRecord,
) -> (r: Result<(), IndexError>)
    ensures
        r matches Err(e) ==> e is Sqlite,
{
    match begin_tx(conn) {
        Ok(()) => {},
        Err(e) => {
            return Err(e);
        },
    }
    match upsert_session_tx(conn, record) {
        Ok(()) => commit_tx(conn),
        Err(e) => {
            rollback_tx(conn);
            Err(e)
        },
    }
}

/// Removes one session, its messages and both shadows in a transaction of
/// its own.
pub fn remove_session(conn: &mut rusqlite::Connection, path: &str) -> (r: Result<(), IndexError>)
    ensures
        r matches Err(e) ==> e is Sqlite,
{
    match begin_tx(conn) {
        Ok(()) => {},
        Err(e) => {
            return Err(e);
        },
    }
    match remove_session_tx(conn, path) {
        Ok(()) => commit_tx(conn),
        Err(e) => {
            rollback_tx(conn);
            Err(e)
        },
    }
}

} // verus!
