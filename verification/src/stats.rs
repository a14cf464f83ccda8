//! Aggregate statistics over the index: session count and the range of
//! last-message timestamps.

use vstd::prelude::*;

use crate::index::{SqlParam, sql_query};
use crate::query::{cell_int, cell_opt_text};

verus! {

/// What the index holds overall; `parse_failures` is not tracked by the
/// store and is always absent here.
pub struct StatsReport {
    pub session_count: i64,
    pub oldest_message_at: Option<String>,
    pub newest_message_at: Option<String>,
    pub parse_failures: Option<i64>,
}

/// Why the statistics query failed.
#[derive(Debug)]
pub enum StatsError {
    Sqlite { source: rusqlite::Error },
    BadRow,
}

/// Loads the session count and the oldest and newest last-message
/// timestamps from the store.
pub fn load_stats(conn: &rusqlite::Connection) -> (r: Result<StatsReport, StatsError>)
    ensures
        r matches Ok(s) ==> s.parse_failures is None,
{
    let empty: Vec<SqlParam> = Vec::new();
    let rows = match sql_query(
        conn,
        "SELECT COUNT(*), MIN(last_message_at), MAX(last_message_at) FROM sessions",
        &empty,
    ) {
        Ok(rows) => rows,
        Err(e) => {
            return Err(StatsError::Sqlite { source: e });
        },
    };
    if rows.len() != 1 {
        return Err(StatsError::BadRow);
    }
    let row = &rows[0];
    if row.len() != 3 {
        return Err(StatsError::BadRow);
    }
    let count = match cell_int(&row[0]) {
        Some(c) => c,
        None => {
            return Err(StatsError::BadRow);
        },
    };
    let oldest = match cell_opt_text(&row[1]) {
        Some(t) => t,
        None => {
            return Err(StatsError::BadRow);
        },
    };
    let newest = match cell_opt_text(&row[2]) {
        Some(t) => t,
        None => {
            return Err(StatsError::BadRow);
        },
    };
    Ok(
        StatsReport {
            session_count: count,
            oldest_message_at: oldest,
            newest_message_at: newest,
            parse_failures: None,
        },
    )
}

} // verus!
