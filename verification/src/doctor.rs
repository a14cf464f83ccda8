//! Health-check assembly: turns the probes a caller ran (paths checked,
//! database opened, statistics loaded) into one diagnostic report.

use vstd::prelude::*;

use crate::stats::StatsReport;

verus! {

/// One diagnostic report over the configured root and database.
pub struct DoctorReport {
    pub root: String,
    pub root_exists: bool,
    pub db_path: String,
    pub db_exists: bool,
    pub schema_ok: bool,
    pub schema_error: Option<String>,
    pub fts5_available: bool,
    pub indexed_sessions: i64,
    pub newest_message_at: Option<String>,
}

/// Assembles the report: the schema is healthy exactly when the database
/// file exists and its statistics loaded; a probe failure is carried as the
/// schema error, and counts degrade to zero rather than failing the check.
pub fn build_doctor_report(
    root: String,
    root_exists: bool,
    db_path: String,
    db_exists: bool,
    fts5_available: bool,
    probe: Option<Result<StatsReport, String>>,
) -> (r: DoctorReport)
    requires
        probe is Some <==> db_exists,
    ensures
        r.root@ == root@,
        r.root_exists == root_exists,
        r.db_path@ == db_path@,
        r.db_exists == db_exists,
        r.fts5_available == fts5_available,
        r.schema_ok == (db_exists && probe matches Some(Ok(_))),
        match probe {
            Some(Ok(s)) => r.indexed_sessions == s.session_count && r.newest_message_at.deep_view()
                == s.newest_message_at.deep_view() && r.schema_error is None,
            Some(Err(e)) => r.indexed_sessions == 0 && r.newest_message_at is None
                && (r.schema_error matches Some(m) && m@ == e@),
            None => r.indexed_sessions == 0 && r.newest_message_at is None && r.schema_error
                is None,
        },
{
    let mut schema_ok = false;
    let mut schema_error: Option<String> = None;
    let mut indexed_sessions: i64 = 0;
    let mut newest_message_at: Option<String> = None;
    match probe {
        Some(Ok(stats)) => {
            schema_ok = true;
            indexed_sessions = stats.session_count;
            newest_message_at = stats.newest_message_at;
        },
        Some(Err(e)) => {
            schema_error = Some(e);
        },
        None => {},
    }
    DoctorReport {
        root,
        root_exists,
        db_path,
        db_exists,
        schema_ok,
        schema_error,
        fts5_available,
        indexed_sessions,
        newest_message_at,
    }
}

} // verus!
