use mmem::index::{init_schema, load_indexed_sessions};
use mmem::query::{find_messages, FindFilters};
use mmem::scan::{
    apply_scan, branch_from_head, decode_workspace_component, parse_by_extension, plan_scan,
    repo_name_of, FileMeta, RepoInfo, ScanInput,
};
use rusqlite::Connection;

fn meta(path: &str, mtime: i64, size: i64, ext: &str) -> FileMeta {
    FileMeta {
        path: path.to_string(),
        mtime,
        size,
        ext: ext.to_string(),
    }
}

fn input(m: &FileMeta, contents: &str) -> ScanInput {
    ScanInput {
        meta: meta(&m.path, m.mtime, m.size, &m.ext),
        contents: contents.to_string(),
        repo: RepoInfo::unknown(),
    }
}

const JSONL_A: &str =
    "{\"type\":\"response_item\",\"payload\":{\"type\":\"message\",\"role\":\"user\",\"content\":\"hello\"}}\n";
const MD_B: &str = "User: hi\nAssistant: hey\n";

fn run_scan(
    conn: &mut Connection,
    files: &Vec<FileMeta>,
    contents: &[(&str, &str)],
    full: bool,
) -> mmem::scan::ScanStats {
    let existing = load_indexed_sessions(conn).expect("load");
    let plan = plan_scan(&existing, files, full);
    let mut inputs: Vec<ScanInput> = Vec::new();
    for idx in &plan.to_read {
        let m = &files[*idx];
        let text = contents
            .iter()
            .find(|(p, _)| *p == m.path)
            .map(|(_, t)| *t)
            .unwrap_or("");
        inputs.push(input(m, text));
    }
    apply_scan(conn, &existing, &inputs, &plan.stale, plan.skipped).expect("apply")
}

#[test]
fn indexes_skips_and_removes_files() {
    let mut conn = Connection::open_in_memory().expect("db");
    init_schema(&conn).expect("schema");

    let both = vec![
        meta("/root/a.jsonl", 100, 50, "jsonl"),
        meta("/root/b.md", 100, 30, "md"),
    ];
    let contents = [("/root/a.jsonl", JSONL_A), ("/root/b.md", MD_B)];

    let stats = run_scan(&mut conn, &both, &contents, false);
    assert_eq!(stats.indexed, 2);
    assert_eq!(stats.skipped, 0);
    assert_eq!(stats.removed, 0);
    assert_eq!(stats.parse_errors, 0);

    let count: i64 = conn
        .query_row("SELECT COUNT(*) FROM sessions", [], |row| row.get(0))
        .expect("count");
    assert_eq!(count, 2);

    // Round-trip: nothing changed, so everything is skipped and nothing is
    // re-parsed.
    let stats = run_scan(&mut conn, &both, &contents, false);
    assert_eq!(stats.indexed, 0);
    assert_eq!(stats.skipped, 2);
    assert_eq!(stats.scanned, stats.skipped);

    // Deleting the Markdown file removes its record on the next run.
    let only_a = vec![meta("/root/a.jsonl", 100, 50, "jsonl")];
    let stats = run_scan(&mut conn, &only_a, &contents, false);
    assert_eq!(stats.removed, 1);
    let count: i64 = conn
        .query_row("SELECT COUNT(*) FROM sessions", [], |row| row.get(0))
        .expect("count");
    assert_eq!(count, 1);
}

fn all_rows(conn: &Connection) -> Vec<String> {
    let mut stmt = conn
        .prepare(
            "SELECT path || '|' || mtime || '|' || size || '|' ||
                    COALESCE(title,'') || '|' || message_count || '|' ||
                    snippet FROM sessions ORDER BY path",
        )
        .expect("prepare");
    let rows = stmt
        .query_map([], |row| row.get::<_, String>(0))
        .expect("query");
    let mut out = Vec::new();
    for r in rows {
        out.push(r.expect("row"));
    }
    let mut stmt = conn
        .prepare(
            "SELECT session_path || '#' || turn_index || '|' ||
                    COALESCE(role,'') || '|' || text
             FROM messages ORDER BY session_path, turn_index",
        )
        .expect("prepare");
    let rows = stmt
        .query_map([], |row| row.get::<_, String>(0))
        .expect("query");
    for r in rows {
        out.push(r.expect("row"));
    }
    out
}

#[test]
fn forced_reindex_is_idempotent() {
    let mut conn = Connection::open_in_memory().expect("db");
    init_schema(&conn).expect("schema");

    let files = vec![meta("/root/a.jsonl", 100, 50, "jsonl")];
    let contents = [("/root/a.jsonl", JSONL_A)];

    run_scan(&mut conn, &files, &contents, true);
    let first = all_rows(&conn);
    run_scan(&mut conn, &files, &contents, true);
    let second = all_rows(&conn);
    assert_eq!(first, second);
}

#[test]
fn changed_content_fully_replaces_messages() {
    let mut conn = Connection::open_in_memory().expect("db");
    init_schema(&conn).expect("schema");

    let files = vec![meta("/root/a.jsonl", 100, 50, "jsonl")];
    run_scan(&mut conn, &files, &[("/root/a.jsonl", JSONL_A)], false);

    let old_text: i64 = conn
        .query_row(
            "SELECT COUNT(*) FROM messages WHERE text = 'hello'",
            [],
            |row| row.get(0),
        )
        .expect("count");
    assert_eq!(old_text, 1);

    // Same path, new modification time and content: the whole message set
    // is replaced, and no row with the removed text survives.
    let changed = vec![meta("/root/a.jsonl", 200, 60, "jsonl")];
    let new_content =
        "{\"message\":{\"role\":\"user\",\"content\":\"goodbye\"}}\n";
    let stats = run_scan(&mut conn, &changed, &[("/root/a.jsonl", new_content)], false);
    assert_eq!(stats.indexed, 1);
    assert_eq!(stats.skipped, 0);

    let old_text: i64 = conn
        .query_row(
            "SELECT COUNT(*) FROM messages WHERE text = 'hello'",
            [],
            |row| row.get(0),
        )
        .expect("count");
    assert_eq!(old_text, 0);
    let new_text: i64 = conn
        .query_row(
            "SELECT COUNT(*) FROM messages WHERE text = 'goodbye'",
            [],
            |row| row.get(0),
        )
        .expect("count");
    assert_eq!(new_text, 1);
}

#[test]
fn deleting_a_file_removes_rows_and_shadows() {
    let mut conn = Connection::open_in_memory().expect("db");
    init_schema(&conn).expect("schema");

    let files = vec![meta("/root/a.jsonl", 100, 50, "jsonl")];
    run_scan(&mut conn, &files, &[("/root/a.jsonl", JSONL_A)], false);

    let empty: Vec<FileMeta> = Vec::new();
    let stats = run_scan(&mut conn, &empty, &[], false);
    assert_eq!(stats.removed, 1);

    for table in ["sessions", "sessions_fts", "messages", "messages_fts"] {
        let count: i64 = conn
            .query_row(&format!("SELECT COUNT(*) FROM {}", table), [], |row| {
                row.get(0)
            })
            .expect("count");
        assert_eq!(count, 0, "{} not emptied", table);
    }
}

#[test]
fn newly_invalid_file_is_removed_from_the_index() {
    let mut conn = Connection::open_in_memory().expect("db");
    init_schema(&conn).expect("schema");

    let files = vec![meta("/root/a.jsonl", 100, 50, "jsonl")];
    run_scan(&mut conn, &files, &[("/root/a.jsonl", JSONL_A)], false);

    let hits = find_messages(
        &conn,
        "hello",
        &FindFilters {
            limit: 10,
            ..Default::default()
        },
    )
    .expect("search");
    assert_eq!(hits.len(), 1);

    // The file is overwritten with invalid content; the next scan removes
    // the stale record and search no longer returns it.
    let changed = vec![meta("/root/a.jsonl", 200, 10, "jsonl")];
    let stats = run_scan(&mut conn, &changed, &[("/root/a.jsonl", "not json")], false);
    assert_eq!(stats.parse_errors, 1);
    assert_eq!(stats.removed, 1);
    assert_eq!(stats.indexed, 0);

    let hits = find_messages(
        &conn,
        "hello",
        &FindFilters {
            limit: 10,
            ..Default::default()
        },
    )
    .expect("search");
    assert!(hits.is_empty());
}

#[test]
fn parse_by_extension_dispatches_formats() {
    assert_eq!(
        parse_by_extension("md", "User: hi\n").expect("md").message_count,
        1
    );
    assert_eq!(
        parse_by_extension("jsonl", JSONL_A)
            .expect("jsonl")
            .message_count,
        1
    );
    assert!(parse_by_extension("json", "not json").is_err());
    assert_eq!(
        parse_by_extension("txt", "whatever").expect("other").message_count,
        0
    );
}

#[test]
fn workspace_components_decode_to_paths() {
    assert_eq!(
        decode_workspace_component("home--alice--projects--demo").as_deref(),
        Some("/home/alice/projects/demo")
    );
    assert_eq!(
        decode_workspace_component("--home--alice").as_deref(),
        Some("/home/alice")
    );
    assert_eq!(decode_workspace_component("plain-name"), None);
}

#[test]
fn repo_context_string_rules() {
    assert_eq!(branch_from_head("main".to_string()).as_deref(), Some("main"));
    assert_eq!(branch_from_head("HEAD".to_string()), None);

    assert_eq!(repo_name_of("/home/alice/projects/demo").as_deref(), Some("demo"));
    assert_eq!(repo_name_of("demo").as_deref(), Some("demo"));
    assert_eq!(repo_name_of("/home/alice/"), None);
    assert_eq!(repo_name_of(""), None);
}
