use mmem::index::{init_schema, replace_messages_tx, upsert_session_tx};
use mmem::model::{MessageRecord, SessionRecord};
use mmem::query::{find_messages, find_sessions, FindFilters, FindScope, QueryError};
use rusqlite::Connection;

fn record(path: &str, agent: &str, workspace: &str, last_message_at: &str) -> SessionRecord {
    SessionRecord {
        path: path.to_string(),
        mtime: 1700000000,
        size: 1234,
        hash: None,
        created_at: Some("2024-01-01T00:00:00Z".to_string()),
        last_message_at: Some(last_message_at.to_string()),
        agent: Some(agent.to_string()),
        workspace: Some(workspace.to_string()),
        title: Some("title".to_string()),
        message_count: 2,
        snippet: "snippet".to_string(),
        content: "alpha beta".to_string(),
        repo_root: None,
        repo_name: None,
        branch: None,
    }
}

fn insert_session(conn: &mut Connection, record: &SessionRecord, messages: &[MessageRecord]) {
    upsert_session_tx(conn, record).expect("session insert");
    let messages: Vec<MessageRecord> = messages
        .iter()
        .map(|m| MessageRecord {
            turn_index: m.turn_index,
            role: m.role.clone(),
            timestamp: m.timestamp.clone(),
            text: m.text.clone(),
        })
        .collect();
    replace_messages_tx(conn, &record.path, &messages).expect("message insert");
}

#[test]
fn finds_messages_with_filters() {
    let mut conn = Connection::open_in_memory().expect("db");
    init_schema(&conn).expect("schema");

    let rec_a = record("/tmp/a.jsonl", "gpt-4", "ws-a", "2024-01-01T00:00:01Z");
    let rec_b = record("/tmp/b.jsonl", "gpt-3", "ws-b", "2024-01-02T00:00:01Z");

    insert_session(
        &mut conn,
        &rec_a,
        &[MessageRecord {
            turn_index: 0,
            role: Some("user".to_string()),
            timestamp: Some("2024-01-01T00:00:01Z".to_string()),
            text: "alpha".to_string(),
        }],
    );
    insert_session(
        &mut conn,
        &rec_b,
        &[MessageRecord {
            turn_index: 0,
            role: Some("user".to_string()),
            timestamp: Some("2024-01-02T00:00:01Z".to_string()),
            text: "alpha".to_string(),
        }],
    );

    let mut filters = FindFilters {
        agent: Some("gpt-4".to_string()),
        role: Some("user".to_string()),
        limit: 10,
        scope: FindScope::Message,
        ..Default::default()
    };

    let results = find_messages(&conn, "alpha", &filters).expect("query");
    assert_eq!(results.len(), 1);
    assert_eq!(results[0].path, "/tmp/a.jsonl");

    filters.agent = None;
    filters.workspace = Some("ws-b".to_string());
    let results = find_messages(&conn, "alpha", &filters).expect("query");
    assert_eq!(results.len(), 1);
    assert_eq!(results[0].path, "/tmp/b.jsonl");

    filters.workspace = None;
    filters.after = Some("2024-01-02T00:00:00Z".to_string());
    let results = find_messages(&conn, "alpha", &filters).expect("query");
    assert_eq!(results.len(), 1);
    assert_eq!(results[0].path, "/tmp/b.jsonl");
}

#[test]
fn agent_filter_restricts_session_hits() {
    let mut conn = Connection::open_in_memory().expect("db");
    init_schema(&conn).expect("schema");

    insert_session(
        &mut conn,
        &record("/tmp/a.jsonl", "gpt-4", "ws-a", "2024-01-01T00:00:01Z"),
        &[],
    );
    insert_session(
        &mut conn,
        &record("/tmp/b.jsonl", "gpt-3", "ws-b", "2024-01-02T00:00:01Z"),
        &[],
    );

    let filters = FindFilters {
        agent: Some("gpt-4".to_string()),
        limit: 10,
        scope: FindScope::Session,
        ..Default::default()
    };
    // Both sessions contain "alpha"; only the gpt-4 one may come back.
    let results = find_sessions(&conn, "alpha", &filters).expect("query");
    assert_eq!(results.len(), 1);
    assert_eq!(results[0].path, "/tmp/a.jsonl");
    assert_eq!(results[0].agent.as_deref(), Some("gpt-4"));
}

#[test]
fn empty_query_is_rejected() {
    let conn = Connection::open_in_memory().expect("db");
    init_schema(&conn).expect("schema");

    assert!(matches!(
        find_sessions(&conn, "   ", &FindFilters::default()),
        Err(QueryError::EmptyQuery)
    ));
    assert!(matches!(
        find_messages(&conn, "", &FindFilters::default()),
        Err(QueryError::EmptyQuery)
    ));
}

#[test]
fn context_window_wraps_hits() {
    let mut conn = Connection::open_in_memory().expect("db");
    init_schema(&conn).expect("schema");

    let messages: Vec<MessageRecord> = (0..5)
        .map(|i| MessageRecord {
            turn_index: i,
            role: Some("user".to_string()),
            timestamp: None,
            text: if i == 2 {
                "needle".to_string()
            } else {
                format!("filler {}", i)
            },
        })
        .collect();
    insert_session(
        &mut conn,
        &record("/tmp/c.jsonl", "gpt-4", "ws-c", "2024-01-01T00:00:01Z"),
        &messages,
    );

    let filters = FindFilters {
        limit: 10,
        around: 1,
        ..Default::default()
    };
    let results = find_messages(&conn, "needle", &filters).expect("query");
    assert_eq!(results.len(), 1);
    assert_eq!(results[0].turn_index, 2);
    let context = results[0].context.as_ref().expect("context");
    let turns: Vec<i64> = context.iter().map(|c| c.turn_index).collect();
    assert_eq!(turns, vec![1, 2, 3]);
}

#[test]
fn zero_limit_defaults_to_five() {
    let mut conn = Connection::open_in_memory().expect("db");
    init_schema(&conn).expect("schema");

    for i in 0..8 {
        insert_session(
            &mut conn,
            &record(
                &format!("/tmp/s{}.jsonl", i),
                "gpt-4",
                "ws",
                "2024-01-01T00:00:01Z",
            ),
            &[],
        );
    }
    let results =
        find_sessions(&conn, "alpha", &FindFilters::default()).expect("query");
    assert_eq!(results.len(), 5);
}
