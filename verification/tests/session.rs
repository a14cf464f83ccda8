use mmem::session::{
    extract_tool_calls, load_entry_by_line, load_entry_by_turn, resolve_session_prefix,
    scan_tool_calls, SessionError,
};

const SESSION_TOOLS: &str = "{\"type\":\"session_meta\",\"agent\":\"gpt-4\"}\n{\"message\":{\"role\":\"assistant\",\"content\":[{\"type\":\"text\",\"text\":\"reading the file\"},{\"type\":\"toolCall\",\"name\":\"read\",\"arguments\":{\"path\":\"/tmp/x\"}},{\"type\":\"toolCall\",\"name\":\"write\",\"arguments\":{\"path\":\"/tmp/y\"}}]}}\n";

#[test]
fn loads_turn_and_extracts_tool_calls() {
    let entry =
        load_entry_by_turn("tests.jsonl", SESSION_TOOLS, 0).expect("turn 0");

    assert_eq!(entry.line, 2);
    assert_eq!(entry.message_index, Some(0));

    let tools = extract_tool_calls(&entry.value);
    assert_eq!(tools.len(), 2);
    assert_eq!(tools[0].name, "read");
}

#[test]
fn scans_tool_calls_with_filter() {
    let matches =
        scan_tool_calls("tests.jsonl", SESSION_TOOLS, Some("read"), None).expect("scan tool calls");

    assert_eq!(matches.len(), 1);
    assert_eq!(matches[0].line, 2);
    assert_eq!(matches[0].message_index, Some(0));
    assert_eq!(matches[0].tool.name, "read");
}

#[test]
fn scan_limit_caps_matches() {
    let matches =
        scan_tool_calls("tests.jsonl", SESSION_TOOLS, None, Some(1)).expect("scan tool calls");
    assert_eq!(matches.len(), 1);
    assert_eq!(matches[0].tool.name, "read");

    let all = scan_tool_calls("tests.jsonl", SESSION_TOOLS, None, None).expect("scan all");
    assert_eq!(all.len(), 2);
}

#[test]
fn tool_filter_ignores_ascii_case() {
    let matches =
        scan_tool_calls("tests.jsonl", SESSION_TOOLS, Some("READ"), None).expect("scan tool calls");
    assert_eq!(matches.len(), 1);
    assert_eq!(matches[0].tool.name, "read");
}

#[test]
fn turn_out_of_range_reports_available_count() {
    let input = "{\"message\":{\"role\":\"user\",\"content\":\"one\"}}\n{\"message\":{\"role\":\"assistant\",\"content\":\"two\"}}\n{\"message\":{\"role\":\"user\",\"content\":\"three\"}}\n";
    match load_entry_by_turn("s.jsonl", input, 5) {
        Err(SessionError::TurnOutOfRange { turn, available }) => {
            assert_eq!(turn, 5);
            assert_eq!(available, 3);
        }
        _ => panic!("expected an out-of-range failure"),
    }
}

#[test]
fn loads_exact_line_even_without_message() {
    let input = "{\"type\":\"session_meta\"}\n{\"message\":{\"role\":\"user\",\"content\":\"hi\"}}\n";
    let entry = load_entry_by_line("s.jsonl", input, 1).expect("line 1");
    assert_eq!(entry.line, 1);
    assert_eq!(entry.message_index, None);
    assert!(entry.role.is_none());

    let entry = load_entry_by_line("s.jsonl", input, 2).expect("line 2");
    assert_eq!(entry.role.as_deref(), Some("user"));

    assert!(matches!(
        load_entry_by_line("s.jsonl", input, 9),
        Err(SessionError::LineOutOfRange { line: 9 })
    ));
}

#[test]
fn non_jsonl_paths_are_unsupported() {
    assert!(matches!(
        load_entry_by_turn("notes.md", "User: hi\n", 0),
        Err(SessionError::UnsupportedFormat { .. })
    ));
    assert!(matches!(
        scan_tool_calls("notes.json", "{}", None, None),
        Err(SessionError::UnsupportedFormat { .. })
    ));
}

#[test]
fn malformed_line_fails_with_its_number() {
    let input = "{\"message\":{\"role\":\"user\",\"content\":\"ok\"}}\nbroken\n";
    match load_entry_by_turn("s.jsonl", input, 3) {
        Err(SessionError::InvalidJson { line, .. }) => assert_eq!(line, 2),
        _ => panic!("expected a malformed-line failure"),
    }
}

#[test]
fn resolves_session_path_by_prefix() {
    let names = vec!["1766632198584_test.jsonl".to_string()];
    let resolved = resolve_session_prefix("1766632198584", &names).expect("resolve");
    assert_eq!(resolved, 0);
}

#[test]
fn resolve_session_path_reports_ambiguous_prefix() {
    let names = vec![
        "1766632198584_a.jsonl".to_string(),
        "1766632198584_b.jsonl".to_string(),
    ];
    let err = resolve_session_prefix("1766632198584", &names).expect_err("ambiguous");
    match err {
        SessionError::Ambiguous { candidates, .. } => {
            assert_eq!(candidates.len(), 2);
            assert_eq!(candidates[0], "1766632198584_a.jsonl");
            assert_eq!(candidates[1], "1766632198584_b.jsonl");
        }
        _ => panic!("expected an ambiguity failure"),
    }
}

#[test]
fn resolve_session_path_reports_missing_prefix() {
    let names: Vec<String> = Vec::new();
    let err = resolve_session_prefix("nope", &names).expect_err("missing");
    assert!(matches!(err, SessionError::NotFound { .. }));
}
