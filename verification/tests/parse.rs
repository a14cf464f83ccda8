use mmem::parse::{parse_json, parse_jsonl, parse_markdown, ParseError};

const SESSION_JSONL: &str = "{\"type\":\"session_meta\",\"agent\":\"gpt-4\",\"workspace\":\"ws-a\",\"created_at\":\"2024-01-01T00:00:00Z\"}\n{\"message\":{\"role\":\"user\",\"content\":\"hello\"},\"timestamp\":\"2024-01-01T00:00:01Z\"}\n{\"message\":{\"role\":\"assistant\",\"content\":\"hi there\"},\"timestamp\":\"2024-01-01T00:00:02Z\"}\n";

const SESSION_JSON: &str = "{\"agent\":\"gpt-4\",\"workspace\":\"ws-b\",\"created_at\":\"2024-02-01T00:00:00Z\",\"messages\":[{\"role\":\"user\",\"content\":\"first question\",\"timestamp\":\"2024-02-01T00:00:01Z\"},{\"role\":\"assistant\",\"content\":\"first answer\",\"timestamp\":\"2024-02-01T00:00:02Z\"}]}";

const SESSION_MD: &str = "User: hello from md\nAssistant: hi from md\n";

#[test]
fn parses_jsonl_sessions() {
    let parsed = parse_jsonl(SESSION_JSONL).expect("jsonl parse");

    assert_eq!(parsed.message_count, 2);
    assert_eq!(parsed.title.as_deref(), Some("hello"));
    assert_eq!(parsed.agent.as_deref(), Some("gpt-4"));
    assert_eq!(parsed.workspace.as_deref(), Some("ws-a"));
    assert_eq!(parsed.created_at.as_deref(), Some("2024-01-01T00:00:00Z"));
    assert_eq!(
        parsed.last_message_at.as_deref(),
        Some("2024-01-01T00:00:02Z")
    );
    assert!(parsed.content.contains("[user] hello"));
    assert!(parsed.content.contains("[assistant] hi there"));
}

#[test]
fn parses_json_sessions() {
    let parsed = parse_json(SESSION_JSON).expect("json parse");

    assert_eq!(parsed.message_count, 2);
    assert_eq!(parsed.title.as_deref(), Some("first question"));
    assert_eq!(parsed.agent.as_deref(), Some("gpt-4"));
    assert_eq!(parsed.workspace.as_deref(), Some("ws-b"));
    assert_eq!(parsed.created_at.as_deref(), Some("2024-02-01T00:00:00Z"));
    assert_eq!(
        parsed.last_message_at.as_deref(),
        Some("2024-02-01T00:00:02Z")
    );
    assert!(parsed.content.contains("[user] first question"));
    assert!(parsed.content.contains("[assistant] first answer"));
}

#[test]
fn parses_markdown_sessions() {
    let parsed = parse_markdown(SESSION_MD);

    assert_eq!(parsed.message_count, 2);
    assert_eq!(parsed.title.as_deref(), Some("hello from md"));
    assert!(parsed.content.contains("[user] hello from md"));
    assert!(parsed.content.contains("[assistant] hi from md"));
}

#[test]
fn blank_input_yields_no_messages_or_title() {
    let jsonl = parse_jsonl("").expect("empty jsonl");
    assert_eq!(jsonl.message_count, 0);
    assert!(jsonl.title.is_none());
    assert!(jsonl.content.is_empty());
    assert!(jsonl.snippet.is_empty());

    let jsonl_ws = parse_jsonl(" \n\t \n").expect("whitespace jsonl");
    assert_eq!(jsonl_ws.message_count, 0);
    assert!(jsonl_ws.title.is_none());

    let md = parse_markdown("   \n \t\n");
    assert_eq!(md.message_count, 0);
    assert!(md.title.is_none());

    // A single JSON document's grammar rejects blank input outright, so it
    // too yields no messages.
    assert!(parse_json("").is_err());
    assert!(parse_json("   ").is_err());
}

#[test]
fn jsonl_reports_first_malformed_line_number() {
    let input = "{\"message\":\"fine\"}\n\nnot json\n";
    match parse_jsonl(input) {
        Err(ParseError::InvalidJsonl { line, .. }) => assert_eq!(line, 3),
        _ => panic!("expected a line-numbered parse failure"),
    }
}

#[test]
fn json_document_failure_is_file_level() {
    match parse_json("nope") {
        Err(ParseError::InvalidJson { .. }) => {}
        _ => panic!("expected a file-level parse failure"),
    }
}

#[test]
fn tool_call_only_turns_keep_their_index() {
    let input = "{\"message\":{\"role\":\"user\",\"content\":\"run it\"}}\n{\"message\":{\"role\":\"assistant\",\"content\":[{\"type\":\"toolCall\",\"name\":\"run\",\"arguments\":{}}]}}\n{\"message\":{\"role\":\"user\",\"content\":\"thanks\"}}\n";
    // The middle line carries no text but does carry a tool call, so it
    // still consumes a turn index: the summary counts three turns and the
    // indexed numbering matches direct inspection.
    let parsed = parse_jsonl(input).expect("jsonl parse");
    assert_eq!(parsed.message_count, 3);
    assert_eq!(parsed.messages[1].text, "");

    let entry = mmem::session::load_entry_by_turn("s.jsonl", input, 1).expect("turn 1");
    assert_eq!(entry.line, 2);
    assert_eq!(entry.role.as_deref(), Some("assistant"));
    let entry = mmem::session::load_entry_by_turn("s.jsonl", input, 2).expect("turn 2");
    assert_eq!(entry.line, 3);
}

#[test]
fn roles_are_normalized_to_lowercase() {
    let input = "{\"message\":{\"role\":\"USER\",\"content\":\"shouty\"}}\n";
    let parsed = parse_jsonl(input).expect("jsonl parse");
    assert!(parsed.content.contains("[user] shouty"));
}

#[test]
fn numeric_timestamps_are_coerced_to_strings() {
    let input = "{\"message\":{\"role\":\"user\",\"content\":\"hi\"},\"ts\":1700000000}\n";
    let parsed = parse_jsonl(input).expect("jsonl parse");
    assert_eq!(parsed.created_at.as_deref(), Some("1700000000"));
}

#[test]
fn content_parts_flatten_with_newlines() {
    let input = "{\"message\":{\"role\":\"user\",\"content\":[{\"type\":\"input_text\",\"text\":\"part one\"},{\"type\":\"input_text\",\"text\":\"part two\"}]}}\n";
    let parsed = parse_jsonl(input).expect("jsonl parse");
    assert_eq!(parsed.title.as_deref(), Some("part one\npart two"));
}

#[test]
fn snippet_is_capped_at_240_characters() {
    let long = "x".repeat(500);
    let input = format!("{{\"message\":{{\"role\":\"user\",\"content\":\"{}\"}}}}\n", long);
    let parsed = parse_jsonl(&input).expect("jsonl parse");
    assert_eq!(parsed.snippet.chars().count(), 240);
    assert_eq!(parsed.content.chars().count(), long.len() + "[user] ".len());
}

#[test]
fn markdown_unrecognized_prefix_stays_in_text() {
    let parsed = parse_markdown("Narrator: it was a dark night\nplain line\n");
    assert_eq!(parsed.message_count, 2);
    assert!(parsed.content.contains("Narrator: it was a dark night"));
    assert!(!parsed.content.contains("[narrator]"));
    assert_eq!(parsed.title.as_deref(), Some("Narrator: it was a dark night"));
}

#[test]
fn non_message_payloads_are_not_turns() {
    // An envelope whose payload is not typed "message" yields no message,
    // even when the payload carries coercible content.
    let input = "{\"type\":\"response_item\",\"payload\":{\"type\":\"reasoning\",\"content\":\"thinking\"}}\n{\"type\":\"response_item\",\"payload\":{\"type\":\"message\",\"role\":\"user\",\"content\":\"hello\"}}\n";
    let parsed = parse_jsonl(input).expect("jsonl parse");
    assert_eq!(parsed.message_count, 1);
    assert_eq!(parsed.title.as_deref(), Some("hello"));
    assert!(!parsed.content.contains("thinking"));

    let entry = mmem::session::load_entry_by_turn("s.jsonl", input, 0).expect("turn 0");
    assert_eq!(entry.line, 2);
}
