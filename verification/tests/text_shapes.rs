use yai::display::{
    cli_section_line, display_field, model_line_layout, ordered_list_marker, paint, prompt_label,
    terminal_width, ANSI_BOLD, ANSI_CYAN, ANSI_GREEN, ANSI_RESET, ANSI_YELLOW,
};
use yai::json_scan::{
    extract_json_string_field, json_escape, json_number_field, json_string_array, json_string_field,
    json_string_or, parse_json_string_at, validate_hot_snapshot,
};
use yai::words::{compact_text, wrap_words};

fn chars(s: &str) -> Vec<char> {
    s.chars().collect()
}

fn lines(items: &[&str]) -> Vec<String> {
    items.iter().map(|s| s.to_string()).collect()
}

#[test]
fn flat_json_fields() {
    let doc = r#"{"schema":"yai.x","count":42,"empty":"","n":x}"#;
    assert_eq!(json_string_field(doc, "schema"), Some("yai.x".to_string()));
    assert_eq!(json_string_field(doc, "missing"), None);
    assert_eq!(json_number_field(doc, "count"), Some("42".to_string()));
    assert_eq!(json_number_field(doc, "n"), None);
    assert_eq!(json_string_or(doc, "empty", "fallback"), "fallback");
    assert_eq!(json_string_or(doc, "schema", "fallback"), "yai.x");
    assert_eq!(json_string_or(doc, "missing", "fallback"), "fallback");
}

fn hot_snapshot(schema: &str) -> String {
    format!(
        "  {{\"schema\":\"{schema}\",\"hot_state_id\":\"h\",\"case_ref\":\"c\",\"case_session_id\":\"s\",\
         \"case_context_id\":\"x\",\"case_session_status\":\"open\",\"case_world_status\":\"w\",\
         \"case_context_status\":\"k\",\"projection_freshness\":\"fresh\",\"projection_stale_reason\":\"none\",\
         \"case_version\":3,\"updated_at_unix_ms\":1700}}\n"
    )
}

#[test]
fn hot_snapshot_validation() {
    assert!(validate_hot_snapshot(&hot_snapshot("yai.hot_state.v1")));
    assert!(!validate_hot_snapshot(&hot_snapshot("yai.hot_state.v2")));
    let without_version = hot_snapshot("yai.hot_state.v1").replace("\"case_version\":3,", "");
    assert!(!validate_hot_snapshot(&without_version));
    assert!(!validate_hot_snapshot("[]"));
    assert!(!validate_hot_snapshot(""));
}

#[test]
fn json_strings_written_and_read() {
    assert_eq!(json_escape("a\"b\\c\nd\te\u{1}"), "a\\\"b\\\\c\\nd\\te\\u0001");
    assert_eq!(json_escape("plain é"), "plain é");
    assert_eq!(json_string_array(&lines(&["a", "b\"c"])), "\"a\",\"b\\\"c\"");
    assert_eq!(json_string_array(&[]), "");
    let bytes = br#"x"a\"b\u0041\n" tail"#;
    assert_eq!(parse_json_string_at(bytes, 1), Some(("a\"bA\n".to_string(), 15)));
    assert_eq!(parse_json_string_at(bytes, 0), None);
    assert_eq!(parse_json_string_at(br#""open"#, 0), None);
    let written = json_escape("line\none \"two\"");
    let quoted = format!("\"{written}\"");
    assert_eq!(parse_json_string_at(quoted.as_bytes(), 0).map(|p| p.0), Some("line\none \"two\"".to_string()));
}

#[test]
fn nested_string_field_is_found() {
    let reply = r#"{"choices":[{"message":{"role":"assistant", "content" : "hi there"}}]}"#;
    assert_eq!(extract_json_string_field(reply, "content"), Some("hi there".to_string()));
    assert_eq!(extract_json_string_field(reply, "missing"), None);
    assert_eq!(extract_json_string_field(r#"{"content":7,"x":{"content":"y"}}"#, "content"), Some("y".to_string()));
}

#[test]
fn compact_and_wrap() {
    assert_eq!(compact_text("  a   b\nc ", 10), "a b c");
    assert_eq!(compact_text("hello world", 5), "hello...");
    assert_eq!(compact_text("", 5), "");
    assert!(compact_text("a long line of many words", 4).chars().count() <= 7);
    assert_eq!(
        wrap_words("aaaaaaaaaa bbbbbbbbbb cccccccccc", "> ", 32),
        lines(&["> aaaaaaaaaa bbbbbbbbbb", "> cccccccccc"])
    );
    assert_eq!(wrap_words("   ", "> ", 32), lines(&[""]));
    assert_eq!(wrap_words("one two", "", 0), lines(&["one two"]));
    for line in wrap_words("the quick brown fox jumps over the lazy dog again and again", "  ", 30) {
        assert!(line.len() <= 2 + 28 && line.starts_with("  "));
    }
}

#[test]
fn display_helpers() {
    assert_eq!(display_field("", "-"), "-");
    assert_eq!(display_field("v", "-"), "v");
    assert_eq!(paint(false, ANSI_BOLD, "x"), "x");
    assert_eq!(paint(true, ANSI_BOLD, "x"), format!("{ANSI_BOLD}x{ANSI_RESET}"));
    assert_eq!(prompt_label("case:1", false), "yai(case:1)> ");
    assert_eq!(
        prompt_label("case:1", true),
        format!("{ANSI_BOLD}{ANSI_CYAN}yai({ANSI_YELLOW}case:1{ANSI_RESET})> ")
    );
    assert_eq!(terminal_width(None), 92);
    assert_eq!(terminal_width(Some("40")), 92);
    assert_eq!(terminal_width(Some("100")), 100);
    assert_eq!(terminal_width(Some("200")), 120);
    assert_eq!(terminal_width(Some("wide")), 92);
    assert_eq!(cli_section_line("Case", "c1", 20), "-- Case c1 ---------");
    assert_eq!(cli_section_line("Case", "", 5), "-- Case ");
}

#[test]
fn ordered_list_markers() {
    assert_eq!(ordered_list_marker(&chars("12. item")), Some(4));
    assert_eq!(ordered_list_marker(&chars("1. ")), None);
    assert_eq!(ordered_list_marker(&chars("a. x")), None);
    assert_eq!(ordered_list_marker(&chars(". x")), None);
}

#[test]
fn model_output_layout() {
    assert_eq!(model_line_layout(false, "   ", 80), lines(&[""]));
    assert_eq!(model_line_layout(false, "## Title", 80), lines(&["", "Title"]));
    assert_eq!(model_line_layout(false, "```rust", 80), lines(&["```rust"]));
    assert_eq!(model_line_layout(false, "- item", 80), lines(&["  - item"]));
    assert_eq!(model_line_layout(false, "3. step", 80), lines(&["  3. step"]));
    assert_eq!(model_line_layout(true, "* item", 80), lines(&[&format!("  {ANSI_GREEN}-{ANSI_RESET} item")]));
    assert_eq!(model_line_layout(false, " plain text ", 80), lines(&["  plain text"]));
}
