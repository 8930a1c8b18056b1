use aperture::hook_payload::{shorten, HookPayload, JsonField, ToolInput};

fn tool_input(file_path: JsonField) -> ToolInput {
    ToolInput {
        file_path,
        path: JsonField::Absent,
        command: JsonField::Absent,
        pattern: JsonField::Absent,
        description: JsonField::Absent,
    }
}

#[test]
fn parses_pre_tool_use() {
    let p = HookPayload {
        session_id: "abc".to_string(),
        hook_event_name: "PreToolUse".to_string(),
        cwd: Some("/x".to_string()),
        transcript_path: Some("/t.jsonl".to_string()),
        tool_name: Some("Edit".to_string()),
        tool_input: Some(tool_input(JsonField::Text("src/app.ts".to_string()))),
        extra: vec![("some_new_field".to_string(), "1".to_string())],
        ..Default::default()
    };
    assert_eq!(p.describe_tool().as_deref(), Some("Edit src/app.ts"));
    let extra = p.extra.iter().find(|(k, _)| k == "some_new_field").map(|(_, v)| v.as_str());
    assert_eq!(extra, Some("1"));
}

#[test]
fn describe_tool_falls_back_to_the_name() {
    let mut p = HookPayload { tool_name: Some("Bash".to_string()), ..Default::default() };
    assert_eq!(p.describe_tool().as_deref(), Some("Bash"));
    p.tool_input = Some(tool_input(JsonField::Other));
    assert_eq!(p.describe_tool().as_deref(), Some("Bash"));
    p.tool_name = None;
    assert_eq!(p.describe_tool(), None);
}

#[test]
fn describe_tool_takes_the_first_present_member() {
    let mut i = tool_input(JsonField::Absent);
    i.command = JsonField::Text("npm test\nnpm run lint".to_string());
    i.description = JsonField::Text("ignored".to_string());
    let p = HookPayload { tool_name: Some("Bash".to_string()), tool_input: Some(i), ..Default::default() };
    assert_eq!(p.describe_tool().as_deref(), Some("Bash npm test"));
}

#[test]
fn shorten_keeps_the_first_line_and_cuts_with_an_ellipsis() {
    assert_eq!(shorten("abc", 3), "abc");
    assert_eq!(shorten("abcd", 3), "ab…");
    assert_eq!(shorten("one\r\ntwo", 10), "one");
    assert_eq!(shorten("", 5), "");
}
