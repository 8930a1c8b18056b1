use aperture::transcript::{summarize, MessageContent, TranscriptLine, Usage};

fn line(kind: &str, ts: &str) -> TranscriptLine {
    TranscriptLine {
        kind: Some(kind.to_string()),
        session_id: None,
        cwd: None,
        git_branch: None,
        timestamp: Some(ts.to_string()),
        summary: None,
        content: MessageContent::Other,
        usage: None,
    }
}

#[test]
fn summarizes_minimal_transcript() {
    let mut first = line("user", "2026-09-04T10:00:00Z");
    first.session_id = Some("sess-1".to_string());
    first.cwd = Some("/r".to_string());
    first.git_branch = Some("main".to_string());
    first.content = MessageContent::Text;
    let mut reply = line("assistant", "2026-09-04T10:00:05Z");
    reply.content = MessageContent::Blocks(vec![Some("text".to_string())]);
    reply.usage = Some(Usage { input_tokens: Some(10), output_tokens: Some(5), ..Default::default() });
    let mut result = line("user", "2026-09-04T10:00:06Z");
    result.content = MessageContent::Blocks(vec![Some("tool_result".to_string())]);
    let s = summarize("/tmp/aperture-test/sess-1.jsonl", &vec![first, reply, result]).unwrap();
    assert_eq!(s.session_id, "sess-1");
    assert_eq!(s.cwd, "/r");
    assert_eq!(s.user_messages, 1);
    assert_eq!(s.assistant_messages, 1);
    assert_eq!(s.input_tokens, 10);
    assert_eq!(s.output_tokens, 5);
    assert_eq!(s.git_branch.as_deref(), Some("main"));
    assert_eq!(s.last_at - s.first_at, 6_000_000_000);
}

#[test]
fn the_file_name_is_the_session_id_of_last_resort() {
    let s = summarize("/p/abc-123.jsonl", &vec![line("user", "2026-09-04T10:00:00Z")]).unwrap();
    assert_eq!(s.session_id, "abc-123");
    assert_eq!(s.cwd, "");
}

#[test]
fn a_transcript_without_a_timestamp_has_no_summary() {
    let mut l = line("user", "not a time");
    l.session_id = Some("s".to_string());
    assert!(summarize("/p/s.jsonl", &vec![l]).is_none());
}

#[test]
fn cache_tokens_count_as_input_and_summaries_title_the_session() {
    let mut a = line("assistant", "2026-09-04T10:00:00Z");
    a.usage = Some(Usage {
        input_tokens: Some(1),
        cache_read_input_tokens: Some(2),
        cache_creation_input_tokens: Some(3),
        output_tokens: None,
    });
    let mut t = line("summary", "2026-09-04T10:00:01Z");
    t.summary = Some("Fix the build".to_string());
    let s = summarize("/p/s.jsonl", &vec![a, t]).unwrap();
    assert_eq!(s.input_tokens, 6);
    assert_eq!(s.output_tokens, 0);
    assert_eq!(s.title.as_deref(), Some("Fix the build"));
}

#[test]
fn transcripts_live_in_the_provider_projects_folder() {
    let d = aperture::transcript::projects_dir_in("/home/u");
    assert_eq!(d, format!("/home/u/.{}/projects", aperture::model::vendor()));
}
