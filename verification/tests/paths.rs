use aperture::paths::{descends_into, is_transcript_path};

#[test]
fn only_jsonl_files_are_transcripts() {
    assert!(is_transcript_path("/a/b/session.jsonl"));
    assert!(!is_transcript_path("/a/b/notes.txt"));
    assert!(!is_transcript_path("/a/b/jsonl"));
    assert!(!is_transcript_path("/a/b/session.jsonl.tmp"));
}

#[test]
fn discovery_skips_subagent_folders() {
    assert!(!descends_into("subagents"));
    assert!(descends_into("project"));
    assert!(descends_into("subagents2"));
}
