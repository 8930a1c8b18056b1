use aperture::db::CursorRecord;
use aperture::model::Host;
use aperture::passive::TranscriptRecord;
use aperture::state::Store;
use aperture::tail::{finish_poll, frame_lines, provider_health, Cursor, Frame, LineRead, Observer, MAX_LINE};
use chrono::Utc;

fn user_line(id: &str) -> TranscriptRecord {
    TranscriptRecord {
        kind: Some("user".to_string()),
        session_id: Some(id.to_string()),
        timestamp: Some(Utc::now().to_rfc3339()),
        ..Default::default()
    }
}

#[test]
fn watch_roots_returns_configured_provider_directories() {
    let cc_dir = "/tmp/aperture-watch-cc".to_string();
    let codex_dir = "/tmp/aperture-watch-codex".to_string();
    let observer = Observer::new(cc_dir.clone(), codex_dir.clone());
    assert_eq!(observer.watch_roots(), vec![cc_dir, codex_dir]);
}

#[test]
fn files_belong_to_the_provider_whose_root_holds_them() {
    let observer = Observer::new("/data/cc".to_string(), "/data/codex".to_string());
    assert_eq!(observer.provider_for("/data/cc/p/s.jsonl").as_deref(), Some("claude_code"));
    assert_eq!(observer.provider_for("/data/codex/2026/s.jsonl").as_deref(), Some("codex"));
    assert_eq!(observer.provider_for("/data/ccx/s.jsonl"), None);
}

#[test]
fn only_complete_records_are_framed() {
    let frames = frame_lines(b"{\"a\":1}\n{\"b\":2}\n{\"partial\"");
    assert_eq!(frames.len(), 2);
    match &frames[0] {
        Frame::Line(b) => assert_eq!(b.as_slice(), b"{\"a\":1}\n"),
        Frame::Oversized(_) => panic!("a short record is kept"),
    }
    assert!(frame_lines(b"no newline yet").is_empty());
    assert!(frame_lines(b"").is_empty());
}

#[test]
fn oversized_records_are_framed_by_length_only() {
    let mut bytes = vec![b'x'; MAX_LINE as usize];
    bytes.push(b'\n');
    bytes.extend_from_slice(b"ok\n");
    let frames = frame_lines(&bytes);
    assert_eq!(frames.len(), 2);
    match &frames[0] {
        Frame::Oversized(n) => assert_eq!(*n, MAX_LINE + 1),
        Frame::Line(_) => panic!("an oversized record is not kept"),
    }
}

#[test]
fn cursor_export_then_restore_round_trips_and_resumes_tailing() {
    let mut first = Observer::new("/root/cc".to_string(), "/root/codex".to_string());
    let mut store = Store::new();
    let path = "/root/cc/p/s.jsonl".to_string();
    let offset = first.begin_read(&path, 0, Some(7));
    assert_eq!(offset, 0);
    first.ingest(&mut store, "claude_code", &path, vec![LineRead { len: 40, record: Some(user_line("resume")) }], aperture::clock::now_instant());
    assert_eq!(store.sessions().len(), 1);
    let exported = first.export_cursors();
    assert_eq!(exported.len(), 1);
    assert_eq!(exported[0].provider, "claude_code");
    assert_eq!(exported[0].offset, 40);
    assert_eq!(exported[0].session_id.as_deref(), Some("resume"));

    let mut second = Observer::new("/root/cc".to_string(), "/root/codex".to_string());
    second.restore_cursors(exported.clone());
    assert_eq!(second.export_cursors(), exported);
    // The file has not grown: reading resumes at the saved offset.
    assert_eq!(second.begin_read(&path, 40, Some(7)), 40);
}

#[test]
fn a_shrunk_or_replaced_file_is_read_again_from_the_start() {
    let mut o = Observer::new("/c".to_string(), "/x".to_string());
    let path = "/c/s.jsonl".to_string();
    o.restore_cursors(vec![CursorRecord {
        path: path.clone(),
        provider: "claude_code".to_string(),
        offset: 100,
        initial_len: 100,
        malformed: 3,
        session_id: Some("s".to_string()),
        host: Some("terminal".to_string()),
        created_ns: Some(5),
    }]);
    assert_eq!(o.cursor(&path).unwrap().host, Some(Host::Terminal));
    assert_eq!(o.begin_read(&path, 50, Some(5)), 0);
    let c: &Cursor = o.cursor(&path).unwrap();
    assert_eq!(c.malformed, 0);
    assert_eq!(c.id, None);
    assert_eq!(c.initial_len, 50);
    o.restore_cursors(vec![CursorRecord { path: path.clone(), offset: 100, created_ns: Some(5), ..Default::default() }]);
    assert_eq!(o.begin_read(&path, 200, Some(6)), 0, "a new creation time means a new file");
}

#[test]
fn skipped_records_are_counted_and_passed_over() {
    let mut o = Observer::new("/c".to_string(), "/x".to_string());
    let mut store = Store::new();
    let path = "/c/s.jsonl".to_string();
    o.begin_read(&path, 0, None);
    let skipped = o.ingest(
        &mut store,
        "claude_code",
        &path,
        vec![LineRead { len: 4, record: None }, LineRead { len: 10, record: Some(user_line("t")) }],
        aperture::clock::now_instant(),
    );
    assert_eq!(skipped, 1);
    let c = o.cursor(&path).unwrap();
    assert_eq!(c.offset, 14);
    assert_eq!(c.malformed, 1);
    assert_eq!(store.sessions().len(), 1);
    assert!(store.sessions()[0].live, "a record appended past the initial length is live");
}

#[test]
fn provider_health_summarizes_a_poll() {
    let mut store = Store::new();
    let h = provider_health(&store, &"codex".to_string(), &"/x".to_string(), 0, 0, 0);
    assert_eq!(h.state, "no_sessions");
    assert_eq!(h.detail, "0 file read errors; 0 skipped records.");
    assert_eq!(h.last_event_at, None);
    let mut s = aperture::model::Session::new("codex:a".to_string(), String::new(), 5);
    s.provider = "codex".to_string();
    store.insert_session(s);
    let h = provider_health(&store, &"codex".to_string(), &"/x".to_string(), 2, 1, 0);
    assert_eq!(h.state, "degraded");
    assert_eq!(h.last_event_at, Some(5));
    let h = provider_health(&store, &"codex".to_string(), &"/x".to_string(), 2, 0, 0);
    assert_eq!(h.state, "watching");
    finish_poll(&mut store, vec![h], 0);
    assert_eq!(store.revision, 1);
    assert_eq!(store.integrations.len(), 1);
    assert!(store.integrations[0].detail.contains("not observed; permission coverage unknown"));
    assert!(store.integrations[0].detail.ends_with(" 0 file read errors; 0 skipped records."));
}

#[test]
fn reading_an_unchanged_file_again_adds_nothing() {
    let mut o = Observer::new("/c".to_string(), "/x".to_string());
    let mut store = Store::new();
    let path = "/c/p/s.jsonl".to_string();
    assert_eq!(o.begin_read(&path, 0, Some(1)), 0);
    o.ingest(&mut store, "claude_code", &path, vec![LineRead { len: 40, record: Some(user_line("again")) }], 1_000);
    let before = store.snapshot();
    // The file now holds the 40 bytes read and a partial record of 5.
    assert_eq!(o.begin_read(&path, 45, Some(1)), 40);
    assert!(frame_lines(b"{\"ty").is_empty());
    assert_eq!(o.ingest(&mut store, "claude_code", &path, Vec::new(), 2_000), 0);
    assert_eq!(o.cursor(&path).unwrap().offset, 40);
    assert_eq!(store.snapshot().sessions.len(), before.sessions.len());
    assert_eq!(store.snapshot().sessions[0].last_event_at, before.sessions[0].last_event_at);
    assert_eq!(store.snapshot().revision, before.revision);
}

#[test]
fn restoring_and_exporting_gives_back_the_same_records() {
    let rec = |p: &str, provider: &str, off: u64| CursorRecord {
        path: p.to_string(),
        provider: provider.to_string(),
        offset: off,
        initial_len: off,
        malformed: 0,
        session_id: Some("s".to_string()),
        host: Some("vs_code".to_string()),
        created_ns: Some(3),
    };
    let records = vec![rec("/c/a.jsonl", "claude_code", 10), rec("/x/b.jsonl", "codex", 20), rec("/elsewhere/c.jsonl", "", 30)];
    let mut o = Observer::new("/c".to_string(), "/x".to_string());
    o.restore_cursors(records.clone());
    let mut back = o.export_cursors();
    back.sort_by(|a, b| a.path.cmp(&b.path));
    let mut want = records;
    want.sort_by(|a, b| a.path.cmp(&b.path));
    assert_eq!(back, want);
}
