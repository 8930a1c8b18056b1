use aperture::model::{vendor, Host, Session, SessionStatus};
use aperture::passive::{adapt, apply, first_tool_use, infer_codex_host, safe_name, RecordPayload, TranscriptRecord};
use aperture::state::Store;
use chrono::Utc;

fn text(s: &str) -> Option<String> {
    Some(s.to_string())
}

fn session<'a>(store: &'a Store, id: &str) -> &'a Session {
    store.session(&id.to_string()).unwrap()
}

fn cc_record(kind: &str, session_id: &str, ts: &str) -> TranscriptRecord {
    TranscriptRecord {
        kind: text(kind),
        session_id: text(session_id),
        timestamp: text(ts),
        ..Default::default()
    }
}

fn codex(kind: &str, subtype: &str, ts: &str) -> TranscriptRecord {
    TranscriptRecord {
        kind: text(kind),
        timestamp: text(ts),
        payload: RecordPayload { kind: text(subtype), ..Default::default() },
        ..Default::default()
    }
}

fn feed(store: &mut Store, provider: &str, r: &TranscriptRecord, id: &mut Option<String>, host: &mut Option<Host>) {
    let o = adapt(provider, r, id, host).unwrap();
    apply(store, provider, "fixture", o, true);
}

#[test]
fn questions_unknown_events_children_and_old_events() {
    let ts = Utc::now().to_rfc3339();
    let mut id = Some("s".to_string());
    let mut host = None;
    let mut store = Store::new();
    let mut question = cc_record("assistant", "s", &ts);
    question.tool_use = Some(text("AskUserQuestion"));
    feed(&mut store, "claude_code", &question, &mut id, &mut host);
    assert_eq!(session(&store, "claude_code:s").attention, "explicit_input");
    let mut child = question.clone();
    child.is_sidechain = Some(true);
    assert!(adapt("claude_code", &child, &mut id, &mut host).is_none());
    let unknown = codex("event_msg", "not_supported", &ts);
    assert!(adapt("codex", &unknown, &mut id, &mut host).is_none());
    let old = cc_record("user", "s", "2000-01-01T00:00:00Z");
    feed(&mut store, "claude_code", &old, &mut id, &mut host);
    assert_eq!(session(&store, "claude_code:s").status, SessionStatus::Blocked);
    let mut call = codex("response_item", "function_call", &ts);
    call.payload.name = text("request_user_input");
    assert_eq!(adapt("codex", &call, &mut id, &mut host).unwrap().attention, "explicit_input");
}

#[test]
fn provider_identity_and_lifecycle() {
    let mut store = Store::new();
    let mut id = Some("same".to_string());
    let mut host = None;
    let ts = Utc::now().to_rfc3339();
    let mut read = cc_record("assistant", "same", &ts);
    read.tool_use = Some(text("Read"));
    feed(&mut store, "claude_code", &read, &mut id, &mut host);
    feed(&mut store, "codex", &codex("event_msg", "task_started", &ts), &mut id, &mut host);
    assert_eq!(store.sessions().len(), 2);
    assert!(store
        .sessions()
        .iter()
        .all(|s| s.status == SessionStatus::Working && s.attention == "unknown"));
    feed(&mut store, "codex", &codex("event_msg", "task_complete", &ts), &mut id, &mut host);
    assert_eq!(session(&store, "codex:same").status, SessionStatus::Idle);
    assert_eq!(session(&store, "claude_code:same").status, SessionStatus::Working);
}

fn session_meta(ts: &str, id: &str, originator: Option<&str>, source: Option<&str>) -> TranscriptRecord {
    TranscriptRecord {
        kind: text("session_meta"),
        timestamp: text(ts),
        payload: RecordPayload {
            id: text(id),
            originator: originator.map(|s| s.to_string()),
            source: source.map(|s| s.to_string()),
            cwd: text("C:\\r"),
            ..Default::default()
        },
        ..Default::default()
    }
}

#[test]
fn codex_host_comes_from_self_reported_originator() {
    let ts = Utc::now().to_rfc3339();
    let mut store = Store::new();
    for r in [
        session_meta(&ts, "d1", Some("Codex Desktop"), None),
        session_meta(&ts, "v1", Some("codex_vscode"), Some("vscode")),
        session_meta(&ts, "c1", None, None),
    ] {
        let mut id = None;
        let mut host = None;
        let o = adapt("codex", &r, &mut id, &mut host).unwrap();
        apply(&mut store, "codex", "f", o, true);
    }
    assert_eq!(session(&store, "codex:d1").host, Host::DesktopApp);
    assert_eq!(session(&store, "codex:v1").host, Host::VsCode);
    assert_eq!(session(&store, "codex:c1").host, Host::Unknown);
}

#[test]
fn hosts_are_explicit_and_claude_attachment_metadata_survives() {
    assert_eq!(infer_codex_host(Some("unrecognized"), None), Host::Unknown);
    assert_eq!(infer_codex_host(Some("codex_exec"), None), Host::Headless);
    assert_eq!(infer_codex_host(Some("codex_cli_rs"), Some("cli")), Host::Terminal);
    for (entrypoint, expected) in [
        (format!("{}-desktop", vendor()), Host::DesktopApp),
        (format!("{}-vscode", vendor()), Host::VsCode),
        ("cli".to_string(), Host::Terminal),
        ("new-host".to_string(), Host::Unknown),
    ] {
        let mut id = None;
        let mut host = None;
        let attachment = TranscriptRecord {
            kind: text("attachment"),
            session_id: text("s"),
            entrypoint: text(&entrypoint),
            ..Default::default()
        };
        assert!(adapt("claude_code", &attachment, &mut id, &mut host).is_none());
        let prompt = cc_record("user", "s", &Utc::now().to_rfc3339());
        assert_eq!(adapt("claude_code", &prompt, &mut id, &mut host).unwrap().host, Some(expected));
    }
}

#[test]
fn permission_survives_incidental_passive_activity_but_completion_resolves_it() {
    let mut store = Store::new();
    let now = Utc::now();
    let mut waiting = Session::new("codex:s".to_string(), String::new(), now.timestamp_nanos_opt().unwrap() as i128);
    waiting.attention = "permission".to_string();
    waiting.status = SessionStatus::Blocked;
    store.insert_session(waiting);
    let mut id = Some("s".to_string());
    let mut host = None;
    let tool = codex(
        "response_item",
        "function_call_output",
        &(now + chrono::Duration::milliseconds(1)).to_rfc3339(),
    );
    feed(&mut store, "codex", &tool, &mut id, &mut host);
    assert_eq!(session(&store, "codex:s").status, SessionStatus::Blocked);
    let done = codex("event_msg", "task_complete", &(now + chrono::Duration::milliseconds(2)).to_rfc3339());
    feed(&mut store, "codex", &done, &mut id, &mut host);
    assert_eq!(session(&store, "codex:s").status, SessionStatus::Idle);
    assert_eq!(session(&store, "codex:s").attention, "unknown");
}

#[test]
fn safe_names_drop_control_characters_and_stay_short() {
    assert_eq!(safe_name(None), "unknown");
    assert_eq!(safe_name(Some("Re\u{7}ad\n")), "Read");
    let long = "x".repeat(100);
    assert_eq!(safe_name(Some(&long)).chars().count(), 80);
}

#[test]
fn codex_tool_calls_name_the_tool() {
    let ts = Utc::now().to_rfc3339();
    let mut id = Some("t".to_string());
    let mut host = None;
    let mut call = codex("response_item", "custom_tool_call", &ts);
    call.payload.name = text("apply_patch");
    let o = adapt("codex", &call, &mut id, &mut host).unwrap();
    assert_eq!(o.activity, "Tool: apply_patch");
    assert_eq!(o.status, SessionStatus::Working);
    let mut user_msg = codex("response_item", "message", &ts);
    user_msg.payload.role = text("user");
    assert!(adapt("codex", &user_msg, &mut id, &mut host).is_none());
}

#[test]
fn a_record_without_a_known_session_or_time_observes_nothing() {
    let mut id = None;
    let mut host = None;
    let no_id = codex("event_msg", "task_started", &Utc::now().to_rfc3339());
    assert!(adapt("codex", &no_id, &mut id, &mut host).is_none());
    let mut id = Some("s".to_string());
    let bad_time = cc_record("user", "s", "yesterday");
    assert!(adapt("claude_code", &bad_time, &mut id, &mut host).is_none());
}

#[test]
fn an_appended_fresh_record_is_live_and_history_is_not() {
    let ts = Utc::now().to_rfc3339();
    let mut store = Store::new();
    let mut id = None;
    let mut host = None;
    let first = adapt("claude_code", &cc_record("user", "a", &ts), &mut id, &mut host).unwrap();
    apply(&mut store, "claude_code", "/t/a.jsonl", first, true);
    let s = session(&store, "claude_code:a");
    assert!(s.live);
    assert_eq!(s.observation, "recent");
    assert_eq!(s.transcript_path.as_deref(), Some("/t/a.jsonl"));
    let mut id = None;
    let second = adapt("claude_code", &cc_record("user", "b", &ts), &mut id, &mut host).unwrap();
    apply(&mut store, "claude_code", "/t/b.jsonl", second, false);
    let s = session(&store, "claude_code:b");
    assert!(!s.live);
    assert_eq!(s.observation, "history_only");
}

#[test]
fn timestamps_keep_their_nanoseconds() {
    let mut id = Some("s".to_string());
    let mut host = None;
    let r = cc_record("user", "s", "2026-01-02T03:04:05.123456789Z");
    let o = adapt("claude_code", &r, &mut id, &mut host).unwrap();
    let secs = chrono::DateTime::parse_from_rfc3339("2026-01-02T03:04:05Z").unwrap().timestamp() as i128;
    assert_eq!(o.at, secs * 1_000_000_000 + 123_456_789);
}

#[test]
fn an_event_a_fraction_of_a_millisecond_older_is_ignored() {
    let mut store = Store::new();
    let mut id = Some("s".to_string());
    let mut host = None;
    let later = cc_record("user", "s", "2026-01-02T03:04:05.000900Z");
    feed(&mut store, "claude_code", &later, &mut id, &mut host);
    assert_eq!(session(&store, "claude_code:s").status, SessionStatus::Working);
    let seen = session(&store, "claude_code:s").last_event_at;
    let mut earlier = cc_record("assistant", "s", "2026-01-02T03:04:05.000100Z");
    earlier.stop_reason = text("end_turn");
    feed(&mut store, "claude_code", &earlier, &mut id, &mut host);
    assert_eq!(session(&store, "claude_code:s").status, SessionStatus::Working);
    assert_eq!(session(&store, "claude_code:s").last_event_at, seen);
}

#[test]
fn the_first_tool_use_block_names_the_tool() {
    let blocks = vec![
        (text("text"), text("ignored")),
        (None, text("no type")),
        (text("tool_use"), text("Bash")),
        (text("tool_use"), text("Edit")),
    ];
    assert_eq!(first_tool_use(&blocks), Some(text("Bash")));
    assert_eq!(first_tool_use(&vec![(text("tool_use"), None)]), Some(None));
    assert_eq!(first_tool_use(&vec![(text("text"), text("x"))]), None);
    assert_eq!(first_tool_use(&Vec::new()), None);
}
