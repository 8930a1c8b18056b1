use aperture::hook_bridge::{
    apply, collect_record, config_command, drain_at, events, is_supported, owned_name, spool_name, valid_id,
    BridgeError, Event, HookInput, SpoolRead,
};
use aperture::model::{Session, SessionStatus};
use aperture::state::Store;

fn event(provider: &str, name: &str, tool: &str) -> Event {
    Event {
        version: 1,
        provider: provider.to_string(),
        session_id: "same".to_string(),
        event: name.to_string(),
        at: aperture::clock::now_instant(),
        tool: Some(tool.to_string()),
        tool_use_id: Some(tool.to_string()),
    }
}

fn session<'a>(store: &'a Store, id: &str) -> &'a Session {
    store.session(&id.to_string()).unwrap()
}

#[test]
fn attention_is_provider_qualified_and_unrelated_tool_does_not_clear_it() {
    let mut store = Store::new();
    for provider in ["claude_code", "codex"] {
        apply(&mut store, &event(provider, "PermissionRequest", "Bash"));
    }
    apply(&mut store, &event("codex", "PostToolUse", "Read"));
    assert_eq!(session(&store, "codex:same").attention, "permission");
    apply(&mut store, &event("codex", "PostToolUse", "Bash"));
    assert_eq!(session(&store, "codex:same").status, SessionStatus::Working);
    assert_eq!(session(&store, "claude_code:same").status, SessionStatus::Blocked);
    apply(&mut store, &event("claude_code", "Stop", ""));
    assert_eq!(session(&store, "claude_code:same").blocked_on, None);
}

#[test]
fn config_is_metadata_only_and_rejects_unsafe_paths() {
    let (command, hooks) = config_command("codex", "C:/Program Files/Aperture/aperture-hook.exe").unwrap();
    assert!(hooks.iter().any(|e| e == "PermissionRequest"));
    assert!(!hooks.iter().any(|e| e == "Notification"));
    assert_eq!(command, "\"C:/Program Files/Aperture/aperture-hook.exe\" collect codex");
    assert!(config_command("codex", "C:/bad$path/helper.exe").is_err());
    assert!(config_command("unknown", "/helper").is_err());
}

#[test]
fn missing_ids_and_same_name_concurrent_results_do_not_resolve_permission() {
    let mut store = Store::new();
    let mut permission = event("codex", "PermissionRequest", "Bash");
    permission.tool_use_id = None;
    apply(&mut store, &permission);
    apply(&mut store, &event("codex", "PostToolUse", "Bash"));
    assert_eq!(session(&store, "codex:same").status, SessionStatus::Blocked);
    let permission = event("codex", "PermissionRequest", "Bash");
    apply(&mut store, &permission);
    let mut unrelated = event("codex", "PostToolUse", "Bash");
    unrelated.tool_use_id = Some("different-call".to_string());
    apply(&mut store, &unrelated);
    assert_eq!(session(&store, "codex:same").status, SessionStatus::Blocked);
}

#[test]
fn concurrent_permissions_require_all_ids_and_errors_need_attention() {
    let mut store = Store::new();
    apply(&mut store, &event("codex", "PermissionRequest", "A"));
    apply(&mut store, &event("codex", "PermissionRequest", "B"));
    apply(&mut store, &event("codex", "PostToolUse", "B"));
    assert_eq!(session(&store, "codex:same").attention, "permission");
    apply(&mut store, &event("codex", "PostToolUse", "A"));
    assert_eq!(session(&store, "codex:same").status, SessionStatus::Working);
    apply(&mut store, &event("claude_code", "StopFailure", ""));
    assert_eq!(session(&store, "claude_code:same").attention, "error");
}

fn input(session_id: &str, name: &str) -> HookInput {
    HookInput {
        session_id: Some(session_id.to_string()),
        hook_event_name: Some(name.to_string()),
        ..Default::default()
    }
}

#[test]
fn the_collector_keeps_only_allowlisted_metadata() {
    let mut i = input("same", "PermissionRequest");
    i.tool_name = Some("Ba\u{1b}sh".to_string());
    i.tool_use_id = Some("call-1".to_string());
    let e = collect_record("codex", &i, 42).unwrap().unwrap();
    assert_eq!(e.version, 1);
    assert_eq!(e.provider, "codex");
    assert_eq!(e.session_id, "same");
    assert_eq!(e.event, "PermissionRequest");
    assert_eq!(e.at, 42);
    assert_eq!(e.tool.as_deref(), Some("Bash"));
    assert_eq!(e.tool_use_id.as_deref(), Some("call-1"));
}

#[test]
fn the_collector_ignores_subagent_hooks() {
    let mut i = input("same", "Stop");
    i.agent_id = true;
    assert_eq!(collect_record("claude_code", &i, 0).unwrap().is_none(), true);
    let mut i = input("same", "Stop");
    i.transcript_path = Some("C:\\Users\\u\\.tool\\projects\\p\\subagents\\a.jsonl".to_string());
    assert!(collect_record("claude_code", &i, 0).unwrap().is_none());
    let mut i = input("same", "Stop");
    i.is_sidechain = Some(true);
    assert!(collect_record("claude_code", &i, 0).unwrap().is_none());
}

#[test]
fn the_collector_refuses_bad_input() {
    assert_eq!(
        collect_record("other", &input("same", "Stop"), 0).unwrap_err(),
        BridgeError::UnknownProvider
    );
    assert_eq!(
        collect_record("codex", &input("", "Stop"), 0).unwrap_err(),
        BridgeError::InvalidSessionId
    );
    assert_eq!(
        collect_record("codex", &HookInput::default(), 0).unwrap_err(),
        BridgeError::InvalidSessionId
    );
    assert_eq!(
        collect_record("codex", &input("same", "StopFailure"), 0).unwrap_err(),
        BridgeError::UnsupportedEvent
    );
    let mut i = input("same", "PreToolUse");
    i.tool_use_id = Some(String::new());
    assert_eq!(collect_record("codex", &i, 0).unwrap().unwrap().tool_use_id, None);
}

#[test]
fn spool_names_are_owned_and_foreign_names_are_not() {
    let name = spool_name(1_700_000_000_000_000_000, 4242);
    assert_eq!(name, "aperture-v1-1700000000000000000-4242.json");
    assert!(owned_name(&name));
    assert!(!owned_name(&spool_name(-5, 1)));
    assert!(!owned_name("unrelated.json"));
    assert!(!owned_name("aperture-v1-1-1.tmp"));
    assert!(!owned_name("aperture-v1--1.json"));
    assert!(!owned_name("aperture-v1-1x-1.json"));
    assert!(owned_name("aperture-v1-1-1.json"));
}

#[test]
fn draining_counts_refused_and_unreadable_records() {
    let now = aperture::clock::now_instant();
    let mut store = Store::new();
    let mut future = event("codex", "PermissionRequest", "Bash");
    future.at = now + 3_600_000_000_000;
    let mut invalid = event("codex", "PermissionRequest", "Bash");
    invalid.session_id.clear();
    let mut stale = event("codex", "PermissionRequest", "Bash");
    stale.at = now - 86_400_000_000_000;
    let records = vec![
        SpoolRead::Record(future),
        SpoolRead::Unreadable,
        SpoolRead::Unreadable,
        SpoolRead::Record(invalid),
        SpoolRead::Record(stale),
    ];
    assert_eq!(drain_at(&mut store, records, now), 5);
    assert!(store.sessions().is_empty());
    let ok = event("codex", "PermissionRequest", "Bash");
    assert_eq!(drain_at(&mut store, vec![SpoolRead::Record(ok)], aperture::clock::now_instant()), 0);
    assert_eq!(store.sessions().len(), 1);
}

#[test]
fn each_provider_records_its_own_events() {
    let cc = events("claude_code").unwrap();
    assert_eq!(cc.len(), 9);
    assert!(cc.iter().any(|e| e == "StopFailure"));
    let codex = events("codex").unwrap();
    assert_eq!(codex.len(), 8);
    assert!(codex.iter().any(|e| e == "Interrupt"));
    assert_eq!(events("other").unwrap_err(), BridgeError::UnknownProvider);
    assert!(is_supported("codex", "Interrupt"));
    assert!(!is_supported("claude_code", "Interrupt"));
}

#[test]
fn ids_must_be_short_printable_and_present() {
    assert!(valid_id("abc"));
    assert!(!valid_id(""));
    assert!(!valid_id("a\nb"));
    assert!(valid_id(&"x".repeat(256)));
    assert!(!valid_id(&"x".repeat(257)));
    assert!(!valid_id(&"é".repeat(129)));
}

#[test]
fn a_spool_name_past_the_nanosecond_range_uses_zero() {
    assert_eq!(spool_name(i64::MAX as i128 + 1, 7), "aperture-v1-0-7.json");
    assert_eq!(spool_name(-5, 1), "aperture-v1--5-1.json");
}
