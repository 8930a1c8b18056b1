use aperture::commands::{find_session, finish_reconcile, plural, storage_health, transcript_dir};
use aperture::state::{Store, LIVE_STORE_IDLE_DAYS};
use aperture::model::{vendor, Session};

#[test]
fn find_session_looks_up_by_id_not_native_id() {
    let mut s = Session::new("claude_code:abc".to_string(), "/repo".to_string(), 0);
    s.native_id = "abc".to_string();
    let sessions = vec![s];
    assert!(find_session(&sessions, "claude_code:abc").is_ok());
    assert!(find_session(&sessions, "abc").is_err());
}

#[test]
fn transcript_dir_is_the_parent_of_the_file() {
    let mut s = Session::new("id".to_string(), "/repo".to_string(), 0);
    s.transcript_path = Some(format!("/home/user/.{}/projects/p/sess.jsonl", vendor()));
    assert_eq!(
        std::path::PathBuf::from(transcript_dir(&s).unwrap()),
        std::path::PathBuf::from(format!("/home/user/.{}/projects/p", vendor()))
    );
}

#[test]
fn transcript_dir_is_none_when_unrecorded() {
    let s = Session::new("id".to_string(), "/repo".to_string(), 0);
    assert_eq!(transcript_dir(&s), None);
}

#[test]
fn an_unknown_session_is_reported_by_name() {
    let sessions: Vec<Session> = Vec::new();
    assert_eq!(find_session(&sessions, "x").unwrap_err(), "unknown session");
}

#[test]
fn plural_picks_the_singular_only_for_one() {
    assert_eq!(plural(1, "row is", "rows are"), "row is");
    assert_eq!(plural(0, "row is", "rows are"), "rows are");
    assert_eq!(plural(2, "row is", "rows are"), "rows are");
}

#[test]
fn storage_health_is_ok_when_durable_and_writing() {
    let h = storage_health(true, true, 0, 0, 0, "/data".to_string());
    assert_eq!(h.provider, "storage");
    assert_eq!(h.state, "ok");
    assert_eq!(h.root, "/data");
    assert_eq!(h.files, 0);
    assert_eq!(h.last_event_at, None);
    assert_eq!(h.detail, "SQLite persistence writing normally.");
}

#[test]
fn storage_health_reports_an_in_memory_fallback() {
    let h = storage_health(false, true, 0, 0, 0, String::new());
    assert_eq!(h.state, "degraded");
    assert_eq!(
        h.detail,
        "in-memory only: database unavailable, history will not survive a restart."
    );
}

#[test]
fn storage_health_reports_a_failed_write() {
    let h = storage_health(true, false, 0, 0, 0, String::new());
    assert_eq!(h.state, "degraded");
    assert_eq!(
        h.detail,
        "SQLite write failed this cycle; running in-memory only until it recovers."
    );
}

#[test]
fn storage_health_names_unreadable_rows_and_keeps_them() {
    let h = storage_health(true, true, 1, 0, 0, String::new());
    assert_eq!(h.state, "degraded");
    assert_eq!(
        h.detail,
        "1 stored session summary could not be read at startup and is missing from history; the row is still in the database."
    );
    let h = storage_health(true, true, 3, 0, 0, String::new());
    assert!(h.detail.starts_with("3 stored session summaries could not be read at startup and are missing"));
    assert!(h.detail.contains("the rows are still in the database."));
}

#[test]
fn storage_health_states_idle_absences_without_degrading() {
    let h = storage_health(true, true, 0, 2, 0, String::new());
    assert_eq!(h.state, "ok", "a working policy is not a degradation");
    assert_eq!(
        h.detail,
        "SQLite persistence writing normally. 2 sessions had no observation in 14 days and left the live view; the summaries are still in the database."
    );
    let h = storage_health(true, true, 0, 0, 1, String::new());
    assert_eq!(h.state, "ok");
    assert!(h.detail.contains("1 stored summary was not shown at startup, after 14 days with no observation; still in the database."));
    assert!(!h.detail.contains("left the live view"));
}

#[test]
fn storage_health_lists_every_clause_in_order() {
    let h = storage_health(false, false, 2, 1, 4, String::new());
    assert_eq!(
        h.detail,
        "in-memory only: database unavailable, history will not survive a restart. \
2 stored session summaries could not be read at startup and are missing from history; the rows are still in the database. \
1 session had no observation in 14 days and left the live view; the summary is still in the database. \
4 stored summaries were not shown at startup, after 14 days with no observation; still in the database."
    );
}

#[test]
fn a_reconcile_evicts_idle_sessions_then_reports_storage() {
    let day: i128 = 86_400_000_000_000;
    let now: i128 = 100 * day;
    let mut st = Store::new();
    st.insert_session(Session::new("old".to_string(), "/r".to_string(), now - 30 * day));
    st.insert_session(Session::new("new".to_string(), "/r".to_string(), now - day));
    let gone = finish_reconcile(&mut st, true, true, 0, "/data".to_string(), now, LIVE_STORE_IDLE_DAYS as i128 * day);
    assert_eq!(gone, vec!["old".to_string()]);
    assert_eq!(st.sessions().len(), 1);
    assert_eq!(st.sessions()[0].id, "new");
    assert_eq!(st.evicted_idle, 1);
    assert_eq!(st.integrations.len(), 1);
    let h = &st.integrations[0];
    assert_eq!(h.provider, "storage");
    assert_eq!(h.state, "ok");
    assert_eq!(h.root, "/data");
    assert!(h.detail.starts_with("SQLite persistence writing normally. 1 session had no observation in"));
}
