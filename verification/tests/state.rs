use aperture::hook_payload::HookPayload;
use aperture::model::{Session, SessionStatus};
use aperture::state::{Store, LIVE_STORE_IDLE_DAYS};

const DAY: i128 = 86_400_000_000_000;
const MINUTE: i128 = 60_000_000_000;

fn ev(id: &str, name: &str) -> HookPayload {
    HookPayload {
        session_id: id.to_string(),
        hook_event_name: name.to_string(),
        cwd: Some("/repo".to_string()),
        ..Default::default()
    }
}

fn max_idle() -> i128 {
    LIVE_STORE_IDLE_DAYS as i128 * DAY
}

fn session_last_seen(id: &str, at: i128) -> Session {
    Session::new(id.to_string(), "/repo".to_string(), at)
}

fn ids(st: &Store) -> Vec<String> {
    let mut v: Vec<String> = st.sessions().iter().map(|s| s.id.clone()).collect();
    v.sort();
    v
}

#[test]
fn prompt_then_permission_then_stop() {
    let mut st = Store::new();
    st.apply_hook(ev("s1", "SessionStart"));
    assert_eq!(st.snapshot().sessions[0].status, SessionStatus::Idle);

    st.apply_hook(ev("s1", "UserPromptSubmit"));
    assert_eq!(st.snapshot().sessions[0].status, SessionStatus::Working);

    let mut n = ev("s1", "Notification");
    n.notification_type = Some("permission_prompt".to_string());
    n.message = Some("Allow Edit?".to_string());
    st.apply_hook(n);
    let s = &st.snapshot().sessions[0];
    assert_eq!(s.status, SessionStatus::Blocked);
    assert_eq!(s.blocked_on.as_deref(), Some("Allow Edit?"));

    st.apply_hook(ev("s1", "Stop"));
    let s = &st.snapshot().sessions[0];
    assert_eq!(s.status, SessionStatus::Idle);
    assert_eq!(s.assistant_messages, 1);
}

#[test]
fn blocked_sorts_first() {
    let mut st = Store::new();
    st.apply_hook(ev("a", "SessionStart"));
    st.apply_hook(ev("b", "SessionStart"));
    st.apply_hook(ev("b", "UserPromptSubmit"));
    let mut n = ev("b", "Notification");
    n.notification_type = Some("permission_prompt".to_string());
    st.apply_hook(n);
    assert_eq!(st.snapshot().sessions[0].id, "b");
}

#[test]
fn restore_forces_live_false_and_downgrades_recent_to_stale() {
    let mut st = Store::new();
    let now = aperture::clock::now_instant();
    let mut recent = Session::new("claude_code:a".to_string(), "/repo".to_string(), now);
    recent.live = true;
    recent.observation = "recent".to_string();
    let mut history = Session::new("codex:b".to_string(), "/repo".to_string(), now);
    history.live = true;
    history.observation = "history_only".to_string();

    st.restore_summaries(vec![recent, history], aperture::clock::now_instant(), max_idle());

    let a = st.session(&"claude_code:a".to_string()).unwrap();
    assert!(!a.live);
    assert_eq!(a.observation, "stale");
    let b = st.session(&"codex:b".to_string()).unwrap();
    assert!(!b.live);
    assert_eq!(b.observation, "history_only");
}

#[test]
fn evict_idle_drops_sessions_past_the_cutoff_and_keeps_the_rest() {
    let now = aperture::clock::now_instant();
    let mut st = Store::new();
    for (id, idle_for) in [
        ("claude_code:ancient", 90 * DAY),
        ("claude_code:just_past", max_idle() + MINUTE),
        ("claude_code:just_inside", max_idle() - MINUTE),
        ("codex:fresh", 0),
    ] {
        st.insert_session(session_last_seen(id, now - idle_for));
    }

    let mut evicted = st.evict_idle(now, max_idle());
    evicted.sort();

    assert_eq!(evicted, ["claude_code:ancient", "claude_code:just_past"]);
    assert_eq!(ids(&st), ["claude_code:just_inside", "codex:fresh"]);
    assert_eq!(st.evicted_idle, 2, "the count the health row reports");
}

#[test]
fn a_session_observed_now_is_never_evicted() {
    let now = aperture::clock::now_instant();
    let mut st = Store::new();
    let mut live = session_last_seen("claude_code:live", now);
    live.live = true;
    live.observation = "recent".to_string();
    st.insert_session(live);

    assert!(st.evict_idle(now, max_idle()).is_empty());
    assert!(st.snapshot().sessions[0].live);
}

#[test]
fn the_live_store_stays_bounded_across_many_reconcile_cycles() {
    const CYCLES: i128 = 365;
    let start = aperture::clock::now_instant() - CYCLES * DAY;
    let mut st = Store::new();

    for cycle in 0..CYCLES {
        let now = start + cycle * DAY;
        st.insert_session(session_last_seen(&format!("claude_code:s{cycle}"), now));
        st.evict_idle(now, max_idle());
        assert!(
            st.sessions().len() <= LIVE_STORE_IDLE_DAYS as usize + 1,
            "cycle {cycle}: {} sessions resident",
            st.sessions().len()
        );
    }

    assert_eq!(st.evicted_idle as i128, CYCLES - LIVE_STORE_IDLE_DAYS as i128 - 1);
    assert!(
        (st.sessions().len() as i128) < CYCLES,
        "the store must not be proportional to total sessions observed"
    );
}

#[test]
fn restore_admits_only_sessions_inside_the_idle_window() {
    let now = aperture::clock::now_instant();
    let mut st = Store::new();
    let old = session_last_seen("claude_code:old", now - 60 * DAY);
    let recent = session_last_seen("codex:recent", now - DAY);

    st.restore_summaries(vec![old, recent], now, max_idle());

    assert_eq!(st.sessions().len(), 1);
    assert!(st.session(&"codex:recent".to_string()).is_some());
    // A row skipped at startup never entered the live view: it is counted
    // apart from the sessions that left it.
    assert_eq!(st.idle_not_restored, 1, "the skipped row is reported, not hidden");
    assert_eq!(st.evicted_idle, 0);
}

#[test]
fn a_snapshot_downgrades_old_recent_observations_to_stale() {
    let now = aperture::clock::now_instant();
    let mut st = Store::new();
    let mut s = session_last_seen("claude_code:x", now - 61_000_000_000);
    s.live = true;
    s.observation = "recent".to_string();
    st.insert_session(s);
    let snap = st.snapshot_at(now);
    assert_eq!(snap.sessions[0].observation, "stale");
    assert!(!snap.sessions[0].live);
    // The stored session itself is untouched.
    assert_eq!(st.session(&"claude_code:x".to_string()).unwrap().observation, "recent");
}

#[test]
fn a_snapshot_orders_by_recency_then_status() {
    let mut st = Store::new();
    let mut a = session_last_seen("a", 1_000);
    a.status = SessionStatus::Working;
    let mut b = session_last_seen("b", 1_000);
    b.status = SessionStatus::Blocked;
    let c = session_last_seen("c", 2_000);
    st.insert_session(a);
    st.insert_session(b);
    st.insert_session(c);
    let order: Vec<String> = st.snapshot_at(2_000).sessions.iter().map(|s| s.id.clone()).collect();
    assert_eq!(order, ["c", "b", "a"]);
}

#[test]
fn removing_a_session_bumps_the_revision() {
    let mut st = Store::new();
    st.insert_session(session_last_seen("a", 0));
    st.remove(&"a".to_string());
    st.remove(&"missing".to_string());
    assert!(st.sessions().is_empty());
    assert_eq!(st.revision, 2);
}

#[test]
fn a_stop_counts_on_a_session_whose_prompt_counter_is_full() {
    let mut st = Store::new();
    let mut s = session_last_seen("s1", 1_000);
    s.user_messages = u32::MAX;
    s.assistant_messages = 4;
    st.insert_session(s);
    st.apply_hook_at(ev("s1", "Stop"), 2_000);
    let s = st.session(&"s1".to_string()).unwrap();
    assert_eq!(s.status, SessionStatus::Idle);
    assert_eq!(s.assistant_messages, 5);
    assert_eq!(s.user_messages, u32::MAX);
    assert_eq!(s.last_event_at, 2_000);
    assert!(s.live);
}
