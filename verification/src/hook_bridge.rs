//! Optional, fail-open observation bridge. Provider settings are never
//! written. Only allowlisted metadata reaches the Aperture-owned spool;
//! prompts and tool arguments are discarded.
use vstd::prelude::*;

use crate::clock::{elapsed_seconds, seconds_between};
use crate::model::{new_session_view, opt_view, Session, SessionStatus, SessionView};
use crate::state::{Store, StoreView};
use crate::text::{
    any_control, chars_of, contains_seq, decimal, fmt_i64, fmt_u64, has_control, is_ascii_digit_spec, is_control,
    is_control_spec, lemma_decimal_digits, replace_all, replace_str, signed_decimal, str_contains, str_eq,
    string_from_chars,
};
use crate::passive::{take_at_most, visible_chars};

verus! {

/// Why the bridge refused an input.
#[derive(Debug, Clone, Copy, PartialEq, Eq, Structural)]
pub enum BridgeError {
    /// The provider is neither `claude_code` nor `codex`.
    UnknownProvider,
    /// The helper's path is not UTF-8.
    NonUtf8Path,
    /// The helper's path holds shell metacharacters.
    UnsafePath,
    /// The hook input is larger than the bridge reads.
    OversizedInput,
    /// The hook input is not JSON.
    MalformedInput,
    /// The session id is empty, too long, or holds control characters.
    InvalidSessionId,
    /// The hook event is not one this provider's bridge records.
    UnsupportedEvent,
    /// The spool already holds as many records as it accepts.
    SpoolFull,
}

impl BridgeError {
    /// The text of the message the helper reports for this error.
    pub open spec fn message_spec(&self) -> Seq<char> {
        match self {
            BridgeError::UnknownProvider => "expected claude_code or codex"@,
            BridgeError::NonUtf8Path => "non-UTF8 executable path"@,
            BridgeError::UnsafePath => "executable path contains shell metacharacters; move the helper to a simple path"@,
            BridgeError::OversizedInput => "oversized hook input"@,
            BridgeError::MalformedInput => "hook input is not JSON"@,
            BridgeError::InvalidSessionId => "invalid session ID"@,
            BridgeError::UnsupportedEvent => "unsupported hook event"@,
            BridgeError::SpoolFull => "hook spool full"@,
        }
    }

    /// The message the helper reports for this error.
    pub fn message(&self) -> (r: String)
        ensures
            r@ == self.message_spec(),
    {
        match self {
            BridgeError::UnknownProvider => String::from_str("expected claude_code or codex"),
            BridgeError::NonUtf8Path => String::from_str("non-UTF8 executable path"),
            BridgeError::UnsafePath => String::from_str(
                "executable path contains shell metacharacters; move the helper to a simple path",
            ),
            BridgeError::OversizedInput => String::from_str("oversized hook input"),
            BridgeError::MalformedInput => String::from_str("hook input is not JSON"),
            BridgeError::InvalidSessionId => String::from_str("invalid session ID"),
            BridgeError::UnsupportedEvent => String::from_str("unsupported hook event"),
            BridgeError::SpoolFull => String::from_str("hook spool full"),
        }
    }
}

/// One spool record: what a hook helper keeps of a hook invocation.
/// `at` is nanoseconds since the Unix epoch.
#[derive(Debug, Clone)]
pub struct Event {
    pub version: u8,
    pub provider: String,
    pub session_id: String,
    pub event: String,
    pub at: i128,
    pub tool: Option<String>,
    pub tool_use_id: Option<String>,
}

/// The lifecycle events every provider's bridge records.
pub open spec fn common_events() -> Seq<Seq<char>> {
    seq![
        "SessionStart"@,
        "UserPromptSubmit"@,
        "PreToolUse"@,
        "PermissionRequest"@,
        "PostToolUse"@,
        "Stop"@,
        "SessionEnd"@,
    ]
}

/// The events the bridge records for `provider`, or `None` for an unknown one.
pub open spec fn provider_events(provider: Seq<char>) -> Option<Seq<Seq<char>>> {
    if provider == "claude_code"@ {
        Some(common_events() + seq!["PostToolUseFailure"@, "StopFailure"@])
    } else if provider == "codex"@ {
        Some(common_events().push("Interrupt"@))
    } else {
        None
    }
}

pub open spec fn supports(provider: Seq<char>, event: Seq<char>) -> bool {
    match provider_events(provider) {
        Some(l) => l.contains(event),
        None => false,
    }
}

pub open spec fn string_seq(v: Seq<String>) -> Seq<Seq<char>> {
    v.map_values(|s: String| s@)
}

/// The hook events Aperture's helper records for `provider`.
pub fn events(provider: &str) -> (r: Result<Vec<String>, BridgeError>)
    ensures
        match provider_events(provider@) {
            Some(l) => r matches Ok(v) && string_seq(v@) == l,
            None => r == Err::<Vec<String>, BridgeError>(BridgeError::UnknownProvider),
        },
{
    let mut v: Vec<String> = Vec::new();
    v.push(String::from_str("SessionStart"));
    v.push(String::from_str("UserPromptSubmit"));
    v.push(String::from_str("PreToolUse"));
    v.push(String::from_str("PermissionRequest"));
    v.push(String::from_str("PostToolUse"));
    v.push(String::from_str("Stop"));
    v.push(String::from_str("SessionEnd"));
    if str_eq(provider, "claude_code") {
        v.push(String::from_str("PostToolUseFailure"));
        v.push(String::from_str("StopFailure"));
        assert(string_seq(v@) =~= common_events() + seq!["PostToolUseFailure"@, "StopFailure"@]);
        Ok(v)
    } else if str_eq(provider, "codex") {
        v.push(String::from_str("Interrupt"));
        assert(string_seq(v@) =~= common_events().push("Interrupt"@));
        Ok(v)
    } else {
        Err(BridgeError::UnknownProvider)
    }
}

/// Whether `event` is among the events recorded for `provider`.
pub fn is_supported(provider: &str, event: &str) -> (r: bool)
    ensures
        r == supports(provider@, event@),
{
    match events(provider) {
        Err(_) => false,
        Ok(list) => {
            let mut i: usize = 0;
            while i < list.len()
                invariant
                    i <= list@.len(),
                    provider_events(provider@) == Some(string_seq(list@)),
                    forall|j: int| 0 <= j < i ==> list@[j]@ != event@,
                decreases list@.len() - i,
            {
                if str_eq(list[i].as_str(), event) {
                    assert(string_seq(list@)[i as int] == event@);
                    return true;
                }
                i += 1;
            }
            proof {
                if string_seq(list@).contains(event@) {
                    let j = choose|j: int| 0 <= j < string_seq(list@).len() && string_seq(list@)[j] == event@;
                    assert(list@[j]@ == event@);
                }
            }
            false
        },
    }
}

/// A session or tool-call id the bridge accepts: non-empty, at most 256
/// bytes of UTF-8 (as `str::len` counts them), and free of control characters.
pub open spec fn valid_id_spec(id: Seq<char>) -> bool {
    id.len() > 0 && (vstd::utf8::encode_utf8(id).len() as usize) <= 256 && !has_control(id)
}

/// Whether the bridge accepts `id` as a session or tool-call id.
pub fn valid_id(id: &str) -> (r: bool)
    ensures
        r == valid_id_spec(id@),
{
    if id.is_empty() || id.len() > 256 {
        return false;
    }
    let v = chars_of(id);
    !any_control(v.as_slice())
}

pub open spec fn all_digits(s: Seq<char>) -> bool {
    forall|i: int| 0 <= i < s.len() ==> is_ascii_digit_spec(#[trigger] s[i])
}

/// The name of a ready spool record Aperture owns:
/// `aperture-v1-<digits>-<digits>.json`.
pub open spec fn owned_name_spec(name: Seq<char>) -> bool {
    &&& name.len() >= 17
    &&& name.take(12) == "aperture-v1-"@
    &&& name.skip(name.len() - 5) == ".json"@
    &&& exists|k: int|
        #![trigger name[k]]
        12 < k < name.len() - 6 && name[k] == '-' && all_digits(name.subrange(12, k)) && all_digits(
            name.subrange(k + 1, name.len() - 5),
        )
}

/// Whether `name` names a ready spool record Aperture wrote; other files in
/// the spool directory are never touched.
pub fn owned_name(name: &str) -> (r: bool)
    ensures
        r == owned_name_spec(name@),
{
    let v = chars_of(name);
    let prefix = chars_of("aperture-v1-");
    let suffix = chars_of(".json");
    proof {
        reveal_strlit("aperture-v1-");
        reveal_strlit(".json");
    }
    if v.len() < 17 {
        return false;
    }
    let mut i: usize = 0;
    while i < 12
        invariant
            i <= 12,
            v@.len() >= 17,
            v@ == name@,
            prefix@ == "aperture-v1-"@,
            prefix@.len() == 12,
            forall|j: int| 0 <= j < i ==> v@[j] == prefix@[j],
        decreases 12 - i,
    {
        if v[i] != prefix[i] {
            assert(v@.take(12)[i as int] != "aperture-v1-"@[i as int]);
            return false;
        }
        i += 1;
    }
    assert(v@.take(12) =~= "aperture-v1-"@);
    let n = v.len();
    let mut j: usize = 0;
    while j < 5
        invariant
            j <= 5,
            n == v@.len(),
            n >= 17,
            v@ == name@,
            suffix@ == ".json"@,
            suffix@.len() == 5,
            forall|t: int| 0 <= t < j ==> v@[n - 5 + t] == suffix@[t],
        decreases 5 - j,
    {
        if v[n - 5 + j] != suffix[j] {
            assert(v@.skip(n - 5)[j as int] != ".json"@[j as int]);
            return false;
        }
        j += 1;
    }
    assert(v@.skip(n - 5) =~= ".json"@);
    // The digits before the first '-' of the middle part.
    let mut k: usize = 12;
    while k < n - 5 && '0' <= v[k] && v[k] <= '9'
        invariant
            12 <= k <= n - 5,
            n == v@.len(),
            n >= 17,
            forall|t: int| 12 <= t < k ==> is_ascii_digit_spec(#[trigger] v@[t]),
        decreases n - 5 - k,
    {
        k += 1;
    }
    if k == 12 || k >= n - 6 || v[k] != '-' {
        proof {
            if owned_name_spec(name@) {
                let k2 = choose|k2: int|
                    #![trigger name@[k2]]
                    12 < k2 < name@.len() - 6 && name@[k2] == '-' && all_digits(
                        name@.subrange(12, k2),
                    ) && all_digits(name@.subrange(k2 + 1, name@.len() - 5));
                if k2 < k {
                    assert(is_ascii_digit_spec(v@[k2]));
                } else if k2 > k {
                    assert(name@.subrange(12, k2)[k - 12] == v@[k as int]);
                    if k == 12 {
                        assert(name@.subrange(12, k2)[0] == v@[12]);
                    }
                } else {
                    if k == 12 {
                        assert(false);
                    }
                }
            }
        }
        return false;
    }
    let mut m: usize = k + 1;
    while m < n - 5
        invariant
            k + 1 <= m <= n - 5,
            12 < k < n - 6,
            n == v@.len(),
            v@ == name@,
            v@[k as int] == '-',
            forall|t: int| 12 <= t < k ==> is_ascii_digit_spec(#[trigger] v@[t]),
            forall|t: int| k + 1 <= t < m ==> is_ascii_digit_spec(#[trigger] v@[t]),
        decreases n - 5 - m,
    {
        if !('0' <= v[m] && v[m] <= '9') {
            proof {
                if owned_name_spec(name@) {
                    let k2 = choose|k2: int|
                        #![trigger name@[k2]]
                        12 < k2 < name@.len() - 6 && name@[k2] == '-' && all_digits(
                            name@.subrange(12, k2),
                        ) && all_digits(name@.subrange(k2 + 1, name@.len() - 5));
                    if k2 < k {
                        assert(is_ascii_digit_spec(v@[k2]));
                    } else if k2 > k {
                        assert(name@.subrange(12, k2)[k - 12] == v@[k as int]);
                        assert(is_ascii_digit_spec(name@.subrange(12, k2)[k - 12]));
                    } else {
                        assert(name@.subrange(k2 + 1, name@.len() - 5)[m - k - 1] == v@[m as int]);
                    }
                }
            }
            return false;
        }
        m += 1;
    }
    proof {
        assert(all_digits(name@.subrange(12, k as int)));
        assert(all_digits(name@.subrange(k + 1, name@.len() - 5)));
        assert(name@[k as int] == '-');
    }
    true
}

/// The store key of a spool record: the provider-qualified session id.
pub open spec fn spool_key(e: Event) -> Seq<char> {
    e.provider@ + ":"@ + e.session_id@
}

/// A record the reducer acts on: the current version, a valid id, not from
/// the future, and an event its provider's bridge records.
pub open spec fn spool_admissible(e: Event, now: i128) -> bool {
    e.version == 1 && valid_id_spec(e.session_id@) && e.at <= now && supports(
        e.provider@,
        e.event@,
    )
}

/// Tools that ask the human a question.
pub open spec fn is_question_tool(t: Option<Seq<char>>) -> bool {
    t == Some("AskUserQuestion"@) || t == Some("request_user_input"@) || t == Some(
        "functions.request_user_input"@,
    ) || t == Some("functions.request_user_input_async"@)
}

/// The latest hook activity per provider after noting `e`.
pub open spec fn activity_noted(a: Map<Seq<char>, i128>, e: Event) -> Map<Seq<char>, i128> {
    a.insert(
        e.provider@,
        if a.dom().contains(e.provider@) {
            if a[e.provider@] >= e.at {
                a[e.provider@]
            } else {
                e.at
            }
        } else {
            e.at
        },
    )
}

/// The session a record is folded into: the resident one, or a new one for
/// this provider first seen at the record's time.
pub open spec fn spool_base(st: StoreView, e: Event) -> SessionView {
    let k = spool_key(e);
    if st.sessions.dom().contains(k) {
        st.sessions[k]
    } else {
        SessionView {
            provider: e.provider@,
            native_id: e.session_id@,
            ..new_session_view(k, Seq::<char>::empty(), e.at)
        }
    }
}

/// The session observed at the record's time: live when the record is at
/// most a minute old.
pub open spec fn spool_seen(s: SessionView, e: Event, now: i128) -> SessionView {
    let age = seconds_between(e.at, now);
    let live = 0 <= age && age <= 60;
    SessionView {
        last_event_at: e.at,
        live: live,
        observation: if live {
            "recent"@
        } else {
            "history_only"@
        },
        ..s
    }
}

/// The status and activity a settling event leaves.
pub open spec fn settled_status(event: Seq<char>) -> (SessionStatus, Seq<char>) {
    if event == "Stop"@ {
        (SessionStatus::Idle, "Turn complete"@)
    } else if event == "Interrupt"@ {
        (SessionStatus::Idle, "Turn interrupted"@)
    } else if event == "SessionEnd"@ {
        (SessionStatus::Ended, "Session ended"@)
    } else if event == "SessionStart"@ {
        (SessionStatus::Unknown, "Session started"@)
    } else if event == "StopFailure"@ {
        (SessionStatus::Errored, "Turn failed"@)
    } else if event == "PostToolUseFailure"@ {
        (SessionStatus::Working, "Tool failed; session may continue"@)
    } else if event == "PostToolUse"@ {
        (SessionStatus::Working, "Tool returned"@)
    } else {
        (SessionStatus::Working, "Working"@)
    }
}

/// A session after an event that settles any outstanding request.
pub open spec fn settled(s: SessionView, e: Event) -> SessionView {
    let (status, activity) = settled_status(e.event@);
    SessionView {
        status: status,
        attention: if status == SessionStatus::Errored {
            "error"@
        } else {
            "unknown"@
        },
        blocked_on: None,
        activity: Some(activity),
        ..s
    }
}

/// A session waiting on a permission or a question.
pub open spec fn waiting(s: SessionView, e: Event, attention: Seq<char>, activity: Seq<char>) -> SessionView {
    SessionView {
        status: SessionStatus::Blocked,
        attention: attention,
        blocked_on: opt_view(e.tool),
        activity: Some(activity),
        ..s
    }
}

/// The tool-call id a request is tracked under (empty when it has none).
pub open spec fn tracked_id(e: Event) -> Seq<char> {
    match e.tool_use_id {
        Some(t) => t@,
        None => Seq::<char>::empty(),
    }
}

pub open spec fn pending_with(st: StoreView, k: Seq<char>, id: Seq<char>) -> Map<Seq<char>, Set<Seq<char>>> {
    st.hook_pending.insert(
        k,
        if st.hook_pending.dom().contains(k) {
            st.hook_pending[k].insert(id)
        } else {
            Set::<Seq<char>>::empty().insert(id)
        },
    )
}

/// Whether a tool result answers an outstanding request: results only
/// matter while the session is blocked, and only a result whose tool-call id
/// clears the last pending request resolves it.
pub open spec fn result_gated(s: SessionView, e: Event) -> bool {
    (e.event@ == "PostToolUse"@ || e.event@ == "PostToolUseFailure"@) && s.status
        == SessionStatus::Blocked
}

/// The store after the bridge reducer folds record `e` in at `now`.
pub open spec fn spool_result(st: StoreView, e: Event, now: i128) -> StoreView {
    let k = spool_key(e);
    if !spool_admissible(e, now) {
        st
    } else {
        let act = activity_noted(st.hook_activity, e);
        let base = spool_base(st, e);
        if e.at < base.last_event_at {
            StoreView { hook_activity: act, sessions: st.sessions.insert(k, base), ..st }
        } else {
            let s = spool_seen(base, e, now);
            if result_gated(s, e) && (e.tool_use_id is None || !st.hook_pending.dom().contains(k)) {
                StoreView { hook_activity: act, sessions: st.sessions.insert(k, s), ..st }
            } else if result_gated(s, e) && (!st.hook_pending[k].contains(tracked_id(e))
                || st.hook_pending[k].remove(tracked_id(e)) != Set::<Seq<char>>::empty()) {
                StoreView {
                    hook_activity: act,
                    hook_pending: st.hook_pending.insert(k, st.hook_pending[k].remove(tracked_id(e))),
                    sessions: st.sessions.insert(k, s),
                    ..st
                }
            } else if e.event@ == "PermissionRequest"@ {
                StoreView {
                    hook_activity: act,
                    hook_pending: pending_with(st, k, tracked_id(e)),
                    sessions: st.sessions.insert(
                        k,
                        waiting(s, e, "permission"@, "Permission requested; confirm in original app"@),
                    ),
                    ..st
                }
            } else if e.event@ == "PreToolUse"@ && is_question_tool(opt_view(e.tool)) {
                StoreView {
                    hook_activity: act,
                    hook_pending: pending_with(st, k, tracked_id(e)),
                    sessions: st.sessions.insert(
                        k,
                        waiting(s, e, "explicit_input"@, "Question requested"@),
                    ),
                    ..st
                }
            } else if e.event@ == "PreToolUse"@ && s.status == SessionStatus::Blocked {
                StoreView { hook_activity: act, sessions: st.sessions.insert(k, s), ..st }
            } else {
                StoreView {
                    hook_activity: act,
                    hook_pending: st.hook_pending.remove(k),
                    sessions: st.sessions.insert(k, settled(s, e)),
                    ..st
                }
            }
        }
    }
}

proof fn lemma_request_names_distinct()
    ensures
        "PreToolUse"@ != "PostToolUse"@,
        "PreToolUse"@ != "PostToolUseFailure"@,
        "PreToolUse"@ != "PermissionRequest"@,
        "PermissionRequest"@ != "PostToolUse"@,
        "PermissionRequest"@ != "PostToolUseFailure"@,
{
    reveal_strlit("PostToolUse");
    reveal_strlit("PostToolUseFailure");
    reveal_strlit("PermissionRequest");
    reveal_strlit("PreToolUse");
    assert("PreToolUse"@.len() == 10);
    assert("PostToolUse"@.len() == 11);
    assert("PostToolUseFailure"@.len() == 18);
    assert("PermissionRequest"@.len() == 17);
}

fn is_question(tool: &Option<String>) -> (r: bool)
    ensures
        r == is_question_tool(opt_view(*tool)),
{
    match tool {
        Some(t) => {
            let t = t.as_str();
            str_eq(t, "AskUserQuestion") || str_eq(t, "request_user_input") || str_eq(
                t,
                "functions.request_user_input",
            ) || str_eq(t, "functions.request_user_input_async")
        },
        None => false,
    }
}

fn settled_exec(ev: &str) -> (r: (SessionStatus, String))
    ensures
        r.0 == settled_status(ev@).0,
        r.1@ == settled_status(ev@).1,
{
    if str_eq(ev, "Stop") {
        (SessionStatus::Idle, String::from_str("Turn complete"))
    } else if str_eq(ev, "Interrupt") {
        (SessionStatus::Idle, String::from_str("Turn interrupted"))
    } else if str_eq(ev, "SessionEnd") {
        (SessionStatus::Ended, String::from_str("Session ended"))
    } else if str_eq(ev, "SessionStart") {
        (SessionStatus::Unknown, String::from_str("Session started"))
    } else if str_eq(ev, "StopFailure") {
        (SessionStatus::Errored, String::from_str("Turn failed"))
    } else if str_eq(ev, "PostToolUseFailure") {
        (SessionStatus::Working, String::from_str("Tool failed; session may continue"))
    } else if str_eq(ev, "PostToolUse") {
        (SessionStatus::Working, String::from_str("Tool returned"))
    } else {
        (SessionStatus::Working, String::from_str("Working"))
    }
}

/// Fold one spool record into the store at time `now`.
pub fn apply_at(store: &mut Store, e: &Event, now: i128)
    requires
        old(store).wf(),
    ensures
        final(store).wf(),
        final(store)@ == spool_result(old(store)@, *e, now),
{
    if e.version != 1 || !valid_id(e.session_id.as_str()) || e.at > now || !is_supported(
        e.provider.as_str(),
        e.event.as_str(),
    ) {
        return;
    }
    let key = e.provider.clone().concat(":").concat(e.session_id.as_str());
    assert(key@ == spool_key(*e));
    proof {
        reveal_strlit("PostToolUse");
        reveal_strlit("PostToolUseFailure");
        reveal_strlit("PermissionRequest");
        lemma_request_names_distinct();
    }
    let ghost st0 = store@;
    store.touch_activity(&e.provider, e.at);
    let mut s = match store.session(&key) {
        Some(x) => x.duplicate(),
        None => {
            let mut n = Session::new(key.clone(), String::new(), e.at);
            n.provider = e.provider.clone();
            n.native_id = e.session_id.clone();
            n
        },
    };
    assert(s@ == spool_base(st0, *e));
    if e.at < s.last_event_at {
        store.insert_session(s);
        return;
    }
    s.last_event_at = e.at;
    let age = elapsed_seconds(e.at, now);
    s.live = 0 <= age && age <= 60;
    s.observation = if s.live {
        String::from_str("recent")
    } else {
        String::from_str("history_only")
    };
    assert(s@ == spool_seen(spool_base(st0, *e), *e, now));
    let ev = e.event.as_str();
    if (str_eq(ev, "PostToolUse") || str_eq(ev, "PostToolUseFailure")) && s.status
        == SessionStatus::Blocked {
        match &e.tool_use_id {
            None => {
                store.insert_session(s);
                return;
            },
            Some(id) => {
                if store.pending_index(&key).is_none() {
                    store.insert_session(s);
                    return;
                }
                let (removed, empty) = store.pending_resolve(&key, id);
                if !removed || !empty {
                    store.insert_session(s);
                    return;
                }
            },
        }
    }
    let tid: String = match &e.tool_use_id {
        Some(t) => t.clone(),
        None => String::new(),
    };
    if str_eq(ev, "PermissionRequest") {
        store.pending_add(&key, tid);
        s.status = SessionStatus::Blocked;
        s.attention = String::from_str("permission");
        s.blocked_on = crate::model::clone_opt(&e.tool);
        s.activity = Some(String::from_str("Permission requested; confirm in original app"));
        store.insert_session(s);
        assert(store@ == spool_result(st0, *e, now));
    } else if str_eq(ev, "PreToolUse") && is_question(&e.tool) {
        store.pending_add(&key, tid);
        s.status = SessionStatus::Blocked;
        s.attention = String::from_str("explicit_input");
        s.blocked_on = crate::model::clone_opt(&e.tool);
        s.activity = Some(String::from_str("Question requested"));
        store.insert_session(s);
        assert(store@ == spool_result(st0, *e, now));
    } else if str_eq(ev, "PreToolUse") && s.status == SessionStatus::Blocked {
        store.insert_session(s);
        assert(!result_gated(s@, *e));
        assert(store@ == spool_result(st0, *e, now));
    } else {
        let ghost p_before = store@.hook_pending;
        store.pending_clear(&key);
        proof {
            assert(forall|x: Seq<char>| x != key@ ==> (#[trigger] p_before.dom().contains(x)
                <==> st0.hook_pending.dom().contains(x)));
            assert(store@.hook_pending =~= st0.hook_pending.remove(spool_key(*e)));
        }
        let (status, activity) = settled_exec(ev);
        s.status = status;
        s.attention = if status == SessionStatus::Errored {
            String::from_str("error")
        } else {
            String::from_str("unknown")
        };
        s.blocked_on = None;
        s.activity = Some(activity);
        store.insert_session(s);
        assert(store@ == spool_result(st0, *e, now));
    }
}

/// Fold one spool record into the store at the current time.
pub fn apply(store: &mut Store, e: &Event)
    requires
        old(store).wf(),
    ensures
        final(store).wf(),
        exists|now: i128| final(store)@ == #[trigger] spool_result(old(store)@, *e, now),
{
    let now = crate::clock::now_instant();
    apply_at(store, e, now);
}

/// The largest hook input the helper reads, in bytes.
pub const MAX_INPUT: u64 = 1048576;

/// The largest spool record the reducer reads, in bytes.
pub const MAX_RECORD: u64 = 4096;

/// How many ready records the spool holds before the helper stops adding.
pub const SPOOL_CAPACITY: usize = 4096;

/// How many records one poll drains at most.
pub const DRAIN_BATCH: usize = 512;

/// The members of a hook's JSON input the helper reads. Text members are
/// `Some` only when they are JSON strings; `agent_id` and
/// `agent_transcript_path` say whether those members are present and not
/// null.
#[derive(Debug, Clone, Default)]
pub struct HookInput {
    pub agent_id: bool,
    pub agent_transcript_path: bool,
    pub is_sidechain: Option<bool>,
    pub transcript_path: Option<String>,
    pub session_id: Option<String>,
    pub hook_event_name: Option<String>,
    pub tool_name: Option<String>,
    pub tool_use_id: Option<String>,
}

/// A hook fired inside a subagent. Providers may report the parent's
/// session id for these, so they must never finish or block the parent.
pub open spec fn from_child(i: HookInput) -> bool {
    i.agent_id || i.agent_transcript_path || i.is_sidechain == Some(true) || match i.transcript_path {
        Some(p) => contains_seq(replace_all(p@, "\\"@, "/"@), "/subagents/"@),
        None => false,
    }
}

/// A tool name as the spool keeps it: control characters removed, at most
/// 80 characters.
pub open spec fn kept_tool(t: Seq<char>) -> Seq<char> {
    take_at_most(visible_chars(t), 80)
}

/// What the helper records of hook input `i` from `provider` at time `at`:
/// an error, nothing (a subagent's hook), or the record.
pub open spec fn collected(provider: Seq<char>, i: HookInput, at: i128, r: Result<Option<Event>, BridgeError>) -> bool {
    if provider_events(provider) is None {
        r == Err::<Option<Event>, BridgeError>(BridgeError::UnknownProvider)
    } else if from_child(i) {
        r == Ok::<Option<Event>, BridgeError>(None)
    } else if !(i.session_id matches Some(s) && valid_id_spec(s@)) {
        r == Err::<Option<Event>, BridgeError>(BridgeError::InvalidSessionId)
    } else if !(i.hook_event_name matches Some(n) && supports(provider, n@)) {
        r == Err::<Option<Event>, BridgeError>(BridgeError::UnsupportedEvent)
    } else {
        r matches Ok(Some(e)) && e.version == 1 && e.provider@ == provider && e.session_id@
            == i.session_id->0@ && e.event@ == i.hook_event_name->0@ && e.at == at && opt_view(e.tool)
            == (match i.tool_name {
            Some(t) => Some(kept_tool(t@)),
            None => None,
        }) && opt_view(e.tool_use_id) == (match i.tool_use_id {
            Some(t) => if valid_id_spec(t@) {
                Some(t@)
            } else {
                None
            },
            None => None,
        })
    }
}

fn keep_tool(t: &str) -> (r: String)
    ensures
        r@ == kept_tool(t@),
{
    let src = chars_of(t);
    let mut out: Vec<char> = Vec::new();
    let mut i: usize = 0;
    while i < src.len()
        invariant
            i <= src@.len(),
            out@ == take_at_most(visible_chars(src@.take(i as int)), 80),
        decreases src@.len() - i,
    {
        let c = src[i];
        proof {
            assert(src@.take(i + 1).drop_last() =~= src@.take(i as int));
        }
        if !is_control(c) && out.len() < 80 {
            out.push(c);
        }
        i += 1;
        proof {
            let prev = visible_chars(src@.take(i - 1));
            if !is_control_spec(c) {
                if prev.len() < 80 {
                    assert(out@ =~= prev.push(c));
                } else {
                    assert(prev.push(c).take(80) =~= prev.take(80));
                }
            }
        }
    }
    proof {
        assert(src@.take(src@.len() as int) =~= src@);
    }
    string_from_chars(out.as_slice())
}

/// The spool record for hook input `i` from `provider`, made at time `at`:
/// `Ok(None)` for a subagent's hook, which is dropped.
pub fn collect_record(provider: &str, i: &HookInput, at: i128) -> (r: Result<Option<Event>, BridgeError>)
    ensures
        collected(provider@, *i, at, r),
{
    if events(provider).is_err() {
        return Err(BridgeError::UnknownProvider);
    }
    let child_path = match &i.transcript_path {
        Some(p) => {
            proof {
                reveal_strlit("\\");
            }
            let normal = replace_str(p.as_str(), "\\", "/");
            str_contains(normal.as_str(), "/subagents/")
        },
        None => false,
    };
    if i.agent_id || i.agent_transcript_path || i.is_sidechain == Some(true) || child_path {
        return Ok(None);
    }
    let id = match &i.session_id {
        Some(s) => if valid_id(s.as_str()) {
            s.clone()
        } else {
            return Err(BridgeError::InvalidSessionId);
        },
        None => return Err(BridgeError::InvalidSessionId),
    };
    let event = match &i.hook_event_name {
        Some(n) => if is_supported(provider, n.as_str()) {
            n.clone()
        } else {
            return Err(BridgeError::UnsupportedEvent);
        },
        None => return Err(BridgeError::UnsupportedEvent),
    };
    let tool = match &i.tool_name {
        Some(t) => Some(keep_tool(t.as_str())),
        None => None,
    };
    let tool_use_id = match &i.tool_use_id {
        Some(t) => if valid_id(t.as_str()) {
            Some(t.clone())
        } else {
            None
        },
        None => None,
    };
    Ok(Some(Event { version: 1, provider: String::from_str(provider), session_id: id, event, at, tool, tool_use_id }))
}

/// The name of a ready spool record: `aperture-v1-<nanos>-<pid>.json`.
/// No provider-controlled text is used in spool paths.
pub open spec fn spool_file_name(nanos: int, pid: nat) -> Seq<char> {
    "aperture-v1-"@ + signed_decimal(nanos) + "-"@ + decimal(pid) + ".json"@
}

/// An instant as chrono's `timestamp_nanos_opt` gives it, where it fits an
/// `i64`, and zero where it does not (`unwrap_or_default`).
pub open spec fn nanos_or_zero(at: i128) -> int {
    if i64::MIN <= at <= i64::MAX {
        at as int
    } else {
        0
    }
}

/// The name of the record a helper process `pid` publishes for an event at
/// `at`: named by the event's nanoseconds since the epoch, or zero where
/// they do not fit an `i64`.
pub fn spool_name(at: i128, pid: u32) -> (r: String)
    ensures
        r@ == spool_file_name(nanos_or_zero(at), pid as nat),
{
    let nanos: i64 = if i64::MIN as i128 <= at && at <= i64::MAX as i128 {
        at as i64
    } else {
        0
    };
    String::from_str("aperture-v1-").concat(fmt_i64(nanos).as_str()).concat("-").concat(
        fmt_u64(pid as u64).as_str(),
    ).concat(".json")
}

/// Every record the helper names at a time after the epoch is one the
/// reducer recognizes as its own.
pub proof fn spool_names_are_owned(nanos: int, pid: nat)
    requires
        nanos >= 0,
    ensures
        owned_name_spec(spool_file_name(nanos, pid)),
{
    reveal_strlit("aperture-v1-");
    reveal_strlit("-");
    reveal_strlit(".json");
    let a = decimal(nanos as nat);
    let b = decimal(pid);
    lemma_decimal_digits(nanos as nat);
    lemma_decimal_digits(pid);
    let name = spool_file_name(nanos, pid);
    assert(signed_decimal(nanos) == a);
    assert(name =~= "aperture-v1-"@ + a + "-"@ + b + ".json"@);
    let k: int = 12 + a.len() as int;
    assert(name.len() == 12 + a.len() + 1 + b.len() + 5);
    assert(name.take(12) =~= "aperture-v1-"@);
    assert(name.skip(name.len() - 5) =~= ".json"@);
    assert(name[k] == '-');
    assert(name.subrange(12, k) =~= a);
    assert(name.subrange(k + 1, name.len() - 5) =~= b);
}

/// Whether the reducer takes a drained record: the current version, a
/// valid session id, and written within the last day (not in the future).
pub open spec fn spool_accepts(e: Event, now: i128) -> bool {
    e.version == 1 && valid_id_spec(e.session_id@) && 0 <= seconds_between(e.at, now) && seconds_between(
        e.at,
        now,
    ) < 86400
}

/// One drained spool record, as the application read it.
#[derive(Debug, Clone)]
pub enum SpoolRead {
    /// A record that parsed.
    Record(Event),
    /// A record that was oversized or did not parse.
    Unreadable,
}

/// The store and the error count after draining `rs` at `now`.
pub open spec fn drained(st: StoreView, rs: Seq<SpoolRead>, now: i128) -> (StoreView, nat)
    decreases rs.len(),
{
    if rs.len() == 0 {
        (st, 0)
    } else {
        let prev = drained(st, rs.drop_last(), now);
        match rs.last() {
            SpoolRead::Unreadable => (prev.0, prev.1 + 1),
            SpoolRead::Record(e) => if spool_accepts(e, now) {
                (spool_result(prev.0, e, now), prev.1)
            } else {
                (prev.0, prev.1 + 1)
            },
        }
    }
}

/// Fold drained spool records into the store at `now`, in order. Returns
/// how many were unreadable or refused.
pub fn drain_at(store: &mut Store, records: Vec<SpoolRead>, now: i128) -> (errors: u64)
    requires
        old(store).wf(),
        records@.len() <= u64::MAX,
    ensures
        final(store).wf(),
        final(store)@ == drained(old(store)@, records@, now).0,
        errors == drained(old(store)@, records@, now).1,
{
    let ghost st0 = store@;
    let mut errors: u64 = 0;
    let mut i: usize = 0;
    while i < records.len()
        invariant
            i <= records@.len(),
            records@.len() <= u64::MAX,
            store.wf(),
            store@ == drained(st0, records@.take(i as int), now).0,
            errors == drained(st0, records@.take(i as int), now).1,
            errors <= i,
        decreases records@.len() - i,
    {
        proof {
            assert(records@.take(i + 1).drop_last() =~= records@.take(i as int));
            assert(records@.take(i + 1).last() == records@[i as int]);
        }
        match &records[i] {
            SpoolRead::Unreadable => {
                errors = errors + 1;
            },
            SpoolRead::Record(e) => {
                let age = elapsed_seconds(e.at, now);
                if e.version == 1 && valid_id(e.session_id.as_str()) && 0 <= age && age < 86400 {
                    apply_at(store, e, now);
                } else {
                    errors = errors + 1;
                }
            },
        }
        i += 1;
    }
    assert(records@.take(records@.len() as int) =~= records@);
    errors
}

/// A helper path is unsafe to embed in a command when it holds a control
/// character or a shell metacharacter.
pub open spec fn unsafe_char(c: char) -> bool {
    is_control_spec(c) || "\"'`$%&|<>^!"@.contains(c)
}

/// The command a provider's hook configuration runs: the helper's path
/// (with forward slashes), quoted, then `collect` and the provider.
pub open spec fn collect_command(provider: Seq<char>, path: Seq<char>) -> Seq<char> {
    "\""@ + replace_all(path, "\\"@, "/"@) + "\" collect "@ + provider
}

/// The hook configuration snippet for `provider` with the helper at `path`:
/// the command, and the events it is registered for. The path is checked
/// before the provider.
pub fn config_command(provider: &str, path: &str) -> (r: Result<(String, Vec<String>), BridgeError>)
    ensures
        (exists|i: int| 0 <= i < path@.len() && unsafe_char(#[trigger] path@[i])) ==> r
            == Err::<(String, Vec<String>), BridgeError>(BridgeError::UnsafePath),
        !(exists|i: int| 0 <= i < path@.len() && unsafe_char(#[trigger] path@[i])) ==> match provider_events(
            provider@,
        ) {
            None => r == Err::<(String, Vec<String>), BridgeError>(BridgeError::UnknownProvider),
            Some(l) => r matches Ok(x) && x.0@ == collect_command(provider@, path@) && string_seq(x.1@)
                == l,
        },
{
    let chars = chars_of(path);
    let meta = chars_of("\"'`$%&|<>^!");
    let mut i: usize = 0;
    while i < chars.len()
        invariant
            i <= chars@.len(),
            chars@ == path@,
            meta@ == "\"'`$%&|<>^!"@,
            forall|j: int| 0 <= j < i ==> !unsafe_char(#[trigger] path@[j]),
        decreases chars@.len() - i,
    {
        let c = chars[i];
        let mut hit = is_control(c);
        let mut k: usize = 0;
        while k < meta.len()
            invariant
                k <= meta@.len(),
                meta@ == "\"'`$%&|<>^!"@,
                hit == (is_control_spec(c) || exists|q: int| 0 <= q < k && meta@[q] == c),
            decreases meta@.len() - k,
        {
            if meta[k] == c {
                hit = true;
            }
            k += 1;
        }
        if hit {
            assert(unsafe_char(path@[i as int]));
            return Err(BridgeError::UnsafePath);
        }
        i += 1;
    }
    proof {
        reveal_strlit("\\");
    }
    let normal = replace_str(path, "\\", "/");
    let command = String::from_str("\"").concat(normal.as_str()).concat("\" collect ").concat(provider);
    match events(provider) {
        Err(e) => Err(e),
        Ok(list) => Ok((command, list)),
    }
}

/// Spool records are keyed by provider and session id together: two
/// providers' sessions with the same id never share an entry.
pub proof fn spool_keys_are_provider_qualified(e1: Event, e2: Event)
    requires
        e1.session_id@ == e2.session_id@,
        e1.provider@ != e2.provider@,
    ensures
        spool_key(e1) != spool_key(e2),
{
    let p1 = e1.provider@;
    let p2 = e2.provider@;
    let k1 = spool_key(e1);
    let k2 = spool_key(e2);
    if k1 == k2 {
        assert(k1.len() == p1.len() + ":"@.len() + e1.session_id@.len());
        assert(k2.len() == p2.len() + ":"@.len() + e2.session_id@.len());
        assert forall|i: int| 0 <= i < p1.len() implies p1[i] == p2[i] by {
            assert(k1[i] == p1[i]);
            assert(k2[i] == p2[i]);
        }
        assert(p1 =~= p2);
    }
}

/// A refused record (wrong version, invalid id, from the future, or an
/// event its provider's bridge does not record) leaves the store as it was.
pub proof fn refused_records_change_nothing(st: StoreView, e: Event, now: i128)
    requires
        !spool_admissible(e, now),
    ensures
        spool_result(st, e, now) == st,
{
}

/// A spool record touches only its own session and pending set.
pub proof fn spool_record_is_local(st: StoreView, e: Event, now: i128, k: Seq<char>)
    requires
        k != spool_key(e),
    ensures
        spool_result(st, e, now).sessions.dom().contains(k) == st.sessions.dom().contains(k),
        st.sessions.dom().contains(k) ==> spool_result(st, e, now).sessions[k] == st.sessions[k],
        spool_result(st, e, now).hook_pending.dom().contains(k) == st.hook_pending.dom().contains(k),
        st.hook_pending.dom().contains(k) ==> spool_result(st, e, now).hook_pending[k] == st.hook_pending[k],
{
}

/// A session's last observation time never moves backwards under spool
/// records, whatever order they arrive in.
pub proof fn spool_time_never_regresses(st: StoreView, e: Event, now: i128)
    requires
        st.sessions.dom().contains(spool_key(e)),
    ensures
        spool_result(st, e, now).sessions[spool_key(e)].last_event_at >= st.sessions[spool_key(
            e,
        )].last_event_at,
{
}

/// A tool result does not end a wait unless it clears the last pending
/// request: one without a tool-call id, one whose id is not pending, or one
/// that leaves other requests pending keeps the session blocked.
pub proof fn unresolved_results_keep_waits(st: StoreView, e: Event, now: i128)
    requires
        spool_admissible(e, now),
        st.sessions.dom().contains(spool_key(e)),
        st.sessions[spool_key(e)].status == SessionStatus::Blocked,
        e.at >= st.sessions[spool_key(e)].last_event_at,
        e.event@ == "PostToolUse"@ || e.event@ == "PostToolUseFailure"@,
        e.tool_use_id is None || !st.hook_pending.dom().contains(spool_key(e))
            || !st.hook_pending[spool_key(e)].contains(tracked_id(e))
            || st.hook_pending[spool_key(e)].remove(tracked_id(e)) != Set::<Seq<char>>::empty(),
    ensures
        spool_result(st, e, now).sessions[spool_key(e)].status == SessionStatus::Blocked,
        spool_result(st, e, now).sessions[spool_key(e)].attention == st.sessions[spool_key(e)].attention,
{
}

/// A permission request always leaves its session blocked on a permission,
/// with the request's tool-call id pending.
pub proof fn permission_requests_block(st: StoreView, e: Event, now: i128)
    requires
        spool_admissible(e, now),
        e.event@ == "PermissionRequest"@,
        st.sessions.dom().contains(spool_key(e)) ==> e.at >= st.sessions[spool_key(e)].last_event_at,
    ensures
        spool_result(st, e, now).sessions[spool_key(e)].status == SessionStatus::Blocked,
        spool_result(st, e, now).sessions[spool_key(e)].attention == "permission"@,
        spool_result(st, e, now).hook_pending[spool_key(e)].contains(tracked_id(e)),
{
    lemma_request_names_distinct();
}

/// The hook event names the reducer tells apart.
proof fn lemma_event_names_distinct()
    ensures
        "Stop"@ != "Interrupt"@,
        "Stop"@ != "SessionEnd"@,
        "Stop"@ != "SessionStart"@,
        "Stop"@ != "StopFailure"@,
        "Stop"@ != "PostToolUseFailure"@,
        "Stop"@ != "PostToolUse"@,
        "Stop"@ != "PermissionRequest"@,
        "Stop"@ != "PreToolUse"@,
        "Stop"@ != "UserPromptSubmit"@,
        "Interrupt"@ != "SessionEnd"@,
        "Interrupt"@ != "SessionStart"@,
        "Interrupt"@ != "StopFailure"@,
        "Interrupt"@ != "PostToolUseFailure"@,
        "Interrupt"@ != "PostToolUse"@,
        "Interrupt"@ != "PermissionRequest"@,
        "Interrupt"@ != "PreToolUse"@,
        "Interrupt"@ != "UserPromptSubmit"@,
        "SessionEnd"@ != "SessionStart"@,
        "SessionEnd"@ != "StopFailure"@,
        "SessionEnd"@ != "PostToolUseFailure"@,
        "SessionEnd"@ != "PostToolUse"@,
        "SessionEnd"@ != "PermissionRequest"@,
        "SessionEnd"@ != "PreToolUse"@,
        "SessionEnd"@ != "UserPromptSubmit"@,
        "SessionStart"@ != "StopFailure"@,
        "SessionStart"@ != "PostToolUseFailure"@,
        "SessionStart"@ != "PostToolUse"@,
        "SessionStart"@ != "PermissionRequest"@,
        "SessionStart"@ != "PreToolUse"@,
        "SessionStart"@ != "UserPromptSubmit"@,
        "StopFailure"@ != "PostToolUseFailure"@,
        "StopFailure"@ != "PostToolUse"@,
        "StopFailure"@ != "PermissionRequest"@,
        "StopFailure"@ != "PreToolUse"@,
        "StopFailure"@ != "UserPromptSubmit"@,
        "PostToolUseFailure"@ != "PostToolUse"@,
        "PostToolUseFailure"@ != "PermissionRequest"@,
        "PostToolUseFailure"@ != "PreToolUse"@,
        "PostToolUseFailure"@ != "UserPromptSubmit"@,
        "PostToolUse"@ != "PermissionRequest"@,
        "PostToolUse"@ != "PreToolUse"@,
        "PostToolUse"@ != "UserPromptSubmit"@,
        "PermissionRequest"@ != "PreToolUse"@,
        "PermissionRequest"@ != "UserPromptSubmit"@,
        "PreToolUse"@ != "UserPromptSubmit"@,
{
    reveal_strlit("Stop");
    reveal_strlit("Interrupt");
    reveal_strlit("SessionEnd");
    reveal_strlit("SessionStart");
    reveal_strlit("StopFailure");
    reveal_strlit("PostToolUseFailure");
    reveal_strlit("PostToolUse");
    reveal_strlit("PermissionRequest");
    reveal_strlit("PreToolUse");
    reveal_strlit("UserPromptSubmit");
    assert("Stop"@.len() != "Interrupt"@.len());
    assert("Stop"@.len() != "SessionEnd"@.len());
    assert("Stop"@.len() != "SessionStart"@.len());
    assert("Stop"@.len() != "StopFailure"@.len());
    assert("Stop"@.len() != "PostToolUseFailure"@.len());
    assert("Stop"@.len() != "PostToolUse"@.len());
    assert("Stop"@.len() != "PermissionRequest"@.len());
    assert("Stop"@.len() != "PreToolUse"@.len());
    assert("Stop"@.len() != "UserPromptSubmit"@.len());
    assert("Interrupt"@.len() != "SessionEnd"@.len());
    assert("Interrupt"@.len() != "SessionStart"@.len());
    assert("Interrupt"@.len() != "StopFailure"@.len());
    assert("Interrupt"@.len() != "PostToolUseFailure"@.len());
    assert("Interrupt"@.len() != "PostToolUse"@.len());
    assert("Interrupt"@.len() != "PermissionRequest"@.len());
    assert("Interrupt"@.len() != "PreToolUse"@.len());
    assert("Interrupt"@.len() != "UserPromptSubmit"@.len());
    assert("SessionEnd"@.len() != "SessionStart"@.len());
    assert("SessionEnd"@.len() != "StopFailure"@.len());
    assert("SessionEnd"@.len() != "PostToolUseFailure"@.len());
    assert("SessionEnd"@.len() != "PostToolUse"@.len());
    assert("SessionEnd"@.len() != "PermissionRequest"@.len());
    assert("SessionEnd"@[0] != "PreToolUse"@[0]);
    assert("SessionEnd"@.len() != "UserPromptSubmit"@.len());
    assert("SessionStart"@.len() != "StopFailure"@.len());
    assert("SessionStart"@.len() != "PostToolUseFailure"@.len());
    assert("SessionStart"@.len() != "PostToolUse"@.len());
    assert("SessionStart"@.len() != "PermissionRequest"@.len());
    assert("SessionStart"@.len() != "PreToolUse"@.len());
    assert("SessionStart"@.len() != "UserPromptSubmit"@.len());
    assert("StopFailure"@.len() != "PostToolUseFailure"@.len());
    assert("StopFailure"@[0] != "PostToolUse"@[0]);
    assert("StopFailure"@.len() != "PermissionRequest"@.len());
    assert("StopFailure"@.len() != "PreToolUse"@.len());
    assert("StopFailure"@.len() != "UserPromptSubmit"@.len());
    assert("PostToolUseFailure"@.len() != "PostToolUse"@.len());
    assert("PostToolUseFailure"@.len() != "PermissionRequest"@.len());
    assert("PostToolUseFailure"@.len() != "PreToolUse"@.len());
    assert("PostToolUseFailure"@.len() != "UserPromptSubmit"@.len());
    assert("PostToolUse"@.len() != "PermissionRequest"@.len());
    assert("PostToolUse"@.len() != "PreToolUse"@.len());
    assert("PostToolUse"@.len() != "UserPromptSubmit"@.len());
    assert("PermissionRequest"@.len() != "PreToolUse"@.len());
    assert("PermissionRequest"@.len() != "UserPromptSubmit"@.len());
    assert("PreToolUse"@.len() != "UserPromptSubmit"@.len());
}

/// What a spool record no older than what its session last saw does to the
/// session: it is last seen at the record's time; a finished turn (`Stop`)
/// or an interrupted one (`Interrupt`) leaves it idle, `SessionEnd` ended,
/// `StopFailure` errored, `SessionStart` in an unknown state, and a prompt
/// (`UserPromptSubmit`) working. Each of these ends any wait: nothing stays
/// pending and nothing is blocked on. A tool result on a session that is
/// not blocked means work.
pub proof fn spool_events_set_status(st: StoreView, e: Event, now: i128)
    requires
        spool_admissible(e, now),
        st.sessions.dom().contains(spool_key(e)) ==> e.at >= st.sessions[spool_key(e)].last_event_at,
    ensures
        ({
            let k = spool_key(e);
            let after = spool_result(st, e, now);
            let s = after.sessions[k];
            let ev = e.event@;
            let was_blocked = st.sessions.dom().contains(k) && st.sessions[k].status == SessionStatus::Blocked;
            let settles = ev == "Stop"@ || ev == "Interrupt"@ || ev == "SessionEnd"@ || ev == "StopFailure"@
                || ev == "SessionStart"@ || ev == "UserPromptSubmit"@;
            &&& after.sessions.dom().contains(k)
            &&& s.last_event_at == e.at
            &&& (settles ==> s.blocked_on is None && !after.hook_pending.dom().contains(k))
            &&& (ev == "Stop"@ ==> s.status == SessionStatus::Idle && s.activity == Some("Turn complete"@)
                && s.attention == "unknown"@)
            &&& (ev == "Interrupt"@ ==> s.status == SessionStatus::Idle && s.activity == Some(
                "Turn interrupted"@,
            ) && s.attention == "unknown"@)
            &&& (ev == "SessionEnd"@ ==> s.status == SessionStatus::Ended && s.activity == Some(
                "Session ended"@,
            ))
            &&& (ev == "StopFailure"@ ==> s.status == SessionStatus::Errored && s.attention == "error"@
                && s.activity == Some("Turn failed"@))
            &&& (ev == "SessionStart"@ ==> s.status == SessionStatus::Unknown)
            &&& (ev == "UserPromptSubmit"@ ==> s.status == SessionStatus::Working)
            &&& (ev == "PostToolUse"@ && !was_blocked ==> s.status == SessionStatus::Working && s.activity
                == Some("Tool returned"@))
            &&& (ev == "PostToolUseFailure"@ && !was_blocked ==> s.status == SessionStatus::Working)
        }),
{
    lemma_event_names_distinct();
    reveal_strlit("error");
    reveal_strlit("unknown");
    assert("error"@.len() != "unknown"@.len());
}


/// Draining refuses, and counts as an error, a record written a day or more
/// before `now`, one dated a second or more after it, one of another
/// version, and one that could not be read: the store is left as it was.
pub proof fn drain_refuses_records_outside_the_day(st: StoreView, rs: Seq<SpoolRead>, r: SpoolRead, now: i128)
    requires
        r matches SpoolRead::Record(e) ==> (e.version != 1 || e.at >= now + 1_000_000_000 || now - e.at
            >= 86_400_000_000_000),
    ensures
        drained(st, rs.push(r), now).0 == drained(st, rs, now).0,
        drained(st, rs.push(r), now).1 == drained(st, rs, now).1 + 1,
{
    assert(rs.push(r).drop_last() =~= rs);
    if let SpoolRead::Record(e) = r {
        let d = now - e.at;
        if d >= 86_400_000_000_000 {
            assert(d / 1_000_000_000 >= 86400) by (nonlinear_arith)
                requires
                    d >= 86_400_000_000_000,
            ;
        } else if e.version == 1 {
            assert(e.at - now >= 1_000_000_000);
            assert((-d) / 1_000_000_000 >= 1) by (nonlinear_arith)
                requires
                    -d >= 1_000_000_000,
            ;
        }
    }
}

/// Draining folds an accepted record in exactly as the reducer does, and
/// counts no error for it.
pub proof fn drain_applies_accepted_records(st: StoreView, rs: Seq<SpoolRead>, e: Event, now: i128)
    requires
        e.version == 1,
        valid_id_spec(e.session_id@),
        e.at <= now,
        now - e.at < 86_400_000_000_000,
    ensures
        drained(st, rs.push(SpoolRead::Record(e)), now).0 == spool_result(drained(st, rs, now).0, e, now),
        drained(st, rs.push(SpoolRead::Record(e)), now).1 == drained(st, rs, now).1,
{
    assert(rs.push(SpoolRead::Record(e)).drop_last() =~= rs);
    let d = now - e.at;
    assert(0 <= d / 1_000_000_000 < 86400) by (nonlinear_arith)
        requires
            0 <= d < 86_400_000_000_000,
    ;
}


/// A spool record older than what its session last saw changes neither the
/// session's status, activity, attention nor what it is blocked on, and
/// leaves pending requests alone; only the provider's hook activity notes it.
pub proof fn older_spool_records_change_no_status(st: StoreView, e: Event, now: i128)
    requires
        st.sessions.dom().contains(spool_key(e)),
        e.at < st.sessions[spool_key(e)].last_event_at,
    ensures
        ({
            let k = spool_key(e);
            let before = st.sessions[k];
            let after = spool_result(st, e, now);
            &&& after.sessions[k] == before
            &&& after.hook_pending == st.hook_pending
        }),
{
}


} // verus!
