//! The in-memory session store and the reducers that fold events into it.
use vstd::prelude::*;

use crate::clock::seconds_between;
use crate::keyed::{
    distinct_keys, lemma_set_empty, lemma_set_push, lemma_set_remove, lemma_insert_at, lemma_prefix_step, lemma_push, lemma_remove, lemma_to_map_index,
    lemma_update, to_map,
};
use crate::model::{
    clone_opt, new_session_view, opt_view, rank, rank_spec, IntegrationHealth, Session, SessionView,
    Snapshot,
};
use crate::transcript::TranscriptSummary;
use crate::hook_payload::HookPayload;
use crate::model::{vendor, vendor_spec, Host, SessionStatus};
use crate::text::{ascii_lowercase, chars_of, contains, contains_seq, lower_seq, str_eq};

verus! {

/// Sessions with no observation for this long leave the live store (days).
/// This is an eviction threshold, not a deletion one: the stored summary
/// stays where it is.
pub const LIVE_STORE_IDLE_DAYS: i64 = 14;


/// The ids of a vector of sessions, in order.
pub open spec fn ids(s: Seq<Session>) -> Seq<Seq<char>> {
    s.map_values(|x: Session| x.id@)
}

pub open spec fn views(s: Seq<Session>) -> Seq<SessionView> {
    s.map_values(|x: Session| x@)
}

/// A vector of sessions with distinct ids, read as a map from id to session.
pub open spec fn session_map(s: Seq<Session>) -> Map<Seq<char>, SessionView> {
    to_map(ids(s), views(s))
}

/// The providers with hook activity, and when each was last heard from.
pub open spec fn activity_keys(a: Seq<(String, i128)>) -> Seq<Seq<char>> {
    a.map_values(|x: (String, i128)| x.0@)
}

pub open spec fn activity_map(a: Seq<(String, i128)>) -> Map<Seq<char>, i128> {
    to_map(activity_keys(a), a.map_values(|x: (String, i128)| x.1))
}

/// The tool-call ids of one pending set.
pub open spec fn id_seq(v: Seq<String>) -> Seq<Seq<char>> {
    v.map_values(|x: String| x@)
}

pub open spec fn pending_keys(p: Seq<(String, Vec<String>)>) -> Seq<Seq<char>> {
    p.map_values(|x: (String, Vec<String>)| x.0@)
}

pub open spec fn pending_map(p: Seq<(String, Vec<String>)>) -> Map<Seq<char>, Set<Seq<char>>> {
    to_map(pending_keys(p), p.map_values(|x: (String, Vec<String>)| id_seq(x.1@).to_set()))
}

/// How a session reads in a snapshot taken at `now`: a "recent" observation
/// more than a minute old is shown as stale and not live.
pub open spec fn downgrade(s: SessionView, now: i128) -> SessionView {
    if s.observation == "recent"@ && seconds_between(s.last_event_at, now) > 60 {
        SessionView { observation: "stale"@, live: false, ..s }
    } else {
        s
    }
}

/// Display order: most recently observed first; status rank breaks ties.
pub open spec fn shown_before(a: SessionView, b: SessionView) -> bool {
    a.last_event_at > b.last_event_at || (a.last_event_at == b.last_event_at && rank_spec(a.status)
        <= rank_spec(b.status))
}

pub open spec fn display_sorted(s: Seq<SessionView>) -> bool {
    forall|i: int, j: int| 0 <= i < j < s.len() ==> shown_before(s[i], s[j])
}

/// The snapshot of `st` taken at `now`: the store's fields as they are, and
/// its sessions downgraded for staleness and put in display order.
pub open spec fn is_snapshot_of(r: Snapshot, st: StoreView, now: i128) -> bool {
    &&& r.revision == st.revision
    &&& r.integrations@ == st.integrations
    &&& r.hooks_installed == st.hooks_installed
    &&& r.listener_port == st.listener_port
    &&& distinct_keys(ids(r.sessions@))
    &&& session_map(r.sessions@) == st.sessions.map_values(|v: SessionView| downgrade(v, now))
    &&& display_sorted(views(r.sessions@))
}

fn shown_before_exec(a: &Session, b: &Session) -> (r: bool)
    ensures
        r == shown_before(a@, b@),
{
    a.last_event_at > b.last_event_at || (a.last_event_at == b.last_event_at && rank(a.status)
        <= rank(b.status))
}

fn downgraded(s: &Session, now: i128) -> (r: Session)
    ensures
        r@ == downgrade(s@, now),
{
    let mut r = s.duplicate();
    if str_eq(r.observation.as_str(), "recent") && crate::clock::elapsed_seconds(r.last_event_at, now)
        > 60 {
        r.observation = String::from_str("stale");
        r.live = false;
    }
    r
}

/// Insert `x` into a display-sorted vector at its place.
fn insert_sorted(out: &mut Vec<Session>, x: Session)
    requires
        display_sorted(views(old(out)@)),
        distinct_keys(ids(old(out)@)),
        !ids(old(out)@).contains(x.id@),
    ensures
        display_sorted(views(final(out)@)),
        distinct_keys(ids(final(out)@)),
        session_map(final(out)@) == session_map(old(out)@).insert(x.id@, x@),
{
    let ghost old_out = out@;
    let mut p: usize = 0;
    while p < out.len() && shown_before_exec(&out[p], &x)
        invariant
            p <= out@.len(),
            out@ == old_out,
            forall|k: int| 0 <= k < p ==> shown_before(out@[k]@, x@),
        decreases out@.len() - p,
    {
        p += 1;
    }
    proof {
        lemma_insert_at(ids(old_out), views(old_out), p as int, x.id@, x@);
    }
    out.insert(p, x);
    proof {
        assert(ids(out@) =~= ids(old_out).insert(p as int, x.id@));
        assert(views(out@) =~= views(old_out).insert(p as int, x@));
        let vs = views(out@);
        let ov = views(old_out);
        assert forall|i: int, j: int| 0 <= i < j < vs.len() implies shown_before(vs[i], vs[j]) by {
            if j < p {
                assert(vs[i] == ov[i] && vs[j] == ov[j]);
                assert(shown_before(ov[i], ov[j]));
            } else if j == p {
                assert(vs[i] == ov[i]);
            } else if i == p {
                assert(vs[j] == ov[j - 1]);
                assert(vs[p + 1] == ov[p as int]);
                assert(!shown_before(ov[p as int], x@));
                if j - 1 > p {
                    assert(shown_before(ov[p as int], ov[j - 1]));
                }
            } else if i < p {
                assert(vs[i] == ov[i] && vs[j] == ov[j - 1]);
                assert(shown_before(ov[i], ov[j - 1]));
            } else {
                assert(vs[i] == ov[i - 1] && vs[j] == ov[j - 1]);
                assert(shown_before(ov[i - 1], ov[j - 1]));
            }
        }
    }
}

fn clone_healths(v: &Vec<IntegrationHealth>) -> (r: Vec<IntegrationHealth>)
    ensures
        r@ == v@,
{
    let mut r: Vec<IntegrationHealth> = Vec::new();
    let mut i: usize = 0;
    while i < v.len()
        invariant
            i <= v@.len(),
            r@ == v@.take(i as int),
        decreases v@.len() - i,
    {
        r.push(v[i].duplicate());
        i += 1;
        assert(r@ =~= v@.take(i as int));
    }
    assert(v@.take(v@.len() as int) =~= v@);
    r
}

/// Whether `s` has gone unobserved for longer than `max_idle` (nanoseconds) as of `now`.
pub open spec fn idle_past(s: SessionView, now: i128, max_idle: i128) -> bool {
    now - s.last_event_at > max_idle
}

fn idle_past_exec(s: &Session, now: i128, max_idle: i128) -> (r: bool)
    ensures
        r == idle_past(s@, now, max_idle),
{
    match now.checked_sub(s.last_event_at) {
        Some(d) => d > max_idle,
        None => now > s.last_event_at,
    }
}

/// The sessions of `m` that have been observed within `max_idle` of `now`.
pub open spec fn fresh_part(m: Map<Seq<char>, SessionView>, now: i128, max_idle: i128) -> Map<
    Seq<char>,
    SessionView,
> {
    Map::new(
        |k: Seq<char>| m.dom().contains(k) && !idle_past(m[k], now, max_idle),
        |k: Seq<char>| m[k],
    )
}

/// How a persisted session is admitted at startup: never live, and a
/// "recent" observation is downgraded to "stale".
pub open spec fn restored(s: SessionView) -> SessionView {
    SessionView {
        live: false,
        observation: if s.observation == "recent"@ {
            "stale"@
        } else {
            s.observation
        },
        ..s
    }
}

/// The sessions after admitting `input` in order into `m`: idle rows are
/// skipped, the rest replace any session with the same id.
pub open spec fn restore_into(
    m: Map<Seq<char>, SessionView>,
    input: Seq<SessionView>,
    now: i128,
    max_idle: i128,
) -> Map<Seq<char>, SessionView>
    decreases input.len(),
{
    if input.len() == 0 {
        m
    } else {
        let prev = restore_into(m, input.drop_last(), now, max_idle);
        let s = input.last();
        if idle_past(s, now, max_idle) {
            prev
        } else {
            prev.insert(s.id, restored(s))
        }
    }
}

/// How many rows of `input` are past the idle window.
pub open spec fn count_idle(input: Seq<SessionView>, now: i128, max_idle: i128) -> nat
    decreases input.len(),
{
    if input.len() == 0 {
        0
    } else {
        count_idle(input.drop_last(), now, max_idle) + if idle_past(input.last(), now, max_idle) {
            1nat
        } else {
            0nat
        }
    }
}

pub proof fn lemma_count_idle_bound(input: Seq<SessionView>, now: i128, max_idle: i128)
    ensures
        count_idle(input, now, max_idle) <= input.len(),
    decreases input.len(),
{
    if input.len() > 0 {
        lemma_count_idle_bound(input.drop_last(), now, max_idle);
    }
}

/// The session a transcript summary leaves behind: counts and tokens come
/// from the transcript; path, branch, title and start are filled only where
/// unknown; a session not observed live takes the transcript's last time.
pub open spec fn transcript_applied(s: SessionView, t: TranscriptSummary) -> SessionView {
    SessionView {
        user_messages: t.user_messages,
        assistant_messages: t.assistant_messages,
        input_tokens: t.input_tokens,
        output_tokens: t.output_tokens,
        transcript_path: if s.transcript_path is None {
            Some(t.path@)
        } else {
            s.transcript_path
        },
        git_branch: if s.git_branch is None {
            opt_view(t.git_branch)
        } else {
            s.git_branch
        },
        title: if s.title is None {
            opt_view(t.title)
        } else {
            s.title
        },
        started_at: if s.started_at is None {
            Some(t.first_at)
        } else {
            s.started_at
        },
        last_event_at: if !s.live {
            t.last_at
        } else {
            s.last_event_at
        },
        ..s
    }
}

/// The host a lowercased process-name hint suggests. This is a label, not a
/// decision, so the match is loose.
pub open spec fn host_of_hint(h: Seq<char>) -> Host {
    if contains_seq(h, "code"@) && !contains_seq(h, vendor_spec()) {
        Host::VsCode
    } else if contains_seq(h, vendor_spec()) {
        Host::DesktopApp
    } else if contains_seq(h, "term"@) || contains_seq(h, "zsh"@) || contains_seq(h, "bash"@)
        || contains_seq(h, "pwsh"@) {
        Host::Terminal
    } else if h.len() == 0 {
        Host::Unknown
    } else {
        Host::Headless
    }
}

pub open spec fn infer_host_spec(hint: Option<Seq<char>>) -> Host {
    host_of_hint(
        lower_seq(
            match hint {
                Some(h) => h,
                None => Seq::<char>::empty(),
            },
        ),
    )
}

fn has_part(h: &Vec<char>, p: &str) -> (r: bool)
    ensures
        r == contains_seq(h@, p@),
{
    let pv = chars_of(p);
    contains(h.as_slice(), pv.as_slice())
}

/// The host a hook's process-name hint suggests.
pub fn infer_host(hint: Option<&str>) -> (r: Host)
    ensures
        r == infer_host_spec(
            match hint {
                Some(h) => Some(h@),
                None => None,
            },
        ),
{
    let raw: Vec<char> = match hint {
        Some(h) => chars_of(h),
        None => Vec::new(),
    };
    let h = ascii_lowercase(raw.as_slice());
    proof {
        if hint.is_none() {
            assert(raw@ =~= Seq::<char>::empty());
        }
    }
    let vendor_name = vendor();
    if has_part(&h, "code") && !has_part(&h, vendor_name.as_str()) {
        Host::VsCode
    } else if has_part(&h, vendor_name.as_str()) {
        Host::DesktopApp
    } else if has_part(&h, "term") || has_part(&h, "zsh") || has_part(&h, "bash") || has_part(&h, "pwsh") {
        Host::Terminal
    } else if h.len() == 0 {
        Host::Unknown
    } else {
        Host::Headless
    }
}

/// The common part of folding a legacy hook payload into a session: it is
/// live and observed now, and fills what the payload knows.
pub open spec fn hook_touched(s: SessionView, p: HookPayload, now: i128) -> SessionView {
    let cwd = match p.cwd {
        Some(c) => c@,
        None => Seq::<char>::empty(),
    };
    SessionView {
        live: true,
        last_event_at: now,
        cwd: if cwd.len() > 0 {
            cwd
        } else {
            s.cwd
        },
        transcript_path: if s.transcript_path is None {
            opt_view(p.transcript_path)
        } else {
            s.transcript_path
        },
        pid: if p.aperture_pid is Some {
            p.aperture_pid
        } else {
            s.pid
        },
        host: if s.host == Host::Unknown {
            infer_host_spec(opt_view(p.aperture_host_hint))
        } else {
            s.host
        },
        ..s
    }
}

/// The legacy hook reducer's effect on one session.
pub open spec fn hook_applied(base: SessionView, p: HookPayload, now: i128) -> SessionView {
    let s = hook_touched(base, p, now);
    let name = p.hook_event_name@;
    if name == "SessionStart"@ {
        SessionView {
            started_at: if s.started_at is None {
                Some(now)
            } else {
                s.started_at
            },
            status: SessionStatus::Idle,
            activity: None,
            blocked_on: None,
            ..s
        }
    } else if name == "UserPromptSubmit"@ {
        SessionView {
            status: SessionStatus::Working,
            activity: Some("Thinking"@),
            blocked_on: None,
            user_messages: (s.user_messages + 1) as u32,
            ..s
        }
    } else if name == "PreToolUse"@ {
        SessionView {
            status: SessionStatus::Working,
            activity: p.describe_tool_spec(),
            blocked_on: None,
            ..s
        }
    } else if name == "PostToolUse"@ {
        SessionView { status: SessionStatus::Working, activity: Some("Thinking"@), ..s }
    } else if name == "PermissionRequest"@ {
        SessionView {
            status: SessionStatus::Blocked,
            blocked_on: if p.describe_tool_spec() is Some {
                p.describe_tool_spec()
            } else {
                opt_view(p.message)
            },
            ..s
        }
    } else if name == "Notification"@ {
        if opt_view(p.notification_type) == Some("permission_prompt"@) {
            SessionView {
                status: SessionStatus::Blocked,
                blocked_on: opt_view(p.message),
                ..s
            }
        } else if opt_view(p.notification_type) == Some("idle_prompt"@) {
            SessionView { status: SessionStatus::Idle, activity: None, ..s }
        } else {
            s
        }
    } else if name == "Stop"@ {
        SessionView {
            status: SessionStatus::Idle,
            activity: None,
            blocked_on: None,
            assistant_messages: (s.assistant_messages + 1) as u32,
            ..s
        }
    } else if name == "StopFailure"@ {
        SessionView {
            status: SessionStatus::Errored,
            activity: if p.error_message is Some {
                opt_view(p.error_message)
            } else {
                opt_view(p.message)
            },
            ..s
        }
    } else if name == "SessionEnd"@ {
        SessionView {
            status: SessionStatus::Ended,
            activity: opt_view(p.reason),
            blocked_on: None,
            ..s
        }
    } else {
        s
    }
}

/// The session a legacy payload is folded into: the resident one, or a new
/// one opened now.
pub open spec fn hook_base(st: StoreView, p: HookPayload, now: i128) -> SessionView {
    if st.sessions.dom().contains(p.session_id@) {
        st.sessions[p.session_id@]
    } else {
        new_session_view(
            p.session_id@,
            match p.cwd {
                Some(c) => c@,
                None => Seq::<char>::empty(),
            },
            now,
        )
    }
}

/// The store after the legacy hook reducer folds `p` in at `now`.
pub open spec fn hook_result(st: StoreView, p: HookPayload, now: i128) -> StoreView {
    StoreView {
        sessions: st.sessions.insert(p.session_id@, hook_applied(hook_base(st, p, now), p, now)),
        ..st
    }
}

fn opt_str_is(o: &Option<String>, lit: &str) -> (r: bool)
    ensures
        r == (opt_view(*o) == Some(lit@)),
{
    match o {
        Some(s) => str_eq(s.as_str(), lit),
        None => false,
    }
}

/// Where `id` sits in `list`, if it is there.
pub fn position_of(list: &Vec<String>, id: &String) -> (r: Option<usize>)
    ensures
        r.is_none() <==> !id_seq(list@).contains(id@),
        (r matches Some(j) ==> j < list@.len() && list@[j as int]@ == id@),
{
    let mut j: usize = 0;
    while j < list.len()
        invariant
            j <= list@.len(),
            forall|t: int| 0 <= t < j ==> list@[t]@ != id@,
        decreases list@.len() - j,
    {
        if list[j] == *id {
            assert(id_seq(list@)[j as int] == id@);
            return Some(j);
        }
        j += 1;
    }
    proof {
        if id_seq(list@).contains(id@) {
            let t = choose|t: int| 0 <= t < id_seq(list@).len() && id_seq(list@)[t] == id@;
            assert(list@[t]@ == id@);
        }
    }
    None
}

pub struct Store {
    pub hook_activity: Vec<(String, i128)>,
    pub hook_pending: Vec<(String, Vec<String>)>,
    pub revision: u64,
    pub integrations: Vec<IntegrationHealth>,
    pub sessions: Vec<Session>,
    pub hooks_installed: bool,
    pub listener_port: u16,
    /// How many sessions have left the live store under the idle policy since
    /// this process started. It counts events, not distinct sessions.
    pub evicted_idle: usize,
    /// How many stored summaries `restore_summaries` declined to admit.
    pub idle_not_restored: usize,
}

pub ghost struct StoreView {
    pub hook_activity: Map<Seq<char>, i128>,
    pub hook_pending: Map<Seq<char>, Set<Seq<char>>>,
    pub revision: u64,
    pub integrations: Seq<IntegrationHealth>,
    pub sessions: Map<Seq<char>, SessionView>,
    pub hooks_installed: bool,
    pub listener_port: u16,
    pub evicted_idle: usize,
    pub idle_not_restored: usize,
}

impl Default for Store {
    /// An empty store: no sessions, no hook activity, revision 0.
    fn default() -> (s: Store)
        ensures
            s.wf(),
            s@.sessions == Map::<Seq<char>, SessionView>::empty(),
            s@.hook_activity == Map::<Seq<char>, i128>::empty(),
            s@.hook_pending == Map::<Seq<char>, Set<Seq<char>>>::empty(),
            s@.revision == 0,
            s@.integrations.len() == 0,
            !s@.hooks_installed,
            s@.listener_port == 0,
            s@.evicted_idle == 0,
            s@.idle_not_restored == 0,
    {
        Store::new()
    }
}

impl View for Store {
    type V = StoreView;

    open spec fn view(&self) -> StoreView {
        StoreView {
            hook_activity: activity_map(self.hook_activity@),
            hook_pending: pending_map(self.hook_pending@),
            revision: self.revision,
            integrations: self.integrations@,
            sessions: session_map(self.sessions@),
            hooks_installed: self.hooks_installed,
            listener_port: self.listener_port,
            evicted_idle: self.evicted_idle,
            idle_not_restored: self.idle_not_restored,
        }
    }
}

impl Store {
    /// Keys are distinct in every keyed vector, and so are the ids in each
    /// pending set.
    pub open spec fn wf(&self) -> bool {
        &&& distinct_keys(ids(self.sessions@))
        &&& distinct_keys(activity_keys(self.hook_activity@))
        &&& distinct_keys(pending_keys(self.hook_pending@))
        &&& forall|i: int|
            0 <= i < self.hook_pending@.len() ==> distinct_keys(
                #[trigger] id_seq(self.hook_pending@[i].1@),
            )
    }

    pub fn new() -> (s: Store)
        ensures
            s.wf(),
            s@.sessions == Map::<Seq<char>, SessionView>::empty(),
            s@.hook_activity == Map::<Seq<char>, i128>::empty(),
            s@.hook_pending == Map::<Seq<char>, Set<Seq<char>>>::empty(),
            s@.revision == 0,
            s@.integrations.len() == 0,
            !s@.hooks_installed,
            s@.listener_port == 0,
            s@.evicted_idle == 0,
            s@.idle_not_restored == 0,
    {
        let s = Store {
            hook_activity: Vec::new(),
            hook_pending: Vec::new(),
            revision: 0,
            integrations: Vec::new(),
            sessions: Vec::new(),
            hooks_installed: false,
            listener_port: 0,
            evicted_idle: 0,
            idle_not_restored: 0,
        };
        assert(s@.sessions =~= Map::<Seq<char>, SessionView>::empty());
        assert(s@.hook_activity =~= Map::<Seq<char>, i128>::empty());
        assert(s@.hook_pending =~= Map::<Seq<char>, Set<Seq<char>>>::empty());
        s
    }

    /// The resident sessions, in no particular order.
    pub fn sessions(&self) -> (r: &Vec<Session>)
        ensures
            r@ == self.sessions@,
    {
        &self.sessions
    }

    /// Where the session with id `id` sits in the vector, if it is resident.
    pub fn index_of(&self, id: &String) -> (r: Option<usize>)
        requires
            self.wf(),
        ensures
            r.is_none() <==> !self@.sessions.dom().contains(id@),
            (r matches Some(i) ==> i < self.sessions@.len() && self.sessions@[i as int].id@ == id@),
    {
        let mut i: usize = 0;
        while i < self.sessions.len()
            invariant
                i <= self.sessions@.len(),
                forall|j: int| 0 <= j < i ==> self.sessions@[j].id@ != id@,
            decreases self.sessions@.len() - i,
        {
            if self.sessions[i].id == *id {
                assert(ids(self.sessions@)[i as int] == id@);
                return Some(i);
            }
            i += 1;
        }
        proof {
            if ids(self.sessions@).contains(id@) {
                let j = choose|j: int| 0 <= j < ids(self.sessions@).len() && ids(self.sessions@)[j] == id@;
                assert(self.sessions@[j].id@ == id@);
            }
        }
        None
    }

    /// The resident session with id `id`, if any.
    pub fn session(&self, id: &String) -> (r: Option<&Session>)
        requires
            self.wf(),
        ensures
            r.is_none() <==> !self@.sessions.dom().contains(id@),
            (r matches Some(s) ==> s@ == self@.sessions[id@] && s.id@ == id@),
    {
        match self.index_of(id) {
            Some(i) => {
                proof {
                    lemma_to_map_index(ids(self.sessions@), views(self.sessions@), i as int);
                }
                Some(&self.sessions[i])
            },
            None => None,
        }
    }

    /// Put `s` in the store under its own id, replacing any session with that id.
    pub fn insert_session(&mut self, s: Session)
        requires
            old(self).wf(),
        ensures
            final(self).wf(),
            final(self)@ == (StoreView { sessions: old(self)@.sessions.insert(s.id@, s@), ..old(self)@ }),
    {
        let idx = self.index_of(&s.id);
        let ghost old_sessions = self.sessions@;
        match idx {
            Some(i) => {
                self.sessions.set(i, s);
                proof {
                    lemma_update(ids(old_sessions), views(old_sessions), i as int, s@);
                    assert(ids(self.sessions@) =~= ids(old_sessions));
                    assert(views(self.sessions@) =~= views(old_sessions).update(i as int, s@));
                }
            },
            None => {
                self.sessions.push(s);
                proof {
                    lemma_push(ids(old_sessions), views(old_sessions), s.id@, s@);
                    assert(ids(self.sessions@) =~= ids(old_sessions).push(s.id@));
                    assert(views(self.sessions@) =~= views(old_sessions).push(s@));
                }
            },
        }
    }

    /// The snapshot at `now`: every resident session, downgraded for
    /// staleness, most recently observed first and ranked by status on ties.
    pub fn snapshot_at(&self, now: i128) -> (r: Snapshot)
        requires
            self.wf(),
        ensures
            is_snapshot_of(r, self@, now),
    {
        let mut out: Vec<Session> = Vec::new();
        let ghost src = self.sessions@;
        let mut i: usize = 0;
        while i < self.sessions.len()
            invariant
                i <= src.len(),
                src == self.sessions@,
                distinct_keys(ids(src)),
                distinct_keys(ids(out@)),
                display_sorted(views(out@)),
                session_map(out@) == session_map(src.take(i as int)).map_values(
                    |v: SessionView| downgrade(v, now),
                ),
            decreases src.len() - i,
        {
            let x = downgraded(&self.sessions[i], now);
            proof {
                lemma_prefix_step(ids(src), views(src), i as int);
                assert(ids(src).take(i as int) =~= ids(src.take(i as int)));
                assert(views(src).take(i as int) =~= views(src.take(i as int)));
                assert(ids(src).take(i + 1) =~= ids(src.take(i + 1)));
                assert(views(src).take(i + 1) =~= views(src.take(i + 1)));
                if ids(out@).contains(x.id@) {
                    let j = choose|j: int| 0 <= j < ids(out@).len() && ids(out@)[j] == x.id@;
                    lemma_to_map_index(ids(out@), views(out@), j);
                }
            }
            insert_sorted(&mut out, x);
            i += 1;
            proof {
                let f = |v: SessionView| downgrade(v, now);
                let m = session_map(src.take(i - 1));
                assert(m.insert(src[i - 1].id@, src[i - 1]@).map_values(f) =~= m.map_values(f).insert(
                    src[i - 1].id@,
                    downgrade(src[i - 1]@, now),
                ));
            }
        }
        proof {
            assert(src.take(src.len() as int) =~= src);
        }
        Snapshot {
            revision: self.revision,
            integrations: clone_healths(&self.integrations),
            sessions: out,
            hooks_installed: self.hooks_installed,
            listener_port: self.listener_port,
        }
    }

    /// The snapshot at the current time.
    pub fn snapshot(&self) -> (r: Snapshot)
        requires
            self.wf(),
        ensures
            exists|t: i128| is_snapshot_of(r, self@, t),
    {
        let now = crate::clock::now_instant();
        self.snapshot_at(now)
    }

    /// Drop every session with no observation in `max_idle` (nanoseconds) as of
    /// `now`, returning the ids removed. Eviction is not deletion: stored
    /// summaries are untouched.
    pub fn evict_idle(&mut self, now: i128, max_idle: i128) -> (r: Vec<String>)
        requires
            old(self).wf(),
            old(self).revision + old(self).sessions@.len() <= u64::MAX,
            old(self).evicted_idle + old(self).sessions@.len() <= usize::MAX,
        ensures
            final(self).wf(),
            distinct_keys(id_seq(r@)),
            forall|k: Seq<char>|
                #![trigger id_seq(r@).contains(k)]
                id_seq(r@).contains(k) <==> (old(self)@.sessions.dom().contains(k) && idle_past(
                    old(self)@.sessions[k],
                    now,
                    max_idle,
                )),
            final(self)@ == (StoreView {
                sessions: fresh_part(old(self)@.sessions, now, max_idle),
                revision: (old(self)@.revision + r@.len()) as u64,
                evicted_idle: (old(self)@.evicted_idle + r@.len()) as usize,
                ..old(self)@
            }),
    {
        let ghost src = self.sessions@;
        let mut kept: Vec<Session> = Vec::new();
        let mut gone: Vec<String> = Vec::new();
        let mut i: usize = 0;
        while i < self.sessions.len()
            invariant
                i <= src.len(),
                src == self.sessions@,
                distinct_keys(ids(src)),
                distinct_keys(ids(kept@)),
                distinct_keys(id_seq(gone@)),
                kept@.len() + gone@.len() == i,
                session_map(kept@) == fresh_part(session_map(src.take(i as int)), now, max_idle),
                forall|k: Seq<char>|
                    #![trigger id_seq(gone@).contains(k)]
                    id_seq(gone@).contains(k) <==> (session_map(src.take(i as int)).dom().contains(k)
                        && idle_past(session_map(src.take(i as int))[k], now, max_idle)),
            decreases src.len() - i,
        {
            let x = self.sessions[i].duplicate();
            let ghost m0 = session_map(src.take(i as int));
            proof {
                lemma_prefix_step(ids(src), views(src), i as int);
                assert(ids(src).take(i as int) =~= ids(src.take(i as int)));
                assert(views(src).take(i as int) =~= views(src.take(i as int)));
                assert(ids(src).take(i + 1) =~= ids(src.take(i + 1)));
                assert(views(src).take(i + 1) =~= views(src.take(i + 1)));
                assert(!m0.dom().contains(x.id@));
            }
            let ghost gone0 = id_seq(gone@);
            proof {
                assert(session_map(src.take(i + 1)) == m0.insert(x.id@, x@));
            }
            if idle_past_exec(&x, now, max_idle) {
                proof {
                    lemma_push(id_seq(gone@), id_seq(gone@), x.id@, x.id@);
                    assert(id_seq(gone@.push(x.id)) =~= id_seq(gone@).push(x.id@));
                }
                gone.push(x.id);
                proof {
                    let m1 = session_map(src.take(i + 1));
                    assert(fresh_part(m1, now, max_idle) =~= fresh_part(m0, now, max_idle));
                    assert(id_seq(gone@) == gone0.push(x.id@));
                    assert forall|k: Seq<char>|
                        #![trigger id_seq(gone@).contains(k)]
                        id_seq(gone@).contains(k) <==> (m1.dom().contains(k) && idle_past(
                            m1[k],
                            now,
                            max_idle,
                        )) by {
                        if k == x.id@ {
                            assert(id_seq(gone@)[gone0.len() as int] == k);
                        } else {
                            if id_seq(gone@).contains(k) {
                                let j = choose|j: int| 0 <= j < id_seq(gone@).len() && id_seq(gone@)[j] == k;
                                assert(gone0[j] == k);
                            }
                            if gone0.contains(k) {
                                let j = choose|j: int| 0 <= j < gone0.len() && gone0[j] == k;
                                assert(id_seq(gone@)[j] == k);
                            }
                        }
                    }
                }
            } else {
                proof {
                    if ids(kept@).contains(x.id@) {
                        let j = choose|j: int| 0 <= j < ids(kept@).len() && ids(kept@)[j] == x.id@;
                        lemma_to_map_index(ids(kept@), views(kept@), j);
                    }
                    lemma_push(ids(kept@), views(kept@), x.id@, x@);
                    assert(ids(kept@.push(x)) =~= ids(kept@).push(x.id@));
                    assert(views(kept@.push(x)) =~= views(kept@).push(x@));
                }
                kept.push(x);
                proof {
                    let m1 = session_map(src.take(i + 1));
                    assert(fresh_part(m1, now, max_idle) =~= fresh_part(m0, now, max_idle).insert(
                        x.id@,
                        x@,
                    ));
                    assert forall|k: Seq<char>|
                        #![trigger id_seq(gone@).contains(k)]
                        id_seq(gone@).contains(k) <==> (m1.dom().contains(k) && idle_past(
                            m1[k],
                            now,
                            max_idle,
                        )) by {
                        if k == x.id@ {
                            assert(!m0.dom().contains(k));
                            assert(!gone0.contains(k));
                        }
                    }
                }
            }
            i += 1;
        }
        proof {
            assert(src.take(src.len() as int) =~= src);
        }
        self.sessions = kept;
        self.revision = self.revision + gone.len() as u64;
        self.evicted_idle = self.evicted_idle + gone.len();
        gone
    }

    /// Seed the store from persisted history. Rows already past the idle
    /// window are counted in `idle_not_restored` and skipped; the rest are
    /// admitted not live, with "recent" downgraded to "stale".
    pub fn restore_summaries(&mut self, sessions: Vec<Session>, now: i128, max_idle: i128)
        requires
            old(self).wf(),
            old(self).revision < u64::MAX,
            old(self).idle_not_restored + sessions@.len() <= usize::MAX,
        ensures
            final(self).wf(),
            final(self)@ == (StoreView {
                sessions: restore_into(old(self)@.sessions, views(sessions@), now, max_idle),
                revision: (old(self)@.revision + 1) as u64,
                idle_not_restored: (old(self)@.idle_not_restored + count_idle(
                    views(sessions@),
                    now,
                    max_idle,
                )) as usize,
                ..old(self)@
            }),
    {
        let ghost input = views(sessions@);
        let ghost start = self@;
        let mut i: usize = 0;
        while i < sessions.len()
            invariant
                i <= sessions@.len(),
                input == views(sessions@),
                self.wf(),
                start.revision < u64::MAX,
                start.idle_not_restored + sessions@.len() <= usize::MAX,
                self@ == (StoreView {
                    sessions: restore_into(start.sessions, input.take(i as int), now, max_idle),
                    idle_not_restored: (start.idle_not_restored + count_idle(
                        input.take(i as int),
                        now,
                        max_idle,
                    )) as usize,
                    ..start
                }),
            decreases sessions@.len() - i,
        {
            proof {
                assert(input.take(i + 1).drop_last() =~= input.take(i as int));
                lemma_count_idle_bound(input.take(i as int), now, max_idle);
            }
            let mut s = sessions[i].duplicate();
            if idle_past_exec(&s, now, max_idle) {
                self.idle_not_restored = self.idle_not_restored + 1;
            } else {
                s.live = false;
                if str_eq(s.observation.as_str(), "recent") {
                    s.observation = String::from_str("stale");
                }
                self.insert_session(s);
            }
            i += 1;
        }
        proof {
            assert(input.take(sessions@.len() as int) =~= input);
        }
        self.revision = self.revision + 1;
    }

    /// Fold a transcript summary into the session it names, creating the
    /// session if it is not resident.
    pub fn apply_transcript(&mut self, t: TranscriptSummary)
        requires
            old(self).wf(),
        ensures
            final(self).wf(),
            final(self)@ == (StoreView {
                sessions: old(self)@.sessions.insert(
                    t.session_id@,
                    transcript_applied(
                        if old(self)@.sessions.dom().contains(t.session_id@) {
                            old(self)@.sessions[t.session_id@]
                        } else {
                            new_session_view(t.session_id@, t.cwd@, t.last_at)
                        },
                        t,
                    ),
                ),
                ..old(self)@
            }),
    {
        let mut s = match self.session(&t.session_id) {
            Some(existing) => existing.duplicate(),
            None => Session::new(t.session_id.clone(), t.cwd.clone(), t.last_at),
        };
        s.user_messages = t.user_messages;
        s.assistant_messages = t.assistant_messages;
        s.input_tokens = t.input_tokens;
        s.output_tokens = t.output_tokens;
        if s.transcript_path.is_none() {
            s.transcript_path = Some(t.path.clone());
        }
        if s.git_branch.is_none() {
            s.git_branch = clone_opt(&t.git_branch);
        }
        if s.title.is_none() {
            s.title = clone_opt(&t.title);
        }
        if s.started_at.is_none() {
            s.started_at = Some(t.first_at);
        }
        if !s.live {
            s.last_event_at = t.last_at;
        }
        self.insert_session(s);
    }

    /// Fold one legacy hook payload into the store at time `now`.
    pub fn apply_hook_at(&mut self, p: HookPayload, now: i128)
        requires
            old(self).wf(),
            old(self)@.sessions.dom().contains(p.session_id@) && p.hook_event_name@ == "UserPromptSubmit"@
                ==> old(self)@.sessions[p.session_id@].user_messages < u32::MAX,
            old(self)@.sessions.dom().contains(p.session_id@) && p.hook_event_name@ == "Stop"@
                ==> old(self)@.sessions[p.session_id@].assistant_messages < u32::MAX,
        ensures
            final(self).wf(),
            final(self)@ == hook_result(old(self)@, p, now),
    {
        let cwd: String = match &p.cwd {
            Some(c) => c.clone(),
            None => String::new(),
        };
        let mut s = match self.session(&p.session_id) {
            Some(existing) => existing.duplicate(),
            None => Session::new(p.session_id.clone(), cwd.clone(), now),
        };
        s.live = true;
        s.last_event_at = now;
        if !cwd.as_str().is_empty() {
            s.cwd = cwd;
        }
        if s.transcript_path.is_none() {
            s.transcript_path = clone_opt(&p.transcript_path);
        }
        if let Some(pid) = p.aperture_pid {
            s.pid = Some(pid);
        }
        if s.host == Host::Unknown {
            s.host = match &p.aperture_host_hint {
                Some(h) => infer_host(Some(h.as_str())),
                None => infer_host(None),
            };
        }
        let name = p.hook_event_name.as_str();
        if str_eq(name, "SessionStart") {
            if s.started_at.is_none() {
                s.started_at = Some(now);
            }
            s.status = SessionStatus::Idle;
            s.activity = None;
            s.blocked_on = None;
        } else if str_eq(name, "UserPromptSubmit") {
            s.status = SessionStatus::Working;
            s.activity = Some(String::from_str("Thinking"));
            s.blocked_on = None;
            s.user_messages = s.user_messages + 1;
        } else if str_eq(name, "PreToolUse") {
            s.status = SessionStatus::Working;
            s.activity = p.describe_tool();
            s.blocked_on = None;
        } else if str_eq(name, "PostToolUse") {
            s.status = SessionStatus::Working;
            s.activity = Some(String::from_str("Thinking"));
        } else if str_eq(name, "PermissionRequest") {
            s.status = SessionStatus::Blocked;
            s.blocked_on = match p.describe_tool() {
                Some(d) => Some(d),
                None => clone_opt(&p.message),
            };
        } else if str_eq(name, "Notification") {
            if opt_str_is(&p.notification_type, "permission_prompt") {
                s.status = SessionStatus::Blocked;
                s.blocked_on = clone_opt(&p.message);
            } else if opt_str_is(&p.notification_type, "idle_prompt") {
                s.status = SessionStatus::Idle;
                s.activity = None;
            }
        } else if str_eq(name, "Stop") {
            s.status = SessionStatus::Idle;
            s.activity = None;
            s.blocked_on = None;
            s.assistant_messages = s.assistant_messages + 1;
        } else if str_eq(name, "StopFailure") {
            s.status = SessionStatus::Errored;
            s.activity = match &p.error_message {
                Some(m) => Some(m.clone()),
                None => clone_opt(&p.message),
            };
        } else if str_eq(name, "SessionEnd") {
            s.status = SessionStatus::Ended;
            s.activity = clone_opt(&p.reason);
            s.blocked_on = None;
        }
        self.insert_session(s);
    }

    /// Fold one legacy hook payload into the store at the current time.
    pub fn apply_hook(&mut self, p: HookPayload)
        requires
            old(self).wf(),
            old(self)@.sessions.dom().contains(p.session_id@) && p.hook_event_name@ == "UserPromptSubmit"@
                ==> old(self)@.sessions[p.session_id@].user_messages < u32::MAX,
            old(self)@.sessions.dom().contains(p.session_id@) && p.hook_event_name@ == "Stop"@
                ==> old(self)@.sessions[p.session_id@].assistant_messages < u32::MAX,
        ensures
            final(self).wf(),
            exists|now: i128| final(self)@ == #[trigger] hook_result(old(self)@, p, now),
    {
        let now = crate::clock::now_instant();
        self.apply_hook_at(p, now);
    }

    /// Record hook activity from `provider` at `at`, keeping the latest time.
    pub fn touch_activity(&mut self, provider: &String, at: i128)
        requires
            old(self).wf(),
        ensures
            final(self).wf(),
            final(self)@ == (StoreView {
                hook_activity: old(self)@.hook_activity.insert(
                    provider@,
                    if old(self)@.hook_activity.dom().contains(provider@) {
                        if old(self)@.hook_activity[provider@] >= at {
                            old(self)@.hook_activity[provider@]
                        } else {
                            at
                        }
                    } else {
                        at
                    },
                ),
                ..old(self)@
            }),
    {
        let ghost a0 = self.hook_activity@;
        let ghost ks = activity_keys(a0);
        let ghost vs = a0.map_values(|x: (String, i128)| x.1);
        let found = self.activity_index(provider);
        match found {
            Some(i) => {
                let old_at = self.hook_activity[i].1;
                let new_at = if old_at >= at {
                    old_at
                } else {
                    at
                };
                proof {
                    assert(ks[i as int] == provider@);
                    lemma_to_map_index(ks, vs, i as int);
                    lemma_update(ks, vs, i as int, new_at);
                }
                self.hook_activity.set(i, (provider.clone(), new_at));
                proof {
                    assert(activity_keys(self.hook_activity@) =~= ks);
                    assert(self.hook_activity@.map_values(|x: (String, i128)| x.1) =~= vs.update(
                        i as int,
                        new_at,
                    ));
                }
            },
            None => {
                proof {
                    lemma_push(ks, vs, provider@, at);
                }
                self.hook_activity.push((provider.clone(), at));
                proof {
                    assert(activity_keys(self.hook_activity@) =~= ks.push(provider@));
                    assert(self.hook_activity@.map_values(|x: (String, i128)| x.1) =~= vs.push(at));
                }
            },
        }
    }

    /// Where the activity entry for `provider` sits, if there is one.
    pub fn activity_index(&self, provider: &String) -> (r: Option<usize>)
        requires
            self.wf(),
        ensures
            r.is_none() <==> !self@.hook_activity.dom().contains(provider@),
            (r matches Some(i) ==> i < self.hook_activity@.len() && self.hook_activity@[i as int].0@
                == provider@),
    {
        let mut i: usize = 0;
        while i < self.hook_activity.len()
            invariant
                i <= self.hook_activity@.len(),
                forall|j: int| 0 <= j < i ==> self.hook_activity@[j].0@ != provider@,
            decreases self.hook_activity@.len() - i,
        {
            if self.hook_activity[i].0 == *provider {
                assert(activity_keys(self.hook_activity@)[i as int] == provider@);
                return Some(i);
            }
            i += 1;
        }
        proof {
            if activity_keys(self.hook_activity@).contains(provider@) {
                let j = choose|j: int|
                    0 <= j < activity_keys(self.hook_activity@).len() && activity_keys(
                        self.hook_activity@,
                    )[j] == provider@;
                assert(self.hook_activity@[j].0@ == provider@);
            }
        }
        None
    }

    /// Where the pending set for `key` sits, if there is one.
    pub fn pending_index(&self, key: &String) -> (r: Option<usize>)
        requires
            self.wf(),
        ensures
            r.is_none() <==> !self@.hook_pending.dom().contains(key@),
            (r matches Some(i) ==> i < self.hook_pending@.len() && self.hook_pending@[i as int].0@
                == key@),
    {
        let mut i: usize = 0;
        while i < self.hook_pending.len()
            invariant
                i <= self.hook_pending@.len(),
                forall|j: int| 0 <= j < i ==> self.hook_pending@[j].0@ != key@,
            decreases self.hook_pending@.len() - i,
        {
            if self.hook_pending[i].0 == *key {
                assert(pending_keys(self.hook_pending@)[i as int] == key@);
                return Some(i);
            }
            i += 1;
        }
        proof {
            if pending_keys(self.hook_pending@).contains(key@) {
                let j = choose|j: int|
                    0 <= j < pending_keys(self.hook_pending@).len() && pending_keys(
                        self.hook_pending@,
                    )[j] == key@;
                assert(self.hook_pending@[j].0@ == key@);
            }
        }
        None
    }

    /// Add the tool-call id `id` to the pending set for `key`, creating it.
    pub fn pending_add(&mut self, key: &String, id: String)
        requires
            old(self).wf(),
        ensures
            final(self).wf(),
            final(self)@ == (StoreView {
                hook_pending: old(self)@.hook_pending.insert(
                    key@,
                    if old(self)@.hook_pending.dom().contains(key@) {
                        old(self)@.hook_pending[key@].insert(id@)
                    } else {
                        Set::<Seq<char>>::empty().insert(id@)
                    },
                ),
                ..old(self)@
            }),
    {
        let ghost p0 = self.hook_pending@;
        let ghost ks = pending_keys(p0);
        let ghost vs = p0.map_values(|x: (String, Vec<String>)| id_seq(x.1@).to_set());
        match self.pending_index(key) {
            Some(i) => {
                let mut list = self.hook_pending[i].1.clone();
                assert(list@ == p0[i as int].1@);
                proof {
                    assert(distinct_keys(id_seq(p0[i as int].1@)));
                    lemma_to_map_index(ks, vs, i as int);
                }
                match position_of(&list, &id) {
                    None => {
                        proof {
                            lemma_set_push(id_seq(list@), id@);
                        }
                        list.push(id);
                        proof {
                            assert(id_seq(list@) =~= id_seq(p0[i as int].1@).push(id@));
                        }
                    },
                    Some(j) => {
                        proof {
                            assert(id_seq(list@)[j as int] == id@);
                            assert(id_seq(list@).to_set().contains(id@));
                            assert(id_seq(list@).to_set().insert(id@) =~= id_seq(list@).to_set());
                        }
                    },
                }
                let ghost newset = id_seq(list@).to_set();
                self.hook_pending.set(i, (key.clone(), list));
                proof {
                    lemma_update(ks, vs, i as int, newset);
                    assert(pending_keys(self.hook_pending@) =~= ks);
                    assert(self.hook_pending@.map_values(
                        |x: (String, Vec<String>)| id_seq(x.1@).to_set(),
                    ) =~= vs.update(i as int, newset));
                    assert forall|t: int| 0 <= t < self.hook_pending@.len() implies distinct_keys(
                        #[trigger] id_seq(self.hook_pending@[t].1@),
                    ) by {
                        if t != i {
                            assert(self.hook_pending@[t] == p0[t]);
                        }
                    }
                }
            },
            None => {
                let mut list: Vec<String> = Vec::new();
                proof {
                    assert(id_seq(list@) =~= Seq::<Seq<char>>::empty());
                    lemma_set_push(id_seq(list@), id@);
                }
                list.push(id);
                proof {
                    assert(id_seq(list@) =~= Seq::<Seq<char>>::empty().push(id@));
                    lemma_set_empty(Seq::<Seq<char>>::empty());
                    lemma_push(ks, vs, key@, id_seq(list@).to_set());
                }
                self.hook_pending.push((key.clone(), list));
                proof {
                    assert(pending_keys(self.hook_pending@) =~= ks.push(key@));
                    assert(self.hook_pending@.map_values(
                        |x: (String, Vec<String>)| id_seq(x.1@).to_set(),
                    ) =~= vs.push(id_seq(list@).to_set()));
                    assert forall|t: int| 0 <= t < self.hook_pending@.len() implies distinct_keys(
                        #[trigger] id_seq(self.hook_pending@[t].1@),
                    ) by {
                        if t < p0.len() {
                            assert(self.hook_pending@[t] == p0[t]);
                        }
                    }
                }
            },
        }
    }

    /// Take `id` out of the pending set for `key`, returning whether it was
    /// there and whether the set is now empty.
    pub fn pending_resolve(&mut self, key: &String, id: &String) -> (r: (bool, bool))
        requires
            old(self).wf(),
            old(self)@.hook_pending.dom().contains(key@),
        ensures
            final(self).wf(),
            r.0 == old(self)@.hook_pending[key@].contains(id@),
            r.1 == (old(self)@.hook_pending[key@].remove(id@) == Set::<Seq<char>>::empty()),
            final(self)@ == (StoreView {
                hook_pending: old(self)@.hook_pending.insert(
                    key@,
                    old(self)@.hook_pending[key@].remove(id@),
                ),
                ..old(self)@
            }),
    {
        let ghost p0 = self.hook_pending@;
        let ghost ks = pending_keys(p0);
        let ghost vs = p0.map_values(|x: (String, Vec<String>)| id_seq(x.1@).to_set());
        let i = match self.pending_index(key) {
            Some(i) => i,
            None => {
                return (false, false);
            },
        };
        proof {
            lemma_to_map_index(ks, vs, i as int);
            assert(distinct_keys(id_seq(p0[i as int].1@)));
        }
        let mut list = self.hook_pending[i].1.clone();
        assert(list@ == p0[i as int].1@);
        let pos = position_of(&list, id);
        let removed = pos.is_some();
        match pos {
            Some(j) => {
                proof {
                    assert(id_seq(list@)[j as int] == id@);
                    lemma_set_remove(id_seq(list@), j as int);
                }
                list.remove(j);
                proof {
                    assert(id_seq(list@) =~= id_seq(p0[i as int].1@).remove(j as int));
                }
            },
            None => {
                proof {
                    assert(id_seq(list@).to_set().remove(id@) =~= id_seq(list@).to_set());
                }
            },
        }
        let empty = list.len() == 0;
        proof {
            lemma_set_empty(id_seq(list@));
        }
        let ghost newset = id_seq(list@).to_set();
        self.hook_pending.set(i, (key.clone(), list));
        proof {
            lemma_update(ks, vs, i as int, newset);
            assert(pending_keys(self.hook_pending@) =~= ks);
            assert(self.hook_pending@.map_values(|x: (String, Vec<String>)| id_seq(x.1@).to_set())
                =~= vs.update(i as int, newset));
            assert forall|t: int| 0 <= t < self.hook_pending@.len() implies distinct_keys(
                #[trigger] id_seq(self.hook_pending@[t].1@),
            ) by {
                if t != i {
                    assert(self.hook_pending@[t] == p0[t]);
                }
            }
        }
        (removed, empty)
    }

    /// Forget the pending set for `key`.
    pub fn pending_clear(&mut self, key: &String)
        requires
            old(self).wf(),
        ensures
            final(self).wf(),
            final(self)@ == (StoreView {
                hook_pending: old(self)@.hook_pending.remove(key@),
                ..old(self)@
            }),
    {
        let ghost p0 = self.hook_pending@;
        let ghost ks = pending_keys(p0);
        let ghost vs = p0.map_values(|x: (String, Vec<String>)| id_seq(x.1@).to_set());
        match self.pending_index(key) {
            Some(i) => {
                proof {
                    lemma_remove(ks, vs, i as int);
                }
                self.hook_pending.remove(i);
                proof {
                    assert(pending_keys(self.hook_pending@) =~= ks.remove(i as int));
                    assert(self.hook_pending@.map_values(
                        |x: (String, Vec<String>)| id_seq(x.1@).to_set(),
                    ) =~= vs.remove(i as int));
                    assert forall|t: int| 0 <= t < self.hook_pending@.len() implies distinct_keys(
                        #[trigger] id_seq(self.hook_pending@[t].1@),
                    ) by {
                        if t < i {
                            assert(self.hook_pending@[t] == p0[t]);
                        } else {
                            assert(self.hook_pending@[t] == p0[t + 1]);
                        }
                    }
                }
            },
            None => {
                assert(old(self)@.hook_pending.remove(key@) =~= old(self)@.hook_pending);
            },
        }
    }

    /// Drop the session with id `id` (if resident) and bump the revision.
    pub fn remove(&mut self, id: &String)
        requires
            old(self).wf(),
            old(self).revision < u64::MAX,
        ensures
            final(self).wf(),
            final(self)@ == (StoreView {
                sessions: old(self)@.sessions.remove(id@),
                revision: (old(self)@.revision + 1) as u64,
                ..old(self)@
            }),
    {
        let ghost old_sessions = self.sessions@;
        match self.index_of(id) {
            Some(i) => {
                self.sessions.remove(i);
                proof {
                    lemma_remove(ids(old_sessions), views(old_sessions), i as int);
                    assert(ids(self.sessions@) =~= ids(old_sessions).remove(i as int));
                    assert(views(self.sessions@) =~= views(old_sessions).remove(i as int));
                }
            },
            None => {
                assert(old(self)@.sessions.remove(id@) =~= old(self)@.sessions);
            },
        }
        self.revision = self.revision + 1;
    }
}

/// A session observed at `now` is never evicted at `now`.
pub proof fn sessions_observed_now_stay(m: Map<Seq<char>, SessionView>, now: i128, max_idle: i128, k: Seq<char>)
    requires
        m.dom().contains(k),
        m[k].last_event_at == now,
        max_idle >= 0,
    ensures
        fresh_part(m, now, max_idle).dom().contains(k),
{
}

/// A session a snapshot shows as a live recent observation is not evicted
/// at the same instant by any idle window of a minute or more: the window
/// of days cannot remove what the dashboard calls live.
pub proof fn live_sessions_are_never_evicted(m: Map<Seq<char>, SessionView>, now: i128, max_idle: i128, k: Seq<char>)
    requires
        m.dom().contains(k),
        m[k].observation == "recent"@,
        downgrade(m[k], now).live,
        max_idle >= 60_999_999_999,
    ensures
        fresh_part(m, now, max_idle).dom().contains(k),
{
}

/// After eviction every resident session was observed within the window,
/// so the live store holds no more sessions than the window saw.
pub proof fn eviction_bounds_the_store(m: Map<Seq<char>, SessionView>, now: i128, max_idle: i128)
    ensures
        forall|k: Seq<char>| #[trigger] fresh_part(m, now, max_idle).dom().contains(k) ==> now
            - fresh_part(m, now, max_idle)[k].last_event_at <= max_idle,
        forall|k: Seq<char>| #[trigger] fresh_part(m, now, max_idle).dom().contains(k) ==> m.dom().contains(k)
            && fresh_part(m, now, max_idle)[k] == m[k],
{
}

/// Restoring history never makes a session live: if nothing resident was
/// live, nothing is after the restore.
pub proof fn restore_never_makes_sessions_live(
    m: Map<Seq<char>, SessionView>,
    input: Seq<SessionView>,
    now: i128,
    max_idle: i128,
)
    requires
        forall|k: Seq<char>| #[trigger] m.dom().contains(k) ==> !m[k].live,
    ensures
        forall|k: Seq<char>| #[trigger] restore_into(m, input, now, max_idle).dom().contains(k)
            ==> !restore_into(m, input, now, max_idle)[k].live,
    decreases input.len(),
{
    if input.len() > 0 {
        restore_never_makes_sessions_live(m, input.drop_last(), now, max_idle);
    }
}

/// Restoring admits only sessions inside the idle window: every session
/// the restore adds was observed within it.
pub proof fn restore_admits_only_fresh_sessions(
    m: Map<Seq<char>, SessionView>,
    input: Seq<SessionView>,
    now: i128,
    max_idle: i128,
    k: Seq<char>,
)
    requires
        restore_into(m, input, now, max_idle).dom().contains(k),
        !m.dom().contains(k),
    ensures
        !idle_past(restore_into(m, input, now, max_idle)[k], now, max_idle),
    decreases input.len(),
{
    if input.len() > 0 {
        let prev = restore_into(m, input.drop_last(), now, max_idle);
        let s = input.last();
        if idle_past(s, now, max_idle) || s.id != k {
            restore_admits_only_fresh_sessions(m, input.drop_last(), now, max_idle, k);
        }
    }
}

/// The legacy hook event names the reducer tells apart.
proof fn lemma_hook_names_distinct()
    ensures
        "SessionStart"@ != "UserPromptSubmit"@,
        "SessionStart"@ != "PreToolUse"@,
        "SessionStart"@ != "PostToolUse"@,
        "SessionStart"@ != "PermissionRequest"@,
        "SessionStart"@ != "Notification"@,
        "SessionStart"@ != "Stop"@,
        "SessionStart"@ != "StopFailure"@,
        "SessionStart"@ != "SessionEnd"@,
        "UserPromptSubmit"@ != "PreToolUse"@,
        "UserPromptSubmit"@ != "PostToolUse"@,
        "UserPromptSubmit"@ != "PermissionRequest"@,
        "UserPromptSubmit"@ != "Notification"@,
        "UserPromptSubmit"@ != "Stop"@,
        "UserPromptSubmit"@ != "StopFailure"@,
        "UserPromptSubmit"@ != "SessionEnd"@,
        "PreToolUse"@ != "PostToolUse"@,
        "PreToolUse"@ != "PermissionRequest"@,
        "PreToolUse"@ != "Notification"@,
        "PreToolUse"@ != "Stop"@,
        "PreToolUse"@ != "StopFailure"@,
        "PreToolUse"@ != "SessionEnd"@,
        "PostToolUse"@ != "PermissionRequest"@,
        "PostToolUse"@ != "Notification"@,
        "PostToolUse"@ != "Stop"@,
        "PostToolUse"@ != "StopFailure"@,
        "PostToolUse"@ != "SessionEnd"@,
        "PermissionRequest"@ != "Notification"@,
        "PermissionRequest"@ != "Stop"@,
        "PermissionRequest"@ != "StopFailure"@,
        "PermissionRequest"@ != "SessionEnd"@,
        "Notification"@ != "Stop"@,
        "Notification"@ != "StopFailure"@,
        "Notification"@ != "SessionEnd"@,
        "Stop"@ != "StopFailure"@,
        "Stop"@ != "SessionEnd"@,
        "StopFailure"@ != "SessionEnd"@,
{
    reveal_strlit("SessionStart");
    reveal_strlit("UserPromptSubmit");
    reveal_strlit("PreToolUse");
    reveal_strlit("PostToolUse");
    reveal_strlit("PermissionRequest");
    reveal_strlit("Notification");
    reveal_strlit("Stop");
    reveal_strlit("StopFailure");
    reveal_strlit("SessionEnd");
    assert("SessionStart"@.len() != "UserPromptSubmit"@.len());
    assert("SessionStart"@.len() != "PreToolUse"@.len());
    assert("SessionStart"@.len() != "PostToolUse"@.len());
    assert("SessionStart"@.len() != "PermissionRequest"@.len());
    assert("SessionStart"@[0] != "Notification"@[0]);
    assert("SessionStart"@.len() != "Stop"@.len());
    assert("SessionStart"@.len() != "StopFailure"@.len());
    assert("SessionStart"@.len() != "SessionEnd"@.len());
    assert("UserPromptSubmit"@.len() != "PreToolUse"@.len());
    assert("UserPromptSubmit"@.len() != "PostToolUse"@.len());
    assert("UserPromptSubmit"@.len() != "PermissionRequest"@.len());
    assert("UserPromptSubmit"@.len() != "Notification"@.len());
    assert("UserPromptSubmit"@.len() != "Stop"@.len());
    assert("UserPromptSubmit"@.len() != "StopFailure"@.len());
    assert("UserPromptSubmit"@.len() != "SessionEnd"@.len());
    assert("PreToolUse"@.len() != "PostToolUse"@.len());
    assert("PreToolUse"@.len() != "PermissionRequest"@.len());
    assert("PreToolUse"@.len() != "Notification"@.len());
    assert("PreToolUse"@.len() != "Stop"@.len());
    assert("PreToolUse"@.len() != "StopFailure"@.len());
    assert("PreToolUse"@[0] != "SessionEnd"@[0]);
    assert("PostToolUse"@.len() != "PermissionRequest"@.len());
    assert("PostToolUse"@.len() != "Notification"@.len());
    assert("PostToolUse"@.len() != "Stop"@.len());
    assert("PostToolUse"@[0] != "StopFailure"@[0]);
    assert("PostToolUse"@.len() != "SessionEnd"@.len());
    assert("PermissionRequest"@.len() != "Notification"@.len());
    assert("PermissionRequest"@.len() != "Stop"@.len());
    assert("PermissionRequest"@.len() != "StopFailure"@.len());
    assert("PermissionRequest"@.len() != "SessionEnd"@.len());
    assert("Notification"@.len() != "Stop"@.len());
    assert("Notification"@.len() != "StopFailure"@.len());
    assert("Notification"@.len() != "SessionEnd"@.len());
    assert("Stop"@.len() != "StopFailure"@.len());
    assert("Stop"@.len() != "SessionEnd"@.len());
    assert("StopFailure"@.len() != "SessionEnd"@.len());
}
/// The notification kinds the reducer tells apart.
proof fn lemma_notification_kinds_distinct()
    ensures
        "permission_prompt"@ != "idle_prompt"@,
{
    reveal_strlit("permission_prompt");
    reveal_strlit("idle_prompt");
    assert("permission_prompt"@.len() != "idle_prompt"@.len());
}

/// What a legacy hook payload does to its session: the session is live and
/// last seen now; `SessionStart` leaves it idle, a prompt
/// (`UserPromptSubmit`) working and counted, a tool call or result working,
/// a permission request blocked, a finished turn (`Stop`) idle and counted,
/// a failed one errored, and `SessionEnd` ended with the payload's reason
/// as its activity. A notification blocks on a permission prompt and idles
/// on an idle prompt. Every other session is left as it was.
pub proof fn legacy_hooks_set_status(st: StoreView, p: HookPayload, now: i128, other: Seq<char>)
    requires
        other != p.session_id@,
        st.sessions.dom().contains(p.session_id@) && p.hook_event_name@ == "UserPromptSubmit"@
            ==> st.sessions[p.session_id@].user_messages < u32::MAX,
        st.sessions.dom().contains(p.session_id@) && p.hook_event_name@ == "Stop"@
            ==> st.sessions[p.session_id@].assistant_messages < u32::MAX,
    ensures
        ({
            let k = p.session_id@;
            let after = hook_result(st, p, now).sessions;
            let s = after[k];
            let name = p.hook_event_name@;
            let resident = st.sessions.dom().contains(k);
            let users = if resident { st.sessions[k].user_messages as int } else { 0 };
            let replies = if resident { st.sessions[k].assistant_messages as int } else { 0 };
            let notice = opt_view(p.notification_type);
            &&& after.dom().contains(k)
            &&& s.live
            &&& s.last_event_at == now
            &&& (after.dom().contains(other) <==> st.sessions.dom().contains(other))
            &&& (st.sessions.dom().contains(other) ==> after[other] == st.sessions[other])
            &&& (name == "SessionStart"@ ==> s.status == SessionStatus::Idle && s.blocked_on is None
                && s.started_at is Some)
            &&& (name == "UserPromptSubmit"@ ==> s.status == SessionStatus::Working && s.activity == Some(
                "Thinking"@,
            ) && s.user_messages == users + 1)
            &&& (name == "PreToolUse"@ ==> s.status == SessionStatus::Working && s.blocked_on is None)
            &&& (name == "PostToolUse"@ ==> s.status == SessionStatus::Working && s.activity == Some(
                "Thinking"@,
            ))
            &&& (name == "PermissionRequest"@ ==> s.status == SessionStatus::Blocked)
            &&& (name == "Notification"@ && notice == Some("permission_prompt"@) ==> s.status
                == SessionStatus::Blocked && s.blocked_on == opt_view(p.message))
            &&& (name == "Notification"@ && notice == Some("idle_prompt"@) ==> s.status
                == SessionStatus::Idle)
            &&& (name == "Stop"@ ==> s.status == SessionStatus::Idle && s.activity is None && s.blocked_on
                is None && s.assistant_messages == replies + 1)
            &&& (name == "StopFailure"@ ==> s.status == SessionStatus::Errored)
            &&& (name == "SessionEnd"@ ==> s.status == SessionStatus::Ended && s.activity == opt_view(
                p.reason,
            ) && s.blocked_on is None)
        }),
{
    lemma_hook_names_distinct();
    lemma_notification_kinds_distinct();
}


/// A snapshot lists the most recently observed sessions first; among those
/// last seen at the same instant, blocked sessions come first, then errored,
/// working, idle, unknown, and ended ones last.
pub proof fn snapshots_put_recent_and_waiting_sessions_first(r: Snapshot, st: StoreView, now: i128, i: int, j: int)
    requires
        is_snapshot_of(r, st, now),
        0 <= i < j < r.sessions@.len(),
    ensures
        ({
            let a = r.sessions@[i];
            let b = r.sessions@[j];
            &&& a.last_event_at >= b.last_event_at
            &&& a.last_event_at == b.last_event_at ==> {
                &&& b.status == SessionStatus::Blocked ==> a.status == SessionStatus::Blocked
                &&& b.status == SessionStatus::Errored ==> (a.status == SessionStatus::Blocked || a.status
                    == SessionStatus::Errored)
                &&& b.status == SessionStatus::Working ==> (a.status == SessionStatus::Blocked || a.status
                    == SessionStatus::Errored || a.status == SessionStatus::Working)
                &&& b.status == SessionStatus::Idle ==> a.status != SessionStatus::Unknown && a.status
                    != SessionStatus::Ended
                &&& b.status == SessionStatus::Unknown ==> a.status != SessionStatus::Ended
            }
        }),
{
    assert(shown_before(views(r.sessions@)[i], views(r.sessions@)[j]));
}

/// A snapshot shows a session whose recent observation is a minute old or
/// more (61 seconds and up, as whole seconds go) as stale and not live, and
/// every other session as it is stored.
pub proof fn snapshots_mark_old_observations_stale(r: Snapshot, st: StoreView, now: i128, k: Seq<char>)
    requires
        is_snapshot_of(r, st, now),
        st.sessions.dom().contains(k),
    ensures
        ({
            let s = st.sessions[k];
            let shown = session_map(r.sessions@)[k];
            let old_recent = s.observation == "recent"@ && now - s.last_event_at >= 61_000_000_000;
            &&& session_map(r.sessions@).dom().contains(k)
            &&& (old_recent ==> shown.observation == "stale"@ && !shown.live && shown.status == s.status
                && shown.last_event_at == s.last_event_at)
            &&& (!old_recent ==> shown == s)
        }),
{
    let s = st.sessions[k];
    let d = now - s.last_event_at;
    if d >= 61_000_000_000 {
        assert(d / 1_000_000_000 > 60) by (nonlinear_arith)
            requires
                d >= 61_000_000_000,
        ;
    } else if d >= 0 {
        assert(d / 1_000_000_000 <= 60) by (nonlinear_arith)
            requires
                0 <= d < 61_000_000_000,
        ;
    } else {
        assert((-d) / 1_000_000_000 >= 0) by (nonlinear_arith)
            requires
                -d > 0,
        ;
    }
    assert(session_map(r.sessions@)[k] == st.sessions.map_values(|v: SessionView| downgrade(v, now))[k]);
}


} // verus!
