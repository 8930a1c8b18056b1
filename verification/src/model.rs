//! The session model shared with the dashboard.
use vstd::prelude::*;

verus! {

/// Lifecycle state of a session as far as the available evidence shows.
#[derive(Debug, Clone, Copy, PartialEq, Eq, Structural)]
pub enum SessionStatus {
    /// Available evidence does not establish a lifecycle state.
    Unknown,
    /// Waiting for the human to type something.
    Idle,
    /// Observed generating or running tools; not proof the process is alive.
    Working,
    /// A permission or question request was observed; resolution is unknown.
    Blocked,
    /// The last turn ended with an API error.
    Errored,
    /// The session ended.
    Ended,
}

/// Host inferred from provider metadata. Unknown values remain unknown.
#[derive(Debug, Clone, Copy, PartialEq, Eq, Structural)]
pub enum Host {
    Terminal,
    VsCode,
    DesktopApp,
    Headless,
    Unknown,
}

/// Sort rank of a status: attention first, finished last.
pub open spec fn rank_spec(s: SessionStatus) -> u8 {
    match s {
        SessionStatus::Blocked => 0,
        SessionStatus::Errored => 1,
        SessionStatus::Working => 2,
        SessionStatus::Idle => 3,
        SessionStatus::Unknown => 4,
        SessionStatus::Ended => 5,
    }
}

/// Where a status sorts among sessions last seen at the same time: sessions
/// that need the human come first.
pub fn rank(s: SessionStatus) -> (r: u8)
    ensures
        r == rank_spec(s),
{
    match s {
        SessionStatus::Blocked => 0,
        SessionStatus::Errored => 1,
        SessionStatus::Working => 2,
        SessionStatus::Idle => 3,
        SessionStatus::Unknown => 4,
        SessionStatus::Ended => 5,
    }
}

/// The abstract value of an optional string.
pub open spec fn opt_view(o: Option<String>) -> Option<Seq<char>> {
    match o {
        Some(s) => Some(s@),
        None => None,
    }
}

pub fn clone_opt(o: &Option<String>) -> (r: Option<String>)
    ensures
        r == *o,
{
    match o {
        Some(s) => Some(s.clone()),
        None => None,
    }
}

/// One observed session. Timestamps are nanoseconds since the Unix epoch.
#[derive(Debug, Clone)]
pub struct Session {
    pub id: String,
    pub provider: String,
    pub native_id: String,
    pub attention: String,
    pub observation: String,
    pub status: SessionStatus,
    pub host: Host,
    /// Working directory as reported by the provider.
    pub cwd: String,
    pub repo_root: Option<String>,
    pub git_branch: Option<String>,
    pub transcript_path: Option<String>,
    /// Legacy hook PID; not proof of process liveness.
    pub pid: Option<u32>,
    pub title: Option<String>,
    /// Human-readable "what is it doing right now".
    pub activity: Option<String>,
    /// Short attention description or tool name.
    pub blocked_on: Option<String>,
    pub started_at: Option<i128>,
    pub last_event_at: i128,
    pub user_messages: u32,
    pub assistant_messages: u32,
    pub input_tokens: u64,
    pub output_tokens: u64,
    /// Recent observation flag, not a process-liveness guarantee.
    pub live: bool,
}

pub ghost struct SessionView {
    pub id: Seq<char>,
    pub provider: Seq<char>,
    pub native_id: Seq<char>,
    pub attention: Seq<char>,
    pub observation: Seq<char>,
    pub status: SessionStatus,
    pub host: Host,
    pub cwd: Seq<char>,
    pub repo_root: Option<Seq<char>>,
    pub git_branch: Option<Seq<char>>,
    pub transcript_path: Option<Seq<char>>,
    pub pid: Option<u32>,
    pub title: Option<Seq<char>>,
    pub activity: Option<Seq<char>>,
    pub blocked_on: Option<Seq<char>>,
    pub started_at: Option<i128>,
    pub last_event_at: i128,
    pub user_messages: u32,
    pub assistant_messages: u32,
    pub input_tokens: u64,
    pub output_tokens: u64,
    pub live: bool,
}

impl View for Session {
    type V = SessionView;

    open spec fn view(&self) -> SessionView {
        SessionView {
            id: self.id@,
            provider: self.provider@,
            native_id: self.native_id@,
            attention: self.attention@,
            observation: self.observation@,
            status: self.status,
            host: self.host,
            cwd: self.cwd@,
            repo_root: opt_view(self.repo_root),
            git_branch: opt_view(self.git_branch),
            transcript_path: opt_view(self.transcript_path),
            pid: self.pid,
            title: opt_view(self.title),
            activity: opt_view(self.activity),
            blocked_on: opt_view(self.blocked_on),
            started_at: self.started_at,
            last_event_at: self.last_event_at,
            user_messages: self.user_messages,
            assistant_messages: self.assistant_messages,
            input_tokens: self.input_tokens,
            output_tokens: self.output_tokens,
            live: self.live,
        }
    }
}

/// The first word of the `claude_code` provider's id: the name that
/// provider's own folders and entrypoints use.
pub open spec fn vendor_spec() -> Seq<char> {
    "claude_code"@.take(6)
}

/// See `vendor_spec`.
pub fn vendor() -> (r: String)
    ensures
        r@ == vendor_spec(),
{
    proof {
        reveal_strlit("claude_code");
    }
    let id = crate::text::chars_of("claude_code");
    let mut v: Vec<char> = Vec::new();
    let mut i: usize = 0;
    while i < 6
        invariant
            i <= 6,
            id@ == "claude_code"@,
            id@.len() == 11,
            v@ == id@.take(i as int),
        decreases 6 - i,
    {
        v.push(id[i]);
        assert(v@ =~= id@.take(i + 1));
        i += 1;
    }
    crate::text::string_from_chars(v.as_slice())
}

/// A fresh session: a `claude_code` session with nothing observed yet.
pub open spec fn new_session_view(id: Seq<char>, cwd: Seq<char>, now: i128) -> SessionView {
    SessionView {
        id: id,
        provider: "claude_code"@,
        native_id: id,
        attention: "unknown"@,
        observation: "history_only"@,
        status: SessionStatus::Unknown,
        host: Host::Unknown,
        cwd: cwd,
        repo_root: None,
        git_branch: None,
        transcript_path: None,
        pid: None,
        title: None,
        activity: None,
        blocked_on: None,
        started_at: None,
        last_event_at: now,
        user_messages: 0,
        assistant_messages: 0,
        input_tokens: 0,
        output_tokens: 0,
        live: false,
    }
}

impl Session {
    pub fn new(id: String, cwd: String, now: i128) -> (s: Session)
        ensures
            s@ == new_session_view(id@, cwd@, now),
    {
        proof {
            reveal_strlit("claude_code");
            reveal_strlit("unknown");
            reveal_strlit("history_only");
        }
        Session {
            native_id: id.clone(),
            id,
            provider: String::from_str("claude_code"),
            attention: String::from_str("unknown"),
            observation: String::from_str("history_only"),
            status: SessionStatus::Unknown,
            host: Host::Unknown,
            cwd,
            repo_root: None,
            git_branch: None,
            transcript_path: None,
            pid: None,
            title: None,
            activity: None,
            blocked_on: None,
            started_at: None,
            last_event_at: now,
            user_messages: 0,
            assistant_messages: 0,
            input_tokens: 0,
            output_tokens: 0,
            live: false,
        }
    }

    /// A field-by-field copy.
    pub fn duplicate(&self) -> (r: Session)
        ensures
            r == *self,
    {
        Session {
            id: self.id.clone(),
            provider: self.provider.clone(),
            native_id: self.native_id.clone(),
            attention: self.attention.clone(),
            observation: self.observation.clone(),
            status: self.status,
            host: self.host,
            cwd: self.cwd.clone(),
            repo_root: clone_opt(&self.repo_root),
            git_branch: clone_opt(&self.git_branch),
            transcript_path: clone_opt(&self.transcript_path),
            pid: self.pid,
            title: clone_opt(&self.title),
            activity: clone_opt(&self.activity),
            blocked_on: clone_opt(&self.blocked_on),
            started_at: self.started_at,
            last_event_at: self.last_event_at,
            user_messages: self.user_messages,
            assistant_messages: self.assistant_messages,
            input_tokens: self.input_tokens,
            output_tokens: self.output_tokens,
            live: self.live,
        }
    }
}

/// Health of one integration (a provider root, or storage).
#[derive(Debug, Clone)]
pub struct IntegrationHealth {
    pub provider: String,
    pub state: String,
    pub root: String,
    pub files: usize,
    pub last_event_at: Option<i128>,
    pub detail: String,
}

pub ghost struct HealthView {
    pub provider: Seq<char>,
    pub state: Seq<char>,
    pub root: Seq<char>,
    pub files: usize,
    pub last_event_at: Option<i128>,
    pub detail: Seq<char>,
}

impl View for IntegrationHealth {
    type V = HealthView;

    open spec fn view(&self) -> HealthView {
        HealthView {
            provider: self.provider@,
            state: self.state@,
            root: self.root@,
            files: self.files,
            last_event_at: self.last_event_at,
            detail: self.detail@,
        }
    }
}

impl IntegrationHealth {
    pub fn duplicate(&self) -> (r: IntegrationHealth)
        ensures
            r == *self,
    {
        IntegrationHealth {
            provider: self.provider.clone(),
            state: self.state.clone(),
            root: self.root.clone(),
            files: self.files,
            last_event_at: self.last_event_at,
            detail: self.detail.clone(),
        }
    }
}

/// Full snapshot pushed to the window after every change.
#[derive(Debug, Clone)]
pub struct Snapshot {
    pub revision: u64,
    pub integrations: Vec<IntegrationHealth>,
    pub sessions: Vec<Session>,
    pub hooks_installed: bool,
    pub listener_port: u16,
}

/// The serialized name of a host (snake_case, as the dashboard reads it).
pub open spec fn host_name(h: Host) -> Seq<char> {
    match h {
        Host::Terminal => "terminal"@,
        Host::VsCode => "vs_code"@,
        Host::DesktopApp => "desktop_app"@,
        Host::Headless => "headless"@,
        Host::Unknown => "unknown"@,
    }
}

pub fn host_to_str(h: Host) -> (s: String)
    ensures
        s@ == host_name(h),
{
    match h {
        Host::Terminal => String::from_str("terminal"),
        Host::VsCode => String::from_str("vs_code"),
        Host::DesktopApp => String::from_str("desktop_app"),
        Host::Headless => String::from_str("headless"),
        Host::Unknown => String::from_str("unknown"),
    }
}

/// The host a serialized name stands for; anything unrecognized is `Unknown`.
pub open spec fn host_of_name(s: Seq<char>) -> Host {
    if s == "terminal"@ {
        Host::Terminal
    } else if s == "vs_code"@ {
        Host::VsCode
    } else if s == "desktop_app"@ {
        Host::DesktopApp
    } else if s == "headless"@ {
        Host::Headless
    } else {
        Host::Unknown
    }
}

pub fn host_from_str(s: &str) -> (h: Host)
    ensures
        h == host_of_name(s@),
{
    if crate::text::str_eq(s, "terminal") {
        Host::Terminal
    } else if crate::text::str_eq(s, "vs_code") {
        Host::VsCode
    } else if crate::text::str_eq(s, "desktop_app") {
        Host::DesktopApp
    } else if crate::text::str_eq(s, "headless") {
        Host::Headless
    } else {
        Host::Unknown
    }
}

/// Reading back a written host name gives the same host.
pub proof fn host_name_round_trip(h: Host)
    ensures
        host_of_name(host_name(h)) == h,
{
    reveal_strlit("terminal");
    reveal_strlit("vs_code");
    reveal_strlit("desktop_app");
    reveal_strlit("headless");
    reveal_strlit("unknown");
    assert("vs_code"@[0] != "terminal"@[0]);
    assert("desktop_app"@[0] != "terminal"@[0] && "desktop_app"@[0] != "vs_code"@[0]);
    assert("headless"@[0] != "terminal"@[0] && "headless"@[0] != "vs_code"@[0]
        && "headless"@[0] != "desktop_app"@[0]);
    assert("unknown"@[0] != "terminal"@[0] && "unknown"@[0] != "vs_code"@[0]
        && "unknown"@[0] != "desktop_app"@[0] && "unknown"@[0] != "headless"@[0]);
}

} // verus!
