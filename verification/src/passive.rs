//! Read-only adapters for externally owned session logs: the record
//! adapters, the reducer that folds their observations into the store, and
//! the per-file read cursors. No provider commands or settings writes.
use vstd::prelude::*;

use crate::clock::{elapsed_seconds, parsed_instant, seconds_between};
use crate::model::{clone_opt, vendor, vendor_spec, new_session_view, opt_view, Host, Session, SessionStatus, SessionView};
use crate::state::{Store, StoreView};
use crate::text::{ascii_lowercase, chars_of, contains, contains_seq, is_control, is_control_spec, lower_seq, str_eq, string_from_chars};

verus! {

/// The members of a record's `payload` object (Codex) that the adapters read.
/// Each is the member's text when it is a JSON string, else `None`.
#[derive(Debug, Clone, Default)]
pub struct RecordPayload {
    pub kind: Option<String>,
    pub id: Option<String>,
    pub originator: Option<String>,
    pub source: Option<String>,
    pub name: Option<String>,
    pub role: Option<String>,
    pub cwd: Option<String>,
}

/// The members of one transcript line (a JSON object) that the adapters read.
/// Text members are `Some` only when they are JSON strings, flags only when
/// they are JSON booleans.
#[derive(Debug, Clone, Default)]
pub struct TranscriptRecord {
    /// `type`.
    pub kind: Option<String>,
    pub timestamp: Option<String>,
    pub cwd: Option<String>,
    /// `sessionId` (`claude_code`).
    pub session_id: Option<String>,
    /// `isSidechain` (`claude_code`).
    pub is_sidechain: Option<bool>,
    /// `isMeta` (`claude_code`).
    pub is_meta: Option<bool>,
    /// `entrypoint` (`claude_code`).
    pub entrypoint: Option<String>,
    /// The first block of `message.content` whose `type` is `"tool_use"`,
    /// if there is one, by its `name`.
    pub tool_use: Option<Option<String>>,
    /// `message.stop_reason`.
    pub stop_reason: Option<String>,
    pub payload: RecordPayload,
}

/// Whether a content block's `type` is `"tool_use"`.
pub open spec fn is_tool_use_block(b: (Option<String>, Option<String>)) -> bool {
    b.0 matches Some(k) && k@ == "tool_use"@
}

/// The first of `blocks` (each its `type` and its `name`, when they are
/// strings) whose type is `"tool_use"`, by its name; `None` when no block
/// is one.
pub open spec fn first_tool_use_spec(blocks: Seq<(Option<String>, Option<String>)>) -> Option<Option<String>>
    decreases blocks.len(),
{
    if blocks.len() == 0 {
        None
    } else if is_tool_use_block(blocks[0]) {
        Some(blocks[0].1)
    } else {
        first_tool_use_spec(blocks.drop_first())
    }
}

/// The first block of a `message.content` array whose `type` is
/// `"tool_use"`, by its `name`; see `first_tool_use_spec`.
pub fn first_tool_use(blocks: &Vec<(Option<String>, Option<String>)>) -> (r: Option<Option<String>>)
    ensures
        r == first_tool_use_spec(blocks@),
{
    let mut i: usize = 0;
    assert(blocks@.skip(0) =~= blocks@);
    while i < blocks.len()
        invariant
            i <= blocks@.len(),
            first_tool_use_spec(blocks@) == first_tool_use_spec(blocks@.skip(i as int)),
        decreases blocks@.len() - i,
    {
        assert(blocks@.skip(i as int)[0] == blocks@[i as int]);
        assert(blocks@.skip(i as int).drop_first() =~= blocks@.skip(i + 1));
        let is_tool = match &blocks[i].0 {
            Some(k) => str_eq(k.as_str(), "tool_use"),
            None => false,
        };
        if is_tool {
            return Some(clone_opt(&blocks[i].1));
        }
        i += 1;
    }
    assert(blocks@.skip(i as int).len() == 0);
    None
}

/// What an adapter makes of one record.
#[derive(Debug, Clone)]
pub struct Observation {
    pub id: String,
    pub at: i128,
    pub cwd: Option<String>,
    pub status: SessionStatus,
    pub activity: String,
    pub attention: String,
    pub host: Option<Host>,
}

/// `s` without its control characters.
pub open spec fn visible_chars(s: Seq<char>) -> Seq<char>
    decreases s.len(),
{
    if s.len() == 0 {
        s
    } else if is_control_spec(s.last()) {
        visible_chars(s.drop_last())
    } else {
        visible_chars(s.drop_last()).push(s.last())
    }
}

pub open spec fn take_at_most(s: Seq<char>, n: nat) -> Seq<char> {
    if s.len() <= n {
        s
    } else {
        s.take(n as int)
    }
}

/// A tool name fit for display: "unknown" when missing, control characters
/// removed, at most 80 characters.
pub open spec fn safe_name_spec(name: Option<Seq<char>>) -> Seq<char> {
    take_at_most(
        visible_chars(
            match name {
                Some(n) => n,
                None => "unknown"@,
            },
        ),
        80,
    )
}

/// A tool name fit for the activity line.
pub fn safe_name(name: Option<&str>) -> (r: String)
    ensures
        r@ == safe_name_spec(
            match name {
                Some(n) => Some(n@),
                None => None,
            },
        ),
{
    let src = match name {
        Some(n) => chars_of(n),
        None => chars_of("unknown"),
    };
    let mut out: Vec<char> = Vec::new();
    let mut i: usize = 0;
    while i < src.len()
        invariant
            i <= src@.len(),
            out@ == take_at_most(visible_chars(src@.take(i as int)), 80),
        decreases src@.len() - i,
    {
        let c = src[i];
        proof {
            assert(src@.take(i + 1).drop_last() =~= src@.take(i as int));
        }
        if !is_control(c) && out.len() < 80 {
            out.push(c);
        }
        i += 1;
        proof {
            let prev = visible_chars(src@.take(i - 1));
            if !is_control_spec(c) {
                if prev.len() < 80 {
                    assert(out@ =~= prev.push(c));
                } else {
                    assert(prev.push(c).take(80) =~= prev.take(80));
                }
            }
        }
    }
    proof {
        assert(src@.take(src@.len() as int) =~= src@);
    }
    string_from_chars(out.as_slice())
}

/// The host Codex's self-reported `session_meta` names. Missing or
/// unfamiliar values remain unknown.
pub open spec fn codex_host(originator: Seq<char>, source: Seq<char>) -> Host {
    let o = lower_seq(originator);
    let s = lower_seq(source);
    if contains_seq(o, "vscode"@) || contains_seq(s, "vscode"@) {
        Host::VsCode
    } else if contains_seq(o, "desktop"@) {
        Host::DesktopApp
    } else if o == "codex_exec"@ || s == "exec"@ {
        Host::Headless
    } else if o == "codex_cli_rs"@ || s == "cli"@ {
        Host::Terminal
    } else {
        Host::Unknown
    }
}

pub open spec fn text_or_empty(o: Option<Seq<char>>) -> Seq<char> {
    match o {
        Some(s) => s,
        None => Seq::<char>::empty(),
    }
}

fn chars_or_empty(o: Option<&str>) -> (r: Vec<char>)
    ensures
        r@ == text_or_empty(
            match o {
                Some(s) => Some(s@),
                None => None,
            },
        ),
{
    match o {
        Some(s) => chars_of(s),
        None => Vec::new(),
    }
}

/// The host a Codex `session_meta` record reports, from its `originator` and
/// `source` (matched without regard to ASCII case).
pub fn infer_codex_host(originator: Option<&str>, source: Option<&str>) -> (r: Host)
    ensures
        r == codex_host(
            text_or_empty(
                match originator {
                    Some(s) => Some(s@),
                    None => None,
                },
            ),
            text_or_empty(
                match source {
                    Some(s) => Some(s@),
                    None => None,
                },
            ),
        ),
{
    let o = ascii_lowercase(chars_or_empty(originator).as_slice());
    let s = ascii_lowercase(chars_or_empty(source).as_slice());
    let vscode = chars_of("vscode");
    let desktop = chars_of("desktop");
    let codex_exec = chars_of("codex_exec");
    let exec = chars_of("exec");
    let codex_cli_rs = chars_of("codex_cli_rs");
    let cli = chars_of("cli");
    if contains(o.as_slice(), vscode.as_slice()) || contains(s.as_slice(), vscode.as_slice()) {
        Host::VsCode
    } else if contains(o.as_slice(), desktop.as_slice()) {
        Host::DesktopApp
    } else if crate::text::seq_eq(o.as_slice(), codex_exec.as_slice()) || crate::text::seq_eq(
        s.as_slice(),
        exec.as_slice(),
    ) {
        Host::Headless
    } else if crate::text::seq_eq(o.as_slice(), codex_cli_rs.as_slice()) || crate::text::seq_eq(
        s.as_slice(),
        cli.as_slice(),
    ) {
        Host::Terminal
    } else {
        Host::Unknown
    }
}

pub ghost struct ObservationView {
    pub id: Seq<char>,
    pub at: i128,
    pub cwd: Option<Seq<char>>,
    pub status: SessionStatus,
    pub activity: Seq<char>,
    pub attention: Seq<char>,
    pub host: Option<Host>,
}

impl View for Observation {
    type V = ObservationView;

    open spec fn view(&self) -> ObservationView {
        ObservationView {
            id: self.id@,
            at: self.at,
            cwd: opt_view(self.cwd),
            status: self.status,
            activity: self.activity@,
            attention: self.attention@,
            host: self.host,
        }
    }
}

pub open spec fn in2(x: Seq<char>, a: Seq<char>, b: Seq<char>) -> bool {
    x == a || x == b
}

pub open spec fn in3(x: Seq<char>, a: Seq<char>, b: Seq<char>, c: Seq<char>) -> bool {
    x == a || x == b || x == c
}

/// What a Codex record of type `kind` says: a status and an activity line,
/// or `None` for records that say nothing about the lifecycle.
pub open spec fn codex_reading(kind: Seq<char>, p: RecordPayload) -> Option<(SessionStatus, Seq<char>)> {
    let sub = text_or_empty(opt_view(p.kind));
    if kind == "session_meta"@ {
        Some((SessionStatus::Unknown, "Session discovered"@))
    } else if kind == "turn_context"@ {
        Some((SessionStatus::Working, "Turn context updated"@))
    } else if kind == "event_msg"@ && in3(sub, "task_started"@, "turn_started"@, "user_message"@) {
        Some((SessionStatus::Working, "Thinking"@))
    } else if kind == "event_msg"@ && in3(
        sub,
        "task_complete"@,
        "turn_complete"@,
        "turn_completed"@,
    ) {
        Some((SessionStatus::Idle, "Turn complete"@))
    } else if kind == "event_msg"@ && sub == "turn_aborted"@ {
        Some((SessionStatus::Idle, "Turn interrupted"@))
    } else if kind == "response_item"@ && in2(sub, "function_call"@, "custom_tool_call"@) {
        Some((SessionStatus::Working, "Tool: "@ + safe_name_spec(opt_view(p.name))))
    } else if kind == "response_item"@ && in2(
        sub,
        "function_call_output"@,
        "custom_tool_call_output"@,
    ) {
        Some((SessionStatus::Working, "Tool returned"@))
    } else if kind == "response_item"@ && in2(sub, "reasoning"@, "message"@) && opt_view(p.role)
        != Some("user"@) && opt_view(p.role) != Some("developer"@) {
        Some((SessionStatus::Working, "Generating response"@))
    } else {
        None
    }
}

/// A Codex tool call that asks the human for input.
pub open spec fn codex_asks(p: RecordPayload) -> bool {
    in2(text_or_empty(opt_view(p.kind)), "function_call"@, "custom_tool_call"@) && (opt_view(p.name)
        == Some("request_user_input"@) || opt_view(p.name) == Some("functions.request_user_input"@)
        || opt_view(p.name) == Some("functions.request_user_input_async"@))
}

/// The host a `claude_code` `entrypoint` names: the vendor's desktop app,
/// its VS Code extension, or its command line.
pub open spec fn claude_host(entrypoint: Seq<char>) -> Host {
    if entrypoint == vendor_spec() + "-desktop"@ {
        Host::DesktopApp
    } else if entrypoint == vendor_spec() + "-vscode"@ {
        Host::VsCode
    } else if entrypoint == "cli"@ {
        Host::Terminal
    } else {
        Host::Unknown
    }
}

/// What a `claude_code` record says: status, activity line and attention.
pub open spec fn claude_reading(r: TranscriptRecord, kind: Seq<char>) -> Option<(SessionStatus, Seq<char>, Seq<char>)> {
    if kind == "user"@ && r.is_meta != Some(true) {
        Some((SessionStatus::Working, "Prompt or tool result received"@, "unknown"@))
    } else if kind == "assistant"@ {
        match r.tool_use {
            Some(name) => {
                let asks = opt_view(name) == Some("AskUserQuestion"@);
                Some(
                    (
                        if asks {
                            SessionStatus::Blocked
                        } else {
                            SessionStatus::Working
                        },
                        "Tool: "@ + safe_name_spec(opt_view(name)),
                        if asks {
                            "explicit_input"@
                        } else {
                            "unknown"@
                        },
                    ),
                )
            },
            None => if opt_view(r.stop_reason) == Some("end_turn"@) {
                Some((SessionStatus::Idle, "Turn complete"@, "unknown"@))
            } else {
                Some((SessionStatus::Working, "Generating response"@, "unknown"@))
            },
        }
    } else {
        None
    }
}

/// The file's session id and host after reading record `r`, and what the
/// record observes, if anything.
pub open spec fn adapt_spec(
    provider: Seq<char>,
    r: TranscriptRecord,
    id: Option<Seq<char>>,
    host: Option<Host>,
) -> (Option<ObservationView>, Option<Seq<char>>, Option<Host>) {
    match r.kind {
        None => (None, id, host),
        Some(kind_s) => {
            let kind = kind_s@;
            if provider == "codex"@ {
                let p = r.payload;
                let meta = kind == "session_meta"@;
                let id2 = if meta {
                    opt_view(p.id)
                } else {
                    id
                };
                let host2 = if meta {
                    Some(
                        codex_host(text_or_empty(opt_view(p.originator)), text_or_empty(opt_view(p.source))),
                    )
                } else {
                    host
                };
                match codex_reading(kind, p) {
                    None => (None, id2, host2),
                    Some((state, text)) => {
                        let asks = codex_asks(p);
                        (
                            observed(
                                r,
                                id2,
                                host2,
                                if asks {
                                    SessionStatus::Blocked
                                } else {
                                    state
                                },
                                text,
                                if asks {
                                    "explicit_input"@
                                } else {
                                    "unknown"@
                                },
                                opt_view(p.cwd),
                            ),
                            id2,
                            host2,
                        )
                    },
                }
            } else if r.is_sidechain == Some(true) {
                (None, id, host)
            } else {
                let host2 = match r.entrypoint {
                    Some(e) => Some(claude_host(e@)),
                    None => host,
                };
                let id2 = match r.session_id {
                    Some(sid) => Some(sid@),
                    None => id,
                };
                match claude_reading(r, kind) {
                    None => (None, id2, host2),
                    Some((state, text, attention)) => (
                        observed(r, id2, host2, state, text, attention, opt_view(r.cwd)),
                        id2,
                        host2,
                    ),
                }
            }
        },
    }
}

/// An observation, when the file's session id is known and the record's
/// timestamp parses.
pub open spec fn observed(
    r: TranscriptRecord,
    id: Option<Seq<char>>,
    host: Option<Host>,
    status: SessionStatus,
    activity: Seq<char>,
    attention: Seq<char>,
    cwd: Option<Seq<char>>,
) -> Option<ObservationView> {
    match id {
        None => None,
        Some(i) => match r.timestamp {
            None => None,
            Some(ts) => match parsed_instant(ts@) {
                None => None,
                Some(at) => Some(
                    ObservationView {
                        id: i,
                        at: at,
                        cwd: cwd,
                        status: status,
                        activity: activity,
                        attention: attention,
                        host: host,
                    },
                ),
            },
        },
    }
}

pub open spec fn opt_obs_view(o: Option<Observation>) -> Option<ObservationView> {
    match o {
        Some(x) => Some(x@),
        None => None,
    }
}

fn opt_is(o: &Option<String>, lit: &str) -> (r: bool)
    ensures
        r == (opt_view(*o) == Some(lit@)),
{
    match o {
        Some(s) => str_eq(s.as_str(), lit),
        None => false,
    }
}

fn text_is(s: &str, lit: &str) -> (r: bool)
    ensures
        r == (s@ == lit@),
{
    str_eq(s, lit)
}

fn tool_line(name: Option<&str>) -> (r: String)
    ensures
        r@ == "Tool: "@ + safe_name_spec(
            match name {
                Some(n) => Some(n@),
                None => None,
            },
        ),
{
    String::from_str("Tool: ").concat(safe_name(name).as_str())
}

fn opt_as_str(o: &Option<String>) -> (r: Option<&str>)
    ensures
        match o {
            Some(s) => r matches Some(x) && x@ == s@,
            None => r.is_none(),
        },
{
    match o {
        Some(s) => Some(s.as_str()),
        None => None,
    }
}

fn codex_reading_exec(kind: &str, p: &RecordPayload) -> (r: Option<(SessionStatus, String)>)
    ensures
        match codex_reading(kind@, *p) {
            Some((st, t)) => r matches Some(x) && x.0 == st && x.1@ == t,
            None => r.is_none(),
        },
{
    let sub: &str = match &p.kind {
        Some(k) => k.as_str(),
        None => "",
    };
    proof {
        reveal_strlit("");
        if p.kind.is_none() {
            assert(sub@ =~= Seq::<char>::empty());
        }
    }
    if text_is(kind, "session_meta") {
        Some((SessionStatus::Unknown, String::from_str("Session discovered")))
    } else if text_is(kind, "turn_context") {
        Some((SessionStatus::Working, String::from_str("Turn context updated")))
    } else if text_is(kind, "event_msg") && (text_is(sub, "task_started") || text_is(
        sub,
        "turn_started",
    ) || text_is(sub, "user_message")) {
        Some((SessionStatus::Working, String::from_str("Thinking")))
    } else if text_is(kind, "event_msg") && (text_is(sub, "task_complete") || text_is(
        sub,
        "turn_complete",
    ) || text_is(sub, "turn_completed")) {
        Some((SessionStatus::Idle, String::from_str("Turn complete")))
    } else if text_is(kind, "event_msg") && text_is(sub, "turn_aborted") {
        Some((SessionStatus::Idle, String::from_str("Turn interrupted")))
    } else if text_is(kind, "response_item") && (text_is(sub, "function_call") || text_is(
        sub,
        "custom_tool_call",
    )) {
        Some((SessionStatus::Working, tool_line(opt_as_str(&p.name))))
    } else if text_is(kind, "response_item") && (text_is(sub, "function_call_output") || text_is(
        sub,
        "custom_tool_call_output",
    )) {
        Some((SessionStatus::Working, String::from_str("Tool returned")))
    } else if text_is(kind, "response_item") && (text_is(sub, "reasoning") || text_is(
        sub,
        "message",
    )) && !opt_is(&p.role, "user") && !opt_is(&p.role, "developer") {
        Some((SessionStatus::Working, String::from_str("Generating response")))
    } else {
        None
    }
}

fn codex_asks_exec(p: &RecordPayload) -> (r: bool)
    ensures
        r == codex_asks(*p),
{
    let call = opt_is(&p.kind, "function_call") || opt_is(&p.kind, "custom_tool_call");
    proof {
        reveal_strlit("function_call");
        reveal_strlit("custom_tool_call");
        reveal_strlit("");
        assert("function_call"@.len() > 0);
        assert("custom_tool_call"@.len() > 0);
    }
    call && (opt_is(&p.name, "request_user_input") || opt_is(
        &p.name,
        "functions.request_user_input",
    ) || opt_is(&p.name, "functions.request_user_input_async"))
}

fn claude_host_exec(e: &str) -> (r: Host)
    ensures
        r == claude_host(e@),
{
    let desktop = vendor().concat("-desktop");
    let vscode = vendor().concat("-vscode");
    if text_is(e, desktop.as_str()) {
        Host::DesktopApp
    } else if text_is(e, vscode.as_str()) {
        Host::VsCode
    } else if text_is(e, "cli") {
        Host::Terminal
    } else {
        Host::Unknown
    }
}

fn claude_reading_exec(r: &TranscriptRecord, kind: &str) -> (out: Option<(SessionStatus, String, String)>)
    ensures
        match claude_reading(*r, kind@) {
            Some((st, t, a)) => out matches Some(x) && x.0 == st && x.1@ == t && x.2@ == a,
            None => out.is_none(),
        },
{
    if text_is(kind, "user") && r.is_meta != Some(true) {
        Some(
            (
                SessionStatus::Working,
                String::from_str("Prompt or tool result received"),
                String::from_str("unknown"),
            ),
        )
    } else if text_is(kind, "assistant") {
        match &r.tool_use {
            Some(name) => {
                let asks = opt_is(name, "AskUserQuestion");
                let line = tool_line(opt_as_str(name));
                if asks {
                    Some((SessionStatus::Blocked, line, String::from_str("explicit_input")))
                } else {
                    Some((SessionStatus::Working, line, String::from_str("unknown")))
                }
            },
            None => if opt_is(&r.stop_reason, "end_turn") {
                Some((SessionStatus::Idle, String::from_str("Turn complete"), String::from_str("unknown")))
            } else {
                Some(
                    (
                        SessionStatus::Working,
                        String::from_str("Generating response"),
                        String::from_str("unknown"),
                    ),
                )
            },
        }
    } else {
        None
    }
}

fn observed_exec(
    r: &TranscriptRecord,
    id: &Option<String>,
    host: Option<Host>,
    status: SessionStatus,
    activity: String,
    attention: String,
    cwd: Option<String>,
) -> (out: Option<Observation>)
    ensures
        opt_obs_view(out) == observed(*r, opt_view(*id), host, status, activity@, attention@, opt_view(cwd)),
{
    let i = match id {
        Some(i) => i.clone(),
        None => return None,
    };
    let ts = match &r.timestamp {
        Some(t) => t,
        None => return None,
    };
    let at = match crate::clock::parse_timestamp(ts.as_str()) {
        Some(a) => a,
        None => return None,
    };
    Some(Observation { id: i, at, cwd, status, activity, attention, host })
}

/// Read one record of `provider`'s transcript, updating the file's session
/// id and host as the record reports them.
pub fn adapt(
    provider: &str,
    r: &TranscriptRecord,
    id: &mut Option<String>,
    host: &mut Option<Host>,
) -> (out: Option<Observation>)
    ensures
        (opt_obs_view(out), opt_view(*final(id)), *final(host)) == adapt_spec(
            provider@,
            *r,
            opt_view(*old(id)),
            *old(host),
        ),
{
    let kind: &str = match &r.kind {
        Some(k) => k.as_str(),
        None => return None,
    };
    if text_is(provider, "codex") {
        let p = &r.payload;
        if text_is(kind, "session_meta") {
            *id = crate::model::clone_opt(&p.id);
            *host = Some(infer_codex_host(opt_as_str(&p.originator), opt_as_str(&p.source)));
        }
        match codex_reading_exec(kind, p) {
            None => None,
            Some((state, text)) => {
                let asks = codex_asks_exec(p);
                let status = if asks {
                    SessionStatus::Blocked
                } else {
                    state
                };
                let attention = if asks {
                    String::from_str("explicit_input")
                } else {
                    String::from_str("unknown")
                };
                observed_exec(r, id, *host, status, text, attention, crate::model::clone_opt(&p.cwd))
            },
        }
    } else {
        if r.is_sidechain == Some(true) {
            return None;
        }
        if let Some(e) = &r.entrypoint {
            *host = Some(claude_host_exec(e.as_str()));
        }
        if let Some(sid) = &r.session_id {
            *id = Some(sid.clone());
        }
        match claude_reading_exec(r, kind) {
            None => None,
            Some((state, text, attention)) => observed_exec(
                r,
                id,
                *host,
                state,
                text,
                attention,
                crate::model::clone_opt(&r.cwd),
            ),
        }
    }
}


/// The store key of a provider's session: the provider-qualified id.
pub open spec fn observed_key(provider: Seq<char>, id: Seq<char>) -> Seq<char> {
    provider + ":"@ + id
}

/// The session an observation is folded into: the resident one, or a new
/// one for this provider first seen at the observation's time.
pub open spec fn observed_base(st: StoreView, provider: Seq<char>, o: ObservationView) -> SessionView {
    let k = observed_key(provider, o.id);
    if st.sessions.dom().contains(k) {
        st.sessions[k]
    } else {
        SessionView {
            provider: provider,
            native_id: o.id,
            ..new_session_view(k, text_or_empty(o.cwd), o.at)
        }
    }
}

/// What every observation records, even a stale one: the working directory
/// it reports, a host where none was known, and the transcript it came from.
pub open spec fn located(s: SessionView, o: ObservationView, path: Seq<char>) -> SessionView {
    SessionView {
        cwd: match o.cwd {
            Some(c) => c,
            None => s.cwd,
        },
        host: if s.host == Host::Unknown && o.host is Some {
            o.host->0
        } else {
            s.host
        },
        transcript_path: Some(path),
        ..s
    }
}

/// A wait for a permission or an answer that this observation cannot end:
/// only a terminal lifecycle record (or the matching hook) resolves it.
pub open spec fn attention_held(s: SessionView, status: SessionStatus) -> bool {
    (s.attention == "permission"@ || s.attention == "explicit_input"@) && !(status
        == SessionStatus::Idle || status == SessionStatus::Ended || status == SessionStatus::Errored)
}

/// The session after an observation takes effect at `now`: live only when
/// the record was appended since the file was first seen and is at most a
/// minute old.
pub open spec fn observation_taken(
    s: SessionView,
    o: ObservationView,
    path: Seq<char>,
    appended: bool,
    now: i128,
) -> SessionView {
    let age = seconds_between(o.at, now);
    let live = appended && 0 <= age && age <= 60;
    SessionView {
        status: o.status,
        activity: Some(o.activity),
        attention: o.attention,
        blocked_on: if o.status == SessionStatus::Blocked {
            Some(o.activity)
        } else {
            None
        },
        transcript_path: Some(path),
        last_event_at: o.at,
        started_at: if s.started_at is Some {
            s.started_at
        } else {
            Some(o.at)
        },
        live: live,
        observation: if live {
            "recent"@
        } else {
            "history_only"@
        },
        ..s
    }
}

/// The store after observation `o`, read from `provider`'s transcript at
/// `path`, is folded in at `now`.
pub open spec fn observation_result(
    st: StoreView,
    provider: Seq<char>,
    path: Seq<char>,
    o: ObservationView,
    appended: bool,
    now: i128,
) -> StoreView {
    let k = observed_key(provider, o.id);
    let s = located(observed_base(st, provider, o), o, path);
    if o.at < s.last_event_at || attention_held(s, o.status) {
        StoreView { sessions: st.sessions.insert(k, s), ..st }
    } else {
        StoreView {
            sessions: st.sessions.insert(k, observation_taken(s, o, path, appended, now)),
            hook_pending: if o.status != SessionStatus::Blocked {
                st.hook_pending.remove(k)
            } else {
                st.hook_pending
            },
            ..st
        }
    }
}

/// Fold observation `o`, read from `provider`'s transcript at `path`, into
/// the store at time `now`. `appended` says whether the record lies past the
/// length the file had when it was first seen.
pub fn apply_at(store: &mut Store, provider: &str, path: &str, o: Observation, appended: bool, now: i128)
    requires
        old(store).wf(),
    ensures
        final(store).wf(),
        final(store)@ == observation_result(old(store)@, provider@, path@, o@, appended, now),
{
    let ghost st0 = store@;
    let key = String::from_str(provider).concat(":").concat(o.id.as_str());
    assert(key@ == observed_key(provider@, o.id@));
    let mut s = match store.session(&key) {
        Some(x) => x.duplicate(),
        None => {
            let cwd = match &o.cwd {
                Some(c) => c.clone(),
                None => String::new(),
            };
            let mut n = Session::new(key.clone(), cwd, o.at);
            n.provider = String::from_str(provider);
            n.native_id = o.id.clone();
            n
        },
    };
    proof {
        if o.cwd is None {
            assert(text_or_empty(o@.cwd) =~= Seq::<char>::empty());
        }
    }
    assert(s@ == observed_base(st0, provider@, o@));
    if let Some(c) = &o.cwd {
        s.cwd = c.clone();
    }
    if s.host == Host::Unknown {
        if let Some(h) = o.host {
            s.host = h;
        }
    }
    s.transcript_path = Some(String::from_str(path));
    assert(s@ == located(observed_base(st0, provider@, o@), o@, path@));
    let held = (attention_is(&s.attention, "permission") || attention_is(&s.attention, "explicit_input"))
        && !(o.status == SessionStatus::Idle || o.status == SessionStatus::Ended || o.status
        == SessionStatus::Errored);
    if o.at < s.last_event_at || held {
        store.insert_session(s);
        return;
    }
    s.status = o.status;
    if o.status != SessionStatus::Blocked {
        store.pending_clear(&key);
    }
    s.blocked_on = if o.status == SessionStatus::Blocked {
        Some(o.activity.clone())
    } else {
        None
    };
    s.activity = Some(o.activity);
    s.attention = o.attention;
    s.last_event_at = o.at;
    if s.started_at.is_none() {
        s.started_at = Some(o.at);
    }
    let age = elapsed_seconds(o.at, now);
    s.live = appended && 0 <= age && age <= 60;
    s.observation = if s.live {
        String::from_str("recent")
    } else {
        String::from_str("history_only")
    };
    store.insert_session(s);
}

fn attention_is(s: &String, lit: &str) -> (r: bool)
    ensures
        r == (s@ == lit@),
{
    str_eq(s.as_str(), lit)
}

/// Fold an observation into the store at the current time.
pub fn apply(store: &mut Store, provider: &str, path: &str, o: Observation, appended: bool)
    requires
        old(store).wf(),
    ensures
        final(store).wf(),
        exists|now: i128| final(store)@ == #[trigger] observation_result(old(store)@, provider@, path@, o@, appended, now),
{
    let now = crate::clock::now_instant();
    apply_at(store, provider, path, o, appended, now);
}

/// Sessions are keyed by provider and native id together: two providers'
/// sessions with the same native id never share an entry.
pub proof fn observed_keys_are_provider_qualified(p1: Seq<char>, p2: Seq<char>, id: Seq<char>)
    requires
        p1 != p2,
    ensures
        observed_key(p1, id) != observed_key(p2, id),
{
    let k1 = observed_key(p1, id);
    let k2 = observed_key(p2, id);
    if k1 == k2 {
        assert(k1.len() == p1.len() + ":"@.len() + id.len());
        assert(k2.len() == p2.len() + ":"@.len() + id.len());
        assert(p1.len() == p2.len());
        assert forall|i: int| 0 <= i < p1.len() implies p1[i] == p2[i] by {
            assert(k1[i] == p1[i]);
            assert(k2[i] == p2[i]);
        }
        assert(p1 =~= p2);
    }
}

/// An observation touches only its own session: every other session, and
/// every other pending set, is left as it was.
pub proof fn observation_is_local(
    st: StoreView,
    provider: Seq<char>,
    path: Seq<char>,
    o: ObservationView,
    appended: bool,
    now: i128,
    k: Seq<char>,
)
    requires
        k != observed_key(provider, o.id),
    ensures
        observation_result(st, provider, path, o, appended, now).sessions.dom().contains(k)
            == st.sessions.dom().contains(k),
        st.sessions.dom().contains(k) ==> observation_result(st, provider, path, o, appended, now).sessions[k]
            == st.sessions[k],
        observation_result(st, provider, path, o, appended, now).hook_pending.dom().contains(k)
            == st.hook_pending.dom().contains(k),
        st.hook_pending.dom().contains(k) ==> observation_result(
            st,
            provider,
            path,
            o,
            appended,
            now,
        ).hook_pending[k] == st.hook_pending[k],
{
}

/// A session waiting on a permission or an answer stays waiting through
/// incidental transcript activity: only a terminal lifecycle record (or
/// the matching hook) resolves the wait.
pub proof fn waits_survive_incidental_activity(
    st: StoreView,
    provider: Seq<char>,
    path: Seq<char>,
    o: ObservationView,
    appended: bool,
    now: i128,
)
    requires
        st.sessions.dom().contains(observed_key(provider, o.id)),
        st.sessions[observed_key(provider, o.id)].attention == "permission"@
            || st.sessions[observed_key(provider, o.id)].attention == "explicit_input"@,
        o.status != SessionStatus::Idle,
        o.status != SessionStatus::Ended,
        o.status != SessionStatus::Errored,
    ensures
        ({
            let k = observed_key(provider, o.id);
            let before = st.sessions[k];
            let after = observation_result(st, provider, path, o, appended, now).sessions[k];
            &&& after.status == before.status
            &&& after.attention == before.attention
            &&& after.blocked_on == before.blocked_on
            &&& after.activity == before.activity
            &&& after.last_event_at == before.last_event_at
            &&& observation_result(st, provider, path, o, appended, now).hook_pending == st.hook_pending
        }),
{
}

/// A terminal lifecycle record, no older than what the session last saw,
/// resolves a wait: the session takes the record's status and attention and
/// its pending requests are forgotten.
pub proof fn completion_resolves_waits(
    st: StoreView,
    provider: Seq<char>,
    path: Seq<char>,
    o: ObservationView,
    appended: bool,
    now: i128,
)
    requires
        st.sessions.dom().contains(observed_key(provider, o.id)),
        o.at >= st.sessions[observed_key(provider, o.id)].last_event_at,
        o.status == SessionStatus::Idle || o.status == SessionStatus::Ended || o.status
            == SessionStatus::Errored,
    ensures
        ({
            let k = observed_key(provider, o.id);
            let after = observation_result(st, provider, path, o, appended, now);
            &&& after.sessions[k].status == o.status
            &&& after.sessions[k].attention == o.attention
            &&& after.sessions[k].blocked_on is None
            &&& !after.hook_pending.dom().contains(k)
        }),
{
}

/// A session's last observation time never moves backwards, whatever the
/// order records arrive in.
pub proof fn observation_time_never_regresses(
    st: StoreView,
    provider: Seq<char>,
    path: Seq<char>,
    o: ObservationView,
    appended: bool,
    now: i128,
)
    requires
        st.sessions.dom().contains(observed_key(provider, o.id)),
    ensures
        observation_result(st, provider, path, o, appended, now).sessions[observed_key(
            provider,
            o.id,
        )].last_event_at >= st.sessions[observed_key(provider, o.id)].last_event_at,
{
}

/// The record kinds and providers the `claude_code` adapter tells apart.
proof fn lemma_claude_words_distinct()
    ensures
        "user"@ != "assistant"@,
        "user"@ != "claude_code"@,
        "user"@ != "codex"@,
        "assistant"@ != "claude_code"@,
        "assistant"@ != "codex"@,
        "claude_code"@ != "codex"@,
{
    reveal_strlit("user");
    reveal_strlit("assistant");
    reveal_strlit("claude_code");
    reveal_strlit("codex");
    assert("user"@.len() != "assistant"@.len());
    assert("user"@.len() != "claude_code"@.len());
    assert("user"@.len() != "codex"@.len());
    assert("assistant"@.len() != "claude_code"@.len());
    assert("assistant"@.len() != "codex"@.len());
    assert("claude_code"@.len() != "codex"@.len());
}

/// The record kinds and payload types the Codex adapter tells apart.
proof fn lemma_codex_words_distinct()
    ensures
        "session_meta"@ != "turn_context"@,
        "session_meta"@ != "event_msg"@,
        "session_meta"@ != "response_item"@,
        "session_meta"@ != "task_complete"@,
        "session_meta"@ != "turn_complete"@,
        "session_meta"@ != "turn_completed"@,
        "session_meta"@ != "turn_aborted"@,
        "session_meta"@ != "task_started"@,
        "session_meta"@ != "turn_started"@,
        "session_meta"@ != "user_message"@,
        "session_meta"@ != "function_call"@,
        "session_meta"@ != "custom_tool_call"@,
        "session_meta"@ != "function_call_output"@,
        "session_meta"@ != "custom_tool_call_output"@,
        "session_meta"@ != "reasoning"@,
        "session_meta"@ != "message"@,
        "session_meta"@ != ""@,
        "turn_context"@ != "event_msg"@,
        "turn_context"@ != "response_item"@,
        "turn_context"@ != "task_complete"@,
        "turn_context"@ != "turn_complete"@,
        "turn_context"@ != "turn_completed"@,
        "turn_context"@ != "turn_aborted"@,
        "turn_context"@ != "task_started"@,
        "turn_context"@ != "turn_started"@,
        "turn_context"@ != "user_message"@,
        "turn_context"@ != "function_call"@,
        "turn_context"@ != "custom_tool_call"@,
        "turn_context"@ != "function_call_output"@,
        "turn_context"@ != "custom_tool_call_output"@,
        "turn_context"@ != "reasoning"@,
        "turn_context"@ != "message"@,
        "turn_context"@ != ""@,
        "event_msg"@ != "response_item"@,
        "event_msg"@ != "task_complete"@,
        "event_msg"@ != "turn_complete"@,
        "event_msg"@ != "turn_completed"@,
        "event_msg"@ != "turn_aborted"@,
        "event_msg"@ != "task_started"@,
        "event_msg"@ != "turn_started"@,
        "event_msg"@ != "user_message"@,
        "event_msg"@ != "function_call"@,
        "event_msg"@ != "custom_tool_call"@,
        "event_msg"@ != "function_call_output"@,
        "event_msg"@ != "custom_tool_call_output"@,
        "event_msg"@ != "reasoning"@,
        "event_msg"@ != "message"@,
        "event_msg"@ != ""@,
        "response_item"@ != "task_complete"@,
        "response_item"@ != "turn_complete"@,
        "response_item"@ != "turn_completed"@,
        "response_item"@ != "turn_aborted"@,
        "response_item"@ != "task_started"@,
        "response_item"@ != "turn_started"@,
        "response_item"@ != "user_message"@,
        "response_item"@ != "function_call"@,
        "response_item"@ != "custom_tool_call"@,
        "response_item"@ != "function_call_output"@,
        "response_item"@ != "custom_tool_call_output"@,
        "response_item"@ != "reasoning"@,
        "response_item"@ != "message"@,
        "response_item"@ != ""@,
        "task_complete"@ != "turn_complete"@,
        "task_complete"@ != "turn_completed"@,
        "task_complete"@ != "turn_aborted"@,
        "task_complete"@ != "task_started"@,
        "task_complete"@ != "turn_started"@,
        "task_complete"@ != "user_message"@,
        "task_complete"@ != "function_call"@,
        "task_complete"@ != "custom_tool_call"@,
        "task_complete"@ != "function_call_output"@,
        "task_complete"@ != "custom_tool_call_output"@,
        "task_complete"@ != "reasoning"@,
        "task_complete"@ != "message"@,
        "task_complete"@ != ""@,
        "turn_complete"@ != "turn_completed"@,
        "turn_complete"@ != "turn_aborted"@,
        "turn_complete"@ != "task_started"@,
        "turn_complete"@ != "turn_started"@,
        "turn_complete"@ != "user_message"@,
        "turn_complete"@ != "function_call"@,
        "turn_complete"@ != "custom_tool_call"@,
        "turn_complete"@ != "function_call_output"@,
        "turn_complete"@ != "custom_tool_call_output"@,
        "turn_complete"@ != "reasoning"@,
        "turn_complete"@ != "message"@,
        "turn_complete"@ != ""@,
        "turn_completed"@ != "turn_aborted"@,
        "turn_completed"@ != "task_started"@,
        "turn_completed"@ != "turn_started"@,
        "turn_completed"@ != "user_message"@,
        "turn_completed"@ != "function_call"@,
        "turn_completed"@ != "custom_tool_call"@,
        "turn_completed"@ != "function_call_output"@,
        "turn_completed"@ != "custom_tool_call_output"@,
        "turn_completed"@ != "reasoning"@,
        "turn_completed"@ != "message"@,
        "turn_completed"@ != ""@,
        "turn_aborted"@ != "task_started"@,
        "turn_aborted"@ != "turn_started"@,
        "turn_aborted"@ != "user_message"@,
        "turn_aborted"@ != "function_call"@,
        "turn_aborted"@ != "custom_tool_call"@,
        "turn_aborted"@ != "function_call_output"@,
        "turn_aborted"@ != "custom_tool_call_output"@,
        "turn_aborted"@ != "reasoning"@,
        "turn_aborted"@ != "message"@,
        "turn_aborted"@ != ""@,
        "task_started"@ != "turn_started"@,
        "task_started"@ != "user_message"@,
        "task_started"@ != "function_call"@,
        "task_started"@ != "custom_tool_call"@,
        "task_started"@ != "function_call_output"@,
        "task_started"@ != "custom_tool_call_output"@,
        "task_started"@ != "reasoning"@,
        "task_started"@ != "message"@,
        "task_started"@ != ""@,
        "turn_started"@ != "user_message"@,
        "turn_started"@ != "function_call"@,
        "turn_started"@ != "custom_tool_call"@,
        "turn_started"@ != "function_call_output"@,
        "turn_started"@ != "custom_tool_call_output"@,
        "turn_started"@ != "reasoning"@,
        "turn_started"@ != "message"@,
        "turn_started"@ != ""@,
        "user_message"@ != "function_call"@,
        "user_message"@ != "custom_tool_call"@,
        "user_message"@ != "function_call_output"@,
        "user_message"@ != "custom_tool_call_output"@,
        "user_message"@ != "reasoning"@,
        "user_message"@ != "message"@,
        "user_message"@ != ""@,
        "function_call"@ != "custom_tool_call"@,
        "function_call"@ != "function_call_output"@,
        "function_call"@ != "custom_tool_call_output"@,
        "function_call"@ != "reasoning"@,
        "function_call"@ != "message"@,
        "function_call"@ != ""@,
        "custom_tool_call"@ != "function_call_output"@,
        "custom_tool_call"@ != "custom_tool_call_output"@,
        "custom_tool_call"@ != "reasoning"@,
        "custom_tool_call"@ != "message"@,
        "custom_tool_call"@ != ""@,
        "function_call_output"@ != "custom_tool_call_output"@,
        "function_call_output"@ != "reasoning"@,
        "function_call_output"@ != "message"@,
        "function_call_output"@ != ""@,
        "custom_tool_call_output"@ != "reasoning"@,
        "custom_tool_call_output"@ != "message"@,
        "custom_tool_call_output"@ != ""@,
        "reasoning"@ != "message"@,
        "reasoning"@ != ""@,
        "message"@ != ""@,
{
    reveal_strlit("session_meta");
    reveal_strlit("turn_context");
    reveal_strlit("event_msg");
    reveal_strlit("response_item");
    reveal_strlit("task_complete");
    reveal_strlit("turn_complete");
    reveal_strlit("turn_completed");
    reveal_strlit("turn_aborted");
    reveal_strlit("task_started");
    reveal_strlit("turn_started");
    reveal_strlit("user_message");
    reveal_strlit("function_call");
    reveal_strlit("custom_tool_call");
    reveal_strlit("function_call_output");
    reveal_strlit("custom_tool_call_output");
    reveal_strlit("reasoning");
    reveal_strlit("message");
    reveal_strlit("");
    assert("session_meta"@[0] != "turn_context"@[0]);
    assert("session_meta"@.len() != "event_msg"@.len());
    assert("session_meta"@.len() != "response_item"@.len());
    assert("session_meta"@.len() != "task_complete"@.len());
    assert("session_meta"@.len() != "turn_complete"@.len());
    assert("session_meta"@.len() != "turn_completed"@.len());
    assert("session_meta"@[0] != "turn_aborted"@[0]);
    assert("session_meta"@[0] != "task_started"@[0]);
    assert("session_meta"@[0] != "turn_started"@[0]);
    assert("session_meta"@[0] != "user_message"@[0]);
    assert("session_meta"@.len() != "function_call"@.len());
    assert("session_meta"@.len() != "custom_tool_call"@.len());
    assert("session_meta"@.len() != "function_call_output"@.len());
    assert("session_meta"@.len() != "custom_tool_call_output"@.len());
    assert("session_meta"@.len() != "reasoning"@.len());
    assert("session_meta"@.len() != "message"@.len());
    assert("session_meta"@.len() != ""@.len());
    assert("turn_context"@.len() != "event_msg"@.len());
    assert("turn_context"@.len() != "response_item"@.len());
    assert("turn_context"@.len() != "task_complete"@.len());
    assert("turn_context"@.len() != "turn_complete"@.len());
    assert("turn_context"@.len() != "turn_completed"@.len());
    assert("turn_context"@[5] != "turn_aborted"@[5]);
    assert("turn_context"@[1] != "task_started"@[1]);
    assert("turn_context"@[5] != "turn_started"@[5]);
    assert("turn_context"@[0] != "user_message"@[0]);
    assert("turn_context"@.len() != "function_call"@.len());
    assert("turn_context"@.len() != "custom_tool_call"@.len());
    assert("turn_context"@.len() != "function_call_output"@.len());
    assert("turn_context"@.len() != "custom_tool_call_output"@.len());
    assert("turn_context"@.len() != "reasoning"@.len());
    assert("turn_context"@.len() != "message"@.len());
    assert("turn_context"@.len() != ""@.len());
    assert("event_msg"@.len() != "response_item"@.len());
    assert("event_msg"@.len() != "task_complete"@.len());
    assert("event_msg"@.len() != "turn_complete"@.len());
    assert("event_msg"@.len() != "turn_completed"@.len());
    assert("event_msg"@.len() != "turn_aborted"@.len());
    assert("event_msg"@.len() != "task_started"@.len());
    assert("event_msg"@.len() != "turn_started"@.len());
    assert("event_msg"@.len() != "user_message"@.len());
    assert("event_msg"@.len() != "function_call"@.len());
    assert("event_msg"@.len() != "custom_tool_call"@.len());
    assert("event_msg"@.len() != "function_call_output"@.len());
    assert("event_msg"@.len() != "custom_tool_call_output"@.len());
    assert("event_msg"@[0] != "reasoning"@[0]);
    assert("event_msg"@.len() != "message"@.len());
    assert("event_msg"@.len() != ""@.len());
    assert("response_item"@[0] != "task_complete"@[0]);
    assert("response_item"@[0] != "turn_complete"@[0]);
    assert("response_item"@.len() != "turn_completed"@.len());
    assert("response_item"@.len() != "turn_aborted"@.len());
    assert("response_item"@.len() != "task_started"@.len());
    assert("response_item"@.len() != "turn_started"@.len());
    assert("response_item"@.len() != "user_message"@.len());
    assert("response_item"@[0] != "function_call"@[0]);
    assert("response_item"@.len() != "custom_tool_call"@.len());
    assert("response_item"@.len() != "function_call_output"@.len());
    assert("response_item"@.len() != "custom_tool_call_output"@.len());
    assert("response_item"@.len() != "reasoning"@.len());
    assert("response_item"@.len() != "message"@.len());
    assert("response_item"@.len() != ""@.len());
    assert("task_complete"@[1] != "turn_complete"@[1]);
    assert("task_complete"@.len() != "turn_completed"@.len());
    assert("task_complete"@.len() != "turn_aborted"@.len());
    assert("task_complete"@.len() != "task_started"@.len());
    assert("task_complete"@.len() != "turn_started"@.len());
    assert("task_complete"@.len() != "user_message"@.len());
    assert("task_complete"@[0] != "function_call"@[0]);
    assert("task_complete"@.len() != "custom_tool_call"@.len());
    assert("task_complete"@.len() != "function_call_output"@.len());
    assert("task_complete"@.len() != "custom_tool_call_output"@.len());
    assert("task_complete"@.len() != "reasoning"@.len());
    assert("task_complete"@.len() != "message"@.len());
    assert("task_complete"@.len() != ""@.len());
    assert("turn_complete"@.len() != "turn_completed"@.len());
    assert("turn_complete"@.len() != "turn_aborted"@.len());
    assert("turn_complete"@.len() != "task_started"@.len());
    assert("turn_complete"@.len() != "turn_started"@.len());
    assert("turn_complete"@.len() != "user_message"@.len());
    assert("turn_complete"@[0] != "function_call"@[0]);
    assert("turn_complete"@.len() != "custom_tool_call"@.len());
    assert("turn_complete"@.len() != "function_call_output"@.len());
    assert("turn_complete"@.len() != "custom_tool_call_output"@.len());
    assert("turn_complete"@.len() != "reasoning"@.len());
    assert("turn_complete"@.len() != "message"@.len());
    assert("turn_complete"@.len() != ""@.len());
    assert("turn_completed"@.len() != "turn_aborted"@.len());
    assert("turn_completed"@.len() != "task_started"@.len());
    assert("turn_completed"@.len() != "turn_started"@.len());
    assert("turn_completed"@.len() != "user_message"@.len());
    assert("turn_completed"@.len() != "function_call"@.len());
    assert("turn_completed"@.len() != "custom_tool_call"@.len());
    assert("turn_completed"@.len() != "function_call_output"@.len());
    assert("turn_completed"@.len() != "custom_tool_call_output"@.len());
    assert("turn_completed"@.len() != "reasoning"@.len());
    assert("turn_completed"@.len() != "message"@.len());
    assert("turn_completed"@.len() != ""@.len());
    assert("turn_aborted"@[1] != "task_started"@[1]);
    assert("turn_aborted"@[5] != "turn_started"@[5]);
    assert("turn_aborted"@[0] != "user_message"@[0]);
    assert("turn_aborted"@.len() != "function_call"@.len());
    assert("turn_aborted"@.len() != "custom_tool_call"@.len());
    assert("turn_aborted"@.len() != "function_call_output"@.len());
    assert("turn_aborted"@.len() != "custom_tool_call_output"@.len());
    assert("turn_aborted"@.len() != "reasoning"@.len());
    assert("turn_aborted"@.len() != "message"@.len());
    assert("turn_aborted"@.len() != ""@.len());
    assert("task_started"@[1] != "turn_started"@[1]);
    assert("task_started"@[0] != "user_message"@[0]);
    assert("task_started"@.len() != "function_call"@.len());
    assert("task_started"@.len() != "custom_tool_call"@.len());
    assert("task_started"@.len() != "function_call_output"@.len());
    assert("task_started"@.len() != "custom_tool_call_output"@.len());
    assert("task_started"@.len() != "reasoning"@.len());
    assert("task_started"@.len() != "message"@.len());
    assert("task_started"@.len() != ""@.len());
    assert("turn_started"@[0] != "user_message"@[0]);
    assert("turn_started"@.len() != "function_call"@.len());
    assert("turn_started"@.len() != "custom_tool_call"@.len());
    assert("turn_started"@.len() != "function_call_output"@.len());
    assert("turn_started"@.len() != "custom_tool_call_output"@.len());
    assert("turn_started"@.len() != "reasoning"@.len());
    assert("turn_started"@.len() != "message"@.len());
    assert("turn_started"@.len() != ""@.len());
    assert("user_message"@.len() != "function_call"@.len());
    assert("user_message"@.len() != "custom_tool_call"@.len());
    assert("user_message"@.len() != "function_call_output"@.len());
    assert("user_message"@.len() != "custom_tool_call_output"@.len());
    assert("user_message"@.len() != "reasoning"@.len());
    assert("user_message"@.len() != "message"@.len());
    assert("user_message"@.len() != ""@.len());
    assert("function_call"@.len() != "custom_tool_call"@.len());
    assert("function_call"@.len() != "function_call_output"@.len());
    assert("function_call"@.len() != "custom_tool_call_output"@.len());
    assert("function_call"@.len() != "reasoning"@.len());
    assert("function_call"@.len() != "message"@.len());
    assert("function_call"@.len() != ""@.len());
    assert("custom_tool_call"@.len() != "function_call_output"@.len());
    assert("custom_tool_call"@.len() != "custom_tool_call_output"@.len());
    assert("custom_tool_call"@.len() != "reasoning"@.len());
    assert("custom_tool_call"@.len() != "message"@.len());
    assert("custom_tool_call"@.len() != ""@.len());
    assert("function_call_output"@.len() != "custom_tool_call_output"@.len());
    assert("function_call_output"@.len() != "reasoning"@.len());
    assert("function_call_output"@.len() != "message"@.len());
    assert("function_call_output"@.len() != ""@.len());
    assert("custom_tool_call_output"@.len() != "reasoning"@.len());
    assert("custom_tool_call_output"@.len() != "message"@.len());
    assert("custom_tool_call_output"@.len() != ""@.len());
    assert("reasoning"@.len() != "message"@.len());
    assert("reasoning"@.len() != ""@.len());
    assert("message"@.len() != ""@.len());
}

/// The attention states.
proof fn lemma_attention_words_distinct()
    ensures
        "unknown"@ != "permission"@,
        "unknown"@ != "explicit_input"@,
        "permission"@ != "explicit_input"@,
{
    reveal_strlit("unknown");
    reveal_strlit("permission");
    reveal_strlit("explicit_input");
    assert("unknown"@.len() != "permission"@.len());
    assert("unknown"@.len() != "explicit_input"@.len());
    assert("permission"@.len() != "explicit_input"@.len());
}

/// The instant a record's timestamp stands for, when it has one that parses.
pub open spec fn record_instant(r: TranscriptRecord) -> Option<i128> {
    match r.timestamp {
        Some(t) => parsed_instant(t@),
        None => None,
    }
}

/// What a `claude_code` record that is not a subagent's tells: a user
/// prompt or tool result means work; an assistant turn that ends without
/// calling a tool (`stop_reason` `end_turn`) means the session is idle, one
/// still streaming means work; a tool call means work, or a block on the
/// human when the tool asks a question. Other records tell nothing. An
/// observation comes exactly when the file's session is known and the
/// record's timestamp parses, and it carries that session and instant.
pub proof fn claude_records_read(r: TranscriptRecord, id: Option<Seq<char>>, host: Option<Host>)
    requires
        r.kind is Some,
        r.is_sidechain != Some(true),
    ensures
        ({
            let out = adapt_spec("claude_code"@, r, id, host).0;
            let k = (r.kind->0)@;
            let sid = match r.session_id {
                Some(x) => Some(x@),
                None => id,
            };
            &&& (out is Some <==> (sid is Some && record_instant(r) is Some && (k == "assistant"@ || (k
                == "user"@ && r.is_meta != Some(true)))))
            &&& (out matches Some(o) ==> Some(o.id) == sid && Some(o.at) == record_instant(r))
            &&& (out matches Some(o) ==> k == "user"@ ==> o.status == SessionStatus::Working && o.activity
                == "Prompt or tool result received"@ && o.attention == "unknown"@)
            &&& (out matches Some(o) ==> k == "assistant"@ && r.tool_use is None && opt_view(r.stop_reason)
                == Some("end_turn"@) ==> o.status == SessionStatus::Idle && o.activity == "Turn complete"@
                && o.attention == "unknown"@)
            &&& (out matches Some(o) ==> k == "assistant"@ && r.tool_use is None && opt_view(r.stop_reason)
                != Some("end_turn"@) ==> o.status == SessionStatus::Working && o.activity
                == "Generating response"@ && o.attention == "unknown"@)
            &&& (out matches Some(o) ==> (k == "assistant"@ && r.tool_use is Some ==> {
                let n = r.tool_use->0;
                let asks = opt_view(n) == Some("AskUserQuestion"@);
                &&& o.status == (if asks {
                    SessionStatus::Blocked
                } else {
                    SessionStatus::Working
                })
                &&& o.attention == (if asks {
                    "explicit_input"@
                } else {
                    "unknown"@
                })
                &&& o.activity.len() >= 6
                &&& o.activity.take(6) == "Tool: "@
            }))
        }),
{
    lemma_claude_words_distinct();
    reveal_strlit("Tool: ");
    let out = adapt_spec("claude_code"@, r, id, host).0;
    let k = (r.kind->0)@;
    if let Some(o) = out {
        if k == "assistant"@ && r.tool_use is Some {
            let n = r.tool_use->0;
            assert(o.activity == "Tool: "@ + safe_name_spec(opt_view(n)));
            assert(("Tool: "@ + safe_name_spec(opt_view(n))).take(6) =~= "Tool: "@);
        }
    }
}

/// What a Codex record tells: a finished turn (`task_complete`,
/// `turn_complete`, `turn_completed`) or an interrupted one
/// (`turn_aborted`) leaves the session idle; a started turn or a user
/// message, a turn context, a tool call or its output, and the model's
/// reasoning or message mean work; a tool call that asks the human blocks;
/// the session's first record discovers it. An observation comes exactly
/// when the record says something, the file's session is known (the first
/// record names it) and the timestamp parses.
pub proof fn codex_records_read(r: TranscriptRecord, id: Option<Seq<char>>, host: Option<Host>)
    requires
        r.kind is Some,
    ensures
        ({
            let out = adapt_spec("codex"@, r, id, host).0;
            let k = (r.kind->0)@;
            let sub = opt_view(r.payload.kind);
            let sid = if k == "session_meta"@ {
                opt_view(r.payload.id)
            } else {
                id
            };
            let event = k == "event_msg"@;
            let finished = event && (sub == Some("task_complete"@) || sub == Some("turn_complete"@) || sub
                == Some("turn_completed"@));
            let aborted = event && sub == Some("turn_aborted"@);
            let started = event && (sub == Some("task_started"@) || sub == Some("turn_started"@) || sub
                == Some("user_message"@));
            let call = k == "response_item"@ && (sub == Some("function_call"@) || sub == Some(
                "custom_tool_call"@,
            ));
            let output = k == "response_item"@ && (sub == Some("function_call_output"@) || sub == Some(
                "custom_tool_call_output"@,
            ));
            let n = opt_view(r.payload.name);
            let asks = (sub == Some("function_call"@) || sub == Some("custom_tool_call"@)) && (n == Some(
                "request_user_input"@,
            ) || n == Some("functions.request_user_input"@) || n == Some(
                "functions.request_user_input_async"@,
            ));
            &&& (out matches Some(o) ==> Some(o.id) == sid && Some(o.at) == record_instant(r))
            &&& ((finished || aborted || started || call || output || k == "session_meta"@ || k
                == "turn_context"@) ==> (out is Some <==> (sid is Some && record_instant(r) is Some)))
            &&& (k != "session_meta"@ && k != "turn_context"@ && k != "event_msg"@ && k != "response_item"@
                ==> out is None)
            &&& (out matches Some(o) ==> finished ==> o.status == SessionStatus::Idle && o.activity
                == "Turn complete"@ && o.attention == "unknown"@)
            &&& (out matches Some(o) ==> aborted ==> o.status == SessionStatus::Idle && o.activity
                == "Turn interrupted"@ && o.attention == "unknown"@)
            &&& (out matches Some(o) ==> started ==> o.status == SessionStatus::Working && o.activity
                == "Thinking"@)
            &&& (out matches Some(o) ==> k == "session_meta"@ ==> o.status == (if asks {
                SessionStatus::Blocked
            } else {
                SessionStatus::Unknown
            }) && o.activity == "Session discovered"@)
            &&& (out matches Some(o) ==> k == "turn_context"@ ==> o.status == (if asks {
                SessionStatus::Blocked
            } else {
                SessionStatus::Working
            }))
            &&& (out matches Some(o) ==> output ==> o.status == SessionStatus::Working && o.activity
                == "Tool returned"@)
            &&& (out matches Some(o) ==> call ==> {
                &&& o.status == (if asks {
                    SessionStatus::Blocked
                } else {
                    SessionStatus::Working
                })
                &&& o.attention == (if asks {
                    "explicit_input"@
                } else {
                    "unknown"@
                })
            })
        }),
{
    lemma_claude_words_distinct();
    lemma_codex_words_distinct();
    let sub = opt_view(r.payload.kind);
    let n = opt_view(r.payload.name);
    reveal_strlit("function_call");
    reveal_strlit("custom_tool_call");
    assert(Seq::<char>::empty().len() != "function_call"@.len());
    assert(Seq::<char>::empty().len() != "custom_tool_call"@.len());
    assert(codex_asks(r.payload) == ((sub == Some("function_call"@) || sub == Some("custom_tool_call"@)) && (n
        == Some("request_user_input"@) || n == Some("functions.request_user_input"@) || n == Some(
        "functions.request_user_input_async"@,
    ))));
}

/// A session that is not waiting on the human takes the status, activity
/// and attention of any observation no older than what it last saw, and is
/// then last seen at the observation's time; a new session does so too.
pub proof fn observations_set_status(
    st: StoreView,
    provider: Seq<char>,
    path: Seq<char>,
    o: ObservationView,
    appended: bool,
    now: i128,
)
    requires
        st.sessions.dom().contains(observed_key(provider, o.id)) ==> {
            let s = st.sessions[observed_key(provider, o.id)];
            &&& o.at >= s.last_event_at
            &&& s.attention != "permission"@
            &&& s.attention != "explicit_input"@
        },
    ensures
        ({
            let k = observed_key(provider, o.id);
            let after = observation_result(st, provider, path, o, appended, now).sessions;
            &&& after.dom().contains(k)
            &&& after[k].status == o.status
            &&& after[k].activity == Some(o.activity)
            &&& after[k].attention == o.attention
            &&& after[k].last_event_at == o.at
        }),
{
    let k = observed_key(provider, o.id);
    lemma_attention_words_distinct();
}

/// An observation older than what its session last saw changes neither the
/// session's status, activity, attention nor what it is blocked on, and
/// leaves its pending requests alone: records arriving out of order never
/// undo newer ones.
pub proof fn older_observations_change_no_status(
    st: StoreView,
    provider: Seq<char>,
    path: Seq<char>,
    o: ObservationView,
    appended: bool,
    now: i128,
)
    requires
        st.sessions.dom().contains(observed_key(provider, o.id)),
        o.at < st.sessions[observed_key(provider, o.id)].last_event_at,
    ensures
        ({
            let k = observed_key(provider, o.id);
            let before = st.sessions[k];
            let after = observation_result(st, provider, path, o, appended, now);
            &&& after.sessions[k].status == before.status
            &&& after.sessions[k].activity == before.activity
            &&& after.sessions[k].attention == before.attention
            &&& after.sessions[k].blocked_on == before.blocked_on
            &&& after.sessions[k].last_event_at == before.last_event_at
            &&& after.sessions[k].live == before.live
            &&& after.hook_pending == st.hook_pending
        }),
{
}


/// What a `claude_code` record teaches about its file, whether or not it
/// observes anything: a record naming a session makes it the file's
/// session, and one naming an entrypoint sets the file's host (the command
/// line means a terminal); otherwise both stay as they were. A subagent's
/// record teaches nothing and observes nothing.
pub proof fn claude_records_locate_their_file(r: TranscriptRecord, id: Option<Seq<char>>, host: Option<Host>)
    requires
        r.kind is Some,
    ensures
        ({
            let out = adapt_spec("claude_code"@, r, id, host);
            &&& (r.is_sidechain == Some(true) ==> out == (None::<ObservationView>, id, host))
            &&& (r.is_sidechain != Some(true) ==> {
                &&& out.1 == (match r.session_id {
                    Some(x) => Some(x@),
                    None => id,
                })
                &&& (r.entrypoint is None ==> out.2 == host)
                &&& (r.entrypoint matches Some(e) && e@ == "cli"@ ==> out.2 == Some(Host::Terminal))
            })
        }),
{
    lemma_claude_words_distinct();
    reveal_strlit("cli");
    reveal_strlit("-desktop");
    reveal_strlit("-vscode");
    if r.entrypoint matches Some(e) && e@ == "cli"@ {
        assert((vendor_spec() + "-desktop"@).len() != "cli"@.len());
        assert((vendor_spec() + "-vscode"@).len() != "cli"@.len());
    }
}


} // verus!
