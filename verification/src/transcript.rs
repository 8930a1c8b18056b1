//! Backfill summaries of `claude_code` transcripts (in the provider's
//! `projects/<sanitized-cwd>/<session-id>.jsonl` under the home directory).
//!
//! Each transcript line is one JSON object. The summary reads it
//! defensively: it looks at `type`, `sessionId`, `cwd`, `timestamp`,
//! `gitBranch`, `summary`, `message.content` and `message.usage`, and
//! ignores anything else.
use vstd::prelude::*;

use crate::clock::{parse_timestamp, parsed_instant};
use crate::model::{clone_opt, opt_view, vendor, vendor_spec};
use crate::paths::{home_dir, join_path, path_joined};
use crate::text::str_eq;

verus! {

/// Where the provider keeps its transcripts under the home directory
/// `home`: `<home>/.<vendor>/projects`.
pub open spec fn projects_dir_spec(home: Seq<char>) -> Seq<char> {
    path_joined(path_joined(home, "."@ + vendor_spec()), "projects"@)
}

/// The transcripts folder under the home directory `home`.
pub fn projects_dir_in(home: &str) -> (r: String)
    ensures
        r@ == projects_dir_spec(home@),
{
    let dot_dir = String::from_str(".").concat(vendor().as_str());
    let config_dir = join_path(home, dot_dir.as_str());
    join_path(config_dir.as_str(), "projects")
}

/// The transcripts folder for this user: `None` when there is no home
/// directory.
pub fn projects_dir() -> (r: Option<String>)
    ensures
        r matches Some(d) ==> exists|home: Seq<char>| d@ == projects_dir_spec(home),
{
    match home_dir() {
        None => None,
        Some(home) => {
            let d = projects_dir_in(home.as_str());
            assert(d@ == projects_dir_spec(home@));
            Some(d)
        },
    }
}

#[derive(Debug, Clone)]
pub struct TranscriptSummary {
    pub session_id: String,
    pub path: String,
    pub cwd: String,
    pub git_branch: Option<String>,
    pub title: Option<String>,
    pub first_at: i128,
    pub last_at: i128,
    pub user_messages: u32,
    pub assistant_messages: u32,
    pub input_tokens: u64,
    pub output_tokens: u64,
}

pub ghost struct SummaryView {
    pub session_id: Seq<char>,
    pub path: Seq<char>,
    pub cwd: Seq<char>,
    pub git_branch: Option<Seq<char>>,
    pub title: Option<Seq<char>>,
    pub first_at: i128,
    pub last_at: i128,
    pub user_messages: u32,
    pub assistant_messages: u32,
    pub input_tokens: u64,
    pub output_tokens: u64,
}

impl View for TranscriptSummary {
    type V = SummaryView;

    open spec fn view(&self) -> SummaryView {
        SummaryView {
            session_id: self.session_id@,
            path: self.path@,
            cwd: self.cwd@,
            git_branch: opt_view(self.git_branch),
            title: opt_view(self.title),
            first_at: self.first_at,
            last_at: self.last_at,
            user_messages: self.user_messages,
            assistant_messages: self.assistant_messages,
            input_tokens: self.input_tokens,
            output_tokens: self.output_tokens,
        }
    }
}

/// The shape of a line's `message.content`.
#[derive(Debug, Clone)]
pub enum MessageContent {
    /// Missing, or neither a string nor an array.
    Other,
    /// A JSON string.
    Text,
    /// An array of blocks, by each block's `type` (when it is a string).
    Blocks(Vec<Option<String>>),
}

/// A line's `message.usage`: each counter when it is an unsigned integer.
#[derive(Debug, Clone, Default)]
pub struct Usage {
    pub input_tokens: Option<u64>,
    pub cache_read_input_tokens: Option<u64>,
    pub cache_creation_input_tokens: Option<u64>,
    pub output_tokens: Option<u64>,
}

/// The members of one transcript line the summary reads. Text members are
/// `Some` only when they are JSON strings.
#[derive(Debug, Clone)]
pub struct TranscriptLine {
    pub kind: Option<String>,
    pub session_id: Option<String>,
    pub cwd: Option<String>,
    pub git_branch: Option<String>,
    pub timestamp: Option<String>,
    pub summary: Option<String>,
    pub content: MessageContent,
    pub usage: Option<Usage>,
}

/// A `user` line is a human turn when its content is text, or holds a text
/// block; tool results also arrive as `user` lines and are not turns.
pub open spec fn human_turn(c: MessageContent) -> bool {
    match c {
        MessageContent::Other => false,
        MessageContent::Text => true,
        MessageContent::Blocks(b) => exists|i: int| 0 <= i < b@.len() && opt_view(#[trigger] b@[i]) == Some("text"@),
    }
}

pub open spec fn counter(c: Option<u64>) -> nat {
    match c {
        Some(n) => n as nat,
        None => 0,
    }
}

/// The input tokens an `assistant` line reports: fresh, cache-read and
/// cache-creation tokens together.
pub open spec fn input_of(l: TranscriptLine) -> nat {
    match l.usage {
        Some(u) => counter(u.input_tokens) + counter(u.cache_read_input_tokens) + counter(
            u.cache_creation_input_tokens,
        ),
        None => 0,
    }
}

pub open spec fn output_of(l: TranscriptLine) -> nat {
    match l.usage {
        Some(u) => counter(u.output_tokens),
        None => 0,
    }
}

/// What the summary has gathered after some lines.
pub ghost struct Gathered {
    pub session_id: Option<Seq<char>>,
    pub cwd: Option<Seq<char>>,
    pub git_branch: Option<Seq<char>>,
    pub title: Option<Seq<char>>,
    pub first_at: Option<i128>,
    pub last_at: Option<i128>,
    pub user_messages: nat,
    pub assistant_messages: nat,
    pub input_tokens: nat,
    pub output_tokens: nat,
}

pub open spec fn first_some(a: Option<Seq<char>>, b: Option<Seq<char>>) -> Option<Seq<char>> {
    if a is Some {
        a
    } else {
        b
    }
}

pub open spec fn kind_is(l: TranscriptLine, k: Seq<char>) -> bool {
    opt_view(l.kind) == Some(k)
}

/// The first session id, working directory and branch win; the last
/// parseable timestamp is the last activity and the first one the start;
/// the latest `summary` line is the title.
pub open spec fn gathered(lines: Seq<TranscriptLine>) -> Gathered
    decreases lines.len(),
{
    if lines.len() == 0 {
        Gathered {
            session_id: None,
            cwd: None,
            git_branch: None,
            title: None,
            first_at: None,
            last_at: None,
            user_messages: 0,
            assistant_messages: 0,
            input_tokens: 0,
            output_tokens: 0,
        }
    } else {
        let g = gathered(lines.drop_last());
        let l = lines.last();
        let ts = match l.timestamp {
            Some(t) => parsed_instant(t@),
            None => None,
        };
        Gathered {
            session_id: first_some(g.session_id, opt_view(l.session_id)),
            cwd: first_some(g.cwd, opt_view(l.cwd)),
            git_branch: first_some(g.git_branch, opt_view(l.git_branch)),
            title: if kind_is(l, "summary"@) && l.summary is Some {
                opt_view(l.summary)
            } else {
                g.title
            },
            first_at: if g.first_at is None {
                ts
            } else {
                g.first_at
            },
            last_at: if ts is Some {
                ts
            } else {
                g.last_at
            },
            user_messages: g.user_messages + if kind_is(l, "user"@) && human_turn(l.content) {
                1nat
            } else {
                0nat
            },
            assistant_messages: g.assistant_messages + if kind_is(l, "assistant"@) {
                1nat
            } else {
                0nat
            },
            input_tokens: g.input_tokens + if kind_is(l, "assistant"@) {
                input_of(l)
            } else {
                0nat
            },
            output_tokens: g.output_tokens + if kind_is(l, "assistant"@) {
                output_of(l)
            } else {
                0nat
            },
        }
    }
}

/// The summary of the transcript at `path` with the given parsed lines:
/// `None` when no session id is known (from a line or the file name
/// `stem`) or no line carries a parseable timestamp.
pub open spec fn summary_of(path: Seq<char>, stem: Option<Seq<char>>, lines: Seq<TranscriptLine>) -> Option<
    SummaryView,
> {
    let g = gathered(lines);
    let id = first_some(g.session_id, stem);
    match (id, g.last_at) {
        (Some(i), Some(last)) => Some(
            SummaryView {
                session_id: i,
                path: path,
                cwd: match g.cwd {
                    Some(c) => c,
                    None => Seq::<char>::empty(),
                },
                git_branch: g.git_branch,
                title: g.title,
                first_at: match g.first_at {
                    Some(f) => f,
                    None => last,
                },
                last_at: last,
                user_messages: g.user_messages as u32,
                assistant_messages: g.assistant_messages as u32,
                input_tokens: g.input_tokens as u64,
                output_tokens: g.output_tokens as u64,
            },
        ),
        _ => None,
    }
}

/// The name of the file at `path` without its extension, as
/// `std::path::Path::file_stem` gives it (when it is UTF-8).
pub uninterp spec fn stem_of(path: Seq<char>) -> Option<Seq<char>>;

/// `std::path::Path::file_stem`, as text. The result is named, not
/// described.
#[verifier::external_body]
pub(crate) fn file_stem(path: &str) -> (r: Option<String>)
    ensures
        opt_view(r) == stem_of(path@),
{
    std::path::Path::new(path).file_stem().and_then(|s| s.to_str()).map(|s| s.to_string())
}

fn has_text_block(b: &Vec<Option<String>>) -> (r: bool)
    ensures
        r == exists|i: int| 0 <= i < b@.len() && opt_view(#[trigger] b@[i]) == Some("text"@),
{
    let mut i: usize = 0;
    while i < b.len()
        invariant
            i <= b@.len(),
            forall|j: int| 0 <= j < i ==> opt_view(#[trigger] b@[j]) != Some("text"@),
        decreases b@.len() - i,
    {
        let hit = match &b[i] {
            Some(t) => str_eq(t.as_str(), "text"),
            None => false,
        };
        if hit {
            assert(opt_view(b@[i as int]) == Some("text"@));
            return true;
        }
        i += 1;
    }
    false
}

fn is_human_turn(c: &MessageContent) -> (r: bool)
    ensures
        r == human_turn(*c),
{
    match c {
        MessageContent::Other => false,
        MessageContent::Text => true,
        MessageContent::Blocks(b) => has_text_block(b),
    }
}

fn kind_eq(l: &TranscriptLine, k: &str) -> (r: bool)
    ensures
        r == kind_is(*l, k@),
{
    match &l.kind {
        Some(t) => str_eq(t.as_str(), k),
        None => false,
    }
}

fn count(c: Option<u64>) -> (r: u64)
    ensures
        r == counter(c),
{
    match c {
        Some(n) => n,
        None => 0,
    }
}

/// Summarize the transcript at `path` from its parsed lines (blank and
/// unparseable lines left out). `stem` is the file name without its
/// extension, the session id of last resort.
pub fn summarize_lines(path: &str, stem: Option<String>, lines: &Vec<TranscriptLine>) -> (r: Option<TranscriptSummary>)
    requires
        lines@.len() <= u32::MAX,
        gathered(lines@).input_tokens <= u64::MAX,
        gathered(lines@).output_tokens <= u64::MAX,
    ensures
        match r {
            Some(s) => summary_of(path@, opt_view(stem), lines@) == Some(s@),
            None => summary_of(path@, opt_view(stem), lines@) is None,
        },
{
    let mut session_id: Option<String> = None;
    let mut cwd: Option<String> = None;
    let mut git_branch: Option<String> = None;
    let mut title: Option<String> = None;
    let mut first_at: Option<i128> = None;
    let mut last_at: Option<i128> = None;
    let mut user_messages: u32 = 0;
    let mut assistant_messages: u32 = 0;
    let mut input_tokens: u64 = 0;
    let mut output_tokens: u64 = 0;
    let mut i: usize = 0;
    while i < lines.len()
        invariant
            i <= lines@.len(),
            lines@.len() <= u32::MAX,
            gathered(lines@).input_tokens <= u64::MAX,
            gathered(lines@).output_tokens <= u64::MAX,
            ({
                let g = gathered(lines@.take(i as int));
                &&& opt_view(session_id) == g.session_id
                &&& opt_view(cwd) == g.cwd
                &&& opt_view(git_branch) == g.git_branch
                &&& opt_view(title) == g.title
                &&& first_at == g.first_at
                &&& last_at == g.last_at
                &&& user_messages == g.user_messages
                &&& assistant_messages == g.assistant_messages
                &&& input_tokens == g.input_tokens
                &&& output_tokens == g.output_tokens
                &&& g.user_messages <= i
                &&& g.assistant_messages <= i
            }),
        decreases lines@.len() - i,
    {
        proof {
            assert(lines@.take(i + 1).drop_last() =~= lines@.take(i as int));
            lemma_gathered_grows(lines@, i + 1);
        }
        proof {
            lemma_kinds_distinct();
        }
        let l = &lines[i];
        if session_id.is_none() {
            session_id = clone_opt(&l.session_id);
        }
        if cwd.is_none() {
            cwd = clone_opt(&l.cwd);
        }
        if git_branch.is_none() {
            git_branch = clone_opt(&l.git_branch);
        }
        let ts: Option<i128> = match &l.timestamp {
            Some(t) => parse_timestamp(t.as_str()),
            None => None,
        };
        if let Some(t) = ts {
            if first_at.is_none() {
                first_at = Some(t);
            }
            last_at = Some(t);
        }
        if kind_eq(l, "user") {
            if is_human_turn(&l.content) {
                user_messages = user_messages + 1;
            }
        } else if kind_eq(l, "assistant") {
            assistant_messages = assistant_messages + 1;
            if let Some(u) = &l.usage {
                input_tokens = input_tokens + count(u.input_tokens);
                input_tokens = input_tokens + count(u.cache_read_input_tokens);
                input_tokens = input_tokens + count(u.cache_creation_input_tokens);
                output_tokens = output_tokens + count(u.output_tokens);
            }
        } else if kind_eq(l, "summary") {
            if let Some(s) = &l.summary {
                title = Some(s.clone());
            }
        }
        i += 1;
    }
    proof {
        assert(lines@.take(lines@.len() as int) =~= lines@);
    }
    let id = match session_id {
        Some(s) => s,
        None => match stem {
            Some(s) => s,
            None => return None,
        },
    };
    let last = match last_at {
        Some(t) => t,
        None => return None,
    };
    let first = match first_at {
        Some(t) => t,
        None => last,
    };
    Some(
        TranscriptSummary {
            session_id: id,
            path: String::from_str(path),
            cwd: match cwd {
                Some(c) => c,
                None => String::new(),
            },
            git_branch,
            title,
            first_at: first,
            last_at: last,
            user_messages,
            assistant_messages,
            input_tokens,
            output_tokens,
        },
    )
}

proof fn lemma_kinds_distinct()
    ensures
        "user"@ != "assistant"@,
        "user"@ != "summary"@,
        "assistant"@ != "summary"@,
{
    reveal_strlit("user");
    reveal_strlit("assistant");
    reveal_strlit("summary");
    assert("user"@.len() == 4);
    assert("summary"@.len() == 7);
    assert("assistant"@.len() == 9);
}

/// The token totals only grow as lines are read.
proof fn lemma_gathered_grows(lines: Seq<TranscriptLine>, i: int)
    requires
        0 <= i <= lines.len(),
    ensures
        gathered(lines.take(i)).input_tokens <= gathered(lines).input_tokens,
        gathered(lines.take(i)).output_tokens <= gathered(lines).output_tokens,
    decreases lines.len() - i,
{
    if i < lines.len() {
        lemma_gathered_grows(lines, i + 1);
        assert(lines.take(i + 1).drop_last() =~= lines.take(i));
    } else {
        assert(lines.take(i) =~= lines);
    }
}

/// Summarize the transcript at `path` from its parsed lines, taking the
/// session id of last resort from the file's name.
pub fn summarize(path: &str, lines: &Vec<TranscriptLine>) -> (r: Option<TranscriptSummary>)
    requires
        lines@.len() <= u32::MAX,
        gathered(lines@).input_tokens <= u64::MAX,
        gathered(lines@).output_tokens <= u64::MAX,
    ensures
        match r {
            Some(s) => summary_of(path@, stem_of(path@), lines@) == Some(s@),
            None => summary_of(path@, stem_of(path@), lines@) is None,
        },
{
    let stem = file_stem(path);
    summarize_lines(path, stem, lines)
}


/// The summary counts a `user` line as a human turn when its content is
/// text, or a list holding a block of type `text`; a `user` line of tool
/// results only, or with no content, is not a turn. Every `assistant` line
/// counts as one reply. Reading one more line changes the counts by exactly
/// that.
pub proof fn turns_are_counted(lines: Seq<TranscriptLine>, l: TranscriptLine)
    ensures
        ({
            let before = gathered(lines);
            let after = gathered(lines.push(l));
            let user = opt_view(l.kind) == Some("user"@);
            let turn = match l.content {
                MessageContent::Text => true,
                MessageContent::Other => false,
                MessageContent::Blocks(b) => exists|i: int|
                    0 <= i < b@.len() && (#[trigger] b@[i]) is Some && (b@[i]->0)@ == "text"@,
            };
            &&& after.user_messages == before.user_messages + (if user && turn {
                1int
            } else {
                0int
            })
            &&& after.assistant_messages == before.assistant_messages + (if opt_view(l.kind) == Some(
                "assistant"@,
            ) {
                1int
            } else {
                0int
            })
        }),
{
    assert(lines.push(l).drop_last() =~= lines);
    match l.content {
        MessageContent::Blocks(b) => {
            if exists|i: int| 0 <= i < b@.len() && (#[trigger] b@[i]) is Some && (b@[i]->0)@ == "text"@ {
                let i = choose|i: int| 0 <= i < b@.len() && (#[trigger] b@[i]) is Some && (b@[i]->0)@ == "text"@;
                assert(opt_view(b@[i]) == Some("text"@));
            }
            if human_turn(l.content) {
                let i = choose|i: int| 0 <= i < b@.len() && opt_view(#[trigger] b@[i]) == Some("text"@);
                assert(b@[i] is Some && (b@[i]->0)@ == "text"@);
            }
        },
        _ => {},
    }
}


/// A transcript's summary counts one more human turn for each `user` line
/// of text (or holding a text block) added to it, and one more reply for
/// each `assistant` line.
pub proof fn summaries_count_turns(path: Seq<char>, stem: Option<Seq<char>>, lines: Seq<TranscriptLine>, l: TranscriptLine)
    requires
        summary_of(path, stem, lines) is Some,
        gathered(lines).user_messages < u32::MAX,
        gathered(lines).assistant_messages < u32::MAX,
    ensures
        ({
            let before = summary_of(path, stem, lines)->0;
            let after = summary_of(path, stem, lines.push(l));
            let turn = match l.content {
                MessageContent::Text => true,
                MessageContent::Other => false,
                MessageContent::Blocks(b) => exists|i: int|
                    0 <= i < b@.len() && (#[trigger] b@[i]) is Some && (b@[i]->0)@ == "text"@,
            };
            &&& after is Some
            &&& after->0.user_messages == before.user_messages + (if opt_view(l.kind) == Some("user"@) && turn {
                1int
            } else {
                0int
            })
            &&& after->0.assistant_messages == before.assistant_messages + (if opt_view(l.kind) == Some(
                "assistant"@,
            ) {
                1int
            } else {
                0int
            })
        }),
{
    turns_are_counted(lines, l);
    assert(lines.push(l).drop_last() =~= lines);
}


/// Reading one more line of a transcript: a parseable timestamp becomes the
/// last activity (and the start, when none was seen yet), a line without
/// one moves neither; the first session id, working directory and branch
/// seen are kept; a `summary` line with text becomes the title; an
/// `assistant` line adds its fresh, cache-read and cache-creation input
/// tokens and its output tokens, and no other line adds tokens.
pub proof fn lines_are_gathered(lines: Seq<TranscriptLine>, l: TranscriptLine)
    ensures
        ({
            let before = gathered(lines);
            let after = gathered(lines.push(l));
            let ts = match l.timestamp {
                Some(t) => parsed_instant(t@),
                None => None,
            };
            let assistant = opt_view(l.kind) == Some("assistant"@);
            let n = |c: Option<u64>| -> int {
                match c {
                    Some(x) => x as int,
                    None => 0,
                }
            };
            &&& (ts matches Some(t) ==> after.last_at == Some(t) && after.first_at == (if before.first_at is Some {
                before.first_at
            } else {
                Some(t)
            }))
            &&& (ts is None ==> after.last_at == before.last_at && after.first_at == before.first_at)
            &&& (before.session_id is Some ==> after.session_id == before.session_id)
            &&& (before.session_id is None ==> after.session_id == opt_view(l.session_id))
            &&& (before.cwd is Some ==> after.cwd == before.cwd)
            &&& (before.git_branch is Some ==> after.git_branch == before.git_branch)
            &&& (opt_view(l.kind) == Some("summary"@) && l.summary is Some ==> after.title == opt_view(
                l.summary,
            ))
            &&& (opt_view(l.kind) != Some("summary"@) ==> after.title == before.title)
            &&& (assistant ==> after.input_tokens == before.input_tokens + match l.usage {
                Some(u) => n(u.input_tokens) + n(u.cache_read_input_tokens) + n(u.cache_creation_input_tokens),
                None => 0,
            } && after.output_tokens == before.output_tokens + match l.usage {
                Some(u) => n(u.output_tokens),
                None => 0,
            })
            &&& (!assistant ==> after.input_tokens == before.input_tokens && after.output_tokens
                == before.output_tokens)
        }),
{
    assert(lines.push(l).drop_last() =~= lines);
}


} // verus!
