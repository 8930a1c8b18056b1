//! The JSON a `claude_code` hook receives on stdin, as far as the legacy store
//! reducer reads it. Fields are parsed leniently: anything unfamiliar is left
//! out rather than breaking ingestion.
use vstd::prelude::*;

use crate::text::{chars_of, string_from_chars};

verus! {

/// How one member of a JSON object reads: missing, a string, or any other value.
#[derive(Debug, Clone, PartialEq, Eq)]
pub enum JsonField {
    Absent,
    Text(String),
    Other,
}

/// The members of a tool call's input that describe it.
#[derive(Debug, Clone)]
pub struct ToolInput {
    pub file_path: JsonField,
    pub path: JsonField,
    pub command: JsonField,
    pub pattern: JsonField,
    pub description: JsonField,
}

#[derive(Debug, Clone, Default)]
pub struct HookPayload {
    pub session_id: String,
    pub hook_event_name: String,
    pub cwd: Option<String>,
    pub transcript_path: Option<String>,
    pub permission_mode: Option<String>,
    pub tool_name: Option<String>,
    /// The tool input's describing members; `None` when no input was sent.
    pub tool_input: Option<ToolInput>,
    pub message: Option<String>,
    pub notification_type: Option<String>,
    pub reason: Option<String>,
    /// The `message` member of the `error` object, when it is a string.
    pub error_message: Option<String>,
    /// SessionStart: startup | resume | clear | compact.
    pub source: Option<String>,
    /// Injected by Aperture's hook wrapper, not by the provider.
    pub aperture_pid: Option<u32>,
    pub aperture_host_hint: Option<String>,
    /// Every other member, by name, with its JSON text: kept so that an
    /// unfamiliar field never breaks ingestion.
    pub extra: Vec<(String, String)>,
}

/// `k` is where the first line of `s` ends: the first `'\n'`, or the end.
pub open spec fn is_first_break(s: Seq<char>, k: int) -> bool {
    &&& 0 <= k <= s.len()
    &&& k < s.len() ==> s[k] == '\n'
    &&& forall|j: int| 0 <= j < k ==> s[j] != '\n'
}

pub open spec fn first_break(s: Seq<char>) -> int {
    choose|k: int| is_first_break(s, k)
}

/// The first line of `s` as `str::lines` yields it (a `"\r\n"` ending is
/// removed whole), or all of `s` when `s` has no line break.
pub open spec fn first_line(s: Seq<char>) -> Seq<char> {
    let k = first_break(s);
    if k == s.len() {
        s
    } else if k > 0 && s[k - 1] == '\r' {
        s.take(k - 1)
    } else {
        s.take(k)
    }
}

/// The first line of `s`, cut to `max` characters with a trailing ellipsis
/// when it is longer.
pub open spec fn shorten_spec(s: Seq<char>, max: nat) -> Seq<char> {
    let l = first_line(s);
    if l.len() <= max {
        l
    } else {
        l.take(max - 1).push('…')
    }
}

proof fn lemma_first_break_unique(s: Seq<char>, k: int)
    requires
        is_first_break(s, k),
    ensures
        first_break(s) == k,
{
    let c = first_break(s);
    assert(is_first_break(s, c));
    if c < k {
        assert(s[c] != '\n');
    } else if k < c {
        assert(s[k] != '\n');
    }
}

/// The first line of `s`, cut to `max` characters with an ellipsis.
pub fn shorten(s: &str, max: usize) -> (r: String)
    requires
        max >= 1 || first_line(s@).len() == 0,
    ensures
        r@ == shorten_spec(s@, max as nat),
{
    let v = chars_of(s);
    let mut k: usize = 0;
    while k < v.len() && v[k] != '\n'
        invariant
            k <= v@.len(),
            forall|j: int| 0 <= j < k ==> v@[j] != '\n',
        decreases v@.len() - k,
    {
        k += 1;
    }
    proof {
        lemma_first_break_unique(s@, k as int);
    }
    let mut end = k;
    if k < v.len() && k > 0 && v[k - 1] == '\r' {
        end = k - 1;
    }
    let mut line: Vec<char> = Vec::new();
    let mut i: usize = 0;
    while i < end
        invariant
            i <= end,
            end <= v@.len(),
            line@ == v@.take(i as int),
        decreases end - i,
    {
        line.push(v[i]);
        i += 1;
        assert(line@ =~= v@.take(i as int));
    }
    proof {
        if k == v.len() {
            assert(line@ =~= s@);
        }
        assert(line@ == first_line(s@));
    }
    if line.len() <= max {
        string_from_chars(line.as_slice())
    } else {
        let mut cut: Vec<char> = Vec::new();
        let mut j: usize = 0;
        while j < max - 1
            invariant
                j <= max - 1,
                max - 1 < line@.len(),
                cut@ == line@.take(j as int),
            decreases max - 1 - j,
        {
            cut.push(line[j]);
            j += 1;
            assert(cut@ =~= line@.take(j as int));
        }
        cut.push('…');
        string_from_chars(cut.as_slice())
    }
}

/// The detail `describe_tool` reads: the first of `file_path`, `path`,
/// `command`, `pattern`, `description` that is present, if it is a string.
pub open spec fn tool_detail(i: Option<ToolInput>) -> Option<Seq<char>> {
    match i {
        None => None,
        Some(t) => {
            let f = if !(t.file_path is Absent) {
                t.file_path
            } else if !(t.path is Absent) {
                t.path
            } else if !(t.command is Absent) {
                t.command
            } else if !(t.pattern is Absent) {
                t.pattern
            } else {
                t.description
            };
            match f {
                JsonField::Text(d) => Some(d@),
                _ => None,
            }
        },
    }
}

fn field_text(f: &JsonField) -> (r: Option<&String>)
    ensures
        r.is_some() <==> f is Text,
        (r matches Some(s) ==> f == JsonField::Text(*s)),
{
    match f {
        JsonField::Text(s) => Some(s),
        _ => None,
    }
}

impl HookPayload {
    /// What `describe_tool` returns for this payload.
    pub open spec fn describe_tool_spec(&self) -> Option<Seq<char>> {
        match self.tool_name {
            None => None,
            Some(name) => match tool_detail(self.tool_input) {
                Some(d) => Some(name@ + seq![' '] + shorten_spec(d, 60)),
                None => Some(name@),
            },
        }
    }

    /// A short, human-readable description of a tool call for the activity
    /// line: "Edit src/app.ts", "Bash npm test", "Read README.md".
    pub fn describe_tool(&self) -> (r: Option<String>)
        ensures
            crate::clock::opt_text(r) == self.describe_tool_spec(),
    {
        let name = match &self.tool_name {
            Some(n) => n,
            None => return None,
        };
        let detail: Option<&String> = match &self.tool_input {
            None => None,
            Some(t) => {
                let f = if !matches!(t.file_path, JsonField::Absent) {
                    &t.file_path
                } else if !matches!(t.path, JsonField::Absent) {
                    &t.path
                } else if !matches!(t.command, JsonField::Absent) {
                    &t.command
                } else if !matches!(t.pattern, JsonField::Absent) {
                    &t.pattern
                } else {
                    &t.description
                };
                field_text(f)
            },
        };
        match detail {
            Some(d) => {
                let short = shorten(d.as_str(), 60);
                let mut out = name.clone();
                out.append(" ");
                out.append(short.as_str());
                proof {
                    reveal_strlit(" ");
                    assert(" "@ =~= seq![' ']);
                }
                Some(out)
            },
            None => Some(name.clone()),
        }
    }
}

} // verus!
