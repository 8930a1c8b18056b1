//! Installs and removes Aperture's hooks in the `claude_code` provider's
//! `settings.json`.
//!
//! Rules:
//! - Never touch members other than `hooks`.
//! - Inside `hooks`, never touch entries none of whose commands contains
//!   the marker `aperture`. Other tools' hooks are left alone.
//! - Idempotent: installing twice yields one entry per event.
//!
//! The hook command is a script written to the provider's `hooks` folder
//! in the home directory. It reads the payload from stdin, adds
//! `aperture_pid` and posts it to the local listener; it always exits 0, so
//! a closed app never affects a session.
use vstd::prelude::*;

use crate::model::{vendor, vendor_spec};
use crate::keyed::{distinct_keys, lemma_push, lemma_to_map_index, lemma_update, to_map};
use crate::text::{
    ascii_lowercase, chars_of, contains, contains_seq, decimal, fmt_u64, lower_seq, replace_all, replace_str,
    str_eq,
};

verus! {

/// The text that marks a hook command as Aperture's (matched without regard
/// to ASCII case).
pub open spec fn marker() -> Seq<char> {
    "aperture"@
}

/// One entry of an event's hook list.
#[derive(Debug, Clone, PartialEq)]
pub enum HookEntry {
    /// An entry already in the settings: its JSON text, and the `command`
    /// of each hook in its `hooks` array (`None` for a hook without a string
    /// command). `commands` is `None` when the entry has no `hooks` array.
    Existing { json: String, commands: Option<Vec<Option<String>>> },
    /// The entry Aperture writes: its command, for every tool, with a
    /// three-second timeout.
    Aperture { command: String },
}

/// The value of one event's member of `hooks`.
#[derive(Debug, Clone, PartialEq)]
pub enum EventHooks {
    /// A JSON array of entries.
    List(Vec<HookEntry>),
    /// Anything else, by its JSON text.
    NotList(String),
}

/// The `hooks` member of the settings object.
#[derive(Debug, Clone, PartialEq)]
pub enum HooksTable {
    Absent,
    /// Present but not an object, by its JSON text.
    NotTable(String),
    /// An object: its members, by event name, in the order they are kept.
    Table(Vec<(String, EventHooks)>),
}

/// A settings file whose root is a JSON object: its members other than
/// `hooks` (name and JSON text), and its `hooks` member.
#[derive(Debug, Clone, PartialEq)]
pub struct Settings {
    pub others: Vec<(String, String)>,
    pub hooks: HooksTable,
}

pub ghost enum EntryView {
    Existing { json: Seq<char>, commands: Option<Seq<Option<Seq<char>>>> },
    Aperture { command: Seq<char> },
}

pub ghost enum ListView {
    List(Seq<EntryView>),
    NotList(Seq<char>),
}

pub open spec fn texts(v: Seq<Option<String>>) -> Seq<Option<Seq<char>>> {
    v.map_values(|o: Option<String>| crate::model::opt_view(o))
}

impl View for HookEntry {
    type V = EntryView;

    open spec fn view(&self) -> EntryView {
        match self {
            HookEntry::Existing { json, commands } => EntryView::Existing {
                json: json@,
                commands: match commands {
                    Some(c) => Some(texts(c@)),
                    None => None,
                },
            },
            HookEntry::Aperture { command } => EntryView::Aperture { command: command@ },
        }
    }
}

pub open spec fn entry_views(v: Seq<HookEntry>) -> Seq<EntryView> {
    v.map_values(|e: HookEntry| e@)
}

impl View for EventHooks {
    type V = ListView;

    open spec fn view(&self) -> ListView {
        match self {
            EventHooks::List(v) => ListView::List(entry_views(v@)),
            EventHooks::NotList(t) => ListView::NotList(t@),
        }
    }
}

pub open spec fn table_keys(t: Seq<(String, EventHooks)>) -> Seq<Seq<char>> {
    t.map_values(|e: (String, EventHooks)| e.0@)
}

pub open spec fn table_values(t: Seq<(String, EventHooks)>) -> Seq<ListView> {
    t.map_values(|e: (String, EventHooks)| e.1@)
}

/// The `hooks` object by event name.
pub open spec fn table_map(t: Seq<(String, EventHooks)>) -> Map<Seq<char>, ListView> {
    to_map(table_keys(t), table_values(t))
}

pub open spec fn other_views(o: Seq<(String, String)>) -> Seq<(Seq<char>, Seq<char>)> {
    o.map_values(|e: (String, String)| (e.0@, e.1@))
}

/// A command is Aperture's when, lowercased, it contains the marker.
pub open spec fn marked(command: Seq<char>) -> bool {
    contains_seq(lower_seq(command), marker())
}

/// An entry is Aperture's when any of its hooks' commands is.
pub open spec fn ours(e: EntryView) -> bool {
    match e {
        EntryView::Existing { commands, .. } => match commands {
            Some(cs) => exists|i: int| 0 <= i < cs.len() && (#[trigger] cs[i]) is Some && marked(cs[i]->0),
            None => false,
        },
        EntryView::Aperture { command } => marked(command),
    }
}

/// The entries of a list that belong to other tools, in order.
pub open spec fn foreign(es: Seq<EntryView>) -> Seq<EntryView> {
    es.filter(|e: EntryView| !ours(e))
}

/// The events Aperture subscribes to.
pub open spec fn hook_events() -> Seq<Seq<char>> {
    seq![
        "SessionStart"@,
        "UserPromptSubmit"@,
        "PreToolUse"@,
        "PostToolUse"@,
        "PermissionRequest"@,
        "Notification"@,
        "Stop"@,
        "StopFailure"@,
        "SessionEnd"@,
    ]
}

/// The entries an event's member holds as a list (none when it is absent).
pub open spec fn listed(m: Map<Seq<char>, ListView>, k: Seq<char>) -> Seq<EntryView> {
    if m.dom().contains(k) {
        match m[k] {
            ListView::List(es) => es,
            ListView::NotList(_) => Seq::<EntryView>::empty(),
        }
    } else {
        Seq::<EntryView>::empty()
    }
}

/// Every subscribed event's member, where present, is a list.
pub open spec fn lists_ok(m: Map<Seq<char>, ListView>) -> bool {
    forall|k: Seq<char>| hook_events().contains(k) && #[trigger] m.dom().contains(k) ==> m[k] is List
}

/// Settings Aperture can install into: a `hooks` member, if present, is an
/// object whose subscribed events hold lists.
pub open spec fn installable(s: Settings) -> bool {
    match s.hooks {
        HooksTable::Absent => true,
        HooksTable::NotTable(_) => false,
        HooksTable::Table(t) => distinct_keys(table_keys(t@)) && lists_ok(table_map(t@)),
    }
}

pub open spec fn well_keyed(s: Settings) -> bool {
    match s.hooks {
        HooksTable::Table(t) => distinct_keys(table_keys(t@)),
        _ => true,
    }
}

/// The `hooks` object by event name (empty when absent or not an object).
pub open spec fn hooks_of(s: Settings) -> Map<Seq<char>, ListView> {
    match s.hooks {
        HooksTable::Table(t) => table_map(t@),
        _ => Map::<Seq<char>, ListView>::empty(),
    }
}

/// `hooks` after installing `command`: each subscribed event keeps the
/// other tools' entries and ends with exactly one Aperture entry; other
/// members are untouched.
pub open spec fn installed_hooks(m: Map<Seq<char>, ListView>, command: Seq<char>) -> Map<Seq<char>, ListView> {
    Map::new(
        |k: Seq<char>| m.dom().contains(k) || hook_events().contains(k),
        |k: Seq<char>|
            if hook_events().contains(k) {
                ListView::List(foreign(listed(m, k)).push(EntryView::Aperture { command: command }))
            } else {
                m[k]
            },
    )
}

/// Whether a member survives removal: a list survives while it holds other
/// tools' entries; anything else is left alone.
pub open spec fn survives(v: ListView) -> bool {
    match v {
        ListView::List(es) => foreign(es).len() > 0,
        ListView::NotList(_) => true,
    }
}

/// A member with Aperture's entries taken out.
pub open spec fn stripped(v: ListView) -> ListView {
    match v {
        ListView::List(es) => ListView::List(foreign(es)),
        ListView::NotList(t) => ListView::NotList(t),
    }
}

/// `hooks` after removal: Aperture's entries leave every list, and lists
/// left empty leave the object.
pub open spec fn removed_hooks(m: Map<Seq<char>, ListView>) -> Map<Seq<char>, ListView> {
    Map::new(|k: Seq<char>| m.dom().contains(k) && survives(m[k]), |k: Seq<char>| stripped(m[k]))
}

/// Aperture is installed when `hooks.SessionStart` is a list holding one of
/// its entries.
pub open spec fn has_aperture(m: Map<Seq<char>, ListView>) -> bool {
    m.dom().contains("SessionStart"@) && match m["SessionStart"@] {
        ListView::List(es) => exists|i: int| 0 <= i < es.len() && ours(#[trigger] es[i]),
        ListView::NotList(_) => false,
    }
}

pub open spec fn installed_in(s: Settings) -> bool {
    has_aperture(hooks_of(s))
}

fn is_marked(command: &str) -> (r: bool)
    ensures
        r == marked(command@),
{
    let lower = ascii_lowercase(chars_of(command).as_slice());
    let m = chars_of("aperture");
    contains(lower.as_slice(), m.as_slice())
}

fn any_marked(cs: &Vec<Option<String>>) -> (r: bool)
    ensures
        r == exists|i: int| 0 <= i < texts(cs@).len() && (#[trigger] texts(cs@)[i]) is Some && marked(texts(cs@)[i]->0),
{
    let mut i: usize = 0;
    while i < cs.len()
        invariant
            i <= cs@.len(),
            forall|j: int| 0 <= j < i ==> !((#[trigger] texts(cs@)[j]) is Some && marked(texts(cs@)[j]->0)),
        decreases cs@.len() - i,
    {
        let hit = match &cs[i] {
            Some(c) => is_marked(c.as_str()),
            None => false,
        };
        if hit {
            assert(texts(cs@)[i as int] is Some && marked(texts(cs@)[i as int]->0));
            return true;
        }
        i += 1;
    }
    false
}

/// Whether an entry is Aperture's.
pub fn is_ours(e: &HookEntry) -> (r: bool)
    ensures
        r == ours(e@),
{
    match e {
        HookEntry::Aperture { command } => is_marked(command.as_str()),
        HookEntry::Existing { commands, .. } => match commands {
            None => false,
            Some(cs) => any_marked(cs),
        },
    }
}

fn duplicate_entry(e: &HookEntry) -> (r: HookEntry)
    ensures
        r@ == e@,
{
    match e {
        HookEntry::Aperture { command } => HookEntry::Aperture { command: command.clone() },
        HookEntry::Existing { json, commands } => {
            let cs = match commands {
                None => None,
                Some(v) => {
                    let mut out: Vec<Option<String>> = Vec::new();
                    let mut i: usize = 0;
                    while i < v.len()
                        invariant
                            i <= v@.len(),
                            out@ == v@.take(i as int),
                        decreases v@.len() - i,
                    {
                        let ghost before = out@;
                        out.push(crate::model::clone_opt(&v[i]));
                        assert(out@ =~= v@.take(i + 1));
                        i += 1;
                    }
                    assert(v@.take(v@.len() as int) =~= v@);
                    Some(out)
                },
            };
            HookEntry::Existing { json: json.clone(), commands: cs }
        },
    }
}

/// The entries of `es` that belong to other tools, in order.
pub fn foreign_entries(es: &Vec<HookEntry>) -> (r: Vec<HookEntry>)
    ensures
        entry_views(r@) == foreign(entry_views(es@)),
{
    let mut out: Vec<HookEntry> = Vec::new();
    let mut i: usize = 0;
    while i < es.len()
        invariant
            i <= es@.len(),
            entry_views(out@) == foreign(entry_views(es@).take(i as int)),
        decreases es@.len() - i,
    {
        let ghost before = entry_views(es@).take(i as int);
        proof {
            assert(entry_views(es@).take(i + 1) =~= before.push(entry_views(es@)[i as int]));
            before.lemma_filter_push(entry_views(es@)[i as int], |e: EntryView| !ours(e));
        }
        if !is_ours(&es[i]) {
            out.push(duplicate_entry(&es[i]));
            assert(entry_views(out@) =~= foreign(before).push(entry_views(es@)[i as int]));
        } else {
            assert(entry_views(out@) =~= foreign(before));
        }
        i += 1;
    }
    assert(entry_views(es@).take(es@.len() as int) =~= entry_views(es@));
    out
}

/// The events Aperture subscribes to, in order.
pub fn subscribed_events() -> (r: Vec<String>)
    ensures
        r@.map_values(|s: String| s@) == hook_events(),
{
    let mut v: Vec<String> = Vec::new();
    v.push(String::from_str("SessionStart"));
    v.push(String::from_str("UserPromptSubmit"));
    v.push(String::from_str("PreToolUse"));
    v.push(String::from_str("PostToolUse"));
    v.push(String::from_str("PermissionRequest"));
    v.push(String::from_str("Notification"));
    v.push(String::from_str("Stop"));
    v.push(String::from_str("StopFailure"));
    v.push(String::from_str("SessionEnd"));
    assert(v@.map_values(|s: String| s@) =~= hook_events());
    v
}

pub proof fn lemma_events_distinct()
    ensures
        distinct_keys(hook_events()),
{
    reveal_strlit("SessionStart");
    reveal_strlit("UserPromptSubmit");
    reveal_strlit("PreToolUse");
    reveal_strlit("PostToolUse");
    reveal_strlit("PermissionRequest");
    reveal_strlit("Notification");
    reveal_strlit("Stop");
    reveal_strlit("StopFailure");
    reveal_strlit("SessionEnd");
    let e = hook_events();
    assert(e[0].len() == 12 && e[1].len() == 16 && e[2].len() == 10 && e[3].len() == 11);
    assert(e[4].len() == 17 && e[5].len() == 12 && e[6].len() == 4 && e[7].len() == 11);
    assert(e[8].len() == 10);
    assert(e[0][0] != e[5][0]);
    assert(e[2][0] != e[8][0]);
    assert(e[3][0] != e[7][0]);
}

fn table_index(t: &Vec<(String, EventHooks)>, key: &String) -> (r: Option<usize>)
    requires
        distinct_keys(table_keys(t@)),
    ensures
        r.is_none() <==> !table_map(t@).dom().contains(key@),
        (r matches Some(i) ==> i < t@.len() && t@[i as int].0@ == key@ && table_map(t@)[key@]
            == t@[i as int].1@),
{
    let mut i: usize = 0;
    while i < t.len()
        invariant
            i <= t@.len(),
            distinct_keys(table_keys(t@)),
            forall|j: int| 0 <= j < i ==> t@[j].0@ != key@,
        decreases t@.len() - i,
    {
        if str_eq(t[i].0.as_str(), key.as_str()) {
            proof {
                assert(table_keys(t@)[i as int] == key@);
                lemma_to_map_index(table_keys(t@), table_values(t@), i as int);
            }
            return Some(i);
        }
        i += 1;
    }
    proof {
        if table_keys(t@).contains(key@) {
            let j = choose|j: int| 0 <= j < table_keys(t@).len() && table_keys(t@)[j] == key@;
            assert(t@[j].0@ == key@);
        }
    }
    None
}

/// `hooks` after installing `command` for the first `n` subscribed events.
pub open spec fn installed_upto(m: Map<Seq<char>, ListView>, command: Seq<char>, n: int) -> Map<
    Seq<char>,
    ListView,
> {
    Map::new(
        |k: Seq<char>| m.dom().contains(k) || hook_events().take(n).contains(k),
        |k: Seq<char>|
            if hook_events().take(n).contains(k) {
                ListView::List(foreign(listed(m, k)).push(EntryView::Aperture { command: command }))
            } else {
                m[k]
            },
    )
}

proof fn lemma_installed_step(m0: Map<Seq<char>, ListView>, command: Seq<char>, j: int)
    requires
        0 <= j < hook_events().len(),
        distinct_keys(hook_events()),
    ensures
        !hook_events().take(j).contains(hook_events()[j]),
        installed_upto(m0, command, j + 1) == installed_upto(m0, command, j).insert(
            hook_events()[j],
            ListView::List(foreign(listed(m0, hook_events()[j])).push(EntryView::Aperture { command: command })),
        ),
{
    let e = hook_events()[j];
    let a = hook_events().take(j);
    let b = hook_events().take(j + 1);
    assert(b =~= a.push(e));
    if a.contains(e) {
        let t = choose|t: int| 0 <= t < a.len() && a[t] == e;
        assert(hook_events()[t] == hook_events()[j]);
    }
    assert forall|k: Seq<char>| b.contains(k) <==> (a.contains(k) || k == e) by {
        if b.contains(k) {
            let t = choose|t: int| 0 <= t < b.len() && b[t] == k;
            if t < j {
                assert(a[t] == k);
            }
        }
        if a.contains(k) {
            let t = choose|t: int| 0 <= t < a.len() && a[t] == k;
            assert(b[t] == k);
        }
        if k == e {
            assert(b[j] == e);
        }
    }
    assert(installed_upto(m0, command, j + 1) =~= installed_upto(m0, command, j).insert(
        e,
        ListView::List(foreign(listed(m0, e)).push(EntryView::Aperture { command: command })),
    ));
}

/// The settings with Aperture's hook installed under `command`.
pub fn with_hooks_installed(settings: Settings, command: &str) -> (r: Settings)
    requires
        installable(settings),
    ensures
        well_keyed(r),
        other_views(r.others@) == other_views(settings.others@),
        r.hooks is Table,
        hooks_of(r) == installed_hooks(hooks_of(settings), command@),
{
    let Settings { others, hooks } = settings;
    let ghost m0 = hooks_of(Settings { others, hooks });
    let mut table: Vec<(String, EventHooks)> = match hooks {
        HooksTable::Table(t) => t,
        _ => Vec::new(),
    };
    proof {
        assert(table_map(table@) == m0) by {
            if table@.len() == 0 {
                assert(table_map(table@) =~= Map::<Seq<char>, ListView>::empty());
            }
        }
        lemma_events_distinct();
        assert(installed_upto(m0, command@, 0) =~= m0);
    }
    let events = subscribed_events();
    let mut j: usize = 0;
    while j < events.len()
        invariant
            j <= events@.len(),
            events@.map_values(|s: String| s@) == hook_events(),
            distinct_keys(hook_events()),
            distinct_keys(table_keys(table@)),
            lists_ok(m0),
            table_map(table@) == installed_upto(m0, command@, j as int),
        decreases events@.len() - j,
    {
        let ev = &events[j];
        assert(ev@ == hook_events()[j as int]);
        let ghost t0 = table@;
        proof {
            lemma_installed_step(m0, command@, j as int);
        }
        let ours_entry = HookEntry::Aperture { command: String::from_str(command) };
        match table_index(&table, ev) {
            Some(i) => {
                let kept = match &table[i].1 {
                    EventHooks::List(es) => foreign_entries(es),
                    EventHooks::NotList(_) => Vec::new(),
                };
                proof {
                    assert(table_map(t0)[ev@] == installed_upto(m0, command@, j as int)[ev@]);
                    assert(m0.dom().contains(ev@));
                    assert(m0[ev@] is List);
                    assert(table_map(t0)[ev@] == m0[ev@]);
                    assert(entry_views(kept@) == foreign(listed(m0, ev@)));
                }
                let mut list = kept;
                list.push(ours_entry);
                let ghost lv = ListView::List(foreign(listed(m0, ev@)).push(EntryView::Aperture { command: command@ }));
                assert(entry_views(list@) =~= foreign(listed(m0, ev@)).push(EntryView::Aperture { command: command@ }));
                table.set(i, (ev.clone(), EventHooks::List(list)));
                proof {
                    lemma_update(table_keys(t0), table_values(t0), i as int, lv);
                    assert(table_keys(table@) =~= table_keys(t0));
                    assert(table_values(table@) =~= table_values(t0).update(i as int, lv));
                }
            },
            None => {
                let mut list: Vec<HookEntry> = Vec::new();
                list.push(ours_entry);
                let ghost lv = ListView::List(foreign(listed(m0, ev@)).push(EntryView::Aperture { command: command@ }));
                proof {
                    assert(!installed_upto(m0, command@, j as int).dom().contains(ev@));
                    assert(!m0.dom().contains(ev@));
                    assert(foreign(listed(m0, ev@)) =~= Seq::<EntryView>::empty());
                    assert(entry_views(list@) =~= foreign(listed(m0, ev@)).push(EntryView::Aperture { command: command@ }));
                }
                table.push((ev.clone(), EventHooks::List(list)));
                proof {
                    lemma_push(table_keys(t0), table_values(t0), ev@, lv);
                    assert(table_keys(table@) =~= table_keys(t0).push(ev@));
                    assert(table_values(table@) =~= table_values(t0).push(lv));
                }
            },
        }
        j += 1;
    }
    proof {
        assert(hook_events().take(hook_events().len() as int) =~= hook_events());
        assert(installed_upto(m0, command@, hook_events().len() as int) =~= installed_hooks(m0, command@));
    }
    Settings { others, hooks: HooksTable::Table(table) }
}

proof fn lemma_removed_insert(m: Map<Seq<char>, ListView>, k: Seq<char>, v: ListView)
    requires
        !m.dom().contains(k),
    ensures
        removed_hooks(m.insert(k, v)) == (if survives(v) {
            removed_hooks(m).insert(k, stripped(v))
        } else {
            removed_hooks(m)
        }),
{
    if survives(v) {
        assert(removed_hooks(m.insert(k, v)) =~= removed_hooks(m).insert(k, stripped(v)));
    } else {
        assert(removed_hooks(m.insert(k, v)) =~= removed_hooks(m));
    }
}

/// The settings with Aperture's entries removed from every hook list; lists
/// left empty are dropped. Members other than `hooks` are untouched.
pub fn with_hooks_removed(settings: Settings) -> (r: Settings)
    requires
        well_keyed(settings),
    ensures
        well_keyed(r),
        other_views(r.others@) == other_views(settings.others@),
        match settings.hooks {
            HooksTable::Table(_) => r.hooks is Table && hooks_of(r) == removed_hooks(hooks_of(settings)),
            HooksTable::Absent => r.hooks is Absent,
            HooksTable::NotTable(t) => r.hooks matches HooksTable::NotTable(u) && u@ == t@,
        },
{
    let Settings { others, hooks } = settings;
    match hooks {
        HooksTable::Table(t) => {
            let mut out: Vec<(String, EventHooks)> = Vec::new();
            let mut i: usize = 0;
            proof {
                assert(table_map(t@.take(0)) =~= Map::<Seq<char>, ListView>::empty());
                assert(table_map(out@) =~= Map::<Seq<char>, ListView>::empty());
                assert(removed_hooks(Map::<Seq<char>, ListView>::empty()) =~= Map::<Seq<char>, ListView>::empty());
            }
            while i < t.len()
                invariant
                    i <= t@.len(),
                    distinct_keys(table_keys(t@)),
                    distinct_keys(table_keys(out@)),
                    table_map(out@) == removed_hooks(table_map(t@.take(i as int))),
                decreases t@.len() - i,
            {
                let ghost o0 = out@;
                proof {
                    crate::keyed::lemma_prefix_step(table_keys(t@), table_values(t@), i as int);
                    assert(table_keys(t@).take(i as int) =~= table_keys(t@.take(i as int)));
                    assert(table_values(t@).take(i as int) =~= table_values(t@.take(i as int)));
                    assert(table_keys(t@).take(i + 1) =~= table_keys(t@.take(i + 1)));
                    assert(table_values(t@).take(i + 1) =~= table_values(t@.take(i + 1)));
                    lemma_removed_insert(table_map(t@.take(i as int)), t@[i as int].0@, t@[i as int].1@);
                    if table_keys(o0).contains(t@[i as int].0@) {
                        let q = choose|q: int| 0 <= q < table_keys(o0).len() && table_keys(o0)[q] == t@[i as int].0@;
                        lemma_to_map_index(table_keys(o0), table_values(o0), q);
                    }
                }
                let key = &t[i].0;
                match &t[i].1 {
                    EventHooks::List(es) => {
                        let kept = foreign_entries(es);
                        if kept.len() > 0 {
                            let ghost lv = ListView::List(entry_views(kept@));
                            out.push((key.clone(), EventHooks::List(kept)));
                            proof {
                                lemma_push(table_keys(o0), table_values(o0), key@, lv);
                                assert(table_keys(out@) =~= table_keys(o0).push(key@));
                                assert(table_values(out@) =~= table_values(o0).push(lv));
                            }
                        }
                    },
                    EventHooks::NotList(text) => {
                        let ghost lv = ListView::NotList(text@);
                        out.push((key.clone(), EventHooks::NotList(text.clone())));
                        proof {
                            lemma_push(table_keys(o0), table_values(o0), key@, lv);
                            assert(table_keys(out@) =~= table_keys(o0).push(key@));
                            assert(table_values(out@) =~= table_values(o0).push(lv));
                        }
                    },
                }
                i += 1;
            }
            assert(t@.take(t@.len() as int) =~= t@);
            Settings { others, hooks: HooksTable::Table(out) }
        },
        HooksTable::Absent => Settings { others, hooks: HooksTable::Absent },
        HooksTable::NotTable(text) => Settings { others, hooks: HooksTable::NotTable(text) },
    }
}

fn any_ours(es: &Vec<HookEntry>) -> (r: bool)
    ensures
        r == exists|q: int| 0 <= q < entry_views(es@).len() && ours(#[trigger] entry_views(es@)[q]),
{
    let mut j: usize = 0;
    while j < es.len()
        invariant
            j <= es@.len(),
            forall|q: int| 0 <= q < j ==> !ours(#[trigger] entry_views(es@)[q]),
        decreases es@.len() - j,
    {
        if is_ours(&es[j]) {
            assert(ours(entry_views(es@)[j as int]));
            return true;
        }
        j += 1;
    }
    false
}

/// Whether Aperture's hook is installed in `settings`.
pub fn is_installed(settings: &Settings) -> (r: bool)
    requires
        well_keyed(*settings),
    ensures
        r == installed_in(*settings),
{
    match &settings.hooks {
        HooksTable::Table(t) => {
            proof {
                reveal_strlit("SessionStart");
            }
            let key = String::from_str("SessionStart");
            assert(hooks_of(*settings) == table_map(t@));
            match table_index(t, &key) {
                None => false,
                Some(i) => match &t[i].1 {
                    EventHooks::NotList(_) => false,
                    EventHooks::List(es) => {
                        let r = any_ours(es);
                        proof {
                            assert(hooks_of(*settings)["SessionStart"@] == ListView::List(entry_views(es@)));
                            if r {
                                let q = choose|q: int|
                                    0 <= q < entry_views(es@).len() && ours(#[trigger] entry_views(es@)[q]);
                                assert(ours(entry_views(es@)[q]));
                            }
                        }
                        r
                    },
                },
            }
        },
        _ => {
            assert(hooks_of(*settings) == Map::<Seq<char>, ListView>::empty());
            false
        },
    }
}

proof fn lemma_foreign_twice(es: Seq<EntryView>)
    ensures
        foreign(foreign(es)) == foreign(es),
    decreases es.len(),
{
    if es.len() > 0 {
        let front = es.drop_last();
        let last = es.last();
        assert(es =~= front.push(last));
        lemma_foreign_twice(front);
        front.lemma_filter_push(last, |e: EntryView| !ours(e));
        if !ours(last) {
            foreign(front).lemma_filter_push(last, |e: EntryView| !ours(e));
        }
    } else {
        assert(foreign(es) =~= es);
    }
}

proof fn lemma_foreign_drops_ours(es: Seq<EntryView>, e: EntryView)
    requires
        ours(e),
    ensures
        foreign(es.push(e)) == foreign(es),
{
    es.lemma_filter_push(e, |x: EntryView| !ours(x));
}

proof fn lemma_foreign_none_ours(es: Seq<EntryView>)
    ensures
        forall|i: int| 0 <= i < foreign(es).len() ==> !ours(#[trigger] foreign(es)[i]),
{
    assert forall|i: int| 0 <= i < foreign(es).len() implies !ours(#[trigger] foreign(es)[i]) by {
        es.lemma_filter_pred(|x: EntryView| !ours(x), i);
    }
}

/// Installing leaves Aperture installed, whenever the command carries the
/// marker (as the script path does).
pub proof fn install_installs(m: Map<Seq<char>, ListView>, command: Seq<char>)
    requires
        marked(command),
    ensures
        has_aperture(installed_hooks(m, command)),
{
    let r = installed_hooks(m, command);
    assert(hook_events()[0] == "SessionStart"@);
    let es = foreign(listed(m, "SessionStart"@)).push(mine_entry(command));
    assert(ours(es[es.len() - 1]));
    let v = r["SessionStart"@];
    assert(v->List_0 == es);
}

pub open spec fn mine_entry(command: Seq<char>) -> EntryView {
    EntryView::Aperture { command: command }
}

/// Installing twice yields what installing once does: one Aperture entry
/// per event.
pub proof fn install_is_idempotent(m: Map<Seq<char>, ListView>, command: Seq<char>)
    requires
        marked(command),
    ensures
        installed_hooks(installed_hooks(m, command), command) == installed_hooks(m, command),
{
    let once = installed_hooks(m, command);
    let twice = installed_hooks(once, command);
    let mine = EntryView::Aperture { command: command };
    assert forall|k: Seq<char>| twice.dom().contains(k) implies twice[k] == once[k] by {
        if hook_events().contains(k) {
            lemma_foreign_drops_ours(foreign(listed(m, k)), mine);
            lemma_foreign_twice(listed(m, k));
            assert(listed(once, k) == foreign(listed(m, k)).push(mine));
        }
    }
    assert(twice =~= once);
}

/// Installing keeps every other tool's entry, in order, in every list, and
/// leaves the members for other events untouched.
pub proof fn install_keeps_other_hooks(m: Map<Seq<char>, ListView>, command: Seq<char>, k: Seq<char>)
    requires
        marked(command),
    ensures
        hook_events().contains(k) ==> foreign(listed(installed_hooks(m, command), k)) == foreign(listed(m, k)),
        !hook_events().contains(k) && m.dom().contains(k) ==> installed_hooks(m, command).dom().contains(k)
            && installed_hooks(m, command)[k] == m[k],
{
    if hook_events().contains(k) {
        lemma_foreign_drops_ours(foreign(listed(m, k)), EntryView::Aperture { command: command });
        lemma_foreign_twice(listed(m, k));
    }
}

/// After removal Aperture is not installed.
pub proof fn removal_uninstalls(m: Map<Seq<char>, ListView>)
    ensures
        !has_aperture(removed_hooks(m)),
{
    let r = removed_hooks(m);
    if r.dom().contains("SessionStart"@) {
        match m["SessionStart"@] {
            ListView::List(es) => lemma_foreign_none_ours(es),
            ListView::NotList(_) => {},
        }
    }
}

/// Removing after installing leaves what removing alone would: installing
/// leaves no trace that removal does not take back.
pub proof fn removal_undoes_install(m: Map<Seq<char>, ListView>, command: Seq<char>)
    requires
        marked(command),
        lists_ok(m),
    ensures
        removed_hooks(installed_hooks(m, command)) == removed_hooks(m),
{
    let once = installed_hooks(m, command);
    let a = removed_hooks(once);
    let b = removed_hooks(m);
    let mine = EntryView::Aperture { command: command };
    assert forall|k: Seq<char>| #[trigger] a.dom().contains(k) <==> b.dom().contains(k) by {
        if hook_events().contains(k) {
            lemma_foreign_drops_ours(foreign(listed(m, k)), mine);
            lemma_foreign_twice(listed(m, k));
        }
    }
    assert forall|k: Seq<char>| a.dom().contains(k) implies a[k] == b[k] by {
        if hook_events().contains(k) {
            lemma_foreign_drops_ours(foreign(listed(m, k)), mine);
            lemma_foreign_twice(listed(m, k));
        }
    }
    assert(a =~= b);
}

/// Hooks with no Aperture entry and no empty list: what a user's settings
/// hold before Aperture is installed.
pub open spec fn clean_hooks(m: Map<Seq<char>, ListView>) -> bool {
    forall|k: Seq<char>|
        #[trigger] m.dom().contains(k) ==> match m[k] {
            ListView::List(es) => es.len() > 0 && forall|i: int| 0 <= i < es.len() ==> !ours(#[trigger] es[i]),
            ListView::NotList(_) => true,
        }
}

proof fn lemma_foreign_of_foreign_only(es: Seq<EntryView>)
    requires
        forall|i: int| 0 <= i < es.len() ==> !ours(#[trigger] es[i]),
    ensures
        foreign(es) == es,
    decreases es.len(),
{
    if es.len() > 0 {
        let front = es.drop_last();
        assert forall|i: int| 0 <= i < front.len() implies !ours(#[trigger] front[i]) by {
            assert(front[i] == es[i]);
        }
        lemma_foreign_of_foreign_only(front);
        front.lemma_filter_push(es.last(), |e: EntryView| !ours(e));
        assert(front.push(es.last()) =~= es);
    } else {
        reveal(Seq::filter);
    }
}

/// Removal leaves hooks that hold no Aperture entry and no empty list as
/// they are.
pub proof fn removal_keeps_clean_hooks(m: Map<Seq<char>, ListView>)
    requires
        clean_hooks(m),
    ensures
        removed_hooks(m) == m,
{
    let r = removed_hooks(m);
    assert forall|k: Seq<char>| #[trigger] r.dom().contains(k) <==> m.dom().contains(k) by {
        if m.dom().contains(k) {
            match m[k] {
                ListView::List(es) => lemma_foreign_of_foreign_only(es),
                ListView::NotList(_) => {},
            }
        }
    }
    assert forall|k: Seq<char>| r.dom().contains(k) implies r[k] == m[k] by {
        match m[k] {
            ListView::List(es) => lemma_foreign_of_foreign_only(es),
            ListView::NotList(_) => {},
        }
    }
    assert(r =~= m);
}

/// Installing and then removing gives back the hooks as they were, when
/// they held no Aperture entry and no empty list.
pub proof fn removal_after_install_restores(m: Map<Seq<char>, ListView>, command: Seq<char>)
    requires
        marked(command),
        lists_ok(m),
        clean_hooks(m),
    ensures
        removed_hooks(installed_hooks(m, command)) == m,
{
    removal_undoes_install(m, command);
    removal_keeps_clean_hooks(m);
}

/// The placeholder in a hook script template that the listener's port
/// replaces.
pub open spec fn port_placeholder() -> Seq<char> {
    "__PORT__"@
}

/// The hook script: the template with every port placeholder replaced by
/// the listener's port in decimal.
pub fn script_body(template: &str, port: u16) -> (r: String)
    ensures
        r@ == replace_all(template@, port_placeholder(), decimal(port as nat)),
{
    proof {
        reveal_strlit("__PORT__");
    }
    let digits = fmt_u64(port as u64);
    replace_str(template, "__PORT__", digits.as_str())
}

/// The name of the hook script for a platform whose path separator is `sep`.
pub open spec fn script_name_for(sep: char) -> Seq<char> {
    if sep == '\\' {
        "aperture.cmd"@
    } else {
        "aperture.sh"@
    }
}

/// Where the hook script lives under the home directory `home`:
/// `<home>/.<vendor>/hooks/<name>`.
pub open spec fn script_path_in(home: Seq<char>, name: Seq<char>) -> Seq<char> {
    crate::paths::path_joined(crate::paths::path_joined(crate::paths::path_joined(home, "."@ + vendor_spec()), "hooks"@), name)
}

/// The command stored in the settings: the script's absolute path, quoted.
pub open spec fn command_for(home: Seq<char>, name: Seq<char>) -> Seq<char> {
    "\""@ + script_path_in(home, name) + "\""@
}

proof fn lemma_script_names_plain()
    ensures
        crate::paths::plain_name("aperture.sh"@),
        crate::paths::plain_name("aperture.cmd"@),
        "aperture.sh"@.len() == 11,
        "aperture.cmd"@.len() == 12,
        forall|j: int| 0 <= j < 8 ==> #[trigger] "aperture.sh"@[j] == "aperture"@[j],
        forall|j: int| 0 <= j < 8 ==> #[trigger] "aperture.cmd"@[j] == "aperture"@[j],
{
    reveal_strlit("aperture.sh");
    reveal_strlit("aperture.cmd");
    reveal_strlit("aperture");
    reveal_strlit(".");
    reveal_strlit("..");
    let a = "aperture.sh"@;
    let b = "aperture.cmd"@;
    assert(a =~= seq!['a', 'p', 'e', 'r', 't', 'u', 'r', 'e', '.', 's', 'h']);
    assert(b =~= seq!['a', 'p', 'e', 'r', 't', 'u', 'r', 'e', '.', 'c', 'm', 'd']);
    assert("aperture"@ =~= seq!['a', 'p', 'e', 'r', 't', 'u', 'r', 'e']);
}

/// A quoted script path ending in Aperture's script name carries the marker.
proof fn lemma_quoted_script_marked(script: Seq<char>, name: Seq<char>)
    requires
        name == "aperture.sh"@ || name == "aperture.cmd"@,
        script.len() >= name.len(),
        script.skip(script.len() - name.len()) == name,
    ensures
        marked("\""@ + script + "\""@),
{
    lemma_script_names_plain();
    reveal_strlit("\"");
    reveal_strlit("aperture");
    let cmd = "\""@ + script + "\""@;
    let k: int = 1 + script.len() - name.len();
    let low = lower_seq(cmd);
    assert forall|j: int| 0 <= j < 8 implies low[k + j] == "aperture"@[j] by {
        assert(cmd[k + j] == script[script.len() - name.len() + j]);
        assert(script.skip(script.len() - name.len())[j] == name[j]);
        if name == "aperture.sh"@ {
            assert("aperture.sh"@[j] == "aperture"@[j]);
        } else {
            assert("aperture.cmd"@[j] == "aperture"@[j]);
        }
        assert("aperture"@[j] != 'A' && !('A' <= "aperture"@[j] && "aperture"@[j] <= 'Z')) by {
            assert("aperture"@ =~= seq!['a', 'p', 'e', 'r', 't', 'u', 'r', 'e']);
        }
    }
    assert(low.subrange(k, k + 8) =~= "aperture"@);
    assert(crate::text::occurs_at(low, marker(), k));
}

/// The hook command for the home directory `home` on a platform whose path
/// separator is `sep`.
pub fn hook_command_in(home: &str, sep: char) -> (r: String)
    ensures
        r@ == command_for(home@, script_name_for(sep)),
        marked(r@),
{
    let name = if sep == '\\' {
        "aperture.cmd"
    } else {
        "aperture.sh"
    };
    let dot_dir = String::from_str(".").concat(vendor().as_str());
    let config_dir = crate::paths::join_path(home, dot_dir.as_str());
    let hooks = crate::paths::join_path(config_dir.as_str(), "hooks");
    proof {
        lemma_script_names_plain();
    }
    let script = crate::paths::join_path(hooks.as_str(), name);
    let r = String::from_str("\"").concat(script.as_str()).concat("\"");
    proof {
        lemma_quoted_script_marked(script@, name@);
    }
    r
}

/// The hook command for this user: `None` when there is no home directory.
pub fn hook_command() -> (r: Option<String>)
    ensures
        r matches Some(c) ==> exists|home: Seq<char>, sep: char| c@ == command_for(home, script_name_for(sep)),
        r matches Some(c) ==> marked(c@),
{
    match crate::paths::home_dir() {
        None => None,
        Some(home) => {
            let sep = crate::paths::main_separator();
            let c = hook_command_in(home.as_str(), sep);
            assert(c@ == command_for(home@, script_name_for(sep)));
            Some(c)
        },
    }
}

/// What installing writes: the hook script for the listener's `port`, and
/// the settings with the hook installed under `command`.
pub fn install(current: Settings, command: &str, template: &str, port: u16) -> (r: (String, Settings))
    requires
        installable(current),
    ensures
        r.0@ == replace_all(template@, port_placeholder(), decimal(port as nat)),
        well_keyed(r.1),
        other_views(r.1.others@) == other_views(current.others@),
        r.1.hooks is Table,
        hooks_of(r.1) == installed_hooks(hooks_of(current), command@),
{
    let script = script_body(template, port);
    let settings = with_hooks_installed(current, command);
    (script, settings)
}

/// Whether the hook is installed, given the settings as read (`None` when
/// there is no home directory to read them from).
pub fn check_installed(current: Option<&Settings>) -> (r: bool)
    requires
        current matches Some(s) ==> well_keyed(*s),
    ensures
        r == match current {
            Some(s) => installed_in(*s),
            None => false,
        },
{
    match current {
        Some(s) => is_installed(s),
        None => false,
    }
}

} // verus!
