//! What the dashboard's commands decide: the storage health line, and
//! which session and folder a navigation request names.
use vstd::prelude::*;

use crate::model::{opt_view, IntegrationHealth, Session, HealthView};
use crate::paths::{parent_dir, parent_of};
use crate::keyed::distinct_keys;
use crate::state::{fresh_part, id_seq, idle_past, Store, StoreView, LIVE_STORE_IDLE_DAYS};
use crate::text::{decimal, fmt_u64, str_eq};

verus! {

/// `one` for exactly one, `many` otherwise.
pub fn plural<'a>(n: usize, one: &'a str, many: &'a str) -> (r: &'a str)
    ensures
        r@ == (if n == 1 {
            one@
        } else {
            many@
        }),
{
    if n == 1 {
        one
    } else {
        many
    }
}

pub open spec fn plural_spec(n: nat, one: Seq<char>, many: Seq<char>) -> Seq<char> {
    if n == 1 {
        one
    } else {
        many
    }
}

/// The clause on writes: whether persistence is durable and the last
/// cycle's writes succeeded.
pub open spec fn write_clause(durable: bool, ok: bool) -> Seq<Seq<char>> {
    if !durable {
        seq!["in-memory only: database unavailable, history will not survive a restart."@]
    } else if !ok {
        seq!["SQLite write failed this cycle; running in-memory only until it recovers."@]
    } else {
        Seq::<Seq<char>>::empty()
    }
}

/// The clause on stored summaries the startup load could not read.
pub open spec fn unreadable_clause(unreadable: nat) -> Seq<Seq<char>> {
    if unreadable > 0 {
        seq![
            decimal(unreadable) + " stored session "@ + plural_spec(unreadable, "summary"@, "summaries"@)
                + " could not be read at startup and "@ + plural_spec(unreadable, "is"@, "are"@)
                + " missing from history; the "@ + plural_spec(unreadable, "row is"@, "rows are"@)
                + " still in the database."@,
        ]
    } else {
        Seq::<Seq<char>>::empty()
    }
}

/// The clause on sessions that left the live view under the idle policy.
pub open spec fn evicted_clause(evicted: nat) -> Seq<Seq<char>> {
    if evicted > 0 {
        seq![
            decimal(evicted) + " "@ + plural_spec(evicted, "session had"@, "sessions had"@)
                + " no observation in "@ + decimal(LIVE_STORE_IDLE_DAYS as nat)
                + " days and left the live view; the "@ + plural_spec(
                evicted,
                "summary is"@,
                "summaries are"@,
            ) + " still in the database."@,
        ]
    } else {
        Seq::<Seq<char>>::empty()
    }
}

/// The clause on stored summaries not admitted at startup.
pub open spec fn not_restored_clause(skipped: nat) -> Seq<Seq<char>> {
    if skipped > 0 {
        seq![
            decimal(skipped) + " stored "@ + plural_spec(skipped, "summary was"@, "summaries were"@)
                + " not shown at startup, after "@ + decimal(LIVE_STORE_IDLE_DAYS as nat)
                + " days with no observation; still in the database."@,
        ]
    } else {
        Seq::<Seq<char>>::empty()
    }
}

/// The clauses joined by single spaces.
pub open spec fn joined(parts: Seq<Seq<char>>) -> Seq<char>
    decreases parts.len(),
{
    if parts.len() == 0 {
        Seq::<char>::empty()
    } else if parts.len() == 1 {
        parts[0]
    } else {
        joined(parts.drop_last()) + " "@ + parts.last()
    }
}

/// All the clauses of the storage health line, in order; when nothing is
/// wrong with reads or writes, it says so first.
pub open spec fn storage_clauses(
    durable: bool,
    ok: bool,
    unreadable: nat,
    evicted: nat,
    skipped: nat,
) -> Seq<Seq<char>> {
    let problems = write_clause(durable, ok) + unreadable_clause(unreadable);
    let head = if problems.len() == 0 {
        seq!["SQLite persistence writing normally."@]
    } else {
        problems
    };
    head + evicted_clause(evicted) + not_restored_clause(skipped)
}

/// The storage health line. `durable` says whether the database is on disk
/// rather than in memory, `ok` whether this cycle's writes succeeded,
/// `unreadable` how many stored summaries the startup load could not read,
/// `evicted` and `skipped` how many sessions left the live view under the
/// idle policy and how many stored ones were not admitted at startup.
/// Sessions absent under the idle policy are reported but are no
/// degradation: the line is `ok` exactly when storage is durable, writing,
/// and read everything back.
pub open spec fn storage_health_spec(
    durable: bool,
    ok: bool,
    unreadable: nat,
    evicted: nat,
    skipped: nat,
    root: Seq<char>,
) -> HealthView {
    HealthView {
        provider: "storage"@,
        state: if durable && ok && unreadable == 0 {
            "ok"@
        } else {
            "degraded"@
        },
        root: root,
        files: 0,
        last_event_at: None,
        detail: joined(storage_clauses(durable, ok, unreadable, evicted, skipped)),
    }
}

fn push_clause(parts: &mut Vec<String>, s: String)
    ensures
        final(parts)@.map_values(|x: String| x@) == old(parts)@.map_values(|x: String| x@).push(s@),
{
    let ghost before = parts@;
    parts.push(s);
    assert(parts@.map_values(|x: String| x@) =~= before.map_values(|x: String| x@).push(s@));
}

fn join_clauses(parts: &Vec<String>) -> (r: String)
    ensures
        r@ == joined(parts@.map_values(|x: String| x@)),
{
    let ghost v = parts@.map_values(|x: String| x@);
    let mut out = String::new();
    let mut i: usize = 0;
    while i < parts.len()
        invariant
            i <= parts@.len(),
            v == parts@.map_values(|x: String| x@),
            out@ == joined(v.take(i as int)),
        decreases parts@.len() - i,
    {
        proof {
            assert(v.take(i + 1).drop_last() =~= v.take(i as int));
            assert(v.take(i + 1).last() == parts@[i as int]@);
            if i == 0 {
                assert(joined(v.take(0)) =~= Seq::<char>::empty());
            }
        }
        if i == 0 {
            out = parts[i].clone();
        } else {
            out = out.concat(" ").concat(parts[i].as_str());
        }
        i += 1;
    }
    assert(v.take(parts@.len() as int) =~= v);
    out
}

/// The storage health line; see `storage_health_spec`.
pub fn storage_health(
    durable: bool,
    ok: bool,
    unreadable: usize,
    evicted: usize,
    skipped: usize,
    root: String,
) -> (h: IntegrationHealth)
    ensures
        h@ == storage_health_spec(durable, ok, unreadable as nat, evicted as nat, skipped as nat, root@),
{
    let state = if durable && ok && unreadable == 0 {
        String::from_str("ok")
    } else {
        String::from_str("degraded")
    };
    let mut parts: Vec<String> = Vec::new();
    if !durable {
        push_clause(
            &mut parts,
            String::from_str("in-memory only: database unavailable, history will not survive a restart."),
        );
    } else if !ok {
        push_clause(
            &mut parts,
            String::from_str("SQLite write failed this cycle; running in-memory only until it recovers."),
        );
    }
    if unreadable > 0 {
        let line = fmt_u64(unreadable as u64).concat(" stored session ").concat(
            plural(unreadable, "summary", "summaries"),
        ).concat(" could not be read at startup and ").concat(plural(unreadable, "is", "are")).concat(
            " missing from history; the ",
        ).concat(plural(unreadable, "row is", "rows are")).concat(" still in the database.");
        push_clause(&mut parts, line);
    }
    if parts.len() == 0 {
        push_clause(&mut parts, String::from_str("SQLite persistence writing normally."));
    }
    let days = fmt_u64(LIVE_STORE_IDLE_DAYS as u64);
    if evicted > 0 {
        let line = fmt_u64(evicted as u64).concat(" ").concat(plural(evicted, "session had", "sessions had")).concat(
            " no observation in ",
        ).concat(days.as_str()).concat(" days and left the live view; the ").concat(
            plural(evicted, "summary is", "summaries are"),
        ).concat(" still in the database.");
        push_clause(&mut parts, line);
    }
    if skipped > 0 {
        let line = fmt_u64(skipped as u64).concat(" stored ").concat(
            plural(skipped, "summary was", "summaries were"),
        ).concat(" not shown at startup, after ").concat(days.as_str()).concat(
            " days with no observation; still in the database.",
        );
        push_clause(&mut parts, line);
    }
    proof {
        let w = write_clause(durable, ok);
        let u = unreadable_clause(unreadable as nat);
        assert((w + u).len() == 0 ==> w + u =~= Seq::<Seq<char>>::empty());
    }
    let detail = join_clauses(&parts);
    proof {
        assert(parts@.map_values(|x: String| x@) =~= storage_clauses(
            durable,
            ok,
            unreadable as nat,
            evicted as nat,
            skipped as nat,
        ));
    }
    IntegrationHealth {
        provider: String::from_str("storage"),
        state,
        root,
        files: 0,
        last_event_at: None,
        detail,
    }
}

/// Sessions absent under the idle policy are stated but never degrade the
/// storage line: its state depends only on durability, this cycle's writes
/// and the rows the startup load could not read.
pub proof fn idle_absences_never_degrade_storage(
    durable: bool,
    ok: bool,
    unreadable: nat,
    evicted1: nat,
    skipped1: nat,
    evicted2: nat,
    skipped2: nat,
    root: Seq<char>,
)
    ensures
        storage_health_spec(durable, ok, unreadable, evicted1, skipped1, root).state == storage_health_spec(
            durable,
            ok,
            unreadable,
            evicted2,
            skipped2,
            root,
        ).state,
        (storage_health_spec(durable, ok, unreadable, evicted1, skipped1, root).state == "ok"@) <==> (
        durable && ok && unreadable == 0),
{
    reveal_strlit("ok");
    reveal_strlit("degraded");
    assert("ok"@.len() != "degraded"@.len());
}

/// The close of a reconcile cycle, once the cycle's writes are done:
/// sessions idle past `max_idle` at `now` leave the live view, then the
/// storage health line is added, counting them. `durable`, `saved` and
/// `unreadable` are as for `storage_health`; `root` is the data directory.
/// Returns the ids evicted, whose cached summaries the caller forgets.
/// Evicting only after the writes means no summary leaves before it is
/// stored.
pub fn finish_reconcile(
    store: &mut Store,
    durable: bool,
    saved: bool,
    unreadable: usize,
    root: String,
    now: i128,
    max_idle: i128,
) -> (r: Vec<String>)
    requires
        old(store).wf(),
        old(store).revision + old(store).sessions@.len() <= u64::MAX,
        old(store).evicted_idle + old(store).sessions@.len() <= usize::MAX,
    ensures
        final(store).wf(),
        distinct_keys(id_seq(r@)),
        forall|k: Seq<char>|
            #![trigger id_seq(r@).contains(k)]
            id_seq(r@).contains(k) <==> (old(store)@.sessions.dom().contains(k) && idle_past(
                old(store)@.sessions[k],
                now,
                max_idle,
            )),
        final(store)@ == (StoreView {
            sessions: fresh_part(old(store)@.sessions, now, max_idle),
            revision: (old(store)@.revision + r@.len()) as u64,
            evicted_idle: (old(store)@.evicted_idle + r@.len()) as usize,
            integrations: final(store)@.integrations,
            ..old(store)@
        }),
        final(store)@.integrations.len() == old(store)@.integrations.len() + 1,
        final(store)@.integrations.drop_last() == old(store)@.integrations,
        final(store)@.integrations.last()@ == storage_health_spec(
            durable,
            saved,
            unreadable as nat,
            final(store)@.evicted_idle as nat,
            old(store)@.idle_not_restored as nat,
            root@,
        ),
{
    let evicted = store.evict_idle(now, max_idle);
    let h = storage_health(durable, saved, unreadable, store.evicted_idle, store.idle_not_restored, root);
    store.integrations.push(h);
    evicted
}

/// The first session whose id (not native id) is `id`.
pub fn find_session<'a>(sessions: &'a [Session], id: &str) -> (r: Result<&'a Session, String>)
    ensures
        match r {
            Ok(s) => exists|i: int|
                0 <= i < sessions@.len() && sessions@[i] == *s && s.id@ == id@ && forall|j: int|
                    0 <= j < i ==> (#[trigger] sessions@[j]).id@ != id@,
            Err(e) => e@ == "unknown session"@ && forall|j: int|
                0 <= j < sessions@.len() ==> (#[trigger] sessions@[j]).id@ != id@,
        },
{
    let mut i: usize = 0;
    while i < sessions.len()
        invariant
            i <= sessions@.len(),
            forall|j: int| 0 <= j < i ==> (#[trigger] sessions@[j]).id@ != id@,
        decreases sessions@.len() - i,
    {
        if str_eq(sessions[i].id.as_str(), id) {
            return Ok(&sessions[i]);
        }
        i += 1;
    }
    Err(String::from_str("unknown session"))
}

/// The folder holding a session's transcript: the transcript path's parent,
/// or the path itself when it has none. `None` when no transcript path is
/// recorded.
pub fn transcript_dir(s: &Session) -> (r: Option<String>)
    ensures
        opt_view(r) == match opt_view(s.transcript_path) {
            None => None,
            Some(p) => Some(
                match parent_of(p) {
                    Some(d) => d,
                    None => p,
                },
            ),
        },
{
    match &s.transcript_path {
        None => None,
        Some(p) => match parent_dir(p.as_str()) {
            Some(d) => Some(d),
            None => Some(p.clone()),
        },
    }
}

} // verus!
