//! Tailing provider transcripts: the per-file read cursors, the framing of
//! newly appended bytes into complete records, and the per-provider health
//! line a poll leaves behind.
use vstd::prelude::*;

use crate::db::{CursorRecord, CursorRecordView};
use crate::keyed::{distinct_keys, lemma_push, lemma_to_map_index, lemma_update, to_map};
use crate::model::{host_name, host_of_name, host_to_str, host_from_str, host_name_round_trip, opt_view, Host};
use crate::passive::{adapt, adapt_spec, apply_at, observation_result, TranscriptRecord};
use crate::state::{activity_keys, ids, views, Store, StoreView};
use crate::model::{HealthView, IntegrationHealth, SessionView};
use crate::clock::{format_timestamp, instant_text};
use crate::text::{decimal, fmt_u64};
use crate::text::str_eq;

verus! {

/// The longest record a read keeps (bytes, newline included); a longer one
/// is skipped as malformed.
pub const MAX_LINE: u64 = 1048576;

/// How many bytes one read of one file consumes at most before it leaves
/// the rest for the next poll (a record already started is finished).
pub const READ_BUDGET: u64 = 8388608;

/// Where reading of one transcript file stands.
#[derive(Debug, Clone)]
pub struct Cursor {
    /// Bytes consumed so far: the start of the first record not yet read.
    pub offset: u64,
    /// The file's length when it was first seen; records past it were
    /// appended while Aperture watched.
    pub initial_len: u64,
    /// Records skipped as malformed or oversized since the cursor was reset.
    pub malformed: u64,
    /// The session the file belongs to, once a record has named it.
    pub id: Option<String>,
    /// The host the file's records reported, if any did.
    pub host: Option<Host>,
    /// The file's creation time (nanoseconds since the Unix epoch) when last read.
    pub created: Option<i64>,
}

pub ghost struct CursorView {
    pub offset: u64,
    pub initial_len: u64,
    pub malformed: u64,
    pub id: Option<Seq<char>>,
    pub host: Option<Host>,
    pub created: Option<i64>,
}

impl View for Cursor {
    type V = CursorView;

    open spec fn view(&self) -> CursorView {
        CursorView {
            offset: self.offset,
            initial_len: self.initial_len,
            malformed: self.malformed,
            id: opt_view(self.id),
            host: self.host,
            created: self.created,
        }
    }
}

pub open spec fn fresh_cursor() -> CursorView {
    CursorView { offset: 0, initial_len: 0, malformed: 0, id: None, host: None, created: None }
}

impl Cursor {
    /// A cursor at the start of a file nothing has been read from.
    pub fn new() -> (c: Cursor)
        ensures
            c@ == fresh_cursor(),
    {
        Cursor { offset: 0, initial_len: 0, malformed: 0, id: None, host: None, created: None }
    }

    pub fn duplicate(&self) -> (c: Cursor)
        ensures
            c@ == self@,
    {
        Cursor {
            offset: self.offset,
            initial_len: self.initial_len,
            malformed: self.malformed,
            id: crate::model::clone_opt(&self.id),
            host: self.host,
            created: self.created,
        }
    }
}

/// The cursor as a file is opened for reading: a file that shrank below the
/// cursor, or was replaced (its creation time changed), is read again from
/// the start; a file seen for the first time records its current length.
pub open spec fn reopened(c: CursorView, first: bool, len: u64, created: Option<i64>) -> CursorView {
    let replaced = c.created is Some && c.created != created;
    let c1 = if len < c.offset || replaced {
        CursorView { offset: 0, id: None, host: None, initial_len: len, malformed: 0, ..c }
    } else {
        c
    };
    let c2 = if first {
        CursorView { initial_len: len, ..c1 }
    } else {
        c1
    };
    CursorView { created: created, ..c2 }
}

/// The position of the first newline at or after `i`, if any.
pub open spec fn newline_from(b: Seq<u8>, i: int) -> Option<int>
    decreases b.len() - i,
{
    if i < 0 || i >= b.len() {
        None
    } else if b[i] == 10u8 {
        Some(i)
    } else {
        newline_from(b, i + 1)
    }
}

pub proof fn lemma_newline_from(b: Seq<u8>, i: int)
    requires
        0 <= i,
    ensures
        match newline_from(b, i) {
            Some(e) => i <= e < b.len() && b[e] == 10u8 && forall|k: int| i <= k < e ==> b[k] != 10u8,
            None => forall|k: int| i <= k < b.len() ==> b[k] != 10u8,
        },
    decreases b.len() - i,
{
    if i < b.len() && b[i] != 10u8 {
        lemma_newline_from(b, i + 1);
    }
}

/// The complete records (newline included) a read takes from `b`, starting
/// at `start`: it stops at the first incomplete record, and starts no new
/// record once the budget is spent.
pub open spec fn budget_lines(b: Seq<u8>, start: int) -> Seq<Seq<u8>>
    decreases b.len() - start,
{
    if start < 0 || start >= b.len() || start >= READ_BUDGET {
        Seq::<Seq<u8>>::empty()
    } else {
        match newline_from(b, start) {
            None => Seq::<Seq<u8>>::empty(),
            Some(e) => {
                proof {
                    lemma_newline_from(b, start);
                }
                seq![b.subrange(start, e + 1)] + budget_lines(b, e + 1)
            },
        }
    }
}

/// The records one after another.
pub open spec fn concatenated(ls: Seq<Seq<u8>>) -> Seq<u8>
    decreases ls.len(),
{
    if ls.len() == 0 {
        Seq::<u8>::empty()
    } else {
        ls[0] + concatenated(ls.drop_first())
    }
}

/// A read takes only complete records: each record it takes ends with the
/// first newline after its start, and together they are exactly the bytes
/// from the start up to some point, so a partial record is left, whole, for
/// the next poll.
pub proof fn reads_take_complete_records(b: Seq<u8>, start: int)
    requires
        0 <= start <= b.len(),
    ensures
        forall|i: int|
            0 <= i < budget_lines(b, start).len() ==> {
                let l = #[trigger] budget_lines(b, start)[i];
                &&& l.len() > 0
                &&& l.last() == 10u8
                &&& forall|j: int| 0 <= j < l.len() - 1 ==> l[j] != 10u8
            },
        start + concatenated(budget_lines(b, start)).len() <= b.len(),
        b.subrange(start, start + concatenated(budget_lines(b, start)).len()) == concatenated(
            budget_lines(b, start),
        ),
    decreases b.len() - start,
{
    let ls = budget_lines(b, start);
    if start >= b.len() || start >= READ_BUDGET {
        assert(ls.len() == 0);
        assert(b.subrange(start, start) =~= Seq::<u8>::empty());
    } else {
        lemma_newline_from(b, start);
        match newline_from(b, start) {
            None => {
                assert(ls.len() == 0);
                assert(b.subrange(start, start) =~= Seq::<u8>::empty());
            },
            Some(e) => {
                let first = b.subrange(start, e + 1);
                let rest = budget_lines(b, e + 1);
                reads_take_complete_records(b, e + 1);
                assert(ls == seq![first] + rest);
                assert(ls.drop_first() =~= rest);
                assert(ls[0] == first);
                let n = concatenated(rest).len();
                assert(concatenated(ls) == first + concatenated(rest));
                assert(b.subrange(start, start + first.len() + n) =~= first + b.subrange(e + 1, e + 1 + n));
                assert forall|i: int| 0 <= i < ls.len() implies {
                    let l = #[trigger] ls[i];
                    &&& l.len() > 0
                    &&& l.last() == 10u8
                    &&& forall|j: int| 0 <= j < l.len() - 1 ==> l[j] != 10u8
                } by {
                    if i > 0 {
                        assert(ls[i] == rest[i - 1]);
                    } else {
                        assert forall|j: int| 0 <= j < first.len() - 1 implies first[j] != 10u8 by {
                            assert(first[j] == b[start + j]);
                        }
                    }
                }
            },
        }
    }
}

/// A complete record as a read hands it on: its bytes, or only its length
/// when it is longer than a read keeps.
#[derive(Debug, Clone)]
pub enum Frame {
    Line(Vec<u8>),
    Oversized(u64),
}

pub open spec fn frame_is(f: Frame, line: Seq<u8>) -> bool {
    match f {
        Frame::Line(v) => line.len() <= MAX_LINE && v@ == line,
        Frame::Oversized(n) => line.len() > MAX_LINE && n == line.len(),
    }
}

/// Split bytes appended to a transcript (read from the cursor on) into the
/// complete records one read takes.
pub fn frame_lines(bytes: &[u8]) -> (r: Vec<Frame>)
    ensures
        r@.len() == budget_lines(bytes@, 0).len(),
        forall|i: int| 0 <= i < r@.len() ==> frame_is(#[trigger] r@[i], budget_lines(bytes@, 0)[i]),
{
    let ghost b = bytes@;
    let mut out: Vec<Frame> = Vec::new();
    let ghost mut taken: Seq<Seq<u8>> = Seq::empty();
    let mut start: usize = 0;
    while start < bytes.len() && (start as u64) < READ_BUDGET
        invariant
            start <= b.len(),
            b == bytes@,
            budget_lines(b, 0) == taken + budget_lines(b, start as int),
            out@.len() == taken.len(),
            forall|i: int| 0 <= i < out@.len() ==> frame_is(#[trigger] out@[i], taken[i]),
        ensures
            budget_lines(b, 0) == taken,
            out@.len() == taken.len(),
            forall|i: int| 0 <= i < out@.len() ==> frame_is(#[trigger] out@[i], taken[i]),
        decreases b.len() - start,
    {
        let mut j: usize = start;
        while j < bytes.len() && bytes[j] != 10u8
            invariant
                start <= j <= b.len(),
                b == bytes@,
                forall|k: int| start <= k < j ==> b[k] != 10u8,
            decreases b.len() - j,
        {
            j += 1;
        }
        proof {
            lemma_newline_from(b, start as int);
        }
        if j == bytes.len() {
            proof {
                assert(newline_from(b, start as int) is None);
                assert(budget_lines(b, start as int) =~= Seq::<Seq<u8>>::empty());
                assert(taken + Seq::<Seq<u8>>::empty() =~= taken);
            }
            break;
        }
        assert(newline_from(b, start as int) == Some(j as int));
        let len: usize = j + 1 - start;
        let ghost line = b.subrange(start as int, j + 1);
        if (len as u64) > MAX_LINE {
            out.push(Frame::Oversized(len as u64));
        } else {
            let mut v: Vec<u8> = Vec::new();
            let mut k: usize = start;
            while k <= j
                invariant
                    start <= k <= j + 1,
                    j < b.len(),
                    b == bytes@,
                    v@ == b.subrange(start as int, k as int),
                decreases j + 1 - k,
            {
                v.push(bytes[k]);
                assert(v@ =~= b.subrange(start as int, k + 1));
                k += 1;
            }
            out.push(Frame::Line(v));
        }
        proof {
            assert(frame_is(out@[out@.len() - 1], line));
            assert(budget_lines(b, start as int) == seq![line] + budget_lines(b, j + 1));
            assert(taken + budget_lines(b, start as int) =~= taken.push(line) + budget_lines(b, j + 1));
            taken = taken.push(line);
        }
        start = j + 1;
    }
    out
}

/// One complete record as the application hands it back after parsing:
/// its length in bytes, and the record, or `None` when it was oversized or
/// not a JSON object.
#[derive(Debug, Clone)]
pub struct LineRead {
    pub len: u64,
    pub record: Option<TranscriptRecord>,
}

pub open spec fn total_len(lines: Seq<LineRead>) -> int
    decreases lines.len(),
{
    if lines.len() == 0 {
        0
    } else {
        total_len(lines.drop_last()) + lines.last().len
    }
}

proof fn lemma_total_len_prefix(lines: Seq<LineRead>, i: int)
    requires
        0 <= i <= lines.len(),
    ensures
        0 <= total_len(lines.take(i)) <= total_len(lines),
    decreases lines.len() - i,
{
    if i < lines.len() {
        lemma_total_len_prefix(lines, i + 1);
        assert(lines.take(i + 1).drop_last() =~= lines.take(i));
    } else {
        assert(lines.take(i) =~= lines);
    }
    lemma_total_len_nonneg(lines.take(i));
}

proof fn lemma_total_len_nonneg(lines: Seq<LineRead>)
    ensures
        total_len(lines) >= 0,
    decreases lines.len(),
{
    if lines.len() > 0 {
        lemma_total_len_nonneg(lines.drop_last());
    }
}

/// The cursor, the store and the number of skipped records after reading
/// `lines` of `provider`'s transcript at `path`, starting from cursor `c`
/// and store `st`, at time `now`.
pub open spec fn ingested(
    c: CursorView,
    st: StoreView,
    provider: Seq<char>,
    path: Seq<char>,
    lines: Seq<LineRead>,
    now: i128,
) -> (CursorView, StoreView, nat)
    decreases lines.len(),
{
    if lines.len() == 0 {
        (c, st, 0)
    } else {
        let prev = ingested(c, st, provider, path, lines.drop_last(), now);
        let c1 = prev.0;
        let l = lines.last();
        let off = (c1.offset + l.len) as u64;
        match l.record {
            None => (CursorView { offset: off, ..c1 }, prev.1, prev.2 + 1),
            Some(r) => {
                let a = adapt_spec(provider, r, c1.id, c1.host);
                let c2 = CursorView { offset: off, id: a.1, host: a.2, ..c1 };
                match a.0 {
                    None => (c2, prev.1, prev.2),
                    Some(o) => (
                        c2,
                        observation_result(prev.1, provider, path, o, off > c1.initial_len, now),
                        prev.2,
                    ),
                }
            },
        }
    }
}

/// Reading advances the cursor by exactly the bytes of the records read,
/// skipped ones included, and leaves its initial length, skip count and
/// creation time alone; no more records are skipped than were read.
pub proof fn reading_advances_by_the_bytes_read(
    c: CursorView,
    st: StoreView,
    provider: Seq<char>,
    path: Seq<char>,
    lines: Seq<LineRead>,
    now: i128,
)
    requires
        c.offset + total_len(lines) <= u64::MAX,
    ensures
        ingested(c, st, provider, path, lines, now).0.offset == c.offset + total_len(lines),
        ingested(c, st, provider, path, lines, now).0.initial_len == c.initial_len,
        ingested(c, st, provider, path, lines, now).0.malformed == c.malformed,
        ingested(c, st, provider, path, lines, now).0.created == c.created,
        ingested(c, st, provider, path, lines, now).2 <= lines.len(),
    decreases lines.len(),
{
    if lines.len() > 0 {
        lemma_total_len_nonneg(lines.drop_last());
        reading_advances_by_the_bytes_read(c, st, provider, path, lines.drop_last(), now);
    }
}

/// Read `lines` (the complete records appended since the cursor, parsed) of
/// `provider`'s transcript at `path` into the store at time `now`, advancing
/// the cursor past them. Returns how many of them were skipped.
pub fn ingest_at(
    cursor: &mut Cursor,
    store: &mut Store,
    provider: &str,
    path: &str,
    lines: Vec<LineRead>,
    now: i128,
) -> (skipped: u64)
    requires
        old(store).wf(),
        old(cursor).offset + total_len(lines@) <= u64::MAX,
        old(cursor).malformed + lines@.len() <= u64::MAX,
    ensures
        final(store).wf(),
        ({
            let r = ingested(old(cursor)@, old(store)@, provider@, path@, lines@, now);
            &&& final(cursor)@ == CursorView { malformed: (old(cursor).malformed + r.2) as u64, ..r.0 }
            &&& final(store)@ == r.1
            &&& skipped == r.2
        }),
{
    let ghost c0 = cursor@;
    let ghost st0 = store@;
    let mut skipped: u64 = 0;
    let mut i: usize = 0;
    while i < lines.len()
        invariant
            i <= lines@.len(),
            store.wf(),
            c0.offset + total_len(lines@) <= u64::MAX,
            c0.malformed + lines@.len() <= u64::MAX,
            cursor.malformed == c0.malformed,
            ({
                let r = ingested(c0, st0, provider@, path@, lines@.take(i as int), now);
                &&& cursor@ == r.0
                &&& store@ == r.1
                &&& skipped == r.2
            }),
        decreases lines@.len() - i,
    {
        proof {
            lemma_total_len_prefix(lines@, i + 1);
            lemma_total_len_prefix(lines@, i as int);
            reading_advances_by_the_bytes_read(c0, st0, provider@, path@, lines@.take(i + 1), now);
            reading_advances_by_the_bytes_read(c0, st0, provider@, path@, lines@.take(i as int), now);
            assert(lines@.take(i + 1).drop_last() =~= lines@.take(i as int));
            assert(lines@.take(i + 1).last() == lines@[i as int]);
        }
        let line = &lines[i];
        let before = cursor.initial_len;
        cursor.offset = cursor.offset + line.len;
        match &line.record {
            None => {
                skipped = skipped + 1;
            },
            Some(r) => {
                let seen = adapt(provider, r, &mut cursor.id, &mut cursor.host);
                match seen {
                    None => {},
                    Some(o) => {
                        apply_at(store, provider, path, o, cursor.offset > before, now);
                    },
                }
            },
        }
        i += 1;
    }
    proof {
        assert(lines@.take(lines@.len() as int) =~= lines@);
        reading_advances_by_the_bytes_read(c0, st0, provider@, path@, lines@, now);
    }
    cursor.malformed = cursor.malformed + skipped;
    skipped
}

/// Whether `path` lies under `root` by whole path components, as the
/// standard library's `Path::starts_with` decides it for the platform the
/// crate is built for.
pub uninterp spec fn path_within(path: Seq<char>, root: Seq<char>) -> bool;

/// `std::path::Path::starts_with`. Its component rule is named, not
/// described.
#[verifier::external_body]
fn path_starts_with(path: &str, root: &str) -> (r: bool)
    ensures
        r == path_within(path@, root@),
{
    std::path::Path::new(path).starts_with(root)
}

pub open spec fn root_views(roots: Seq<(String, String)>) -> Seq<(Seq<char>, Seq<char>)> {
    roots.map_values(|r: (String, String)| (r.0@, r.1@))
}

/// The provider of the first root that `path` lies under, if any.
pub open spec fn provider_of(roots: Seq<(Seq<char>, Seq<char>)>, path: Seq<char>) -> Option<Seq<char>>
    decreases roots.len(),
{
    if roots.len() == 0 {
        None
    } else if path_within(path, roots[0].1) {
        Some(roots[0].0)
    } else {
        provider_of(roots.drop_first(), path)
    }
}

pub open spec fn entry_keys(es: Seq<(Seq<char>, CursorView)>) -> Seq<Seq<char>> {
    es.map_values(|e: (Seq<char>, CursorView)| e.0)
}

pub open spec fn entry_values(es: Seq<(Seq<char>, CursorView)>) -> Seq<CursorView> {
    es.map_values(|e: (Seq<char>, CursorView)| e.1)
}

pub open spec fn host_text(h: Option<Host>) -> Option<Seq<char>> {
    match h {
        Some(x) => Some(host_name(x)),
        None => None,
    }
}

pub open spec fn host_read(t: Option<Seq<char>>) -> Option<Host> {
    match t {
        Some(x) => Some(host_of_name(x)),
        None => None,
    }
}

/// The record that persists cursor `c` of the file at `path`.
pub open spec fn record_of(provider: Option<Seq<char>>, path: Seq<char>, c: CursorView) -> CursorRecordView {
    CursorRecordView {
        path: path,
        provider: match provider {
            Some(p) => p,
            None => Seq::<char>::empty(),
        },
        offset: c.offset,
        initial_len: c.initial_len,
        malformed: c.malformed,
        session_id: c.id,
        host: host_text(c.host),
        created_ns: c.created,
    }
}

/// The cursor a persisted record stands for.
pub open spec fn cursor_of(r: CursorRecordView) -> CursorView {
    CursorView {
        offset: r.offset,
        initial_len: r.initial_len,
        malformed: r.malformed,
        id: r.session_id,
        host: host_read(r.host),
        created: r.created_ns,
    }
}

/// The records that persist cursors `es`, each with the provider whose root
/// holds its file.
pub open spec fn exported(roots: Seq<(Seq<char>, Seq<char>)>, es: Seq<(Seq<char>, CursorView)>) -> Seq<
    CursorRecordView,
> {
    es.map_values(|e: (Seq<char>, CursorView)| record_of(provider_of(roots, e.0), e.0, e.1))
}

/// Cursors `m` after restoring records `rs` in order (a later record for the
/// same path wins).
pub open spec fn restored(m: Map<Seq<char>, CursorView>, rs: Seq<CursorRecordView>) -> Map<
    Seq<char>,
    CursorView,
>
    decreases rs.len(),
{
    if rs.len() == 0 {
        m
    } else {
        restored(m, rs.drop_last()).insert(rs.last().path, cursor_of(rs.last()))
    }
}

pub open spec fn cursor_or_fresh(m: Map<Seq<char>, CursorView>, path: Seq<char>) -> CursorView {
    if m.dom().contains(path) {
        m[path]
    } else {
        fresh_cursor()
    }
}

/// The passive observer: the provider roots it reads, and a read cursor per
/// transcript file it has seen.
pub struct Observer {
    roots: Vec<(String, String)>,
    cursors: Vec<(String, Cursor)>,
}

impl Observer {
    pub closed spec fn wf(&self) -> bool {
        distinct_keys(entry_keys(self.entries()))
    }

    /// The roots, as (provider, directory), in the order they are read.
    pub closed spec fn root_list(&self) -> Seq<(Seq<char>, Seq<char>)> {
        root_views(self.roots@)
    }

    /// The cursors, as (file path, cursor), in the order they are kept.
    pub closed spec fn entries(&self) -> Seq<(Seq<char>, CursorView)> {
        self.cursors@.map_values(|e: (String, Cursor)| (e.0@, e.1@))
    }

    /// The cursors by file path.
    pub open spec fn cursor_map(&self) -> Map<Seq<char>, CursorView> {
        to_map(entry_keys(self.entries()), entry_values(self.entries()))
    }

    /// An observer of `claude_code` transcripts under `claude_dir` and
    /// `codex` transcripts under `codex_dir`, with no file read yet.
    pub fn new(claude_dir: String, codex_dir: String) -> (o: Observer)
        ensures
            o.wf(),
            o.root_list() == seq![("claude_code"@, claude_dir@), ("codex"@, codex_dir@)],
            o.entries().len() == 0,
            o.cursor_map() == Map::<Seq<char>, CursorView>::empty(),
    {
        let mut roots: Vec<(String, String)> = Vec::new();
        roots.push((String::from_str("claude_code"), claude_dir));
        roots.push((String::from_str("codex"), codex_dir));
        let o = Observer { roots, cursors: Vec::new() };
        assert(o.root_list() =~= seq![("claude_code"@, o.roots@[0].1@), ("codex"@, o.roots@[1].1@)]);
        assert(entry_keys(o.entries()) =~= Seq::<Seq<char>>::empty());
        assert(o.cursor_map() =~= Map::<Seq<char>, CursorView>::empty());
        o
    }

    /// The roots, as (provider, directory).
    pub fn roots(&self) -> (r: &Vec<(String, String)>)
        ensures
            root_views(r@) == self.root_list(),
    {
        &self.roots
    }

    /// Provider transcript roots, for the filesystem watcher to subscribe to.
    pub fn watch_roots(&self) -> (r: Vec<String>)
        ensures
            r@.len() == self.root_list().len(),
            forall|i: int| 0 <= i < r@.len() ==> #[trigger] r@[i]@ == self.root_list()[i].1,
    {
        let mut out: Vec<String> = Vec::new();
        let mut i: usize = 0;
        while i < self.roots.len()
            invariant
                i <= self.roots@.len(),
                out@.len() == i,
                forall|j: int| 0 <= j < i ==> #[trigger] out@[j]@ == self.roots@[j].1@,
            decreases self.roots@.len() - i,
        {
            out.push(self.roots[i].1.clone());
            i += 1;
        }
        out
    }

    /// The provider whose root holds `path`: the first root it lies under.
    pub fn provider_for(&self, path: &str) -> (r: Option<String>)
        ensures
            opt_view(r) == provider_of(self.root_list(), path@),
    {
        let mut i: usize = 0;
        assert(self.root_list().skip(0) =~= self.root_list());
        while i < self.roots.len()
            invariant
                i <= self.roots@.len(),
                provider_of(self.root_list(), path@) == provider_of(
                    self.root_list().skip(i as int),
                    path@,
                ),
            decreases self.roots@.len() - i,
        {
            let ghost rest = self.root_list().skip(i as int);
            assert(rest[0] == (self.roots@[i as int].0@, self.roots@[i as int].1@));
            if path_starts_with(path, self.roots[i].1.as_str()) {
                return Some(self.roots[i].0.clone());
            }
            assert(rest.drop_first() =~= self.root_list().skip(i + 1));
            i += 1;
        }
        assert(self.root_list().skip(i as int).len() == 0);
        None
    }

    fn cursor_index(&self, path: &String) -> (r: Option<usize>)
        requires
            self.wf(),
        ensures
            r.is_none() <==> !self.cursor_map().dom().contains(path@),
            (r matches Some(i) ==> i < self.cursors@.len() && self.cursors@[i as int].0@ == path@
                && self.cursor_map()[path@] == self.cursors@[i as int].1@),
    {
        let mut i: usize = 0;
        while i < self.cursors.len()
            invariant
                i <= self.cursors@.len(),
                self.wf(),
                forall|j: int| 0 <= j < i ==> self.cursors@[j].0@ != path@,
            decreases self.cursors@.len() - i,
        {
            if str_eq(self.cursors[i].0.as_str(), path.as_str()) {
                proof {
                    assert(entry_keys(self.entries())[i as int] == path@);
                    lemma_to_map_index(entry_keys(self.entries()), entry_values(self.entries()), i as int);
                }
                return Some(i);
            }
            i += 1;
        }
        proof {
            if entry_keys(self.entries()).contains(path@) {
                let j = choose|j: int|
                    0 <= j < entry_keys(self.entries()).len() && entry_keys(self.entries())[j] == path@;
                assert(self.cursors@[j].0@ == path@);
            }
        }
        None
    }

    /// Put cursor `c` for the file at `path`, replacing any cursor it had.
    fn put_cursor(&mut self, path: &String, c: Cursor)
        requires
            old(self).wf(),
        ensures
            final(self).wf(),
            final(self).cursor_map() == old(self).cursor_map().insert(path@, c@),
            final(self).root_list() == old(self).root_list(),
    {
        let ghost es = self.entries();
        let ghost cv = c@;
        match self.cursor_index(path) {
            Some(i) => {
                self.cursors.set(i, (path.clone(), c));
                proof {
                    lemma_update(entry_keys(es), entry_values(es), i as int, cv);
                    assert(entry_keys(self.entries()) =~= entry_keys(es));
                    assert(entry_values(self.entries()) =~= entry_values(es).update(i as int, cv));
                }
            },
            None => {
                self.cursors.push((path.clone(), c));
                proof {
                    lemma_push(entry_keys(es), entry_values(es), path@, cv);
                    assert(entry_keys(self.entries()) =~= entry_keys(es).push(path@));
                    assert(entry_values(self.entries()) =~= entry_values(es).push(cv));
                }
            },
        }
    }

    /// The cursor for the file at `path`, if it has one.
    pub fn cursor(&self, path: &String) -> (r: Option<&Cursor>)
        requires
            self.wf(),
        ensures
            r.is_none() <==> !self.cursor_map().dom().contains(path@),
            (r matches Some(c) ==> c@ == self.cursor_map()[path@]),
    {
        match self.cursor_index(path) {
            Some(i) => Some(&self.cursors[i].1),
            None => None,
        }
    }

    /// Seed cursors from persisted records, so that tailing resumes at the
    /// saved offset instead of reading a file from the start after a restart.
    pub fn restore_cursors(&mut self, records: Vec<CursorRecord>)
        requires
            old(self).wf(),
        ensures
            final(self).wf(),
            final(self).root_list() == old(self).root_list(),
            final(self).cursor_map() == restored(
                old(self).cursor_map(),
                records@.map_values(|r: CursorRecord| r@),
            ),
    {
        let ghost rs = records@.map_values(|r: CursorRecord| r@);
        let mut i: usize = 0;
        while i < records.len()
            invariant
                i <= records@.len(),
                rs == records@.map_values(|r: CursorRecord| r@),
                self.wf(),
                self.root_list() == old(self).root_list(),
                self.cursor_map() == restored(old(self).cursor_map(), rs.take(i as int)),
            decreases records@.len() - i,
        {
            let r = &records[i];
            let c = Cursor {
                offset: r.offset,
                initial_len: r.initial_len,
                malformed: r.malformed,
                id: crate::model::clone_opt(&r.session_id),
                host: match &r.host {
                    Some(h) => Some(host_from_str(h.as_str())),
                    None => None,
                },
                created: r.created_ns,
            };
            proof {
                assert(rs.take(i + 1).drop_last() =~= rs.take(i as int));
                assert(rs.take(i + 1).last() == r@);
            }
            self.put_cursor(&r.path, c);
            i += 1;
        }
        assert(rs.take(records@.len() as int) =~= rs);
    }

    /// The current cursors as records for persistence, each naming the
    /// provider whose root holds its file (empty when none does).
    pub fn export_cursors(&self) -> (r: Vec<CursorRecord>)
        ensures
            r@.map_values(|x: CursorRecord| x@) == exported(self.root_list(), self.entries()),
    {
        let mut out: Vec<CursorRecord> = Vec::new();
        let mut i: usize = 0;
        while i < self.cursors.len()
            invariant
                i <= self.cursors@.len(),
                out@.map_values(|x: CursorRecord| x@) == exported(
                    self.root_list(),
                    self.entries().take(i as int),
                ),
            decreases self.cursors@.len() - i,
        {
            let path = &self.cursors[i].0;
            let c = &self.cursors[i].1;
            let provider = match self.provider_for(path.as_str()) {
                Some(p) => p,
                None => String::new(),
            };
            let rec = CursorRecord {
                path: path.clone(),
                provider,
                offset: c.offset,
                initial_len: c.initial_len,
                malformed: c.malformed,
                session_id: crate::model::clone_opt(&c.id),
                host: match c.host {
                    Some(h) => Some(host_to_str(h)),
                    None => None,
                },
                created_ns: c.created,
            };
            proof {
                if provider_of(self.root_list(), path@) is None {
                    assert(rec.provider@ =~= Seq::<char>::empty());
                }
                assert(rec@ == record_of(provider_of(self.root_list(), path@), path@, c@));
            }
            out.push(rec);
            proof {
                assert(self.entries().take(i + 1) =~= self.entries().take(i as int).push(self.entries()[i as int]));
                assert(out@.map_values(|x: CursorRecord| x@) =~= exported(
                    self.root_list(),
                    self.entries().take(i as int),
                ).push(rec@));
                assert(exported(self.root_list(), self.entries().take(i + 1)) =~= exported(
                    self.root_list(),
                    self.entries().take(i as int),
                ).push(rec@));
            }
            i += 1;
        }
        assert(self.entries().take(self.cursors@.len() as int) =~= self.entries());
        out
    }

    /// Open the file at `path` for reading: it is `len` bytes long and was
    /// created at `created`. Returns the offset to read from.
    pub fn begin_read(&mut self, path: &String, len: u64, created: Option<i64>) -> (offset: u64)
        requires
            old(self).wf(),
        ensures
            final(self).wf(),
            final(self).root_list() == old(self).root_list(),
            final(self).cursor_map() == old(self).cursor_map().insert(
                path@,
                reopened(
                    cursor_or_fresh(old(self).cursor_map(), path@),
                    !old(self).cursor_map().dom().contains(path@),
                    len,
                    created,
                ),
            ),
            offset == final(self).cursor_map()[path@].offset,
    {
        let first;
        let mut c = match self.cursor_index(path) {
            Some(i) => {
                first = false;
                self.cursors[i].1.duplicate()
            },
            None => {
                first = true;
                Cursor::new()
            },
        };
        let replaced = c.created.is_some() && c.created != created;
        if len < c.offset || replaced {
            c.offset = 0;
            c.id = None;
            c.host = None;
            c.initial_len = len;
            c.malformed = 0;
        }
        if first {
            c.initial_len = len;
        }
        c.created = created;
        let offset = c.offset;
        self.put_cursor(path, c);
        offset
    }

    /// Read `lines` (the complete records appended past the cursor of the
    /// file at `path`, parsed) into the store at time `now`. Returns how
    /// many of them were skipped.
    pub fn ingest(
        &mut self,
        store: &mut Store,
        provider: &str,
        path: &String,
        lines: Vec<LineRead>,
        now: i128,
    ) -> (skipped: u64)
        requires
            old(self).wf(),
            old(store).wf(),
            cursor_or_fresh(old(self).cursor_map(), path@).offset + total_len(lines@) <= u64::MAX,
            cursor_or_fresh(old(self).cursor_map(), path@).malformed + lines@.len() <= u64::MAX,
        ensures
            final(self).wf(),
            final(store).wf(),
            final(self).root_list() == old(self).root_list(),
            ({
                let c = cursor_or_fresh(old(self).cursor_map(), path@);
                let r = ingested(c, old(store)@, provider@, path@, lines@, now);
                &&& final(self).cursor_map() == old(self).cursor_map().insert(
                    path@,
                    CursorView { malformed: (c.malformed + r.2) as u64, ..r.0 },
                )
                &&& final(store)@ == r.1
                &&& skipped == r.2
            }),
    {
        let mut c = match self.cursor_index(path) {
            Some(i) => self.cursors[i].1.duplicate(),
            None => Cursor::new(),
        };
        let skipped = ingest_at(&mut c, store, provider, path.as_str(), lines, now);
        self.put_cursor(path, c);
        skipped
    }
}

/// Restoring the records an observer exports gives back exactly its cursors,
/// whatever roots it has: tailing resumes where it stood.
pub proof fn exported_cursors_restore(o: Observer)
    requires
        o.wf(),
    ensures
        restored(Map::<Seq<char>, CursorView>::empty(), exported(o.root_list(), o.entries()))
            == o.cursor_map(),
{
    lemma_restore_exported(o.root_list(), o.entries());
}

proof fn lemma_restore_exported(roots: Seq<(Seq<char>, Seq<char>)>, es: Seq<(Seq<char>, CursorView)>)
    requires
        distinct_keys(entry_keys(es)),
    ensures
        restored(Map::<Seq<char>, CursorView>::empty(), exported(roots, es)) == to_map(
            entry_keys(es),
            entry_values(es),
        ),
    decreases es.len(),
{
    if es.len() == 0 {
        assert(exported(roots, es) =~= Seq::<CursorRecordView>::empty());
        assert(to_map(entry_keys(es), entry_values(es)) =~= Map::<Seq<char>, CursorView>::empty());
    } else {
        let n = es.len() - 1;
        let front = es.drop_last();
        let last = es[n];
        assert(entry_keys(front) =~= entry_keys(es).drop_last());
        assert forall|a: int, b: int|
            0 <= a < entry_keys(front).len() && 0 <= b < entry_keys(front).len() && a != b implies entry_keys(
            front)[a] != entry_keys(front)[b] by {
            assert(entry_keys(front)[a] == entry_keys(es)[a]);
            assert(entry_keys(front)[b] == entry_keys(es)[b]);
        }
        lemma_restore_exported(roots, front);
        assert(exported(roots, es).drop_last() =~= exported(roots, front));
        let rec = exported(roots, es).last();
        assert(rec == record_of(provider_of(roots, last.0), last.0, last.1));
        match last.1.host {
            Some(h) => host_name_round_trip(h),
            None => {},
        }
        assert(cursor_of(rec) == last.1);
        if entry_keys(front).contains(last.0) {
            let j = choose|j: int| 0 <= j < entry_keys(front).len() && entry_keys(front)[j] == last.0;
            assert(entry_keys(es)[j] == entry_keys(es)[n]);
        }
        lemma_push(entry_keys(front), entry_values(front), last.0, last.1);
        assert(entry_keys(es) =~= entry_keys(front).push(last.0));
        assert(entry_values(es) =~= entry_values(front).push(last.1));
    }
}

/// A restored cursor resumes where it stood: reopening a file that is no
/// shorter than the cursor and has the same creation time keeps the offset,
/// so nothing is read twice.
pub proof fn reopening_resumes(c: CursorView, len: u64)
    requires
        c.offset <= len,
    ensures
        reopened(c, false, len, c.created).offset == c.offset,
        reopened(c, false, len, c.created).initial_len == c.initial_len,
{
}

/// Reading a file again that has not grown by a complete record adds
/// nothing: opening it keeps its cursor as it stood, the bytes past the
/// cursor yield no record, and reading no records leaves the cursor and the
/// store alone.
pub proof fn rereading_unchanged_adds_nothing(
    o: Observer,
    path: Seq<char>,
    rest: Seq<u8>,
    len: u64,
    st: StoreView,
    provider: Seq<char>,
    now: i128,
)
    requires
        o.wf(),
        o.cursor_map().dom().contains(path),
        o.cursor_map()[path].offset + rest.len() == len,
        forall|k: int| 0 <= k < rest.len() ==> rest[k] != 10u8,
    ensures
        ({
            let m = o.cursor_map();
            let c = m[path];
            &&& m.insert(path, reopened(cursor_or_fresh(m, path), !m.dom().contains(path), len, c.created)) == m
            &&& budget_lines(rest, 0).len() == 0
            &&& ingested(c, st, provider, path, Seq::<LineRead>::empty(), now) == (c, st, 0nat)
            &&& m.insert(path, CursorView { malformed: (c.malformed + 0) as u64, ..c }) == m
        }),
{
    let m = o.cursor_map();
    let c = m[path];
    lemma_newline_from(rest, 0);
    assert(reopened(c, false, len, c.created) == c);
    assert(m.insert(path, c) =~= m);
    assert(CursorView { malformed: (c.malformed + 0) as u64, ..c } == c);
}

/// The paths of records, in order.
pub open spec fn record_paths(rs: Seq<CursorRecordView>) -> Seq<Seq<char>> {
    rs.map_values(|r: CursorRecordView| r.path)
}

/// The cursors records stand for, in order.
pub open spec fn record_cursors(rs: Seq<CursorRecordView>) -> Seq<CursorView> {
    rs.map_values(|r: CursorRecordView| cursor_of(r))
}

proof fn lemma_restored_distinct(rs: Seq<CursorRecordView>)
    requires
        distinct_keys(record_paths(rs)),
    ensures
        restored(Map::<Seq<char>, CursorView>::empty(), rs) == to_map(record_paths(rs), record_cursors(rs)),
    decreases rs.len(),
{
    if rs.len() == 0 {
        assert(to_map(record_paths(rs), record_cursors(rs)) =~= Map::<Seq<char>, CursorView>::empty());
    } else {
        let n = rs.len() - 1;
        let front = rs.drop_last();
        let last = rs[n];
        assert(record_paths(front) =~= record_paths(rs).drop_last());
        assert forall|a: int, b: int|
            0 <= a < record_paths(front).len() && 0 <= b < record_paths(front).len() && a != b implies record_paths(
            front)[a] != record_paths(front)[b] by {
            assert(record_paths(front)[a] == record_paths(rs)[a]);
            assert(record_paths(front)[b] == record_paths(rs)[b]);
        }
        lemma_restored_distinct(front);
        if record_paths(front).contains(last.path) {
            let j = choose|j: int| 0 <= j < record_paths(front).len() && record_paths(front)[j] == last.path;
            assert(record_paths(rs)[j] == record_paths(rs)[n]);
        }
        lemma_push(record_paths(front), record_cursors(front), last.path, cursor_of(last));
        assert(record_paths(rs) =~= record_paths(front).push(last.path));
        assert(record_cursors(rs) =~= record_cursors(front).push(cursor_of(last)));
    }
}

/// An observer restored from the records another one exported resumes every
/// file where that one stood: the restored cursor is the saved one, and
/// opening a file that has not shrunk or been replaced keeps it, offset and
/// all, so nothing is read twice and no session is seen twice.
pub proof fn restored_observer_resumes(o: Observer, path: Seq<char>, len: u64)
    requires
        o.wf(),
        o.cursor_map().dom().contains(path),
        o.cursor_map()[path].offset <= len,
    ensures
        ({
            let m = restored(Map::<Seq<char>, CursorView>::empty(), exported(o.root_list(), o.entries()));
            &&& m.dom().contains(path)
            &&& m[path] == o.cursor_map()[path]
            &&& m.insert(path, reopened(cursor_or_fresh(m, path), !m.dom().contains(path), len, m[path].created)) == m
        }),
{
    exported_cursors_restore(o);
    let m = o.cursor_map();
    let c = m[path];
    assert(reopened(c, false, len, c.created) == c);
    assert(m.insert(path, c) =~= m);
}

/// A record is as an export would write it: its host name, if any, is one
/// the reader knows, and its provider is that of the first root holding its
/// file (empty when none does).
pub open spec fn canonical_record(roots: Seq<(Seq<char>, Seq<char>)>, r: CursorRecordView) -> bool {
    &&& (r.host matches Some(h) ==> host_name(host_of_name(h)) == h)
    &&& r.provider == match provider_of(roots, r.path) {
        Some(p) => p,
        None => Seq::<char>::empty(),
    }
}

/// Restoring records with distinct paths, each as an export would write it,
/// and exporting again gives back the same records, path for path.
pub proof fn restore_then_export_round_trips(o: Observer, rs: Seq<CursorRecordView>)
    requires
        o.wf(),
        distinct_keys(record_paths(rs)),
        forall|i: int| 0 <= i < rs.len() ==> canonical_record(o.root_list(), #[trigger] rs[i]),
        o.cursor_map() == restored(Map::<Seq<char>, CursorView>::empty(), rs),
    ensures
        distinct_keys(record_paths(exported(o.root_list(), o.entries()))),
        to_map(record_paths(exported(o.root_list(), o.entries())), exported(o.root_list(), o.entries()))
            == to_map(record_paths(rs), rs),
{
    let roots = o.root_list();
    let es = o.entries();
    let ex = exported(roots, es);
    let ks = entry_keys(es);
    lemma_restored_distinct(rs);
    assert(record_paths(ex) =~= ks);
    let m1 = to_map(ks, ex);
    let m2 = to_map(record_paths(rs), rs);
    let cm = o.cursor_map();
    assert(cm == to_map(ks, entry_values(es)));
    assert forall|k: Seq<char>| #[trigger] m1.dom().contains(k) <==> m2.dom().contains(k) by {
        assert(m1.dom().contains(k) == cm.dom().contains(k));
        assert(to_map(record_paths(rs), record_cursors(rs)).dom().contains(k) == m2.dom().contains(k));
    }
    assert forall|k: Seq<char>| m1.dom().contains(k) implies m1[k] == m2[k] by {
        let i = crate::keyed::key_index(ks, k);
        crate::keyed::lemma_key_index(ks, i);
        let j = crate::keyed::key_index(record_paths(rs), k);
        assert(m2.dom().contains(k));
        crate::keyed::lemma_key_index(record_paths(rs), j);
        lemma_to_map_index(ks, entry_values(es), i);
        lemma_to_map_index(record_paths(rs), record_cursors(rs), j);
        lemma_to_map_index(ks, ex, i);
        lemma_to_map_index(record_paths(rs), rs, j);
        let r = rs[j];
        assert(canonical_record(roots, r));
        assert(r.path == k);
        assert(es[i].0 == k);
        assert(es[i].1 == cursor_of(r));
        assert(ex[i] == record_of(provider_of(roots, k), k, es[i].1));
        assert(host_text(host_read(r.host)) == r.host);
        assert(record_of(provider_of(roots, r.path), r.path, cursor_of(r)) == r);
    }
    assert(m1 =~= m2);
}

/// Whether `latest` is the latest observation time among the resident
/// sessions of `provider` (`None` when it has none).
pub open spec fn is_latest(sessions: Map<Seq<char>, SessionView>, provider: Seq<char>, latest: Option<i128>) -> bool {
    match latest {
        None => forall|k: Seq<char>| #[trigger] sessions.dom().contains(k) ==> sessions[k].provider != provider,
        Some(m) => (exists|k: Seq<char>|
            #[trigger] sessions.dom().contains(k) && sessions[k].provider == provider
                && sessions[k].last_event_at == m) && forall|k: Seq<char>|
            #[trigger] sessions.dom().contains(k) && sessions[k].provider == provider
                ==> sessions[k].last_event_at <= m,
    }
}

/// The latest observation time among the resident sessions of `provider`.
pub fn latest_event(store: &Store, provider: &String) -> (r: Option<i128>)
    requires
        store.wf(),
    ensures
        is_latest(store@.sessions, provider@, r),
{
    let ghost ks = ids(store.sessions@);
    let ghost vs = views(store.sessions@);
    let mut best: Option<i128> = None;
    let mut i: usize = 0;
    while i < store.sessions.len()
        invariant
            i <= store.sessions@.len(),
            ks == ids(store.sessions@),
            vs == views(store.sessions@),
            match best {
                None => forall|j: int| 0 <= j < i ==> (#[trigger] vs[j]).provider != provider@,
                Some(m) => (exists|j: int|
                    0 <= j < i && (#[trigger] vs[j]).provider == provider@ && vs[j].last_event_at == m)
                    && forall|j: int|
                    0 <= j < i && (#[trigger] vs[j]).provider == provider@ ==> vs[j].last_event_at <= m,
            },
        decreases store.sessions@.len() - i,
    {
        let s = &store.sessions[i];
        assert(vs[i as int] == s@);
        if str_eq(s.provider.as_str(), provider.as_str()) {
            best = match best {
                None => Some(s.last_event_at),
                Some(m) => if s.last_event_at > m {
                    Some(s.last_event_at)
                } else {
                    Some(m)
                },
            };
        }
        i += 1;
    }
    proof {
        let m = store@.sessions;
        assert forall|k: Seq<char>| #[trigger] m.dom().contains(k) implies exists|j: int|
            0 <= j < vs.len() && ks[j] == k && m[k] == vs[j] by {
            let j = choose|j: int| 0 <= j < ks.len() && ks[j] == k;
            lemma_to_map_index(ks, vs, j);
        }
        match best {
            None => {
                assert forall|k: Seq<char>| #[trigger] m.dom().contains(k) implies m[k].provider
                    != provider@ by {
                    let j = choose|j: int| 0 <= j < vs.len() && ks[j] == k && m[k] == vs[j];
                }
            },
            Some(b) => {
                let j = choose|j: int|
                    0 <= j < vs.len() && (#[trigger] vs[j]).provider == provider@ && vs[j].last_event_at == b;
                lemma_to_map_index(ks, vs, j);
                assert(m.dom().contains(ks[j]) && m[ks[j]].provider == provider@);
                assert forall|k: Seq<char>| #[trigger] m.dom().contains(k) && m[k].provider == provider@
                    implies m[k].last_event_at <= b by {
                    let t = choose|t: int| 0 <= t < vs.len() && ks[t] == k && m[k] == vs[t];
                }
            },
        }
    }
    best
}

/// The health line of one provider root after a poll: `errors` files could
/// not be read and `skipped` records were skipped across the files read.
pub open spec fn root_health(
    provider: Seq<char>,
    root: Seq<char>,
    files: usize,
    errors: u64,
    skipped: u64,
    latest: Option<i128>,
) -> HealthView {
    HealthView {
        provider: provider,
        root: root,
        files: files,
        last_event_at: latest,
        state: if errors > 0 || skipped > 0 {
            "degraded"@
        } else if files == 0 {
            "no_sessions"@
        } else {
            "watching"@
        },
        detail: decimal(errors as nat) + " file read errors; "@ + decimal(skipped as nat) + " skipped records."@,
    }
}

/// The health line of one provider root after a poll; see `root_health`.
pub fn provider_health(
    store: &Store,
    provider: &String,
    root: &String,
    files: usize,
    errors: u64,
    skipped: u64,
) -> (h: IntegrationHealth)
    requires
        store.wf(),
    ensures
        is_latest(store@.sessions, provider@, h.last_event_at),
        h@ == root_health(provider@, root@, files, errors, skipped, h.last_event_at),
{
    let latest = latest_event(store, provider);
    let state = if errors > 0 || skipped > 0 {
        String::from_str("degraded")
    } else if files == 0 {
        String::from_str("no_sessions")
    } else {
        String::from_str("watching")
    };
    let detail = fmt_u64(errors).concat(" file read errors; ").concat(fmt_u64(skipped).as_str()).concat(
        " skipped records.",
    );
    IntegrationHealth {
        provider: provider.clone(),
        state,
        root: root.clone(),
        files,
        last_event_at: latest,
        detail,
    }
}

/// How the hook side reads in a health line: when hook metadata last
/// arrived from this provider, if ever.
pub open spec fn hook_note(last: Option<i128>) -> Seq<char> {
    match last {
        Some(at) => "last received "@ + match instant_text(at) {
            Some(t) => t,
            None => "at a time outside the calendar range"@,
        },
        None => "not observed; permission coverage unknown"@,
    }
}

/// A provider's health line once the hook side is accounted for.
pub open spec fn with_hook_side(h: HealthView, activity: Map<Seq<char>, i128>, hook_errors: u64) -> HealthView {
    let last = if activity.dom().contains(h.provider) {
        Some(activity[h.provider])
    } else {
        None::<i128>
    };
    HealthView {
        detail: "Read-only files; debounced file watching, 5s reconcile. Optional hook metadata: "@
            + hook_note(last)
            + ". Permission requests are observations, not proof a dialog remains open. Process liveness unknown. "@
            + decimal(hook_errors as nat) + " hook inbox errors. Provider settings untouched."@ + " "@
            + h.detail,
        state: if hook_errors > 0 {
            "degraded"@
        } else {
            h.state
        },
        last_event_at: match last {
            None => h.last_event_at,
            Some(at) => match h.last_event_at {
                None => Some(at),
                Some(old) => Some(
                    if old >= at {
                        old
                    } else {
                        at
                    },
                ),
            },
        },
        ..h
    }
}

/// Finish a poll: the providers' health lines, each with the hook side
/// accounted for (`hook_errors` spool records could not be read), replace
/// the store's integrations, and the revision advances.
pub fn finish_poll(store: &mut Store, health: Vec<IntegrationHealth>, hook_errors: u64)
    requires
        old(store).wf(),
        old(store).revision < u64::MAX,
    ensures
        final(store).wf(),
        final(store)@ == (StoreView {
            integrations: final(store)@.integrations,
            revision: (old(store)@.revision + 1) as u64,
            ..old(store)@
        }),
        final(store)@.integrations.len() == health@.len(),
        forall|i: int|
            0 <= i < health@.len() ==> (#[trigger] final(store)@.integrations[i])@ == with_hook_side(
                health@[i]@,
                old(store)@.hook_activity,
                hook_errors,
            ),
{
    let mut out: Vec<IntegrationHealth> = Vec::new();
    let mut i: usize = 0;
    while i < health.len()
        invariant
            i <= health@.len(),
            store.wf(),
            out@.len() == i,
            forall|j: int|
                0 <= j < i ==> (#[trigger] out@[j])@ == with_hook_side(
                    health@[j]@,
                    store@.hook_activity,
                    hook_errors,
                ),
        decreases health@.len() - i,
    {
        let h = &health[i];
        let last: Option<i128> = match store.activity_index(&h.provider) {
            Some(k) => {
                proof {
                    lemma_to_map_index(
                        activity_keys(store.hook_activity@),
                        store.hook_activity@.map_values(|x: (String, i128)| x.1),
                        k as int,
                    );
                }
                Some(store.hook_activity[k].1)
            },
            None => None,
        };
        let note = match last {
            Some(at) => String::from_str("last received ").concat(
                match format_timestamp(at) {
                    Some(t) => t,
                    None => String::from_str("at a time outside the calendar range"),
                }.as_str(),
            ),
            None => String::from_str("not observed; permission coverage unknown"),
        };
        let detail = String::from_str(
            "Read-only files; debounced file watching, 5s reconcile. Optional hook metadata: ",
        ).concat(note.as_str()).concat(
            ". Permission requests are observations, not proof a dialog remains open. Process liveness unknown. ",
        ).concat(fmt_u64(hook_errors).as_str()).concat(" hook inbox errors. Provider settings untouched.").concat(
            " ",
        ).concat(h.detail.as_str());
        let state = if hook_errors > 0 {
            String::from_str("degraded")
        } else {
            h.state.clone()
        };
        let last_event_at = match last {
            None => h.last_event_at,
            Some(at) => match h.last_event_at {
                None => Some(at),
                Some(old) => Some(
                    if old >= at {
                        old
                    } else {
                        at
                    },
                ),
            },
        };
        out.push(
            IntegrationHealth {
                provider: h.provider.clone(),
                state,
                root: h.root.clone(),
                files: h.files,
                last_event_at,
                detail,
            },
        );
        i += 1;
    }
    store.integrations = out;
    store.revision = store.revision + 1;
}

} // verus!
