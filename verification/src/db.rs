//! The persistence rules behind the SQLite store: the rows it keeps, the
//! "last written" caches that let a save skip rows whose content has not
//! changed, and the text of each migration step. The connection itself lives
//! with the application.
use vstd::prelude::*;

use crate::keyed::{distinct_keys, lemma_push, lemma_to_map_index, lemma_update, to_map};
use crate::model::{opt_view, Session};
use crate::text::{decimal, fmt_u64, str_eq};

verus! {

/// One persisted read cursor: where tailing of the transcript at `path`
/// resumes.
#[derive(Debug, Clone, Default, PartialEq)]
pub struct CursorRecord {
    pub path: String,
    pub provider: String,
    pub offset: u64,
    pub initial_len: u64,
    pub malformed: u64,
    pub session_id: Option<String>,
    pub host: Option<String>,
    pub created_ns: Option<i64>,
}

/// A cursor record as plain values.
pub ghost struct CursorRecordView {
    pub path: Seq<char>,
    pub provider: Seq<char>,
    pub offset: u64,
    pub initial_len: u64,
    pub malformed: u64,
    pub session_id: Option<Seq<char>>,
    pub host: Option<Seq<char>>,
    pub created_ns: Option<i64>,
}

impl View for CursorRecord {
    type V = CursorRecordView;

    open spec fn view(&self) -> CursorRecordView {
        CursorRecordView {
            path: self.path@,
            provider: self.provider@,
            offset: self.offset,
            initial_len: self.initial_len,
            malformed: self.malformed,
            session_id: opt_view(self.session_id),
            host: opt_view(self.host),
            created_ns: self.created_ns,
        }
    }
}

impl CursorRecord {
    pub fn duplicate(&self) -> (r: CursorRecord)
        ensures
            r@ == self@,
    {
        CursorRecord {
            path: self.path.clone(),
            provider: self.provider.clone(),
            offset: self.offset,
            initial_len: self.initial_len,
            malformed: self.malformed,
            session_id: crate::model::clone_opt(&self.session_id),
            host: crate::model::clone_opt(&self.host),
            created_ns: self.created_ns,
        }
    }
}

fn same_text_opt(a: &Option<String>, b: &Option<String>) -> (r: bool)
    ensures
        r == (opt_view(*a) == opt_view(*b)),
{
    match (a, b) {
        (Some(x), Some(y)) => str_eq(x.as_str(), y.as_str()),
        (None, None) => true,
        _ => false,
    }
}

/// Whether two cursor records hold the same values.
pub fn same_record(a: &CursorRecord, b: &CursorRecord) -> (r: bool)
    ensures
        r == (a@ == b@),
{
    str_eq(a.path.as_str(), b.path.as_str()) && str_eq(a.provider.as_str(), b.provider.as_str())
        && a.offset == b.offset && a.initial_len == b.initial_len && a.malformed == b.malformed
        && same_text_opt(&a.session_id, &b.session_id) && same_text_opt(&a.host, &b.host)
        && a.created_ns == b.created_ns
}

/// One stored summary row that could not be turned back into a session.
/// `id` comes from the row's own `id` column, which is readable even when the
/// row's data is unusable, so a failure can name the session it lost.
#[derive(Debug, Clone, PartialEq)]
pub struct SummaryLoadFailure {
    pub id: String,
    pub error: String,
}

/// The result of loading the stored summaries: the rows that read back as
/// sessions, and the rows that did not.
#[derive(Debug)]
pub struct SummaryLoad {
    pub sessions: Vec<Session>,
    pub failed: Vec<SummaryLoadFailure>,
}

/// How many individual load failures are named before the rest are left to
/// the summary line.
pub const MAX_LOGGED_LOAD_FAILURES: usize = 10;

pub open spec fn row_keys(rows: Seq<(String, String)>) -> Seq<Seq<char>> {
    rows.map_values(|r: (String, String)| r.0@)
}

pub open spec fn row_texts(rows: Seq<(String, String)>) -> Seq<Seq<char>> {
    rows.map_values(|r: (String, String)| r.1@)
}

/// Rows `(id, serialized summary)` read as a map.
pub open spec fn row_map(rows: Seq<(String, String)>) -> Map<Seq<char>, Seq<char>> {
    to_map(row_keys(rows), row_texts(rows))
}

pub open spec fn record_paths(rs: Seq<CursorRecord>) -> Seq<Seq<char>> {
    rs.map_values(|r: CursorRecord| r.path@)
}

pub open spec fn record_views(rs: Seq<CursorRecord>) -> Seq<CursorRecordView> {
    rs.map_values(|r: CursorRecord| r@)
}

/// Cursor records keyed by path.
pub open spec fn record_map(rs: Seq<CursorRecord>) -> Map<Seq<char>, CursorRecordView> {
    to_map(record_paths(rs), record_views(rs))
}

/// A summary row needs writing unless the cache holds exactly its text.
pub open spec fn summary_stale(cache: Map<Seq<char>, Seq<char>>, id: Seq<char>, text: Seq<char>) -> bool {
    !(cache.dom().contains(id) && cache[id] == text)
}

/// A cursor row needs writing unless the cache holds exactly this record.
pub open spec fn cursor_stale(cache: Map<Seq<char>, CursorRecordView>, r: CursorRecordView) -> bool {
    !(cache.dom().contains(r.path) && cache[r.path] == r)
}

/// The rows of `rows` that need writing, in order.
pub open spec fn stale_rows(cache: Map<Seq<char>, Seq<char>>, rows: Seq<(Seq<char>, Seq<char>)>) -> Seq<
    (Seq<char>, Seq<char>),
> {
    rows.filter(|r: (Seq<char>, Seq<char>)| summary_stale(cache, r.0, r.1))
}

/// The records of `rs` that need writing, in order.
pub open spec fn stale_records(cache: Map<Seq<char>, CursorRecordView>, rs: Seq<CursorRecordView>) -> Seq<
    CursorRecordView,
> {
    rs.filter(|r: CursorRecordView| cursor_stale(cache, r))
}

pub open spec fn row_pairs(rows: Seq<(String, String)>) -> Seq<(Seq<char>, Seq<char>)> {
    rows.map_values(|r: (String, String)| (r.0@, r.1@))
}

/// The cache after rows were written: each written row's text is what the
/// database now holds for its id.
pub open spec fn rows_noted(cache: Map<Seq<char>, Seq<char>>, rows: Seq<(Seq<char>, Seq<char>)>) -> Map<
    Seq<char>,
    Seq<char>,
>
    decreases rows.len(),
{
    if rows.len() == 0 {
        cache
    } else {
        rows_noted(cache, rows.drop_last()).insert(rows.last().0, rows.last().1)
    }
}

pub open spec fn records_noted(
    cache: Map<Seq<char>, CursorRecordView>,
    rs: Seq<CursorRecordView>,
) -> Map<Seq<char>, CursorRecordView>
    decreases rs.len(),
{
    if rs.len() == 0 {
        cache
    } else {
        records_noted(cache, rs.drop_last()).insert(rs.last().path, rs.last())
    }
}

/// The cache without the entries for `ids`.
pub open spec fn forgotten(cache: Map<Seq<char>, Seq<char>>, ids: Seq<Seq<char>>) -> Map<Seq<char>, Seq<char>> {
    Map::new(|k: Seq<char>| cache.dom().contains(k) && !ids.contains(k), |k: Seq<char>| cache[k])
}

fn listed_id(ids: &Vec<String>, id: &String) -> (r: bool)
    ensures
        r == ids@.map_values(|x: String| x@).contains(id@),
{
    let mut i: usize = 0;
    while i < ids.len()
        invariant
            i <= ids@.len(),
            forall|j: int| 0 <= j < i ==> ids@[j]@ != id@,
        decreases ids@.len() - i,
    {
        if str_eq(ids[i].as_str(), id.as_str()) {
            assert(ids@.map_values(|x: String| x@)[i as int] == id@);
            return true;
        }
        i += 1;
    }
    proof {
        let v = ids@.map_values(|x: String| x@);
        if v.contains(id@) {
            let j = choose|j: int| 0 <= j < v.len() && v[j] == id@;
            assert(ids@[j]@ == id@);
        }
    }
    false
}

/// What the process last wrote successfully, per row. It starts empty at
/// every launch, so the first save after a restart writes everything.
pub struct WriteCache {
    summaries: Vec<(String, String)>,
    cursors: Vec<CursorRecord>,
}

impl WriteCache {
    pub closed spec fn wf(&self) -> bool {
        &&& distinct_keys(row_keys(self.summaries@))
        &&& distinct_keys(record_paths(self.cursors@))
    }

    /// The cached summary text per session id.
    pub closed spec fn summary_cache(&self) -> Map<Seq<char>, Seq<char>> {
        row_map(self.summaries@)
    }

    /// The cached cursor record per path.
    pub closed spec fn cursor_cache(&self) -> Map<Seq<char>, CursorRecordView> {
        record_map(self.cursors@)
    }

    pub fn new() -> (c: WriteCache)
        ensures
            c.wf(),
            c.summary_cache() == Map::<Seq<char>, Seq<char>>::empty(),
            c.cursor_cache() == Map::<Seq<char>, CursorRecordView>::empty(),
    {
        let c = WriteCache { summaries: Vec::new(), cursors: Vec::new() };
        assert(c.summary_cache() =~= Map::<Seq<char>, Seq<char>>::empty());
        assert(c.cursor_cache() =~= Map::<Seq<char>, CursorRecordView>::empty());
        c
    }

    fn summary_index(&self, id: &String) -> (r: Option<usize>)
        requires
            self.wf(),
        ensures
            r.is_none() <==> !self.summary_cache().dom().contains(id@),
            (r matches Some(i) ==> i < self.summaries@.len() && self.summaries@[i as int].0@ == id@),
    {
        let mut i: usize = 0;
        while i < self.summaries.len()
            invariant
                i <= self.summaries@.len(),
                forall|j: int| 0 <= j < i ==> self.summaries@[j].0@ != id@,
            decreases self.summaries@.len() - i,
        {
            if str_eq(self.summaries[i].0.as_str(), id.as_str()) {
                assert(row_keys(self.summaries@)[i as int] == id@);
                return Some(i);
            }
            i += 1;
        }
        proof {
            if row_keys(self.summaries@).contains(id@) {
                let j = choose|j: int|
                    0 <= j < row_keys(self.summaries@).len() && row_keys(self.summaries@)[j] == id@;
                assert(self.summaries@[j].0@ == id@);
            }
        }
        None
    }

    fn cursor_index(&self, path: &String) -> (r: Option<usize>)
        requires
            self.wf(),
        ensures
            r.is_none() <==> !self.cursor_cache().dom().contains(path@),
            (r matches Some(i) ==> i < self.cursors@.len() && self.cursors@[i as int].path@ == path@),
    {
        let mut i: usize = 0;
        while i < self.cursors.len()
            invariant
                i <= self.cursors@.len(),
                forall|j: int| 0 <= j < i ==> self.cursors@[j].path@ != path@,
            decreases self.cursors@.len() - i,
        {
            if str_eq(self.cursors[i].path.as_str(), path.as_str()) {
                assert(record_paths(self.cursors@)[i as int] == path@);
                return Some(i);
            }
            i += 1;
        }
        proof {
            if record_paths(self.cursors@).contains(path@) {
                let j = choose|j: int|
                    0 <= j < record_paths(self.cursors@).len() && record_paths(self.cursors@)[j]
                        == path@;
                assert(self.cursors@[j].path@ == path@);
            }
        }
        None
    }

    /// Whether the summary row `(id, text)` differs from what was last written.
    pub fn summary_changed(&self, id: &String, text: &String) -> (r: bool)
        requires
            self.wf(),
        ensures
            r == summary_stale(self.summary_cache(), id@, text@),
    {
        match self.summary_index(id) {
            Some(i) => {
                proof {
                    lemma_to_map_index(row_keys(self.summaries@), row_texts(self.summaries@), i as int);
                }
                !str_eq(self.summaries[i].1.as_str(), text.as_str())
            },
            None => true,
        }
    }

    /// Whether the cursor record differs from what was last written for its path.
    pub fn cursor_changed(&self, r: &CursorRecord) -> (out: bool)
        requires
            self.wf(),
        ensures
            out == cursor_stale(self.cursor_cache(), r@),
    {
        match self.cursor_index(&r.path) {
            Some(i) => {
                proof {
                    lemma_to_map_index(record_paths(self.cursors@), record_views(self.cursors@), i as int);
                }
                !same_record(&self.cursors[i], r)
            },
            None => true,
        }
    }

    /// The summary rows that need writing, in their order.
    pub fn summary_changes(&self, rows: &Vec<(String, String)>) -> (out: Vec<(String, String)>)
        requires
            self.wf(),
        ensures
            row_pairs(out@) == stale_rows(self.summary_cache(), row_pairs(rows@)),
    {
        let ghost cache = self.summary_cache();
        let mut out: Vec<(String, String)> = Vec::new();
        let mut i: usize = 0;
        while i < rows.len()
            invariant
                i <= rows@.len(),
                self.wf(),
                cache == self.summary_cache(),
                row_pairs(out@) == stale_rows(cache, row_pairs(rows@).take(i as int)),
            decreases rows@.len() - i,
        {
            let ghost before = row_pairs(rows@).take(i as int);
            proof {
                assert(row_pairs(rows@).take(i + 1) =~= before.push(row_pairs(rows@)[i as int]));
                before.lemma_filter_push(
                    row_pairs(rows@)[i as int],
                    |r: (Seq<char>, Seq<char>)| summary_stale(cache, r.0, r.1),
                );
            }
            if self.summary_changed(&rows[i].0, &rows[i].1) {
                out.push((rows[i].0.clone(), rows[i].1.clone()));
                assert(row_pairs(out@) =~= stale_rows(cache, before).push(row_pairs(rows@)[i as int]));
            } else {
                assert(row_pairs(out@) =~= stale_rows(cache, before));
            }
            i += 1;
        }
        assert(row_pairs(rows@).take(rows@.len() as int) =~= row_pairs(rows@));
        out
    }

    /// The cursor records that need writing, in their order.
    pub fn cursor_changes(&self, rs: &Vec<CursorRecord>) -> (out: Vec<CursorRecord>)
        requires
            self.wf(),
        ensures
            record_views(out@) == stale_records(self.cursor_cache(), record_views(rs@)),
    {
        let ghost cache = self.cursor_cache();
        let mut out: Vec<CursorRecord> = Vec::new();
        let mut i: usize = 0;
        while i < rs.len()
            invariant
                i <= rs@.len(),
                self.wf(),
                cache == self.cursor_cache(),
                record_views(out@) == stale_records(cache, record_views(rs@).take(i as int)),
            decreases rs@.len() - i,
        {
            let ghost before = record_views(rs@).take(i as int);
            proof {
                assert(record_views(rs@).take(i + 1) =~= before.push(record_views(rs@)[i as int]));
                before.lemma_filter_push(
                    record_views(rs@)[i as int],
                    |r: CursorRecordView| cursor_stale(cache, r),
                );
            }
            if self.cursor_changed(&rs[i]) {
                out.push(rs[i].duplicate());
                assert(record_views(out@) =~= stale_records(cache, before).push(record_views(rs@)[i as int]));
            } else {
                assert(record_views(out@) =~= stale_records(cache, before));
            }
            i += 1;
        }
        assert(record_views(rs@).take(rs@.len() as int) =~= record_views(rs@));
        out
    }

    fn note_summary(&mut self, id: &String, text: &String)
        requires
            old(self).wf(),
        ensures
            final(self).wf(),
            final(self).summary_cache() == old(self).summary_cache().insert(id@, text@),
            final(self).cursor_cache() == old(self).cursor_cache(),
    {
        let ghost s0 = self.summaries@;
        match self.summary_index(id) {
            Some(i) => {
                self.summaries.set(i, (id.clone(), text.clone()));
                proof {
                    lemma_update(row_keys(s0), row_texts(s0), i as int, text@);
                    assert(row_keys(self.summaries@) =~= row_keys(s0));
                    assert(row_texts(self.summaries@) =~= row_texts(s0).update(i as int, text@));
                }
            },
            None => {
                self.summaries.push((id.clone(), text.clone()));
                proof {
                    lemma_push(row_keys(s0), row_texts(s0), id@, text@);
                    assert(row_keys(self.summaries@) =~= row_keys(s0).push(id@));
                    assert(row_texts(self.summaries@) =~= row_texts(s0).push(text@));
                }
            },
        }
    }

    fn note_cursor(&mut self, r: &CursorRecord)
        requires
            old(self).wf(),
        ensures
            final(self).wf(),
            final(self).cursor_cache() == old(self).cursor_cache().insert(r.path@, r@),
            final(self).summary_cache() == old(self).summary_cache(),
    {
        let ghost c0 = self.cursors@;
        match self.cursor_index(&r.path) {
            Some(i) => {
                self.cursors.set(i, r.duplicate());
                proof {
                    lemma_update(record_paths(c0), record_views(c0), i as int, r@);
                    assert(record_paths(self.cursors@) =~= record_paths(c0));
                    assert(record_views(self.cursors@) =~= record_views(c0).update(i as int, r@));
                }
            },
            None => {
                self.cursors.push(r.duplicate());
                proof {
                    lemma_push(record_paths(c0), record_views(c0), r.path@, r@);
                    assert(record_paths(self.cursors@) =~= record_paths(c0).push(r.path@));
                    assert(record_views(self.cursors@) =~= record_views(c0).push(r@));
                }
            },
        }
    }

    /// Remember that `rows` were written.
    pub fn note_summaries(&mut self, rows: &Vec<(String, String)>)
        requires
            old(self).wf(),
        ensures
            final(self).wf(),
            final(self).summary_cache() == rows_noted(old(self).summary_cache(), row_pairs(rows@)),
            final(self).cursor_cache() == old(self).cursor_cache(),
    {
        let mut i: usize = 0;
        while i < rows.len()
            invariant
                i <= rows@.len(),
                self.wf(),
                self.summary_cache() == rows_noted(
                    old(self).summary_cache(),
                    row_pairs(rows@).take(i as int),
                ),
                self.cursor_cache() == old(self).cursor_cache(),
            decreases rows@.len() - i,
        {
            proof {
                assert(row_pairs(rows@).take(i + 1).drop_last() =~= row_pairs(rows@).take(i as int));
            }
            self.note_summary(&rows[i].0, &rows[i].1);
            i += 1;
        }
        assert(row_pairs(rows@).take(rows@.len() as int) =~= row_pairs(rows@));
    }

    /// Forget what was written for the sessions `ids` (sessions that left
    /// the live store), so the cache does not outgrow it.
    pub fn forget_summaries(&mut self, ids: &Vec<String>)
        requires
            old(self).wf(),
        ensures
            final(self).wf(),
            final(self).summary_cache() == forgotten(
                old(self).summary_cache(),
                ids@.map_values(|x: String| x@),
            ),
            final(self).cursor_cache() == old(self).cursor_cache(),
    {
        let ghost gone = ids@.map_values(|x: String| x@);
        let ghost s0 = self.summaries@;
        let mut out: Vec<(String, String)> = Vec::new();
        let mut i: usize = 0;
        proof {
            assert(row_map(s0.take(0)) =~= Map::<Seq<char>, Seq<char>>::empty());
            assert(row_map(out@) =~= Map::<Seq<char>, Seq<char>>::empty());
            assert(forgotten(Map::<Seq<char>, Seq<char>>::empty(), gone) =~= Map::<Seq<char>, Seq<char>>::empty());
        }
        while i < self.summaries.len()
            invariant
                i <= s0.len(),
                s0 == self.summaries@,
                self.wf(),
                self.cursor_cache() == old(self).cursor_cache(),
                gone == ids@.map_values(|x: String| x@),
                distinct_keys(row_keys(out@)),
                row_map(out@) == forgotten(row_map(s0.take(i as int)), gone),
            decreases s0.len() - i,
        {
            let ghost o0 = out@;
            let key = &self.summaries[i].0;
            proof {
                crate::keyed::lemma_prefix_step(row_keys(s0), row_texts(s0), i as int);
                assert(row_keys(s0).take(i as int) =~= row_keys(s0.take(i as int)));
                assert(row_texts(s0).take(i as int) =~= row_texts(s0.take(i as int)));
                assert(row_keys(s0).take(i + 1) =~= row_keys(s0.take(i + 1)));
                assert(row_texts(s0).take(i + 1) =~= row_texts(s0.take(i + 1)));
                if row_keys(o0).contains(key@) {
                    let q = choose|q: int| 0 <= q < row_keys(o0).len() && row_keys(o0)[q] == key@;
                    lemma_to_map_index(row_keys(o0), row_texts(o0), q);
                }
            }
            if !listed_id(ids, key) {
                out.push((key.clone(), self.summaries[i].1.clone()));
                proof {
                    lemma_push(row_keys(o0), row_texts(o0), key@, s0[i as int].1@);
                    assert(row_keys(out@) =~= row_keys(o0).push(key@));
                    assert(row_texts(out@) =~= row_texts(o0).push(s0[i as int].1@));
                    assert(row_map(out@) =~= forgotten(row_map(s0.take(i + 1)), gone));
                }
            } else {
                assert(row_map(out@) =~= forgotten(row_map(s0.take(i + 1)), gone));
            }
            i += 1;
        }
        assert(s0.take(s0.len() as int) =~= s0);
        self.summaries = out;
    }

    /// Remember that the records `rs` were written.
    pub fn note_cursors(&mut self, rs: &Vec<CursorRecord>)
        requires
            old(self).wf(),
        ensures
            final(self).wf(),
            final(self).cursor_cache() == records_noted(old(self).cursor_cache(), record_views(rs@)),
            final(self).summary_cache() == old(self).summary_cache(),
    {
        let mut i: usize = 0;
        while i < rs.len()
            invariant
                i <= rs@.len(),
                self.wf(),
                self.cursor_cache() == records_noted(
                    old(self).cursor_cache(),
                    record_views(rs@).take(i as int),
                ),
                self.summary_cache() == old(self).summary_cache(),
            decreases rs@.len() - i,
        {
            proof {
                assert(record_views(rs@).take(i + 1).drop_last() =~= record_views(rs@).take(i as int));
            }
            self.note_cursor(&rs[i]);
            i += 1;
        }
        assert(record_views(rs@).take(rs@.len() as int) =~= record_views(rs@));
    }
}

pub open spec fn pair_keys(rows: Seq<(Seq<char>, Seq<char>)>) -> Seq<Seq<char>> {
    rows.map_values(|r: (Seq<char>, Seq<char>)| r.0)
}

pub open spec fn view_paths(rs: Seq<CursorRecordView>) -> Seq<Seq<char>> {
    rs.map_values(|r: CursorRecordView| r.path)
}

proof fn lemma_rows_noted_elsewhere(cache: Map<Seq<char>, Seq<char>>, xs: Seq<(Seq<char>, Seq<char>)>, k: Seq<char>)
    requires
        forall|i: int| 0 <= i < xs.len() ==> (#[trigger] xs[i]).0 != k,
    ensures
        rows_noted(cache, xs).dom().contains(k) == cache.dom().contains(k),
        cache.dom().contains(k) ==> rows_noted(cache, xs)[k] == cache[k],
    decreases xs.len(),
{
    if xs.len() > 0 {
        assert(xs.last() == xs[xs.len() - 1]);
        lemma_rows_noted_elsewhere(cache, xs.drop_last(), k);
    }
}

proof fn lemma_rows_noted_at(cache: Map<Seq<char>, Seq<char>>, xs: Seq<(Seq<char>, Seq<char>)>, k: Seq<char>, v: Seq<char>)
    requires
        exists|i: int| 0 <= i < xs.len() && (#[trigger] xs[i]).0 == k,
        forall|i: int| 0 <= i < xs.len() && (#[trigger] xs[i]).0 == k ==> xs[i].1 == v,
    ensures
        rows_noted(cache, xs).dom().contains(k),
        rows_noted(cache, xs)[k] == v,
    decreases xs.len(),
{
    let n = xs.len() - 1;
    assert(xs.last() == xs[n]);
    if xs[n].0 != k {
        let i = choose|i: int| 0 <= i < xs.len() && (#[trigger] xs[i]).0 == k;
        assert(xs.drop_last()[i] == xs[i]);
        lemma_rows_noted_at(cache, xs.drop_last(), k, v);
    }
}

/// Once the rows a save found stale have been written and noted, saving the
/// same rows again finds nothing to write (the ids in one save being
/// distinct).
pub proof fn summaries_saved_are_current(cache: Map<Seq<char>, Seq<char>>, rows: Seq<(Seq<char>, Seq<char>)>)
    requires
        distinct_keys(pair_keys(rows)),
    ensures
        stale_rows(rows_noted(cache, stale_rows(cache, rows)), rows).len() == 0,
{
    let pred = |r: (Seq<char>, Seq<char>)| summary_stale(cache, r.0, r.1);
    let written = rows.filter(pred);
    let noted = rows_noted(cache, written);
    assert forall|j: int| 0 <= j < rows.len() implies !summary_stale(noted, (#[trigger] rows[j]).0, rows[j].1) by {
        let r = rows[j];
        assert forall|i: int| 0 <= i < written.len() && (#[trigger] written[i]).0 == r.0 implies written[i].1
            == r.1 by {
            rows.lemma_filter_contains_rev(pred, written[i]);
            let t = choose|t: int| 0 <= t < rows.len() && rows[t] == written[i];
            assert(pair_keys(rows)[t] == pair_keys(rows)[j]);
        }
        if summary_stale(cache, r.0, r.1) {
            rows.lemma_filter_contains(pred, j);
            let i = choose|i: int| 0 <= i < written.len() && written[i] == r;
            assert(written[i].0 == r.0);
            lemma_rows_noted_at(cache, written, r.0, r.1);
        } else if exists|i: int| 0 <= i < written.len() && (#[trigger] written[i]).0 == r.0 {
            lemma_rows_noted_at(cache, written, r.0, r.1);
        } else {
            lemma_rows_noted_elsewhere(cache, written, r.0);
        }
    }
    let again = rows.filter(|r: (Seq<char>, Seq<char>)| summary_stale(noted, r.0, r.1));
    if again.len() > 0 {
        rows.lemma_filter_pred(|r: (Seq<char>, Seq<char>)| summary_stale(noted, r.0, r.1), 0);
        rows.lemma_filter_contains_rev(|r: (Seq<char>, Seq<char>)| summary_stale(noted, r.0, r.1), again[0]);
    }
}

proof fn lemma_records_noted_elsewhere(cache: Map<Seq<char>, CursorRecordView>, xs: Seq<CursorRecordView>, k: Seq<char>)
    requires
        forall|i: int| 0 <= i < xs.len() ==> (#[trigger] xs[i]).path != k,
    ensures
        records_noted(cache, xs).dom().contains(k) == cache.dom().contains(k),
        cache.dom().contains(k) ==> records_noted(cache, xs)[k] == cache[k],
    decreases xs.len(),
{
    if xs.len() > 0 {
        assert(xs.last() == xs[xs.len() - 1]);
        lemma_records_noted_elsewhere(cache, xs.drop_last(), k);
    }
}

proof fn lemma_records_noted_at(cache: Map<Seq<char>, CursorRecordView>, xs: Seq<CursorRecordView>, v: CursorRecordView)
    requires
        exists|i: int| 0 <= i < xs.len() && (#[trigger] xs[i]).path == v.path,
        forall|i: int| 0 <= i < xs.len() && (#[trigger] xs[i]).path == v.path ==> xs[i] == v,
    ensures
        records_noted(cache, xs).dom().contains(v.path),
        records_noted(cache, xs)[v.path] == v,
    decreases xs.len(),
{
    let n = xs.len() - 1;
    assert(xs.last() == xs[n]);
    if xs[n].path != v.path {
        let i = choose|i: int| 0 <= i < xs.len() && (#[trigger] xs[i]).path == v.path;
        assert(xs.drop_last()[i] == xs[i]);
        lemma_records_noted_at(cache, xs.drop_last(), v);
    }
}

/// Once the cursor records a save found stale have been written and noted,
/// saving the same records again finds nothing to write (the paths in one
/// save being distinct).
pub proof fn cursors_saved_are_current(cache: Map<Seq<char>, CursorRecordView>, rs: Seq<CursorRecordView>)
    requires
        distinct_keys(view_paths(rs)),
    ensures
        stale_records(records_noted(cache, stale_records(cache, rs)), rs).len() == 0,
{
    let pred = |r: CursorRecordView| cursor_stale(cache, r);
    let written = rs.filter(pred);
    let noted = records_noted(cache, written);
    assert forall|j: int| 0 <= j < rs.len() implies !cursor_stale(noted, #[trigger] rs[j]) by {
        let r = rs[j];
        assert forall|i: int| 0 <= i < written.len() && (#[trigger] written[i]).path == r.path implies written[i]
            == r by {
            rs.lemma_filter_contains_rev(pred, written[i]);
            let t = choose|t: int| 0 <= t < rs.len() && rs[t] == written[i];
            assert(view_paths(rs)[t] == view_paths(rs)[j]);
        }
        if cursor_stale(cache, r) {
            rs.lemma_filter_contains(pred, j);
            let i = choose|i: int| 0 <= i < written.len() && written[i] == r;
            assert(written[i].path == r.path);
            lemma_records_noted_at(cache, written, r);
        } else if exists|i: int| 0 <= i < written.len() && (#[trigger] written[i]).path == r.path {
            lemma_records_noted_at(cache, written, r);
        } else {
            lemma_records_noted_elsewhere(cache, written, r.path);
        }
    }
    let again = rs.filter(|r: CursorRecordView| cursor_stale(noted, r));
    if again.len() > 0 {
        rs.lemma_filter_pred(|r: CursorRecordView| cursor_stale(noted, r), 0);
        rs.lemma_filter_contains_rev(|r: CursorRecordView| cursor_stale(noted, r), again[0]);
    }
}

/// The migration to run first, given the schema version the database
/// reports and how many migrations there are: `None` when none is pending.
/// A negative reported version is read as an unsigned one, as a cast would.
pub fn first_pending_migration(version: i64, count: usize) -> (r: Option<usize>)
    ensures
        r == (if version < 0 || version >= count {
            None::<usize>
        } else {
            Some(version as usize)
        }),
{
    if version < 0 || version as u64 >= count as u64 {
        None
    } else {
        Some(version as usize)
    }
}

/// The script that applies migration `index` (counting from zero) together
/// with the schema version it reaches, in one transaction.
pub open spec fn migration_script(sql: Seq<char>, index: nat) -> Seq<char> {
    "BEGIN;\n"@ + sql + "\nPRAGMA user_version = "@ + decimal(index + 1) + ";\nCOMMIT;"@
}

/// The script for migration `index`; see `migration_script`.
pub fn migration_batch(sql: &str, index: u64) -> (r: String)
    requires
        index < u64::MAX,
    ensures
        r@ == migration_script(sql@, index as nat),
{
    let n = fmt_u64(index + 1);
    String::from_str("BEGIN;\n").concat(sql).concat("\nPRAGMA user_version = ").concat(n.as_str()).concat(
        ";\nCOMMIT;",
    )
}

} // verus!
