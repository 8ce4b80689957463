//! Reindexing one path: the stale rows are deleted first, then every chunk
//! is embedded and written by a task of its own, with at most `cap` tasks in
//! flight. A failed task is recorded and does not stop the others. The
//! caller performs the work that each step hands out and reports back.
use crate::store::{
    lemma_rows_for_push, lemma_rows_for_without, rows_for, InsertRow, RowView, VectorStore,
};
use vstd::prelude::*;

verus! {

/// The number of chunk tasks allowed in flight unless configured otherwise.
pub const DEFAULT_CONCURRENCY: usize = 10;

/// Where one chunk of a job stands.
#[derive(Clone, Copy, PartialEq, Eq, Structural)]
pub enum ChunkState {
    Pending,
    Running,
    Indexed,
    Failed,
}

/// How many entries of `s` are `st`.
pub open spec fn count_state(s: Seq<ChunkState>, st: ChunkState) -> nat
    decreases s.len(),
{
    if s.len() == 0 {
        0
    } else {
        count_state(s.drop_last(), st) + if s.last() == st {
            1nat
        } else {
            0nat
        }
    }
}

/// The positions of `s` that are `Failed`, in increasing order.
pub open spec fn failed_indices(s: Seq<ChunkState>) -> Seq<usize>
    decreases s.len(),
{
    if s.len() == 0 {
        seq![]
    } else if s.last() == ChunkState::Failed {
        failed_indices(s.drop_last()).push((s.len() - 1) as usize)
    } else {
        failed_indices(s.drop_last())
    }
}

proof fn lemma_count_update(s: Seq<ChunkState>, i: int, v: ChunkState, st: ChunkState)
    requires
        0 <= i < s.len(),
    ensures
        count_state(s.update(i, v), st) + (if s[i] == st {
            1int
        } else {
            0int
        }) == count_state(s, st) + (if v == st {
            1int
        } else {
            0int
        }),
    decreases s.len(),
{
    let u = s.update(i, v);
    if i == s.len() - 1 {
        assert(u.drop_last() =~= s.drop_last());
    } else {
        assert(u.drop_last() =~= s.drop_last().update(i, v));
        lemma_count_update(s.drop_last(), i, v, st);
    }
}

proof fn lemma_count_zero(s: Seq<ChunkState>, st: ChunkState, i: int)
    requires
        count_state(s, st) == 0,
        0 <= i < s.len(),
    ensures
        s[i] != st,
    decreases s.len(),
{
    if i < s.len() - 1 {
        lemma_count_zero(s.drop_last(), st, i);
    }
}

proof fn lemma_count_bound(s: Seq<ChunkState>, st: ChunkState)
    ensures
        count_state(s, st) <= s.len(),
    decreases s.len(),
{
    if s.len() > 0 {
        lemma_count_bound(s.drop_last(), st);
    }
}

proof fn lemma_count_all(s: Seq<ChunkState>, st: ChunkState)
    requires
        forall|i: int| 0 <= i < s.len() ==> s[i] != st,
    ensures
        count_state(s, st) == 0,
    decreases s.len(),
{
    if s.len() > 0 {
        lemma_count_all(s.drop_last(), st);
    }
}

/// A span of source code handed in for indexing, with its location and kind
/// (function, class, method, ...).
pub struct CodeChunk {
    pub path: String,
    pub content: String,
    pub start_line: u32,
    pub end_line: u32,
    pub chunk_type: String,
}

/// The row that chunk `c` becomes when written under `path`.
pub open spec fn chunk_row(path: Seq<char>, c: CodeChunk) -> RowView {
    (path, c.content@, c.start_line, c.end_line, c.chunk_type@)
}

/// The outcome of a job: how many chunks were written, and which failed.
pub struct IndexReport {
    pub indexed: usize,
    pub failed: Vec<usize>,
}

/// The reindexing of one path.
pub struct IndexJob {
    path: String,
    chunks: Vec<CodeChunk>,
    states: Vec<ChunkState>,
    next: usize,
    in_flight: usize,
    cap: usize,
    deleted: bool,
    written: Ghost<Seq<usize>>,
}

impl IndexJob {
    pub closed spec fn path_view(&self) -> Seq<char> {
        self.path@
    }

    pub closed spec fn chunks_view(&self) -> Seq<CodeChunk> {
        self.chunks@
    }

    /// The state of each chunk, by position.
    pub closed spec fn states_view(&self) -> Seq<ChunkState> {
        self.states@
    }

    /// How many chunks have been handed out so far; they are handed out in order.
    pub closed spec fn started_view(&self) -> nat {
        self.next as nat
    }

    pub closed spec fn in_flight_view(&self) -> nat {
        self.in_flight as nat
    }

    pub closed spec fn cap_view(&self) -> nat {
        self.cap as nat
    }

    /// Whether the stale rows of the path have been deleted.
    pub closed spec fn deleted_view(&self) -> bool {
        self.deleted
    }

    /// The positions of the chunks written so far, in the order the engine
    /// confirmed them.
    pub closed spec fn written_view(&self) -> Seq<usize> {
        self.written@
    }

    /// The rows written so far.
    pub open spec fn written_rows(&self) -> Seq<RowView> {
        self.written_view().map_values(|k: usize| chunk_row(self.path_view(), self.chunks_view()[k as int]))
    }

    /// Whether the store's rows for the path are exactly the rows this job
    /// has written.
    pub open spec fn tracks(&self, store: VectorStore) -> bool {
        rows_for(store.rows_view(), self.path_view()) == self.written_rows()
    }

    pub open spec fn wf(&self) -> bool {
        &&& self.cap_view() > 0
        &&& self.in_flight_view() <= self.cap_view()
        &&& self.started_view() <= self.states_view().len()
        &&& self.chunks_view().len() == self.states_view().len()
        &&& self.in_flight_view() == count_state(self.states_view(), ChunkState::Running)
        &&& !self.deleted_view() ==> self.started_view() == 0 && self.written_view().len() == 0
        &&& forall|i: int|
            0 <= i < self.states_view().len() ==> (#[trigger] self.states_view()[i]
                == ChunkState::Pending <==> i >= self.started_view())
        &&& forall|i: int|
            0 <= i < self.states_view().len() ==> (#[trigger] self.states_view()[i]
                == ChunkState::Indexed <==> self.written_view().contains(i as usize))
        &&& forall|j: int|
            0 <= j < self.written_view().len() ==> #[trigger] self.written_view()[j]
                < self.states_view().len()
        &&& self.written_view().no_duplicates()
    }

    /// Whether every chunk has been handed out and has finished.
    pub open spec fn complete_view(&self) -> bool {
        &&& self.deleted_view()
        &&& self.started_view() == self.states_view().len()
        &&& self.in_flight_view() == 0
    }

    /// A job for the `chunks` of `path`, with at most `cap` tasks in flight;
    /// `None` where `cap` is zero, since no task could ever run.
    pub fn new(path: &str, chunks: Vec<CodeChunk>, cap: usize) -> (r: Option<IndexJob>)
        ensures
            cap == 0 <==> r is None,
            r matches Some(j) ==> {
                &&& j.wf()
                &&& j.path_view() == path@
                &&& j.cap_view() == cap
                &&& j.chunks_view() == chunks@
                &&& j.states_view() == Seq::new(chunks@.len(), |i: int| ChunkState::Pending)
                &&& !j.deleted_view()
                &&& j.in_flight_view() == 0
            },
    {
        if cap == 0 {
            return None;
        }
        let n = chunks.len();
        let mut states: Vec<ChunkState> = Vec::new();
        let mut k: usize = 0;
        while k < n
            invariant
                k <= n,
                states@ == Seq::new(k as nat, |i: int| ChunkState::Pending),
            decreases n - k,
        {
            states.push(ChunkState::Pending);
            k = k + 1;
            assert(states@ =~= Seq::new(k as nat, |i: int| ChunkState::Pending));
        }
        let j = IndexJob {
            path: String::from_str(path),
            chunks,
            states,
            next: 0,
            in_flight: 0,
            cap,
            deleted: false,
            written: Ghost(Seq::empty()),
        };
        proof {
            lemma_count_all(j.states@, ChunkState::Running);
        }
        Some(j)
    }

    pub fn path(&self) -> (r: &str)
        ensures
            r@ == self.path_view(),
    {
        self.path.as_str()
    }

    pub fn chunk_count(&self) -> (r: usize)
        requires
            self.wf(),
        ensures
            r == self.states_view().len(),
    {
        self.chunks.len()
    }

    /// Chunk `i` of the job.
    pub fn chunk(&self, i: usize) -> (r: &CodeChunk)
        requires
            i < self.chunks_view().len(),
        ensures
            *r == self.chunks_view()[i as int],
    {
        &self.chunks[i]
    }

    pub fn in_flight(&self) -> (r: usize)
        ensures
            r == self.in_flight_view(),
    {
        self.in_flight
    }

    /// Records that the engine has deleted the stale rows of the path, in
    /// the store's model too; tasks may start.
    pub fn clear_path(&mut self, store: &mut VectorStore)
        requires
            old(self).wf(),
            !old(self).deleted_view(),
        ensures
            final(self).wf(),
            final(self).deleted_view(),
            final(self).tracks(*final(store)),
            final(self).states_view() == old(self).states_view(),
            final(self).chunks_view() == old(self).chunks_view(),
            final(self).started_view() == old(self).started_view(),
            final(self).in_flight_view() == old(self).in_flight_view(),
            final(self).cap_view() == old(self).cap_view(),
            final(self).path_view() == old(self).path_view(),
            final(store).rows_view() == crate::store::rows_without(
                old(store).rows_view(),
                old(self).path_view(),
            ),
            final(store).dimension_view() == old(store).dimension_view(),
            final(store).db_path_view() == old(store).db_path_view(),
            final(store).table_name_view() == old(store).table_name_view(),
    {
        store.record_deleted(self.path.as_str());
        self.deleted = true;
        proof {
            lemma_rows_for_without(old(store).rows_view(), self.path@, self.path@);
            assert(self.written_rows() =~= Seq::<RowView>::empty());
        }
    }

    /// Hands out the next chunk to embed and write, where the rows have been
    /// deleted, a chunk is left, and fewer than `cap` tasks are in flight.
    pub fn start_task(&mut self) -> (r: Option<usize>)
        requires
            old(self).wf(),
        ensures
            final(self).wf(),
            final(self).cap_view() == old(self).cap_view(),
            final(self).path_view() == old(self).path_view(),
            final(self).chunks_view() == old(self).chunks_view(),
            final(self).written_view() == old(self).written_view(),
            final(self).deleted_view() == old(self).deleted_view(),
            final(self).in_flight_view() <= final(self).cap_view(),
            r is Some <==> (old(self).deleted_view() && old(self).started_view()
                < old(self).states_view().len() && old(self).in_flight_view()
                < old(self).cap_view()),
            r matches Some(i) ==> {
                &&& i == old(self).started_view()
                &&& final(self).started_view() == i + 1
                &&& final(self).in_flight_view() == old(self).in_flight_view() + 1
                &&& final(self).states_view() == old(self).states_view().update(
                    i as int,
                    ChunkState::Running,
                )
            },
            r is None ==> *final(self) == *old(self),
    {
        if !self.deleted || self.next >= self.states.len() || self.in_flight >= self.cap {
            return None;
        }
        let i = self.next;
        proof {
            lemma_count_update(self.states@, i as int, ChunkState::Running, ChunkState::Running);
        }
        self.states.set(i, ChunkState::Running);
        self.next = i + 1;
        self.in_flight = self.in_flight + 1;
        proof {
            assert forall|k: int| 0 <= k < self.states@.len() implies (#[trigger] self.states@[k]
                == ChunkState::Indexed <==> self.written@.contains(k as usize)) by {
                assert(k != i ==> self.states@[k] == old(self).states@[k]);
            }
        }
        Some(i)
    }

    /// Records that the task of chunk `i` failed; the other tasks go on.
    pub fn finish_failed(&mut self, i: usize)
        requires
            old(self).wf(),
            i < old(self).states_view().len(),
            old(self).states_view()[i as int] == ChunkState::Running,
        ensures
            final(self).wf(),
            final(self).cap_view() == old(self).cap_view(),
            final(self).path_view() == old(self).path_view(),
            final(self).chunks_view() == old(self).chunks_view(),
            final(self).written_view() == old(self).written_view(),
            final(self).deleted_view() == old(self).deleted_view(),
            final(self).started_view() == old(self).started_view(),
            final(self).in_flight_view() + 1 == old(self).in_flight_view(),
            final(self).states_view() == old(self).states_view().update(
                i as int,
                ChunkState::Failed,
            ),
    {
        proof {
            lemma_count_update(self.states@, i as int, ChunkState::Failed, ChunkState::Running);
        }
        self.states.set(i, ChunkState::Failed);
        self.in_flight = self.in_flight - 1;
        proof {
            assert forall|k: int| 0 <= k < self.states@.len() implies (#[trigger] self.states@[k]
                == ChunkState::Indexed <==> self.written@.contains(k as usize)) by {
                assert(k != i ==> self.states@[k] == old(self).states@[k]);
            }
        }
    }

    /// Records that the engine has written `row`, the row of chunk `i`: in
    /// the store's model, and as the end of the chunk's task.
    pub fn finish_written(&mut self, store: &mut VectorStore, i: usize, row: &InsertRow)
        requires
            old(self).wf(),
            old(self).tracks(*old(store)),
            i < old(self).states_view().len(),
            old(self).states_view()[i as int] == ChunkState::Running,
            row.view() == chunk_row(old(self).path_view(), old(self).chunks_view()[i as int]),
            old(store).admits(*row),
        ensures
            final(self).wf(),
            final(self).tracks(*final(store)),
            final(self).cap_view() == old(self).cap_view(),
            final(self).path_view() == old(self).path_view(),
            final(self).chunks_view() == old(self).chunks_view(),
            final(self).written_view() == old(self).written_view().push(i),
            final(self).deleted_view() == old(self).deleted_view(),
            final(self).started_view() == old(self).started_view(),
            final(self).in_flight_view() + 1 == old(self).in_flight_view(),
            final(self).states_view() == old(self).states_view().update(
                i as int,
                ChunkState::Indexed,
            ),
            final(store).rows_view() == old(store).rows_view().push(row.view()),
            final(store).dimension_view() == Some(row.dimension),
            final(store).db_path_view() == old(store).db_path_view(),
            final(store).table_name_view() == old(store).table_name_view(),
    {
        store.record_written(row);
        proof {
            lemma_count_update(self.states@, i as int, ChunkState::Indexed, ChunkState::Running);
            lemma_rows_for_push(old(store).rows_view(), row.view(), self.path@);
        }
        self.states.set(i, ChunkState::Indexed);
        self.in_flight = self.in_flight - 1;
        let n = self.states.len();
        let ghost w0 = self.written@;
        self.written = Ghost(self.written@.push(i));
        proof {
            let w = self.written@;
            assert(!w0.contains(i)) by {
                if w0.contains(i) {
                    assert(old(self).states@[i as int] == ChunkState::Indexed);
                }
            }
            assert(w[w0.len() as int] == i);
            assert forall|k: int| 0 <= k < self.states@.len() implies (#[trigger] self.states@[k]
                == ChunkState::Indexed <==> w.contains(k as usize)) by {
                if k != i {
                    assert(self.states@[k] == old(self).states@[k]);
                    assert(self.states@.len() == n as int);
                    if w0.contains(k as usize) {
                        let j = choose|j: int| 0 <= j < w0.len() && w0[j] == k as usize;
                        assert(w[j] == k as usize);
                    }
                    if w.contains(k as usize) {
                        let j = choose|j: int| 0 <= j < w.len() && w[j] == k as usize;
                        assert(k as usize != i);
                        if j == w0.len() {
                            assert(w[j] == i);
                        }
                        assert(w0[j] == k as usize);
                    }
                }
            }
            assert forall|j: int| 0 <= j < w.len() implies #[trigger] w[j] < self.states@.len() by {
                if j < w0.len() {
                    assert(w[j] == w0[j]);
                }
            }
            assert forall|a: int, b: int| 0 <= a < w.len() && 0 <= b < w.len() && a != b implies w[a]
                != w[b] by {
                if a < w0.len() && b < w0.len() {
                    assert(w[a] == w0[a] && w[b] == w0[b]);
                } else if a < w0.len() {
                    assert(w[a] == w0[a]);
                    assert(w0.contains(w0[a]));
                } else if b < w0.len() {
                    assert(w[b] == w0[b]);
                    assert(w0.contains(w0[b]));
                }
            }
            assert(self.written_rows() =~= old(self).written_rows().push(row.view()));
        }
    }

    /// Whether chunk `i` has a task in flight.
    pub fn is_running(&self, i: usize) -> (r: bool)
        ensures
            r == (i < self.states_view().len() && self.states_view()[i as int]
                == ChunkState::Running),
    {
        i < self.states.len() && self.states[i] == ChunkState::Running
    }

    pub fn is_complete(&self) -> (r: bool)
        requires
            self.wf(),
        ensures
            r == self.complete_view(),
    {
        self.deleted && self.next == self.states.len() && self.in_flight == 0
    }

    /// The number of chunks written and the positions of those that failed.
    pub fn report(&self) -> (r: IndexReport)
        requires
            self.wf(),
        ensures
            r.indexed == count_state(self.states_view(), ChunkState::Indexed),
            r.failed@ == failed_indices(self.states_view()),
    {
        let mut indexed: usize = 0;
        let mut failed: Vec<usize> = Vec::new();
        let mut k: usize = 0;
        while k < self.states.len()
            invariant
                k <= self.states@.len(),
                indexed == count_state(self.states@.subrange(0, k as int), ChunkState::Indexed),
                failed@ == failed_indices(self.states@.subrange(0, k as int)),
            decreases self.states@.len() - k,
        {
            let ghost pre = self.states@.subrange(0, k as int);
            let ghost post = self.states@.subrange(0, k + 1);
            assert(post.drop_last() =~= pre);
            proof {
                lemma_count_bound(pre, ChunkState::Indexed);
            }
            if self.states[k] == ChunkState::Indexed {
                indexed = indexed + 1;
            } else if self.states[k] == ChunkState::Failed {
                failed.push(k);
            }
            k = k + 1;
        }
        assert(self.states@.subrange(0, self.states@.len() as int) =~= self.states@);
        IndexReport { indexed, failed }
    }
}

/// When a job is complete, every chunk has been written or has failed, and
/// the two counts of its report add up to the number of chunks.
pub proof fn lemma_complete_accounts(j: IndexJob)
    requires
        j.wf(),
        j.complete_view(),
    ensures
        forall|i: int|
            0 <= i < j.states_view().len() ==> (#[trigger] j.states_view()[i] == ChunkState::Indexed
                || j.states_view()[i] == ChunkState::Failed),
        count_state(j.states_view(), ChunkState::Indexed) + failed_indices(j.states_view()).len()
            == j.states_view().len(),
{
    let s = j.states_view();
    assert forall|i: int| 0 <= i < s.len() implies (#[trigger] s[i] == ChunkState::Indexed || s[i]
        == ChunkState::Failed) by {
        lemma_count_zero(s, ChunkState::Running, i);
    }
    lemma_settled_sum(s);
}

proof fn lemma_settled_sum(s: Seq<ChunkState>)
    requires
        forall|i: int|
            0 <= i < s.len() ==> (#[trigger] s[i] == ChunkState::Indexed || s[i]
                == ChunkState::Failed),
    ensures
        count_state(s, ChunkState::Indexed) + failed_indices(s).len() == s.len(),
    decreases s.len(),
{
    if s.len() > 0 {
        let t = s.drop_last();
        assert forall|i: int| 0 <= i < t.len() implies (#[trigger] t[i] == ChunkState::Indexed
            || t[i] == ChunkState::Failed) by {
            assert(t[i] == s[i]);
        }
        assert(s.last() == s[s.len() - 1]);
        lemma_settled_sum(t);
    }
}

/// When a job is complete and nothing else wrote its path meanwhile, the
/// store's rows for the path are the rows of the chunks that were written,
/// each once; every other chunk failed.
pub proof fn lemma_finished_job_rows(j: IndexJob, store: VectorStore)
    requires
        j.wf(),
        j.complete_view(),
        j.tracks(store),
    ensures
        rows_for(store.rows_view(), j.path_view()) == j.written_view().map_values(
            |k: usize| chunk_row(j.path_view(), j.chunks_view()[k as int]),
        ),
        j.written_view().no_duplicates(),
        forall|i: int|
            0 <= i < j.states_view().len() ==> (#[trigger] j.states_view()[i]
                == ChunkState::Indexed <==> j.written_view().contains(i as usize)),
        forall|i: int|
            0 <= i < j.states_view().len() ==> (j.written_view().contains(i as usize)
                || #[trigger] j.states_view()[i] == ChunkState::Failed),
{
    lemma_complete_accounts(j);
}

/// A job over no chunks hands out no task, and once its path has been
/// cleared it is complete with nothing written, nothing failed, and no row
/// left for the path.
pub proof fn lemma_empty_batch(j: IndexJob, store: VectorStore)
    requires
        j.wf(),
        j.states_view().len() == 0,
        j.tracks(store),
    ensures
        !(j.started_view() < j.states_view().len()),
        count_state(j.states_view(), ChunkState::Indexed) == 0,
        failed_indices(j.states_view()).len() == 0,
        j.deleted_view() ==> j.complete_view(),
        rows_for(store.rows_view(), j.path_view()).len() == 0,
{
    lemma_count_bound(j.states_view(), ChunkState::Running);
    if j.written_view().len() > 0 {
        assert(j.written_view()[0] < j.states_view().len());
    }
}

} // verus!
