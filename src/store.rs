//! The vector store's rules: one table whose vector dimension is fixed by its
//! first row, path-scoped deletion, and the checks made before a search. The
//! engine itself is driven by the caller with what these functions return.
use crate::predicate::{delete_predicate, path_predicate};
use vstd::prelude::*;

verus! {

/// The name of the one table of a store.
pub const TABLE_NAME: &'static str = "code_chunks";

/// Relies on uuid's `Uuid::new_v4` and its `Display`, which writes the
/// hyphenated lower-case form of 36 characters.
#[verifier::external_body]
fn fresh_record_id() -> (r: String)
    ensures
        r@.len() == 36,
{
    uuid::Uuid::new_v4().to_string()
}

/// Why an operation of the store failed.
pub enum StoreError {
    /// A vector's dimension differs from the one the table was created with.
    Schema { expected: usize, found: usize },
    /// The engine failed to read or write.
    Storage { message: String },
    /// An argument is out of its range.
    InvalidArgument { message: String },
}

/// A record as the model sees it: path, content, first line, last line and
/// chunk type.
pub type RowView = (Seq<char>, Seq<char>, u32, u32, Seq<char>);

/// The rows of `t` whose path is `p`, in order.
pub open spec fn rows_for(t: Seq<RowView>, p: Seq<char>) -> Seq<RowView>
    decreases t.len(),
{
    if t.len() == 0 {
        seq![]
    } else if t.last().0 == p {
        rows_for(t.drop_last(), p).push(t.last())
    } else {
        rows_for(t.drop_last(), p)
    }
}

/// The rows of `t` whose path is not `p`, in order.
pub open spec fn rows_without(t: Seq<RowView>, p: Seq<char>) -> Seq<RowView>
    decreases t.len(),
{
    if t.len() == 0 {
        seq![]
    } else if t.last().0 == p {
        rows_without(t.drop_last(), p)
    } else {
        rows_without(t.drop_last(), p).push(t.last())
    }
}

/// Whether every row of `t` has path `p`.
pub open spec fn all_on_path(t: Seq<RowView>, p: Seq<char>) -> bool {
    forall|i: int| 0 <= i < t.len() ==> (#[trigger] t[i]).0 == p
}

/// A row ready to be written: the values of its columns, a fresh identifier,
/// the dimension of its vector, and whether the table has to be created
/// with it.
pub struct InsertRow {
    pub id: String,
    pub dimension: usize,
    pub path: String,
    pub content: String,
    pub start_line: u32,
    pub end_line: u32,
    pub chunk_type: String,
    pub create_table: bool,
}

impl InsertRow {
    pub open spec fn view(&self) -> RowView {
        (self.path@, self.content@, self.start_line, self.end_line, self.chunk_type@)
    }
}

/// What a search asks of the engine.
pub enum SearchPlan {
    /// No table exists yet: the answer is empty.
    NoTable,
    /// A nearest-neighbour query for at most `limit` rows, closest first.
    Nearest { limit: usize },
}

/// A handle on the store of one workspace.
pub struct VectorStore {
    db_path: String,
    table_name: String,
    dimension: Option<usize>,
    rows: Ghost<Seq<RowView>>,
}

impl VectorStore {
    pub closed spec fn db_path_view(&self) -> Seq<char> {
        self.db_path@
    }

    pub closed spec fn table_name_view(&self) -> Seq<char> {
        self.table_name@
    }

    /// The vector dimension of the table, or `None` while it does not exist.
    pub closed spec fn dimension_view(&self) -> Option<usize> {
        self.dimension
    }

    /// The rows of the table, in the order the engine confirmed them.
    pub closed spec fn rows_view(&self) -> Seq<RowView> {
        self.rows@
    }

    /// Whether `row` can be written to the table as it stands.
    pub open spec fn admits(&self, row: InsertRow) -> bool {
        match self.dimension_view() {
            None => row.create_table,
            Some(d) => d == row.dimension && !row.create_table,
        }
    }

    /// A handle on the store at `db_path`, whose table exists with vectors of
    /// `existing_dimension`, or does not exist yet.
    pub fn new(db_path: &str, existing_dimension: Option<usize>) -> (r: VectorStore)
        ensures
            r.db_path_view() == db_path@,
            r.table_name_view() == TABLE_NAME@,
            r.dimension_view() == existing_dimension,
            existing_dimension is None ==> r.rows_view() == Seq::<RowView>::empty(),
    {
        VectorStore {
            db_path: String::from_str(db_path),
            table_name: String::from_str(TABLE_NAME),
            dimension: existing_dimension,
            rows: Ghost(
                if existing_dimension is None {
                    Seq::empty()
                } else {
                    arbitrary()
                },
            ),
        }
    }

    pub fn db_path(&self) -> (r: &str)
        ensures
            r@ == self.db_path_view(),
    {
        self.db_path.as_str()
    }

    pub fn table_name(&self) -> (r: &str)
        ensures
            r@ == self.table_name_view(),
    {
        self.table_name.as_str()
    }

    pub fn dimension(&self) -> (r: Option<usize>)
        ensures
            r == self.dimension_view(),
    {
        self.dimension
    }

    /// Admits one record whose vector has `dimension` entries, and builds
    /// the row to write. Where no table exists the row creates it; where the
    /// table's dimension differs, the record is refused. The store itself
    /// changes only when the write is confirmed (`record_written`).
    pub fn insert(
        &self,
        path: &str,
        content: &str,
        start_line: u32,
        end_line: u32,
        chunk_type: &str,
        dimension: usize,
    ) -> (r: Result<InsertRow, StoreError>)
        ensures
            match self.dimension_view() {
                None => r is Ok,
                Some(d) => d == dimension <==> r is Ok,
            },
            r matches Ok(row) ==> {
                &&& row.view() == (path@, content@, start_line, end_line, chunk_type@)
                &&& row.dimension == dimension
                &&& row.create_table == (self.dimension_view() is None)
                &&& row.id@.len() == 36
                &&& self.admits(row)
            },
            r matches Err(e) ==> e == (StoreError::Schema {
                expected: self.dimension_view()->Some_0,
                found: dimension,
            }),
    {
        let create_table = match self.dimension {
            None => true,
            Some(d) => {
                if d != dimension {
                    return Err(StoreError::Schema { expected: d, found: dimension });
                }
                false
            },
        };
        Ok(
            InsertRow {
                id: fresh_record_id(),
                dimension,
                path: String::from_str(path),
                content: String::from_str(content),
                start_line,
                end_line,
                chunk_type: String::from_str(chunk_type),
                create_table,
            },
        )
    }

    /// Whether `row` can be written to the table as it stands.
    pub fn can_write(&self, row: &InsertRow) -> (r: bool)
        ensures
            r == self.admits(*row),
    {
        match self.dimension {
            None => row.create_table,
            Some(d) => d == row.dimension && !row.create_table,
        }
    }

    /// Records that the engine has written `row`: it is appended, and the
    /// table's dimension is the row's.
    pub fn record_written(&mut self, row: &InsertRow)
        requires
            old(self).admits(*row),
        ensures
            final(self).db_path_view() == old(self).db_path_view(),
            final(self).table_name_view() == old(self).table_name_view(),
            final(self).dimension_view() == Some(row.dimension),
            final(self).rows_view() == old(self).rows_view().push(row.view()),
    {
        self.dimension = Some(row.dimension);
        self.rows = Ghost(self.rows@.push(row.view()));
    }

    /// The engine's filter for every record whose path equals `path`, or
    /// `None` where no table exists and nothing is to do. The store changes
    /// only once the engine's delete is confirmed (`record_deleted`).
    pub fn delete_by_path(&self, path: &str) -> (r: Option<String>)
        ensures
            self.dimension_view() is None <==> r is None,
            r matches Some(f) ==> f@ == path_predicate(path@),
    {
        if self.dimension.is_none() {
            None
        } else {
            Some(delete_predicate(path))
        }
    }

    /// Records that the engine has removed every record of `path`.
    pub fn record_deleted(&mut self, path: &str)
        ensures
            final(self).db_path_view() == old(self).db_path_view(),
            final(self).table_name_view() == old(self).table_name_view(),
            final(self).dimension_view() == old(self).dimension_view(),
            final(self).rows_view() == rows_without(old(self).rows_view(), path@),
    {
        self.rows = Ghost(rows_without(self.rows@, path@));
    }

    /// Checks a search for at most `limit` rows: a zero limit is refused, and
    /// a store without a table answers with no rows.
    pub fn search(&self, limit: usize) -> (r: Result<SearchPlan, StoreError>)
        ensures
            limit == 0 <==> r is Err,
            r matches Err(e) ==> e is InvalidArgument,
            r matches Ok(p) ==> (p is NoTable <==> self.dimension_view() is None),
            r matches Ok(SearchPlan::Nearest { limit: n }) ==> n == limit,
    {
        if limit == 0 {
            return Err(StoreError::InvalidArgument { message: String::from_str("limit must be positive") });
        }
        match self.dimension {
            None => Ok(SearchPlan::NoTable),
            Some(_) => Ok(SearchPlan::Nearest { limit }),
        }
    }
}


proof fn lemma_rows_for_add(a: Seq<RowView>, b: Seq<RowView>, p: Seq<char>)
    ensures
        rows_for(a + b, p) == rows_for(a, p) + rows_for(b, p),
    decreases b.len(),
{
    if b.len() == 0 {
        assert(a + b =~= a);
        assert(rows_for(a, p) + rows_for(b, p) =~= rows_for(a, p));
    } else {
        assert((a + b).drop_last() =~= a + b.drop_last());
        lemma_rows_for_add(a, b.drop_last(), p);
        if b.last().0 == p {
            assert(rows_for(a, p) + rows_for(b.drop_last(), p).push(b.last()) =~= (rows_for(a, p)
                + rows_for(b.drop_last(), p)).push(b.last()));
        }
    }
}

pub(crate) proof fn lemma_rows_for_without(t: Seq<RowView>, p: Seq<char>, q: Seq<char>)
    ensures
        rows_for(rows_without(t, p), q) == if q == p {
            Seq::<RowView>::empty()
        } else {
            rows_for(t, q)
        },
    decreases t.len(),
{
    if t.len() > 0 {
        lemma_rows_for_without(t.drop_last(), p, q);
        if t.last().0 != p {
            let w = rows_without(t.drop_last(), p);
            assert(w.push(t.last()).drop_last() =~= w);
        }
    }
}

proof fn lemma_rows_for_on_path(s: Seq<RowView>, p: Seq<char>, q: Seq<char>)
    requires
        all_on_path(s, p),
    ensures
        rows_for(s, q) == if q == p {
            s
        } else {
            Seq::<RowView>::empty()
        },
    decreases s.len(),
{
    if s.len() > 0 {
        assert(s.last() == s[s.len() - 1]);
        lemma_rows_for_on_path(s.drop_last(), p, q);
        if q == p {
            assert(s.drop_last().push(s.last()) =~= s);
        }
    }
}

/// Appending a row extends the rows of its own path and no other.
pub(crate) proof fn lemma_rows_for_push(t: Seq<RowView>, r: RowView, p: Seq<char>)
    ensures
        rows_for(t.push(r), p) == if r.0 == p {
            rows_for(t, p).push(r)
        } else {
            rows_for(t, p)
        },
{
    assert(t.push(r).drop_last() =~= t);
}

/// Writing the rows of a path anew, twice over, leaves exactly the second set
/// of rows for that path; the rows of every other path stay as they were.
pub proof fn lemma_reindex_replaces(
    t: Seq<RowView>,
    p: Seq<char>,
    first: Seq<RowView>,
    second: Seq<RowView>,
)
    requires
        all_on_path(first, p),
        all_on_path(second, p),
    ensures
        rows_for(rows_without(rows_without(t, p) + first, p) + second, p) == second,
        forall|q: Seq<char>|
            q != p ==> #[trigger] rows_for(rows_without(rows_without(t, p) + first, p) + second, q)
                == rows_for(t, q),
{
    let t1 = rows_without(t, p) + first;
    let t2 = rows_without(t1, p) + second;
    assert forall|q: Seq<char>| #[trigger] rows_for(t2, q) == if q == p {
        second
    } else {
        rows_for(t, q)
    } by {
        lemma_rows_for_add(rows_without(t1, p), second, q);
        lemma_rows_for_without(t1, p, q);
        lemma_rows_for_add(rows_without(t, p), first, q);
        lemma_rows_for_without(t, p, q);
        lemma_rows_for_on_path(first, p, q);
        lemma_rows_for_on_path(second, p, q);
        if q == p {
            assert(Seq::<RowView>::empty() + second =~= second);
        } else {
            assert(rows_for(t, q) + Seq::<RowView>::empty() =~= rows_for(t, q));
        }
    }
}

/// Removing the rows of a path that has none leaves the table as it was.
pub proof fn lemma_delete_absent(t: Seq<RowView>, p: Seq<char>)
    requires
        rows_for(t, p).len() == 0,
    ensures
        rows_without(t, p) == t,
    decreases t.len(),
{
    if t.len() > 0 {
        if t.last().0 == p {
            assert(rows_for(t, p).len() > 0);
        }
        lemma_delete_absent(t.drop_last(), p);
        assert(t.drop_last().push(t.last()) =~= t);
    }
}

} // verus!
