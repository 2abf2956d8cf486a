//! An in-memory record store for the todo table: the model against which
//! the access controller is verified. It honours the store-handle
//! contract — fetch-all, fetch-one and field-set execution over the fixed
//! projection — and assigns ids from a strictly increasing sequence.
use vstd::prelude::*;

use crate::fields::{apply_fields, apply_fields_exec, fields_view, lemma_apply_fields_keeps_id, Field};
use crate::model::StoreError;
use crate::todo::{Todo, TodoStatus, TodoView};

verus! {

/// Mathematical view of the store: the rows, newest id first, and the
/// next id the sequence will assign.
#[verifier::ext_equal]
pub ghost struct StoreView {
    pub rows: Seq<TodoView>,
    pub next_id: int,
}

/// The store's integrity: ids strictly descending (newest first), every
/// id below the next one to be assigned.
pub open spec fn store_wf(s: StoreView) -> bool {
    &&& forall|i: int, j: int| 0 <= i < j < s.rows.len() ==> s.rows[i].id > s.rows[j].id
    &&& forall|i: int| 0 <= i < s.rows.len() ==> s.rows[i].id < s.next_id
}

/// The first index holding `id`, or the length when no row does.
pub open spec fn find_index(rows: Seq<TodoView>, id: int) -> int
    decreases rows.len(),
{
    if rows.len() == 0 {
        0
    } else if rows[0].id == id {
        0
    } else {
        1 + find_index(rows.skip(1), id)
    }
}

/// The first row holding `id`, if any.
pub open spec fn spec_find(rows: Seq<TodoView>, id: int) -> Option<TodoView> {
    if find_index(rows, id) < rows.len() {
        Some(rows[find_index(rows, id)])
    } else {
        None
    }
}

/// The row a bare insert starts from: the assigned id, no creator, and
/// the schema's column defaults.
pub open spec fn default_row(id: int) -> TodoView {
    TodoView { id: id, cid: 0, title: "Untitled"@, status: TodoStatus::Open }
}

pub proof fn lemma_find_index_props(rows: Seq<TodoView>, id: int)
    ensures
        0 <= find_index(rows, id) <= rows.len(),
        find_index(rows, id) < rows.len() ==> rows[find_index(rows, id)].id == id,
        forall|j: int| 0 <= j < find_index(rows, id) ==> rows[j].id != id,
    decreases rows.len(),
{
    if rows.len() > 0 && rows[0].id != id {
        lemma_find_index_props(rows.skip(1), id);
        let fi = find_index(rows, id);
        assert(fi == 1 + find_index(rows.skip(1), id));
        if fi < rows.len() {
            assert(rows.skip(1)[fi - 1] == rows[fi]);
        }
        assert forall|j: int| 0 <= j < fi implies rows[j].id != id by {
            if j > 0 {
                assert(rows.skip(1)[j - 1] == rows[j]);
            }
        }
    }
}

proof fn lemma_find_index_agrees(rows: Seq<TodoView>, id: int, i: int)
    requires
        0 <= i <= rows.len(),
        forall|j: int| 0 <= j < i ==> rows[j].id != id,
        i < rows.len() ==> rows[i].id == id,
    ensures
        find_index(rows, id) == i,
    decreases rows.len(),
{
    if i == 0 {
    } else {
        assert(rows[0].id != id);
        assert forall|j: int| 0 <= j < i - 1 implies rows.skip(1)[j].id != id by {
            assert(rows.skip(1)[j] == rows[j + 1]);
        }
        if i < rows.len() {
            assert(rows.skip(1)[i - 1] == rows[i]);
        }
        lemma_find_index_agrees(rows.skip(1), id, i - 1);
    }
}

/// The record store handle. The real collaborator is a pooled relational
/// connection; this model keeps the rows it would hold, so that every
/// operation against it can be verified.
pub struct Store {
    rows: Vec<Todo>,
    next_id: i64,
}

impl View for Store {
    type V = StoreView;

    closed spec fn view(&self) -> StoreView {
        StoreView { rows: self.rows@.map_values(|t: Todo| t@), next_id: self.next_id as int }
    }
}

impl Store {
    /// An empty store whose id sequence starts at `first_id`.
    pub fn new(first_id: i64) -> (s: Store)
        ensures
            s@.rows.len() == 0,
            s@.next_id == first_id as int,
            store_wf(s@),
    {
        let s = Store { rows: Vec::new(), next_id: first_id };
        proof {
            assert(s@.rows =~= Seq::<TodoView>::empty());
        }
        s
    }

    /// Loads one fixture row, as the bootstrap's seed scripts do. Rows
    /// must be seeded oldest first: the new row's id lies above every
    /// seeded one and below the id sequence's start.
    pub fn seed(&mut self, row: Todo)
        requires
            store_wf(old(self)@),
            row@.id < old(self)@.next_id,
            forall|i: int| 0 <= i < old(self)@.rows.len() ==> old(self)@.rows[i].id < row@.id,
        ensures
            store_wf(final(self)@),
            final(self)@.rows == seq![row@] + old(self)@.rows,
            final(self)@.next_id == old(self)@.next_id,
    {
        self.rows.insert(0, row);
        proof {
            assert(self@.rows =~= seq![row@] + old(self)@.rows);
        }
    }

    fn find_pos(&self, id: i64) -> (pos: usize)
        ensures
            pos as int == find_index(self@.rows, id as int),
    {
        let n = self.rows.len();
        let mut i: usize = 0;
        while i < n
            invariant
                i <= n,
                n == self@.rows.len(),
                n == self.rows.len(),
                forall|j: int| 0 <= j < i ==> self@.rows[j].id != id as int,
            decreases n - i,
        {
            if self.rows[i].id == id {
                proof {
                    lemma_find_index_agrees(self@.rows, id as int, i as int);
                }
                return i;
            }
            i += 1;
        }
        proof {
            lemma_find_index_agrees(self@.rows, id as int, i as int);
        }
        i
    }

    /// Fetch-all under the fixed projection: every row, newest id first.
    pub fn fetch_all(&self) -> (r: Vec<Todo>)
        ensures
            r@.len() == self@.rows.len(),
            forall|i: int| 0 <= i < r@.len() ==> r@[i]@ == self@.rows[i],
    {
        let n = self.rows.len();
        let mut out: Vec<Todo> = Vec::new();
        let mut i: usize = 0;
        while i < n
            invariant
                i <= n,
                n == self@.rows.len(),
                n == self.rows.len(),
                out@.len() == i,
                forall|j: int| 0 <= j < i ==> out@[j]@ == self@.rows[j],
            decreases n - i,
        {
            out.push(self.rows[i].duplicate());
            i += 1;
        }
        out
    }

    /// Fetch-one by id: the single matching row, or `RowNotFound`.
    pub fn fetch_one(&self, id: i64) -> (r: Result<Todo, StoreError>)
        ensures
            match spec_find(self@.rows, id as int) {
                Some(v) => r matches Ok(t) && t@ == v,
                None => r matches Err(e) && e == StoreError::RowNotFound,
            },
    {
        let pos = self.find_pos(id);
        if pos < self.rows.len() {
            Ok(self.rows[pos].duplicate())
        } else {
            Err(StoreError::RowNotFound)
        }
    }

    /// Executes an insert built from a field set: the new row starts from
    /// the defaults under the assigned id, the fields are applied in
    /// order, and the stored row is returned under the fixed projection.
    /// A malformed field set changes nothing.
    pub fn insert_returning(&mut self, fields: &Vec<Field>) -> (r: Result<Todo, StoreError>)
        requires
            store_wf(old(self)@),
            old(self)@.next_id < i64::MAX,
        ensures
            store_wf(final(self)@),
            match apply_fields(default_row(old(self)@.next_id), fields_view(fields@)) {
                Some(v) => {
                    &&& r matches Ok(t) && t@ == v
                    &&& final(self)@.rows == seq![v] + old(self)@.rows
                    &&& final(self)@.next_id == old(self)@.next_id + 1
                },
                None => {
                    &&& r matches Err(e) && e == StoreError::InvalidStatement
                    &&& final(self)@ == old(self)@
                },
            },
    {
        let ghost row0 = default_row(old(self)@.next_id);
        let mut row = Todo {
            id: self.next_id,
            cid: 0,
            title: String::from_str("Untitled"),
            status: TodoStatus::Open,
        };
        proof {
            assert(row@ == row0);
        }
        let ok = apply_fields_exec(&mut row, fields);
        if !ok {
            proof {
                assert(self@ =~= old(self)@);
            }
            return Err(StoreError::InvalidStatement);
        }
        proof {
            lemma_apply_fields_keeps_id(row0, fields_view(fields@));
            assert(row@.id == old(self)@.next_id);
        }
        let stored = row.duplicate();
        self.rows.insert(0, stored);
        self.next_id = self.next_id + 1;
        proof {
            assert(self@.rows =~= seq![row@] + old(self)@.rows);
        }
        Ok(row)
    }

    /// Executes an update built from a field set against the row matching
    /// `id`, returning the updated row under the fixed projection; no
    /// matching row is `RowNotFound`, and a malformed field set changes
    /// nothing.
    pub fn update_returning(&mut self, fields: &Vec<Field>, id: i64) -> (r: Result<
        Todo,
        StoreError,
    >)
        requires
            store_wf(old(self)@),
        ensures
            store_wf(final(self)@),
            final(self)@.next_id == old(self)@.next_id,
            match spec_find(old(self)@.rows, id as int) {
                None => {
                    &&& r matches Err(e) && e == StoreError::RowNotFound
                    &&& final(self)@ == old(self)@
                },
                Some(v) => match apply_fields(v, fields_view(fields@)) {
                    Some(v2) => {
                        &&& r matches Ok(t) && t@ == v2
                        &&& final(self)@.rows == old(self)@.rows.update(
                            find_index(old(self)@.rows, id as int),
                            v2,
                        )
                    },
                    None => {
                        &&& r matches Err(e) && e == StoreError::InvalidStatement
                        &&& final(self)@ == old(self)@
                    },
                },
            },
    {
        let pos = self.find_pos(id);
        proof {
            lemma_find_index_props(self@.rows, id as int);
        }
        if pos == self.rows.len() {
            proof {
                assert(self@ =~= old(self)@);
            }
            return Err(StoreError::RowNotFound);
        }
        let ghost v = self@.rows[pos as int];
        let mut row = self.rows[pos].duplicate();
        let ok = apply_fields_exec(&mut row, fields);
        if !ok {
            proof {
                assert(self@ =~= old(self)@);
            }
            return Err(StoreError::InvalidStatement);
        }
        proof {
            lemma_apply_fields_keeps_id(v, fields_view(fields@));
        }
        let stored = row.duplicate();
        self.rows[pos] = stored;
        proof {
            assert(self@.rows =~= old(self)@.rows.update(pos as int, row@));
            assert forall|i: int, j: int|
                0 <= i < j < self@.rows.len() implies self@.rows[i].id > self@.rows[j].id by {
                assert(old(self)@.rows[i].id > old(self)@.rows[j].id);
            }
        }
        Ok(row)
    }

    /// Executes a delete of the row matching `id`, returning the row's
    /// state as of immediately before removal; no matching row is
    /// `RowNotFound`.
    pub fn delete_returning(&mut self, id: i64) -> (r: Result<Todo, StoreError>)
        requires
            store_wf(old(self)@),
        ensures
            store_wf(final(self)@),
            final(self)@.next_id == old(self)@.next_id,
            match spec_find(old(self)@.rows, id as int) {
                None => {
                    &&& r matches Err(e) && e == StoreError::RowNotFound
                    &&& final(self)@ == old(self)@
                },
                Some(v) => {
                    &&& r matches Ok(t) && t@ == v
                    &&& final(self)@.rows == old(self)@.rows.remove(
                        find_index(old(self)@.rows, id as int),
                    )
                },
            },
    {
        let pos = self.find_pos(id);
        proof {
            lemma_find_index_props(self@.rows, id as int);
        }
        if pos == self.rows.len() {
            proof {
                assert(self@ =~= old(self)@);
            }
            return Err(StoreError::RowNotFound);
        }
        let t = self.rows.remove(pos);
        proof {
            assert(self@.rows =~= old(self)@.rows.remove(pos as int));
            assert forall|i: int, j: int|
                0 <= i < j < self@.rows.len() implies self@.rows[i].id > self@.rows[j].id by {
                let oi = if i < pos as int { i } else { i + 1 };
                let oj = if j < pos as int { j } else { j + 1 };
                assert(self@.rows[i] == old(self)@.rows[oi]);
                assert(self@.rows[j] == old(self)@.rows[oj]);
                assert(old(self)@.rows[oi].id > old(self)@.rows[oj].id);
            }
        }
        Ok(t)
    }
}

} // verus!
