//! The model access controller for the todo entity: create, list, get,
//! update and delete against a record store, stamping ownership from the
//! resolved user context and translating zero-row outcomes into the
//! domain not-found error.
use vstd::prelude::*;

use crate::fields::{
    create_fields, lemma_apply_create_fields, lemma_apply_update_fields, or_status, or_title,
    patched_row, update_fields,
};
use crate::model::{handle_fetch_one_result, Error};
use crate::numeric::{i64_dec_str, i64_to_dec_string};
use crate::security::UserCtx;
use crate::store::{default_row, find_index, spec_find, store_wf, Store};
use crate::todo::{Todo, TodoPatch, TodoPatchView, TodoView};

verus! {

/// The row a create stores: the assigned id, the creator id from the
/// resolved context, and the patch fields over the schema defaults.
pub open spec fn created_row(id: int, p: TodoPatchView, uid: int) -> TodoView {
    TodoView {
        id: id,
        cid: uid,
        title: or_title(p, default_row(id).title),
        status: or_status(p, default_row(id).status),
    }
}

/// Model access controller for the todo entity: one entity shape, one
/// fixed table and column projection.
pub struct TodoMAC;

impl TodoMAC {
    /// The table every operation addresses.
    pub fn table() -> (r: String)
        ensures
            r@ == "todo"@,
    {
        String::from_str("todo")
    }

    /// The fixed ordered column projection every operation returns.
    pub fn columns() -> (r: Vec<String>)
        ensures
            r@.len() == 4,
            r@[0]@ == "id"@,
            r@[1]@ == "cid"@,
            r@[2]@ == "title"@,
            r@[3]@ == "status"@,
    {
        let mut v: Vec<String> = Vec::new();
        v.push(String::from_str("id"));
        v.push(String::from_str("cid"));
        v.push(String::from_str("title"));
        v.push(String::from_str("status"));
        v
    }

    /// Creates a todo from the non-absent patch fields, stamps `cid`
    /// from the resolved context whatever the patch held, and returns
    /// the stored row — assigned id included — under the fixed
    /// projection.
    pub fn create(store: &mut Store, utx: &UserCtx, todo: TodoPatch) -> (r: Result<Todo, Error>)
        requires
            store_wf(old(store)@),
            old(store)@.next_id < i64::MAX,
        ensures
            store_wf(final(store)@),
            r matches Ok(t) && t@ == created_row(
                old(store)@.next_id,
                todo@,
                utx.user_id as int,
            ),
            r matches Ok(t) ==> t@.cid == utx.user_id as int,
            final(store)@.rows == seq![
                created_row(old(store)@.next_id, todo@, utx.user_id as int),
            ] + old(store)@.rows,
            final(store)@.next_id == old(store)@.next_id + 1,
    {
        let fields = create_fields(utx, &todo);
        proof {
            lemma_apply_create_fields(
                default_row(old(store)@.next_id),
                todo@,
                utx.user_id as int,
            );
        }
        match store.insert_returning(&fields) {
            Ok(t) => Ok(t),
            Err(e) => Err(Error::Store(e)),
        }
    }

    /// Lists every row under the fixed projection, ordered by descending
    /// id: of two rows, the one with the higher id comes first. The
    /// context is accepted but unused for filtering: reads are globally
    /// visible, a deliberate asymmetry of this layer.
    pub fn list(store: &Store, _utx: &UserCtx) -> (r: Result<Vec<Todo>, Error>)
        requires
            store_wf(store@),
        ensures
            r matches Ok(v) && {
                &&& v@.len() == store@.rows.len()
                &&& forall|i: int| 0 <= i < v@.len() ==> v@[i]@ == store@.rows[i]
                &&& forall|i: int, j: int| 0 <= i < j < v@.len() ==> v@[i]@.id > v@[j]@.id
            },
    {
        let v = store.fetch_all();
        proof {
            assert forall|i: int, j: int| 0 <= i < j < v@.len() implies v@[i]@.id > v@[j]@.id by {
                assert(v@[i]@ == store@.rows[i]);
                assert(v@[j]@ == store@.rows[j]);
            }
        }
        Ok(v)
    }

    /// Fetches the row matching `id` exactly; when no row matches, fails
    /// with the not-found error carrying the entity name and the
    /// stringified id.
    pub fn get(store: &Store, _utx: &UserCtx, id: i64) -> (r: Result<Todo, Error>)
        ensures
            match spec_find(store@.rows, id as int) {
                Some(v) => r matches Ok(t) && t@ == v,
                None => r matches Err(Error::EntityNotFound(ty, i2)) && ty@ == "todo"@ && i2@
                    == i64_dec_str(id as int),
            },
    {
        let res = store.fetch_one(id);
        handle_fetch_one_result(res, "todo", i64_to_dec_string(id))
    }

    /// Applies the non-absent patch fields to the row matching `id`
    /// (stamping a modifier id and modification time outside the
    /// projection) and returns the updated row; `id` and `cid` are left
    /// unchanged, omitted fields keep their prior values. When no row
    /// matches, fails with the not-found error carrying the entity name
    /// and the stringified id.
    pub fn update(store: &mut Store, utx: &UserCtx, todo: TodoPatch, id: i64) -> (r: Result<
        Todo,
        Error,
    >)
        requires
            store_wf(old(store)@),
        ensures
            store_wf(final(store)@),
            final(store)@.next_id == old(store)@.next_id,
            match spec_find(old(store)@.rows, id as int) {
                None => {
                    &&& r matches Err(Error::EntityNotFound(ty, i2)) && ty@ == "todo"@ && i2@
                        == i64_dec_str(id as int)
                    &&& final(store)@ == old(store)@
                },
                Some(v) => {
                    &&& r matches Ok(t) && t@ == patched_row(v, todo@)
                    &&& final(store)@.rows == old(store)@.rows.update(
                        find_index(old(store)@.rows, id as int),
                        patched_row(v, todo@),
                    )
                },
            },
    {
        let fields = update_fields(utx, &todo);
        proof {
            match spec_find(old(store)@.rows, id as int) {
                Some(v) => lemma_apply_update_fields(v, todo@, utx.user_id as int),
                None => (),
            }
        }
        let res = store.update_returning(&fields, id);
        handle_fetch_one_result(res, "todo", i64_to_dec_string(id))
    }

    /// Deletes the row matching `id`, returning the row's state as of
    /// immediately before removal. When no row matches, fails with the
    /// not-found error carrying the entity name and the stringified id.
    pub fn delete(store: &mut Store, _utx: &UserCtx, id: i64) -> (r: Result<Todo, Error>)
        requires
            store_wf(old(store)@),
        ensures
            store_wf(final(store)@),
            final(store)@.next_id == old(store)@.next_id,
            match spec_find(old(store)@.rows, id as int) {
                None => {
                    &&& r matches Err(Error::EntityNotFound(ty, i2)) && ty@ == "todo"@ && i2@
                        == i64_dec_str(id as int)
                    &&& final(store)@ == old(store)@
                },
                Some(v) => {
                    &&& r matches Ok(t) && t@ == v
                    &&& final(store)@.rows == old(store)@.rows.remove(
                        find_index(old(store)@.rows, id as int),
                    )
                },
            },
    {
        let res = store.delete_returning(id);
        handle_fetch_one_result(res, "todo", i64_to_dec_string(id))
    }
}

} // verus!
