//! General laws of the access controller, stated over the store model
//! that its contracts speak of.
use vstd::prelude::*;

use crate::mac::created_row;
use crate::store::{find_index, lemma_find_index_props, spec_find, store_wf, StoreView};
use crate::todo::TodoPatchView;

verus! {

/// Round trip: after a create assigns id `s.next_id`, a fetch of that id
/// finds exactly the created row, equal in all fields.
pub proof fn lemma_create_then_get(s: StoreView, p: TodoPatchView, uid: int)
    requires
        store_wf(s),
    ensures
        spec_find(
            seq![created_row(s.next_id, p, uid)] + s.rows,
            created_row(s.next_id, p, uid).id,
        ) == Some(created_row(s.next_id, p, uid)),
{
    let row = created_row(s.next_id, p, uid);
    let rows2 = seq![row] + s.rows;
    assert(rows2[0] == row);
    assert(find_index(rows2, row.id) == 0);
}

/// After a delete, the deleted id is gone: removing the row found for
/// `id` leaves no row carrying that id, so a following fetch fails and a
/// following list excludes it.
pub proof fn lemma_delete_then_absent(s: StoreView, id: int)
    requires
        store_wf(s),
        spec_find(s.rows, id) is Some,
    ensures
        spec_find(s.rows.remove(find_index(s.rows, id)), id) is None,
        forall|j: int|
            0 <= j < s.rows.remove(find_index(s.rows, id)).len() ==> s.rows.remove(
                find_index(s.rows, id),
            )[j].id != id,
{
    lemma_find_index_props(s.rows, id);
    let k = find_index(s.rows, id);
    let rows2 = s.rows.remove(k);
    assert forall|j: int| 0 <= j < rows2.len() implies rows2[j].id != id by {
        let oj = if j < k {
            j
        } else {
            j + 1
        };
        assert(rows2[j] == s.rows[oj]);
        if oj > k {
            assert(s.rows[k].id > s.rows[oj].id);
        }
    }
    lemma_find_index_props(rows2, id);
}

} // verus!
