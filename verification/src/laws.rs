//! Laws of the store model, proved once over the abstract state: what
//! creation, lookup, partial update and deletion guarantee jointly, over
//! and above each operation's own contract.

use vstd::prelude::*;

use crate::models::{apply_form, complete, new_row, EmployeeV, FormV};
use crate::store::{has_id, idx_of, row_with, rows_wf};

verus! {

/// Round-trip: creating a row from a complete form and then getting it by
/// the assigned id yields exactly the created row — whose non-id fields
/// are the form's — and the assigned id is fresh: no existing row holds
/// it, whatever id the payload supplied.
pub proof fn lemma_create_then_get(rows: Seq<EmployeeV>, next_id: int, f: FormV)
    requires
        rows_wf(rows, next_id),
        complete(f),
    ensures
        !has_id(rows, next_id),
        has_id(rows.push(new_row(f, next_id)), next_id),
        row_with(rows.push(new_row(f, next_id)), next_id) == new_row(f, next_id),
        new_row(f, next_id).id == next_id,
        f.fname == Some(new_row(f, next_id).fname),
        f.lname == Some(new_row(f, next_id).lname),
        f.age == Some(new_row(f, next_id).age),
        f.title == Some(new_row(f, next_id).title),
{
    if has_id(rows, next_id) {
        let j = idx_of(rows, next_id);
        assert(0 <= j < rows.len() && rows[j].id == next_id);
        assert(false);
    }
    let e = new_row(f, next_id);
    let s2 = rows.push(e);
    assert(s2[rows.len() as int] == e);
    assert(has_id(s2, next_id));
    let k = idx_of(s2, next_id);
    assert(0 <= k < s2.len() && s2[k].id == next_id);
    if k < rows.len() {
        assert(s2[k] == rows[k]);
        assert(false);
    }
}

/// Idempotence of delete: once the row with an id is removed, no row with
/// that id remains, so removing it again removes nothing.
pub proof fn lemma_delete_idempotent(rows: Seq<EmployeeV>, next_id: int, id: int)
    requires
        rows_wf(rows, next_id),
        has_id(rows, id),
    ensures
        !has_id(rows.remove(idx_of(rows, id)), id),
{
    let k = idx_of(rows, id);
    assert(0 <= k < rows.len() && rows[k].id == id);
    let s2 = rows.remove(k);
    if has_id(s2, id) {
        let j = idx_of(s2, id);
        assert(0 <= j < s2.len() && s2[j].id == id);
        if j < k {
            assert(s2[j] == rows[j]);
            assert(false);
        } else {
            assert(s2[j] == rows[j + 1]);
            assert(false);
        }
    }
}

/// A partial update preserves untouched fields: the id column is never
/// written, a field the form leaves absent keeps its stored value, and a
/// supplied field takes exactly the supplied value.
pub proof fn lemma_partial_update_preserves(e: EmployeeV, f: FormV)
    ensures
        apply_form(e, f).id == e.id,
        f.fname is None ==> apply_form(e, f).fname == e.fname,
        f.lname is None ==> apply_form(e, f).lname == e.lname,
        f.age is None ==> apply_form(e, f).age == e.age,
        f.title is None ==> apply_form(e, f).title == e.title,
        f.fname matches Some(x) ==> apply_form(e, f).fname == x,
        f.lname matches Some(x) ==> apply_form(e, f).lname == x,
        f.age matches Some(x) ==> apply_form(e, f).age == x,
        f.title matches Some(x) ==> apply_form(e, f).title == x,
{
}

/// The id supplied in a payload is immaterial: two forms that agree on
/// every non-id field create the same row and apply the same update, the
/// created row's id is the store-assigned one, and an applied row keeps
/// its own id.
pub proof fn lemma_payload_id_immaterial(f1: FormV, f2: FormV, e: EmployeeV, id: int)
    requires
        f1.fname == f2.fname,
        f1.lname == f2.lname,
        f1.age == f2.age,
        f1.title == f2.title,
    ensures
        new_row(f1, id) == new_row(f2, id),
        apply_form(e, f1) == apply_form(e, f2),
        new_row(f1, id).id == id,
        apply_form(e, f1).id == e.id,
{
}

/// Every listed row is individually retrievable: in a well-formed store,
/// looking up the id of the row at any position finds exactly that row.
pub proof fn lemma_each_listed_row_retrievable(rows: Seq<EmployeeV>, next_id: int)
    requires
        rows_wf(rows, next_id),
    ensures
        forall|i: int|
            0 <= i < rows.len() ==> has_id(rows, (#[trigger] rows[i]).id) && row_with(
                rows,
                rows[i].id,
            ) == rows[i],
{
    assert forall|i: int|
        0 <= i < rows.len() implies has_id(rows, (#[trigger] rows[i]).id) && row_with(
        rows,
        rows[i].id,
    ) == rows[i] by {
        assert(0 <= i < rows.len() && rows[i].id == rows[i].id);
        assert(has_id(rows, rows[i].id));
        let k = idx_of(rows, rows[i].id);
        assert(0 <= k < rows.len() && rows[k].id == rows[i].id);
        if k != i {
            assert(false);
        }
    }
}

} // verus!
