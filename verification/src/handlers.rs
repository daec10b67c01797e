//! One handler per verb/path pair. Each is stateless: it takes the store
//! and the already-decoded inputs, invokes exactly one gateway operation,
//! and maps the outcome onto an HTTP status and body as the interface
//! prescribes.

use vstd::prelude::*;

use crate::json::{error_body, error_body_of, not_found_body, not_found_body_of};
use crate::models::{
    apply_form, complete, has_update, new_row, Employee, EmployeeForm, EmployeeList,
};
use crate::store::{
    has_id, idx_of, missing_column_msg, no_changes_msg, row_with, EmployeeStore,
};

verus! {

/// A response body: empty, one record, the list envelope, or JSON text
/// prepared by the handler itself.
pub enum Body {
    Empty,
    Record(Employee),
    Records(EmployeeList),
    Text(String),
}

/// What a handler hands back to the transport: a status code, an optional
/// location hint, and a body.
pub struct Response {
    pub status: u16,
    pub location: Option<String>,
    pub body: Body,
}

/// List all employees: always 200 with the envelope of rows in store
/// order.
pub fn employee_list(store: &EmployeeStore) -> (r: Response)
    ensures
        r.status == 200,
        r.location is None,
        r.body matches Body::Records(l) && l@ =~= store@.rows,
{
    let list = EmployeeList { results: store.list() };
    proof {
        assert(list@ =~= store@.rows);
    }
    Response { status: 200, location: None, body: Body::Records(list) }
}

/// Get one employee by id: 200 with the record when the row exists, else
/// an empty 404.
pub fn employee_get(store: &EmployeeStore, employee_id: i32) -> (r: Response)
    requires
        store.wf(),
    ensures
        r.location is None,
        if has_id(store@.rows, employee_id as int) {
            r.status == 200 && (r.body matches Body::Record(e) && e@ == row_with(
                store@.rows,
                employee_id as int,
            ))
        } else {
            r.status == 404 && r.body is Empty
        },
{
    match store.get(employee_id) {
        Some(e) => Response { status: 200, location: None, body: Body::Record(e) },
        None => Response { status: 404, location: None, body: Body::Empty },
    }
}

/// Create an employee from the payload: 201 with a location hint and an
/// empty body on success (any supplied id is disregarded; the store
/// assigns the key), else 400 with the store's constraint message in the
/// error envelope.
pub fn employee_put(store: &mut EmployeeStore, json_employee: EmployeeForm) -> (r: Response)
    requires
        old(store).wf(),
        old(store)@.next_id < i32::MAX as int,
    ensures
        final(store).wf(),
        if complete(json_employee@) {
            &&& r.status == 201
            &&& r.body is Empty
            &&& r.location matches Some(l) && l@ == "/employees"@
            &&& final(store)@.rows =~= old(store)@.rows.push(
                new_row(json_employee@, old(store)@.next_id),
            )
            &&& final(store)@.next_id == old(store)@.next_id + 1
        } else {
            &&& r.status == 400
            &&& r.location is None
            &&& r.body matches Body::Text(t) && t@ == error_body_of(
                missing_column_msg(json_employee@),
            )
            &&& final(store)@ == old(store)@
        },
{
    match store.create(&json_employee) {
        Ok(_) => Response {
            status: 201,
            location: Some("/employees".to_owned()),
            body: Body::Empty,
        },
        Err(m) => Response {
            status: 400,
            location: None,
            body: Body::Text(error_body(m.as_str())),
        },
    }
}

/// Partially update the employee with the given id: 204 with an empty
/// body whenever the statement runs, whether or not a row matched, else
/// 400 with the store's message when the payload supplies no column.
pub fn employee_update(
    store: &mut EmployeeStore,
    employee_id: i32,
    json_employee: EmployeeForm,
) -> (r: Response)
    requires
        old(store).wf(),
    ensures
        final(store).wf(),
        final(store)@.next_id == old(store)@.next_id,
        r.location is None,
        if has_update(json_employee@) {
            &&& r.status == 204
            &&& r.body is Empty
            &&& final(store)@.rows.len() == old(store)@.rows.len()
            &&& forall|i: int|
                0 <= i < final(store)@.rows.len() ==> #[trigger] final(store)@.rows[i] == (
                if old(store)@.rows[i].id == employee_id as int {
                    apply_form(old(store)@.rows[i], json_employee@)
                } else {
                    old(store)@.rows[i]
                })
        } else {
            &&& r.status == 400
            &&& r.body matches Body::Text(t) && t@ == error_body_of(no_changes_msg())
            &&& final(store)@ == old(store)@
        },
{
    match store.update(employee_id, &json_employee) {
        Ok(_) => Response { status: 204, location: None, body: Body::Empty },
        Err(m) => Response {
            status: 400,
            location: None,
            body: Body::Text(error_body(m.as_str())),
        },
    }
}

/// Delete the employee with the given id: an empty 204 when a row was
/// removed, else an empty 404.
pub fn employee_delete(store: &mut EmployeeStore, employee_id: i32) -> (r: Response)
    requires
        old(store).wf(),
    ensures
        final(store).wf(),
        final(store)@.next_id == old(store)@.next_id,
        r.location is None,
        if has_id(old(store)@.rows, employee_id as int) {
            r.status == 204 && r.body is Empty && final(store)@.rows =~= old(
                store,
            )@.rows.remove(idx_of(old(store)@.rows, employee_id as int))
        } else {
            r.status == 404 && r.body is Empty && final(store)@ == old(store)@
        },
{
    let n = store.delete(employee_id);
    if n >= 1 {
        Response { status: 204, location: None, body: Body::Empty }
    } else {
        Response { status: 404, location: None, body: Body::Empty }
    }
}

/// The catch-all for requests no route matches: 404 with the canonical
/// JSON envelope.
pub fn not_found() -> (r: Response)
    ensures
        r.status == 404,
        r.location is None,
        r.body matches Body::Text(t) && t@ == not_found_body_of(),
{
    Response { status: 404, location: None, body: Body::Text(not_found_body()) }
}

} // verus!
