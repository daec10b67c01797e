use employee_rest::handlers::{
    employee_delete, employee_get, employee_list, employee_put, employee_update, not_found,
    Body,
};
use employee_rest::models::EmployeeForm;
use employee_rest::router::{handle, parse_i32, route, Method, RouteMatch};
use employee_rest::store::EmployeeStore;

fn full_form(fname: &str, lname: &str, age: i32, title: &str) -> EmployeeForm {
    EmployeeForm {
        id: None,
        fname: Some(fname.to_string()),
        lname: Some(lname.to_string()),
        age: Some(age),
        title: Some(title.to_string()),
    }
}

fn empty_form() -> EmployeeForm {
    EmployeeForm { id: None, fname: None, lname: None, age: None, title: None }
}

#[test]
fn round_trip_create_then_get() {
    let mut store = EmployeeStore::new();
    let mut form = full_form("Ada", "Lovelace", 36, "Analyst");
    form.id = Some(99);
    let id = store.create(&form).expect("complete form must insert");
    assert_eq!(id, 1);
    assert_ne!(id, 99);
    let e = store.get(id).expect("created row must be retrievable");
    assert_eq!(e.id, 1);
    assert_eq!(e.fname, "Ada");
    assert_eq!(e.lname, "Lovelace");
    assert_eq!(e.age, 36);
    assert_eq!(e.title, "Analyst");
}

#[test]
fn delete_twice_reports_not_found_second_time() {
    let mut store = EmployeeStore::new();
    let id = store.create(&full_form("Ada", "Lovelace", 36, "Analyst")).unwrap();
    let first = employee_delete(&mut store, id);
    assert_eq!(first.status, 204);
    assert!(matches!(first.body, Body::Empty));
    let second = employee_delete(&mut store, id);
    assert_eq!(second.status, 404);
    assert!(matches!(second.body, Body::Empty));
}

#[test]
fn partial_update_preserves_untouched_fields() {
    let mut store = EmployeeStore::new();
    let id = store.create(&full_form("A", "B", 30, "Eng")).unwrap();
    assert_eq!(id, 1);
    let mut patch = empty_form();
    patch.age = Some(31);
    let n = store.update(id, &patch).expect("a supplied column must update");
    assert_eq!(n, 1);
    let e = store.get(id).unwrap();
    assert_eq!(e.id, 1);
    assert_eq!(e.fname, "A");
    assert_eq!(e.lname, "B");
    assert_eq!(e.age, 31);
    assert_eq!(e.title, "Eng");
}

#[test]
fn payload_id_never_changes_target_or_stored_id() {
    let mut store = EmployeeStore::new();
    let mut creation = full_form("A", "B", 30, "Eng");
    creation.id = Some(999);
    let id = store.create(&creation).unwrap();
    assert_eq!(id, 1);

    let mut patch = empty_form();
    patch.id = Some(42);
    patch.fname = Some("Z".to_string());
    let n = store.update(id, &patch).unwrap();
    assert_eq!(n, 1);
    let e = store.get(id).unwrap();
    assert_eq!(e.id, 1);
    assert_eq!(e.fname, "Z");
    assert!(store.get(42).is_none());
    assert!(store.get(999).is_none());
}

#[test]
fn listing_after_three_inserts_returns_each_retrievable() {
    let mut store = EmployeeStore::new();
    let a = store.create(&full_form("A", "An", 20, "T1")).unwrap();
    let b = store.create(&full_form("B", "Bn", 21, "T2")).unwrap();
    let c = store.create(&full_form("C", "Cn", 22, "T3")).unwrap();
    assert_eq!((a, b, c), (1, 2, 3));
    let listed = store.list();
    assert_eq!(listed.len(), 3);
    for row in &listed {
        let fetched = store.get(row.id).expect("each listed row is retrievable by id");
        assert_eq!(fetched.id, row.id);
        assert_eq!(fetched.fname, row.fname);
        assert_eq!(fetched.age, row.age);
    }
    let names: Vec<&str> = listed.iter().map(|e| e.fname.as_str()).collect();
    assert_eq!(names, ["A", "B", "C"]);
}

#[test]
fn list_handler_wraps_rows_in_envelope() {
    let mut store = EmployeeStore::new();
    store.create(&full_form("A", "An", 20, "T1")).unwrap();
    let r = employee_list(&store);
    assert_eq!(r.status, 200);
    match r.body {
        Body::Records(l) => {
            assert_eq!(l.results.len(), 1);
            assert_eq!(l.results[0].fname, "A");
        },
        _ => panic!("list must answer with the records envelope"),
    }
}

#[test]
fn get_handler_maps_missing_row_to_empty_404() {
    let store = EmployeeStore::new();
    let r = employee_get(&store, 999);
    assert_eq!(r.status, 404);
    assert!(matches!(r.body, Body::Empty));
}

#[test]
fn put_handler_created_response_carries_location() {
    let mut store = EmployeeStore::new();
    let r = employee_put(&mut store, full_form("Jo", "Doe", 40, "Mgr"));
    assert_eq!(r.status, 201);
    assert!(matches!(r.body, Body::Empty));
    assert_eq!(r.location.as_deref(), Some("/employees"));
}

#[test]
fn put_handler_reports_first_missing_column() {
    let mut store = EmployeeStore::new();
    let mut form = full_form("Jo", "Doe", 40, "Mgr");
    form.fname = None;
    let r = employee_put(&mut store, form);
    assert_eq!(r.status, 400);
    match r.body {
        Body::Text(t) => assert_eq!(
            t,
            "{\"error\":\"null value in column fname violates not-null constraint\"}"
        ),
        _ => panic!("a failed insert must carry the error envelope"),
    }
    assert!(store.get(1).is_none());
}

#[test]
fn update_handler_answers_204_even_without_matching_row() {
    let mut store = EmployeeStore::new();
    let mut patch = empty_form();
    patch.age = Some(50);
    let r = employee_update(&mut store, 7, patch);
    assert_eq!(r.status, 204);
    assert!(matches!(r.body, Body::Empty));
}

#[test]
fn update_handler_rejects_payload_without_columns() {
    let mut store = EmployeeStore::new();
    store.create(&full_form("A", "B", 30, "Eng")).unwrap();
    let mut patch = empty_form();
    patch.id = Some(1);
    let r = employee_update(&mut store, 1, patch);
    assert_eq!(r.status, 400);
    match r.body {
        Body::Text(t) => assert_eq!(t, "{\"error\":\"there are no changes to save\"}"),
        _ => panic!("an update without columns must carry the error envelope"),
    }
    assert_eq!(store.get(1).unwrap().fname, "A");
}

#[test]
fn not_found_catcher_uses_canonical_envelope() {
    let r = not_found();
    assert_eq!(r.status, 404);
    match r.body {
        Body::Text(t) => assert_eq!(t, "{\"message\":\"not found\"}"),
        _ => panic!("the catch-all must carry the canonical envelope"),
    }
}

#[test]
fn error_messages_are_json_escaped() {
    let mut store = EmployeeStore::new();
    let outcome = handle(
        &mut store,
        &Method::Put,
        "/employees",
        true,
        Err("bad \"quote\" and \\slash".to_string()),
    );
    assert_eq!(outcome.status, 400);
    match outcome.body {
        Body::Text(t) => {
            assert_eq!(t, "{\"error\":\"bad \\\"quote\\\" and \\\\slash\"}");
        },
        _ => panic!("a parse failure must carry the error envelope"),
    }
}

#[test]
fn parse_i32_accepts_exactly_signed_decimal_in_range() {
    assert_eq!(parse_i32("123"), Some(123));
    assert_eq!(parse_i32("+7"), Some(7));
    assert_eq!(parse_i32("-45"), Some(-45));
    assert_eq!(parse_i32("00123"), Some(123));
    assert_eq!(parse_i32("2147483647"), Some(i32::MAX));
    assert_eq!(parse_i32("-2147483648"), Some(i32::MIN));
    assert_eq!(parse_i32("2147483648"), None);
    assert_eq!(parse_i32("-2147483649"), None);
    assert_eq!(parse_i32("99999999999999999999"), None);
    assert_eq!(parse_i32(""), None);
    assert_eq!(parse_i32("-"), None);
    assert_eq!(parse_i32("+"), None);
    assert_eq!(parse_i32("12a"), None);
    assert_eq!(parse_i32("a12"), None);
    assert_eq!(parse_i32(" 12"), None);
}

#[test]
fn routes_match_method_path_and_format() {
    assert_eq!(route(&Method::Get, "/employees", true), RouteMatch::ListEmployees);
    assert_eq!(route(&Method::Get, "/employees/17", true), RouteMatch::GetEmployee(17));
    assert_eq!(route(&Method::Put, "/employees", true), RouteMatch::CreateEmployee);
    assert_eq!(
        route(&Method::Post, "/employees/3", true),
        RouteMatch::UpdateEmployee(3)
    );
    assert_eq!(
        route(&Method::Delete, "/employees/-2", true),
        RouteMatch::DeleteEmployee(-2)
    );
    assert_eq!(route(&Method::Get, "/employees/abc", true), RouteMatch::NoRoute);
    assert_eq!(route(&Method::Get, "/employees/", true), RouteMatch::NoRoute);
    assert_eq!(route(&Method::Post, "/employees", true), RouteMatch::NoRoute);
    assert_eq!(route(&Method::Put, "/employees/5", true), RouteMatch::NoRoute);
    assert_eq!(route(&Method::Get, "/staff", true), RouteMatch::NoRoute);
    assert_eq!(route(&Method::Get, "/employees", false), RouteMatch::NoRoute);
}

#[test]
fn full_scenario_over_the_pipeline() {
    let mut store = EmployeeStore::new();

    let miss = handle(&mut store, &Method::Get, "/employees/999", true, Err(String::new()));
    assert_eq!(miss.status, 404);
    assert!(matches!(miss.body, Body::Empty));

    let created = handle(
        &mut store,
        &Method::Put,
        "/employees",
        true,
        Ok(full_form("Jo", "Doe", 40, "Mgr")),
    );
    assert_eq!(created.status, 201);
    assert!(matches!(created.body, Body::Empty));

    let got = handle(&mut store, &Method::Get, "/employees/1", true, Err(String::new()));
    assert_eq!(got.status, 200);
    match got.body {
        Body::Record(e) => {
            assert_eq!(e.id, 1);
            assert_eq!(e.fname, "Jo");
            assert_eq!(e.lname, "Doe");
            assert_eq!(e.age, 40);
            assert_eq!(e.title, "Mgr");
        },
        _ => panic!("a present row must come back as a record"),
    }

    let removed = handle(&mut store, &Method::Delete, "/employees/1", true, Err(String::new()));
    assert_eq!(removed.status, 204);
    assert!(matches!(removed.body, Body::Empty));

    let gone = handle(&mut store, &Method::Get, "/employees/1", true, Err(String::new()));
    assert_eq!(gone.status, 404);
    assert!(matches!(gone.body, Body::Empty));

    let unrouted = handle(&mut store, &Method::Get, "/nowhere", true, Err(String::new()));
    assert_eq!(unrouted.status, 404);
    match unrouted.body {
        Body::Text(t) => assert_eq!(t, "{\"message\":\"not found\"}"),
        _ => panic!("an unmatched route must carry the canonical envelope"),
    }
}
