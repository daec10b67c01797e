//! Route matching and dispatch: the deterministic mapping from request
//! method, path and format to exactly one handler, with integer path
//! segments parsed the way the transport's `FromStr`-based matching does
//! (optional sign, decimal digits, value within `i32`), and the uniform
//! catch-all for everything else.

use vstd::prelude::*;
use vstd::string::StrSliceExecFns;

use crate::handlers::{
    employee_delete, employee_get, employee_list, employee_put, employee_update, not_found,
    Body, Response,
};
use crate::json::{error_body, error_body_of, not_found_body_of};
use crate::models::{apply_form, complete, has_update, new_row, EmployeeForm};
use crate::store::{
    has_id, idx_of, missing_column_msg, no_changes_msg, row_with, EmployeeStore,
};

verus! {

#[derive(Clone, Copy, Debug, PartialEq, Eq, Structural)]
pub enum Method {
    Get,
    Put,
    Post,
    Delete,
}

/// The outcome of routing: which handler runs, with the parsed id where
/// the path carries one, or no route at all.
#[derive(Clone, Copy, Debug, PartialEq, Eq, Structural)]
pub enum RouteMatch {
    ListEmployees,
    GetEmployee(i32),
    CreateEmployee,
    UpdateEmployee(i32),
    DeleteEmployee(i32),
    NoRoute,
}

pub open spec fn is_dec_digit(c: char) -> bool {
    '0' <= c && c <= '9'
}

pub open spec fn all_dec_digits(s: Seq<char>) -> bool {
    forall|i: int| 0 <= i < s.len() ==> is_dec_digit(#[trigger] s[i])
}

/// The integer denoted by a sequence of decimal digits.
pub open spec fn digits_val(s: Seq<char>) -> int
    decreases s.len(),
{
    if s.len() == 0 {
        0
    } else {
        digits_val(s.drop_last()) * 10 + (s.last() as int - '0' as int)
    }
}

/// The integer a path segment denotes under `FromStr` for signed
/// integers: an optional sign followed by at least one decimal digit.
pub open spec fn int_token_val(s: Seq<char>) -> Option<int> {
    if s.len() >= 2 && (s[0] == '-' || s[0] == '+') && all_dec_digits(s.skip(1)) {
        if s[0] == '-' {
            Some(-digits_val(s.skip(1)))
        } else {
            Some(digits_val(s.skip(1)))
        }
    } else if s.len() >= 1 && all_dec_digits(s) {
        Some(digits_val(s))
    } else {
        None
    }
}

/// The id a path segment parses to, if it is a well-formed integer that
/// fits in `i32`.
pub open spec fn parse_i32_spec(s: Seq<char>) -> Option<int> {
    match int_token_val(s) {
        Some(v) => if i32::MIN as int <= v && v <= i32::MAX as int {
            Some(v)
        } else {
            None
        },
        None => None,
    }
}

proof fn lemma_digits_val_nonneg(s: Seq<char>)
    requires
        all_dec_digits(s),
    ensures
        0 <= digits_val(s),
    decreases s.len(),
{
    if s.len() > 0 {
        assert forall|i: int| 0 <= i < s.drop_last().len() implies is_dec_digit(
            #[trigger] s.drop_last()[i],
        ) by {
            assert(s.drop_last()[i] == s[i]);
        }
        lemma_digits_val_nonneg(s.drop_last());
        assert(is_dec_digit(s.last()));
    }
}

/// Reading further digits can only grow the denoted value.
proof fn lemma_digits_val_extend(s: Seq<char>, k: int)
    requires
        all_dec_digits(s),
        0 <= k <= s.len(),
    ensures
        digits_val(s.take(k)) <= digits_val(s),
    decreases s.len() - k,
{
    assert forall|j: int| 0 <= j <= s.len() implies all_dec_digits(s.take(j)) by {
        assert forall|i: int| 0 <= i < s.take(j).len() implies is_dec_digit(
            #[trigger] s.take(j)[i],
        ) by {
            assert(s.take(j)[i] == s[i]);
        }
    }
    if k == s.len() {
        assert(s.take(k) =~= s);
    } else {
        assert(s.take(k + 1).drop_last() =~= s.take(k));
        assert(s.take(k + 1).last() == s[k]);
        lemma_digits_val_nonneg(s.take(k));
        assert(digits_val(s.take(k + 1)) == digits_val(s.take(k)) * 10 + (s[k] as int
            - '0' as int));
        lemma_digits_val_extend(s, k + 1);
    }
}

/// Parse a path segment exactly as `i32::from_str` would: `Some` if and
/// only if the segment is an optionally signed, nonempty run of decimal
/// digits whose value fits in `i32`.
pub fn parse_i32(s: &str) -> (r: Option<i32>)
    ensures
        match r {
            Some(v) => parse_i32_spec(s@) == Some(v as int),
            None => parse_i32_spec(s@) is None,
        },
{
    let n = s.unicode_len();
    if n == 0 {
        return None;
    }
    let first = s.get_char(0);
    let neg = first == '-';
    let signed = first == '-' || first == '+';
    let start: usize = if signed {
        1
    } else {
        0
    };
    if n == start {
        return None;
    }
    let ghost mag: Seq<char> = s@.subrange(start as int, n as int);
    let mut acc: i64 = 0;
    let mut i: usize = start;
    while i < n
        invariant
            start <= i <= n,
            n == s@.len(),
            n > start,
            start == if signed { 1int } else { 0int },
            signed == (s@[0] == '-' || s@[0] == '+'),
            neg == (s@[0] == '-'),
            mag == s@.subrange(start as int, n as int),
            all_dec_digits(mag.take(i as int - start as int)),
            acc == digits_val(mag.take(i as int - start as int)),
            0 <= acc <= 2147483648i64,
        decreases n - i,
    {
        let c = s.get_char(i);
        proof {
            assert(mag[i as int - start as int] == s@[i as int]);
        }
        if c < '0' || c > '9' {
            proof {
                assert(!is_dec_digit(mag[i as int - start as int]));
                if signed {
                    assert(mag =~= s@.skip(1));
                    assert(!all_dec_digits(s@.skip(1)));
                    assert(!is_dec_digit(s@[0]));
                    assert(!all_dec_digits(s@));
                } else {
                    assert(mag =~= s@);
                    assert(!all_dec_digits(s@));
                }
            }
            return None;
        }
        let d: i64 = (c as u32) as i64 - 48;
        proof {
            assert(is_dec_digit(c));
            assert(d == c as int - '0' as int);
            assert(mag.take(i as int - start as int + 1) =~= mag.take(
                i as int - start as int,
            ).push(mag[i as int - start as int]));
            assert(mag.take(i as int - start as int + 1).drop_last() =~= mag.take(
                i as int - start as int,
            ));
            assert(digits_val(mag.take(i as int - start as int + 1)) == acc * 10 + d);
        }
        acc = acc * 10 + d;
        i = i + 1;
        if acc > 2147483648i64 {
            proof {
                if all_dec_digits(mag) {
                    lemma_digits_val_extend(mag, i as int - start as int);
                    assert(digits_val(mag) >= acc);
                    if signed {
                        assert(mag =~= s@.skip(1));
                    } else {
                        assert(mag =~= s@);
                    }
                } else {
                    if signed {
                        assert(mag =~= s@.skip(1));
                        assert(!is_dec_digit(s@[0]));
                        assert(!all_dec_digits(s@));
                    } else {
                        assert(mag =~= s@);
                    }
                }
            }
            return None;
        }
    }
    proof {
        assert(mag.take(n as int - start as int) =~= mag);
        if signed {
            assert(mag =~= s@.skip(1));
        } else {
            assert(mag =~= s@);
            assert(!(s@[0] == '-' || s@[0] == '+')) by {
                assert(is_dec_digit(mag[0]));
            }
        }
    }
    if neg {
        let v: i64 = -acc;
        proof {
            assert(i32::MIN as int <= v && v <= i32::MAX as int);
        }
        Some(v as i32)
    } else {
        if acc > 2147483647i64 {
            return None;
        }
        Some(acc as i32)
    }
}

/// Character-wise string equality, for matching a path against a route
/// pattern.
pub fn str_eq(a: &str, b: &str) -> (r: bool)
    ensures
        r <==> a@ == b@,
{
    let na = a.unicode_len();
    let nb = b.unicode_len();
    if na != nb {
        return false;
    }
    let mut i: usize = 0;
    while i < na
        invariant
            na == a@.len(),
            nb == b@.len(),
            na == nb,
            i <= na,
            forall|j: int| 0 <= j < i ==> a@[j] == b@[j],
        decreases na - i,
    {
        if a.get_char(i) != b.get_char(i) {
            return false;
        }
        i = i + 1;
    }
    proof {
        assert(a@ =~= b@);
    }
    true
}

pub open spec fn employees_path() -> Seq<char> {
    "/employees"@
}

pub open spec fn item_prefix() -> Seq<char> {
    "/employees/"@
}

/// The id carried by a single-employee path: the characters after the
/// collection prefix, parsed as an `i32`.
pub open spec fn item_id(p: Seq<char>) -> Option<int> {
    if p.len() > item_prefix().len() && p.take(item_prefix().len() as int) == item_prefix() {
        parse_i32_spec(p.skip(item_prefix().len() as int))
    } else {
        None
    }
}

/// Extract and parse the id of a single-employee path, or report that the
/// path carries none.
fn path_item_id(path: &str) -> (r: Option<i32>)
    ensures
        match r {
            Some(v) => item_id(path@) == Some(v as int),
            None => item_id(path@) is None,
        },
{
    proof {
        reveal_strlit("/employees/");
    }
    let n = path.unicode_len();
    if n <= 11 {
        return None;
    }
    let mut i: usize = 0;
    while i < 11
        invariant
            n == path@.len(),
            n > 11,
            i <= 11,
            forall|j: int| 0 <= j < i ==> path@[j] == item_prefix()[j],
        decreases 11 - i,
    {
        let prefix = "/employees/";
        proof {
            reveal_strlit("/employees/");
            assert(prefix@ == item_prefix());
            assert(item_prefix().len() == 11);
        }
        if path.get_char(i) != prefix.get_char(i) {
            proof {
                assert(path@.take(11) != item_prefix()) by {
                    if path@.take(11) == item_prefix() {
                        assert(path@.take(11)[i as int] == item_prefix()[i as int]);
                    }
                }
            }
            return None;
        }
        i = i + 1;
    }
    proof {
        assert(path@.take(11) =~= item_prefix());
    }
    let rest = path.substring_char(11, n);
    proof {
        assert(rest@ =~= path@.skip(11));
    }
    parse_i32(rest)
}

/// Which handler a request reaches. A request whose format is not JSON,
/// whose path matches no pattern, or whose id segment does not parse,
/// matches no route.
pub open spec fn route_spec(m: Method, p: Seq<char>, json_format: bool) -> RouteMatch {
    if !json_format {
        RouteMatch::NoRoute
    } else {
        match m {
            Method::Get => if p == employees_path() {
                RouteMatch::ListEmployees
            } else {
                match item_id(p) {
                    Some(v) => RouteMatch::GetEmployee(v as i32),
                    None => RouteMatch::NoRoute,
                }
            },
            Method::Put => if p == employees_path() {
                RouteMatch::CreateEmployee
            } else {
                RouteMatch::NoRoute
            },
            Method::Post => match item_id(p) {
                Some(v) => RouteMatch::UpdateEmployee(v as i32),
                None => RouteMatch::NoRoute,
            },
            Method::Delete => match item_id(p) {
                Some(v) => RouteMatch::DeleteEmployee(v as i32),
                None => RouteMatch::NoRoute,
            },
        }
    }
}

/// One request through the whole pipeline: match the route, then run the
/// matched handler on the store, with the body's parse outcome decided
/// upstream — a payload that failed to parse never reaches a gateway
/// call. Unmatched requests get the canonical not-found envelope.
pub fn handle(
    store: &mut EmployeeStore,
    method: &Method,
    path: &str,
    json_format: bool,
    payload: Result<EmployeeForm, String>,
) -> (r: Response)
    requires
        old(store).wf(),
        old(store)@.next_id < i32::MAX as int,
    ensures
        final(store).wf(),
        match route_spec(*method, path@, json_format) {
            RouteMatch::ListEmployees => {
                &&& final(store)@ == old(store)@
                &&& r.location is None
                &&& r.status == 200
                &&& r.body matches Body::Records(l) && l@ =~= old(store)@.rows
            },
            RouteMatch::GetEmployee(id) => {
                &&& final(store)@ == old(store)@
                &&& r.location is None
                &&& if has_id(old(store)@.rows, id as int) {
                    r.status == 200 && (r.body matches Body::Record(e) && e@ == row_with(
                        old(store)@.rows,
                        id as int,
                    ))
                } else {
                    r.status == 404 && r.body is Empty
                }
            },
            RouteMatch::CreateEmployee => match payload {
                Ok(f) => if complete(f@) {
                    &&& r.status == 201
                    &&& r.body is Empty
                    &&& r.location matches Some(l) && l@ == "/employees"@
                    &&& final(store)@.rows =~= old(store)@.rows.push(
                        new_row(f@, old(store)@.next_id),
                    )
                    &&& final(store)@.next_id == old(store)@.next_id + 1
                } else {
                    &&& r.status == 400
                    &&& r.body matches Body::Text(t) && t@ == error_body_of(
                        missing_column_msg(f@),
                    )
                    &&& final(store)@ == old(store)@
                },
                Err(m) => {
                    &&& r.status == 400
                    &&& r.body matches Body::Text(t) && t@ == error_body_of(m@)
                    &&& final(store)@ == old(store)@
                },
            },
            RouteMatch::UpdateEmployee(id) => match payload {
                Ok(f) => if has_update(f@) {
                    &&& r.status == 204
                    &&& r.body is Empty
                    &&& final(store)@.next_id == old(store)@.next_id
                    &&& final(store)@.rows.len() == old(store)@.rows.len()
                    &&& forall|i: int|
                        0 <= i < final(store)@.rows.len()
                            ==> #[trigger] final(store)@.rows[i] == (
                        if old(store)@.rows[i].id == id as int {
                            apply_form(old(store)@.rows[i], f@)
                        } else {
                            old(store)@.rows[i]
                        })
                } else {
                    &&& r.status == 400
                    &&& r.body matches Body::Text(t) && t@ == error_body_of(
                        no_changes_msg(),
                    )
                    &&& final(store)@ == old(store)@
                },
                Err(m) => {
                    &&& r.status == 400
                    &&& r.body matches Body::Text(t) && t@ == error_body_of(m@)
                    &&& final(store)@ == old(store)@
                },
            },
            RouteMatch::DeleteEmployee(id) => {
                &&& final(store)@.next_id == old(store)@.next_id
                &&& r.location is None
                &&& if has_id(old(store)@.rows, id as int) {
                    r.status == 204 && r.body is Empty && final(store)@.rows =~= old(
                        store,
                    )@.rows.remove(idx_of(old(store)@.rows, id as int))
                } else {
                    r.status == 404 && r.body is Empty && final(store)@ == old(store)@
                }
            },
            RouteMatch::NoRoute => {
                &&& final(store)@ == old(store)@
                &&& r.location is None
                &&& r.status == 404
                &&& r.body matches Body::Text(t) && t@ == not_found_body_of()
            },
        },
{
    let matched = route(method, path, json_format);
    match matched {
        RouteMatch::ListEmployees => employee_list(store),
        RouteMatch::GetEmployee(id) => employee_get(store, id),
        RouteMatch::CreateEmployee => match payload {
            Ok(f) => employee_put(store, f),
            Err(m) => Response {
                status: 400,
                location: None,
                body: Body::Text(error_body(m.as_str())),
            },
        },
        RouteMatch::UpdateEmployee(id) => match payload {
            Ok(f) => employee_update(store, id, f),
            Err(m) => Response {
                status: 400,
                location: None,
                body: Body::Text(error_body(m.as_str())),
            },
        },
        RouteMatch::DeleteEmployee(id) => employee_delete(store, id),
        RouteMatch::NoRoute => not_found(),
    }
}

/// Match a request onto a route.
pub fn route(m: &Method, path: &str, json_format: bool) -> (r: RouteMatch)
    ensures
        r == route_spec(*m, path@, json_format),
{
    if !json_format {
        return RouteMatch::NoRoute;
    }
    match m {
        Method::Get => {
            if str_eq(path, "/employees") {
                RouteMatch::ListEmployees
            } else {
                match path_item_id(path) {
                    Some(v) => RouteMatch::GetEmployee(v),
                    None => RouteMatch::NoRoute,
                }
            }
        },
        Method::Put => {
            if str_eq(path, "/employees") {
                RouteMatch::CreateEmployee
            } else {
                RouteMatch::NoRoute
            }
        },
        Method::Post => {
            match path_item_id(path) {
                Some(v) => RouteMatch::UpdateEmployee(v),
                None => RouteMatch::NoRoute,
            }
        },
        Method::Delete => {
            match path_item_id(path) {
                Some(v) => RouteMatch::DeleteEmployee(v),
                None => RouteMatch::NoRoute,
            }
        },
    }
}

} // verus!
