//! The record model: the persisted employee row, the all-fields-optional
//! form used for create and partial-update payloads, and the list envelope.

use vstd::prelude::*;

verus! {

/// Abstract value of a persisted employee row.
pub struct EmployeeV {
    pub id: int,
    pub fname: Seq<char>,
    pub lname: Seq<char>,
    pub age: int,
    pub title: Seq<char>,
}

/// A persisted employee record: one row of the employee table.
#[derive(Debug)]
pub struct Employee {
    pub id: i32,
    pub fname: String,
    pub lname: String,
    pub age: i32,
    pub title: String,
}

impl View for Employee {
    type V = EmployeeV;

    open spec fn view(&self) -> EmployeeV {
        EmployeeV {
            id: self.id as int,
            fname: self.fname@,
            lname: self.lname@,
            age: self.age as int,
            title: self.title@,
        }
    }
}

impl Clone for Employee {
    fn clone(&self) -> (res: Self)
        ensures
            res@ == self@,
    {
        Employee {
            id: self.id,
            fname: self.fname.clone(),
            lname: self.lname.clone(),
            age: self.age,
            title: self.title.clone(),
        }
    }
}

/// Abstract value of a form: each field either supplied or absent.
pub struct FormV {
    pub id: Option<int>,
    pub fname: Option<Seq<char>>,
    pub lname: Option<Seq<char>>,
    pub age: Option<int>,
    pub title: Option<Seq<char>>,
}

/// A sparse update/create payload: every field optional, so one shape
/// serves both insertion (id not yet known) and partial update (only the
/// supplied fields overwrite stored values).
#[derive(Debug)]
pub struct EmployeeForm {
    pub id: Option<i32>,
    pub fname: Option<String>,
    pub lname: Option<String>,
    pub age: Option<i32>,
    pub title: Option<String>,
}

impl View for EmployeeForm {
    type V = FormV;

    open spec fn view(&self) -> FormV {
        FormV {
            id: match self.id {
                Some(v) => Some(v as int),
                None => None,
            },
            fname: match self.fname {
                Some(s) => Some(s@),
                None => None,
            },
            lname: match self.lname {
                Some(s) => Some(s@),
                None => None,
            },
            age: match self.age {
                Some(v) => Some(v as int),
                None => None,
            },
            title: match self.title {
                Some(s) => Some(s@),
                None => None,
            },
        }
    }
}

impl Clone for EmployeeForm {
    fn clone(&self) -> (res: Self)
        ensures
            res@ == self@,
    {
        EmployeeForm {
            id: self.id,
            fname: match &self.fname {
                Some(s) => Some(s.clone()),
                None => None,
            },
            lname: match &self.lname {
                Some(s) => Some(s.clone()),
                None => None,
            },
            age: self.age,
            title: match &self.title {
                Some(s) => Some(s.clone()),
                None => None,
            },
        }
    }
}

/// The response envelope for a listing: rows in store order.
#[derive(Debug)]
pub struct EmployeeList {
    pub results: Vec<Employee>,
}

impl View for EmployeeList {
    type V = Seq<EmployeeV>;

    open spec fn view(&self) -> Seq<EmployeeV> {
        self.results@.map_values(|e: Employee| e@)
    }
}

/// A form is complete when every column of the row (id aside, which the
/// store assigns) is supplied.
pub open spec fn complete(f: FormV) -> bool {
    f.fname is Some && f.lname is Some && f.age is Some && f.title is Some
}

/// A form carries an update when at least one non-id column is supplied.
pub open spec fn has_update(f: FormV) -> bool {
    f.fname is Some || f.lname is Some || f.age is Some || f.title is Some
}

pub open spec fn opt_or<A>(o: Option<A>, d: A) -> A {
    match o {
        Some(x) => x,
        None => d,
    }
}

/// The row a complete form inserts under a store-assigned id. A supplied
/// form id is never read.
pub open spec fn new_row(f: FormV, id: int) -> EmployeeV {
    EmployeeV {
        id: id,
        fname: opt_or(f.fname, Seq::empty()),
        lname: opt_or(f.lname, Seq::empty()),
        age: opt_or(f.age, 0),
        title: opt_or(f.title, Seq::empty()),
    }
}

/// A partial update: supplied fields overwrite, absent fields keep the
/// stored value, and the id column is never touched.
pub open spec fn apply_form(e: EmployeeV, f: FormV) -> EmployeeV {
    EmployeeV {
        id: e.id,
        fname: opt_or(f.fname, e.fname),
        lname: opt_or(f.lname, e.lname),
        age: opt_or(f.age, e.age),
        title: opt_or(f.title, e.title),
    }
}

} // verus!
