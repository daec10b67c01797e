//! The persistence gateway: an employee row store keyed by a unique,
//! store-assigned integer primary key. It is the sole component that
//! touches rows, and every operation carries an exact contract: what it
//! returns, how the row sequence changes, and when each error occurs.

use vstd::prelude::*;

use crate::models::{
    apply_form, complete, has_update, new_row, Employee, EmployeeForm, EmployeeV, FormV,
};

verus! {

/// Abstract state of the store: the rows in iteration order, and the next
/// primary key to assign.
pub struct StoreV {
    pub rows: Seq<EmployeeV>,
    pub next_id: int,
}

/// Some row holds the given id.
pub open spec fn has_id(rows: Seq<EmployeeV>, id: int) -> bool {
    exists|i: int| 0 <= i < rows.len() && rows[i].id == id
}

/// An index of a row holding the given id (unique when the ids are).
pub open spec fn idx_of(rows: Seq<EmployeeV>, id: int) -> int {
    choose|i: int| 0 <= i < rows.len() && rows[i].id == id
}

/// The row holding the given id.
pub open spec fn row_with(rows: Seq<EmployeeV>, id: int) -> EmployeeV {
    rows[idx_of(rows, id)]
}

/// Well-formed table state: assigned ids are positive, below the next id
/// to assign, and pairwise distinct.
pub open spec fn rows_wf(rows: Seq<EmployeeV>, next_id: int) -> bool {
    &&& 1 <= next_id <= i32::MAX
    &&& forall|i: int| 0 <= i < rows.len() ==> 1 <= (#[trigger] rows[i]).id < next_id
    &&& forall|i: int, j: int|
        0 <= i < j < rows.len() ==> (#[trigger] rows[i]).id != (#[trigger] rows[j]).id
}

/// The message the store reports when an insert leaves a required column
/// null: it names the first absent column, in column order.
pub open spec fn missing_column_msg(f: FormV) -> Seq<char> {
    if f.fname is None {
        "null value in column fname violates not-null constraint"@
    } else if f.lname is None {
        "null value in column lname violates not-null constraint"@
    } else if f.age is None {
        "null value in column age violates not-null constraint"@
    } else {
        "null value in column title violates not-null constraint"@
    }
}

/// The message the store reports for an update that supplies no column.
pub open spec fn no_changes_msg() -> Seq<char> {
    "there are no changes to save"@
}

/// The employee row store. Stateless between calls apart from the rows
/// themselves: the table is the sole source of truth.
pub struct EmployeeStore {
    rows: Vec<Employee>,
    next_id: i32,
}

impl View for EmployeeStore {
    type V = StoreV;

    closed spec fn view(&self) -> StoreV {
        StoreV {
            rows: self.rows@.map_values(|e: Employee| e@),
            next_id: self.next_id as int,
        }
    }
}

impl EmployeeStore {
    pub open spec fn wf(&self) -> bool {
        rows_wf(self@.rows, self@.next_id)
    }

    /// An empty table; primary keys are assigned from 1 upward.
    pub fn new() -> (s: Self)
        ensures
            s.wf(),
            s@.rows =~= Seq::<EmployeeV>::empty(),
            s@.next_id == 1,
    {
        EmployeeStore { rows: Vec::new(), next_id: 1 }
    }

    /// Whether a primary key is still available for one more insert.
    pub fn can_assign_id(&self) -> (r: bool)
        ensures
            r <==> self@.next_id < i32::MAX as int,
    {
        self.next_id < i32::MAX
    }

    /// Select all rows, in store order.
    pub fn list(&self) -> (r: Vec<Employee>)
        ensures
            r@.len() == self@.rows.len(),
            forall|i: int| 0 <= i < r@.len() ==> (#[trigger] r@[i])@ == self@.rows[i],
    {
        let mut out: Vec<Employee> = Vec::new();
        let mut i: usize = 0;
        while i < self.rows.len()
            invariant
                i <= self.rows.len(),
                out@.len() == i,
                forall|j: int| 0 <= j < i ==> (#[trigger] out@[j])@ == self@.rows[j],
            decreases self.rows.len() - i,
        {
            out.push(self.rows[i].clone());
            i = i + 1;
        }
        out
    }

    /// Select the row with the given primary key; `None` (not an error)
    /// when no row matches.
    pub fn get(&self, id: i32) -> (r: Option<Employee>)
        requires
            self.wf(),
        ensures
            match r {
                Some(e) => has_id(self@.rows, id as int) && e@ == row_with(
                    self@.rows,
                    id as int,
                ),
                None => !has_id(self@.rows, id as int),
            },
    {
        let mut i: usize = 0;
        while i < self.rows.len()
            invariant
                self.wf(),
                i <= self.rows.len(),
                forall|j: int| 0 <= j < i ==> (#[trigger] self@.rows[j]).id != id as int,
            decreases self.rows.len() - i,
        {
            if self.rows[i].id == id {
                let found = self.rows[i].clone();
                proof {
                    assert(self@.rows[i as int].id == id as int);
                    let k = idx_of(self@.rows, id as int);
                    assert(0 <= k < self@.rows.len() && self@.rows[k].id == id as int);
                    assert(k == i as int);
                }
                return Some(found);
            }
            i = i + 1;
        }
        None
    }

    /// Insert a row built from the form, under a freshly assigned id; any
    /// id supplied in the form is disregarded. Fails, reporting the first
    /// absent column and leaving the table unchanged, if and only if a
    /// required column is absent.
    pub fn create(&mut self, form: &EmployeeForm) -> (r: Result<i32, String>)
        requires
            old(self).wf(),
            old(self)@.next_id < i32::MAX as int,
        ensures
            final(self).wf(),
            r is Ok <==> complete(form@),
            match r {
                Ok(id) => {
                    &&& id as int == old(self)@.next_id
                    &&& final(self)@.next_id == old(self)@.next_id + 1
                    &&& final(self)@.rows =~= old(self)@.rows.push(new_row(form@, id as int))
                },
                Err(m) => {
                    &&& final(self)@ == old(self)@
                    &&& m@ == missing_column_msg(form@)
                },
            },
    {
        let fname = match &form.fname {
            Some(s) => s.clone(),
            None => {
                return Err(
                    "null value in column fname violates not-null constraint".to_owned(),
                );
            },
        };
        let lname = match &form.lname {
            Some(s) => s.clone(),
            None => {
                return Err(
                    "null value in column lname violates not-null constraint".to_owned(),
                );
            },
        };
        let age = match &form.age {
            Some(v) => *v,
            None => {
                return Err(
                    "null value in column age violates not-null constraint".to_owned(),
                );
            },
        };
        let title = match &form.title {
            Some(s) => s.clone(),
            None => {
                return Err(
                    "null value in column title violates not-null constraint".to_owned(),
                );
            },
        };
        let id = self.next_id;
        self.rows.push(Employee { id, fname, lname, age, title });
        self.next_id = id + 1;
        proof {
            assert(self@.rows =~= old(self)@.rows.push(new_row(form@, id as int)));
        }
        Ok(id)
    }

    /// Apply the supplied non-id columns of the form to the row with the
    /// given primary key; the id column is never written. Returns how many
    /// rows matched (0 or 1) — a missing row is not an error. Fails,
    /// leaving the table unchanged, if and only if no non-id column is
    /// supplied.
    pub fn update(&mut self, id: i32, form: &EmployeeForm) -> (r: Result<usize, String>)
        requires
            old(self).wf(),
        ensures
            final(self).wf(),
            final(self)@.next_id == old(self)@.next_id,
            r is Ok <==> has_update(form@),
            match r {
                Ok(n) => {
                    &&& n == if has_id(old(self)@.rows, id as int) { 1int } else { 0int }
                    &&& final(self)@.rows.len() == old(self)@.rows.len()
                    &&& forall|i: int|
                        0 <= i < final(self)@.rows.len() ==> #[trigger] final(self)@.rows[i] == (
                        if old(self)@.rows[i].id == id as int {
                            apply_form(old(self)@.rows[i], form@)
                        } else {
                            old(self)@.rows[i]
                        })
                },
                Err(m) => {
                    &&& final(self)@ == old(self)@
                    &&& m@ == no_changes_msg()
                },
            },
    {
        if form.fname.is_none() && form.lname.is_none() && form.age.is_none()
            && form.title.is_none() {
            return Err("there are no changes to save".to_owned());
        }
        let ghost st0: StoreV = self@;
        let mut i: usize = 0;
        let mut matched: usize = 0;
        while i < self.rows.len()
            invariant
                rows_wf(st0.rows, st0.next_id),
                i <= self.rows.len(),
                self@.next_id == st0.next_id,
                self@.rows.len() == st0.rows.len(),
                forall|j: int| i <= j < self@.rows.len() ==> #[trigger] self@.rows[j] == st0.rows[j],
                forall|j: int|
                    0 <= j < i ==> #[trigger] self@.rows[j] == (
                    if st0.rows[j].id == id as int {
                        apply_form(st0.rows[j], form@)
                    } else {
                        st0.rows[j]
                    }),
                matched == if has_id(st0.rows.take(i as int), id as int) {
                    1int
                } else {
                    0int
                },
            decreases self.rows.len() - i,
        {
            proof {
                assert(st0.rows.take(i + 1) =~= st0.rows.take(i as int).push(st0.rows[i as int]));
                if has_id(st0.rows.take(i as int), id as int) {
                    let k = idx_of(st0.rows.take(i as int), id as int);
                    assert(st0.rows.take(i + 1)[k] == st0.rows.take(i as int)[k]);
                    assert(has_id(st0.rows.take(i + 1), id as int));
                }
            }
            if self.rows[i].id == id {
                proof {
                    assert(self@.rows[i as int] == self.rows@[i as int]@);
                    assert(st0.rows[i as int].id == id as int);
                    if has_id(st0.rows.take(i as int), id as int) {
                        let k = idx_of(st0.rows.take(i as int), id as int);
                        assert(st0.rows.take(i as int)[k] == st0.rows[k]);
                        assert(false);
                    }
                }
                let row = &self.rows[i];
                let updated = Employee {
                    id: row.id,
                    fname: match &form.fname {
                        Some(s) => s.clone(),
                        None => row.fname.clone(),
                    },
                    lname: match &form.lname {
                        Some(s) => s.clone(),
                        None => row.lname.clone(),
                    },
                    age: match &form.age {
                        Some(v) => *v,
                        None => row.age,
                    },
                    title: match &form.title {
                        Some(s) => s.clone(),
                        None => row.title.clone(),
                    },
                };
                let ghost prev: Seq<EmployeeV> = self@.rows;
                self.rows[i] = updated;
                matched = 1;
                proof {
                    assert(self@.rows =~= prev.update(i as int, updated@));
                    assert(self@.rows[i as int] == apply_form(st0.rows[i as int], form@));
                    assert(st0.rows.take(i + 1).len() == i + 1);
                    assert(st0.rows.take(i + 1)[i as int].id == id as int);
                    assert(has_id(st0.rows.take(i + 1), id as int));
                }
            } else {
                proof {
                    assert(self@.rows[i as int] == self.rows@[i as int]@);
                    assert(st0.rows[i as int].id != id as int);
                    if has_id(st0.rows.take(i + 1), id as int) {
                        let k = idx_of(st0.rows.take(i + 1), id as int);
                        if k < i as int {
                            assert(st0.rows.take(i as int)[k] == st0.rows.take(i + 1)[k]);
                            assert(has_id(st0.rows.take(i as int), id as int));
                        } else {
                            assert(st0.rows.take(i + 1)[k] == st0.rows[i as int]);
                            assert(false);
                        }
                    }
                }
            }
            i = i + 1;
        }
        proof {
            assert(st0.rows.take(st0.rows.len() as int) =~= st0.rows);
            if has_id(st0.rows, id as int) {
                let k = idx_of(st0.rows, id as int);
                assert(st0.rows.take(st0.rows.len() as int)[k] == st0.rows[k]);
                assert(has_id(st0.rows.take(st0.rows.len() as int), id as int));
            }
        }
        Ok(matched)
    }

    /// Delete the row with the given primary key; returns how many rows
    /// were removed (0 or 1).
    pub fn delete(&mut self, id: i32) -> (n: usize)
        requires
            old(self).wf(),
        ensures
            final(self).wf(),
            final(self)@.next_id == old(self)@.next_id,
            if has_id(old(self)@.rows, id as int) {
                n == 1 && final(self)@.rows =~= old(self)@.rows.remove(
                    idx_of(old(self)@.rows, id as int),
                )
            } else {
                n == 0 && final(self)@ == old(self)@
            },
    {
        let ghost st0: StoreV = self@;
        let mut i: usize = 0;
        while i < self.rows.len()
            invariant
                st0 == old(self)@,
                rows_wf(st0.rows, st0.next_id),
                self@ == st0,
                i <= self.rows.len(),
                forall|j: int| 0 <= j < i ==> (#[trigger] self@.rows[j]).id != id as int,
            decreases self.rows.len() - i,
        {
            if self.rows[i].id == id {
                proof {
                    assert(self@.rows[i as int] == self.rows@[i as int]@);
                    assert(st0.rows[i as int].id == id as int);
                    let k = idx_of(st0.rows, id as int);
                    assert(0 <= k < st0.rows.len() && st0.rows[k].id == id as int);
                    assert(k == i as int);
                }
                self.rows.remove(i);
                proof {
                    assert(self@.rows =~= st0.rows.remove(i as int));
                }
                return 1;
            }
            i = i + 1;
        }
        0
    }
}

} // verus!
