//! The table of employees.

use crate::entity::employee::Employee;
use crate::repository::StorageError;
use vstd::prelude::*;

verus! {

/// The rows of `rows` that work in the office `office_id`, in their order.
pub open spec fn in_office(rows: Seq<Employee>, office_id: i32) -> Seq<Employee>
    decreases rows.len(),
{
    if rows.len() == 0 {
        Seq::empty()
    } else if rows.last().office_id == office_id {
        in_office(rows.drop_last(), office_id).push(rows.last())
    } else {
        in_office(rows.drop_last(), office_id)
    }
}

/// What a table of employees holds: its rows in the order in which they were
/// stored, and the identity that the next employee gets.
pub struct EmployeeTable {
    pub rows: Seq<Employee>,
    pub next_id: int,
}

impl EmployeeTable {
    /// Every row has an identity below the next one to be given out, no two
    /// rows share one, and there are fewer rows than identities given out.
    pub open spec fn wf(self) -> bool {
        &&& 1 <= self.next_id <= i32::MAX
        &&& self.rows.len() < self.next_id
        &&& forall|i: int|
            0 <= i < self.rows.len() ==> (#[trigger] self.rows[i]).id is Some && 1
                <= self.rows[i].id->0 < self.next_id
        &&& forall|i: int, j: int|
            0 <= i < j < self.rows.len() ==> (#[trigger] self.rows[i]).id != (
            #[trigger] self.rows[j]).id
    }

    /// Some row has the identity `id`.
    pub open spec fn has_id(self, id: i32) -> bool {
        exists|i: int| 0 <= i < self.rows.len() && (#[trigger] self.rows[i]).id == Some(id)
    }

    /// The place of a row with the identity `id`, where there is one.
    pub open spec fn index_of(self, id: i32) -> int {
        choose|i: int| 0 <= i < self.rows.len() && (#[trigger] self.rows[i]).id == Some(id)
    }

    /// The employee with the identity `id`, if the table has it.
    pub open spec fn by_id(self, id: i32) -> Option<Employee> {
        if self.has_id(id) {
            Some(self.rows[self.index_of(id)])
        } else {
            None
        }
    }

    /// The employees of the office `office_id`, in the order of the rows.
    pub open spec fn of_office(self, office_id: i32) -> Seq<Employee> {
        in_office(self.rows, office_id)
    }

    /// The number of employees of the office `office_id`.
    pub open spec fn occupants(self, office_id: i32) -> nat {
        in_office(self.rows, office_id).len()
    }

    /// Whether the table can still give out an identity.
    pub open spec fn has_room(self) -> bool {
        self.next_id < i32::MAX
    }

    /// `employee` as the table stores it next: with the next identity.
    pub open spec fn stored(self, employee: Employee) -> Employee {
        Employee {
            id: Some(self.next_id as i32),
            first_name: employee.first_name,
            last_name: employee.last_name,
            birth_date: employee.birth_date,
            office_id: employee.office_id,
        }
    }

    /// The table after it has stored `employee` behind its rows.
    pub open spec fn insert(self, employee: Employee) -> EmployeeTable {
        EmployeeTable { rows: self.rows.push(self.stored(employee)), next_id: self.next_id + 1 }
    }

    /// `employee` as it stands in the row of identity `id` after an update:
    /// every field but the identity is taken over.
    pub open spec fn replaced(id: i32, employee: Employee) -> Employee {
        Employee {
            id: Some(id),
            first_name: employee.first_name,
            last_name: employee.last_name,
            birth_date: employee.birth_date,
            office_id: employee.office_id,
        }
    }

    /// The table after the row of identity `id` has taken over the fields of
    /// `employee`; the same table where it has no such row.
    pub open spec fn update(self, id: i32, employee: Employee) -> EmployeeTable {
        if self.has_id(id) {
            EmployeeTable {
                rows: self.rows.update(self.index_of(id), Self::replaced(id, employee)),
                next_id: self.next_id,
            }
        } else {
            self
        }
    }

    /// The table without the row of identity `id`; the same table where it
    /// has no such row.
    pub open spec fn remove(self, id: i32) -> EmployeeTable {
        if self.has_id(id) {
            EmployeeTable { rows: self.rows.remove(self.index_of(id)), next_id: self.next_id }
        } else {
            self
        }
    }
}

/// In a well-formed table a row is found under its own identity.
pub proof fn lemma_employee_by_id(table: EmployeeTable, i: int)
    requires
        table.wf(),
        0 <= i < table.rows.len(),
    ensures
        table.has_id(table.rows[i].id->0),
        table.index_of(table.rows[i].id->0) == i,
        table.by_id(table.rows[i].id->0) == Some(table.rows[i]),
{
    let id = table.rows[i].id->0;
    assert(table.rows[i].id == Some(id));
    let k = table.index_of(id);
    if k < i {
        assert(table.rows[k].id != table.rows[i].id);
    }
    if i < k {
        assert(table.rows[i].id != table.rows[k].id);
    }
}

/// An office has no more employees than the table has rows.
pub proof fn lemma_in_office_len(rows: Seq<Employee>, office_id: i32)
    ensures
        in_office(rows, office_id).len() <= rows.len(),
    decreases rows.len(),
{
    if rows.len() > 0 {
        lemma_in_office_len(rows.drop_last(), office_id);
    }
}

/// One more row: one more employee in its office, and the same employees in
/// every other office.
pub proof fn lemma_in_office_push(rows: Seq<Employee>, employee: Employee, office_id: i32)
    ensures
        in_office(rows.push(employee), office_id) == (if employee.office_id == office_id {
            in_office(rows, office_id).push(employee)
        } else {
            in_office(rows, office_id)
        }),
{
    assert(rows.push(employee).drop_last() == rows);
}

/// One row less: one employee less in the office of that row, and as many
/// as before in every other office.
pub proof fn lemma_in_office_remove(rows: Seq<Employee>, at: int, office_id: i32)
    requires
        0 <= at < rows.len(),
    ensures
        in_office(rows.remove(at), office_id).len() == in_office(rows, office_id).len() - (
        if rows[at].office_id == office_id {
            1int
        } else {
            0int
        }),
    decreases rows.len(),
{
    if at == rows.len() - 1 {
        assert(rows.remove(at) == rows.drop_last());
    } else {
        assert(rows.remove(at).drop_last() == rows.drop_last().remove(at));
        assert(rows.remove(at).last() == rows.last());
        lemma_in_office_remove(rows.drop_last(), at, office_id);
    }
}

/// One row changed: the office it leaves has one employee less, the office
/// it comes to has one more, and nothing changes where it stays.
pub proof fn lemma_in_office_update(rows: Seq<Employee>, at: int, employee: Employee, office_id: i32)
    requires
        0 <= at < rows.len(),
    ensures
        in_office(rows.update(at, employee), office_id).len() == in_office(rows, office_id).len()
            - (if rows[at].office_id == office_id {
            1int
        } else {
            0int
        }) + (if employee.office_id == office_id {
            1int
        } else {
            0int
        }),
    decreases rows.len(),
{
    if at == rows.len() - 1 {
        assert(rows.update(at, employee).drop_last() == rows.drop_last());
    } else {
        assert(rows.update(at, employee).drop_last() == rows.drop_last().update(at, employee));
        assert(rows.update(at, employee).last() == rows.last());
        lemma_in_office_update(rows.drop_last(), at, employee, office_id);
    }
}

/// A table stays well formed when it stores an employee, changes a row or
/// takes a row out.
pub proof fn lemma_table_stays_wf(table: EmployeeTable, id: i32, employee: Employee)
    requires
        table.wf(),
    ensures
        table.has_room() ==> table.insert(employee).wf(),
        table.update(id, employee).wf(),
        table.remove(id).wf(),
        !table.remove(id).has_id(id),
{
    if table.has_room() {
        let after = table.insert(employee);
        let last = table.rows.len() as int;
        assert forall|i: int, j: int| 0 <= i < j < after.rows.len() implies (
        #[trigger] after.rows[i]).id != (#[trigger] after.rows[j]).id by {
            if j < last {
                assert(table.rows[i].id != table.rows[j].id);
            } else {
                assert(table.rows[i].id->0 < table.next_id);
            }
        }
    }
    if table.has_id(id) {
        let at = table.index_of(id);
        assert(table.rows[at].id == Some(id));
        let changed = table.update(id, employee);
        assert forall|i: int, j: int| 0 <= i < j < changed.rows.len() implies (
        #[trigger] changed.rows[i]).id != (#[trigger] changed.rows[j]).id by {
            assert(table.rows[i].id != table.rows[j].id);
        }
        assert forall|i: int| 0 <= i < changed.rows.len() implies (#[trigger] changed.rows[i]).id
            is Some && 1 <= changed.rows[i].id->0 < changed.next_id by {
            assert(table.rows[i].id is Some);
        }
        let after = table.remove(id);
        assert forall|i: int| 0 <= i < after.rows.len() implies (#[trigger] after.rows[i])
            == table.rows[if i < at { i } else { i + 1 }] by {}
        assert forall|i: int, j: int| 0 <= i < j < after.rows.len() implies (
        #[trigger] after.rows[i]).id != (#[trigger] after.rows[j]).id by {
            assert(table.rows[if i < at { i } else { i + 1 }].id != table.rows[if j < at { j } else { j + 1 }].id);
        }
        assert forall|i: int| 0 <= i < after.rows.len() implies (#[trigger] after.rows[i]).id is Some
            && 1 <= after.rows[i].id->0 < after.next_id by {
            assert(table.rows[if i < at { i } else { i + 1 }].id is Some);
        }
        if after.has_id(id) {
            let k = after.index_of(id);
            assert(after.rows[k].id == Some(id));
            assert(table.rows[if k < at { k } else { k + 1 }].id != table.rows[at].id);
        }
    }
}

/// A table of employees in memory.
pub struct EmployeeRepository {
    rows: Vec<Employee>,
    next_id: i32,
}

impl View for EmployeeRepository {
    type V = EmployeeTable;

    closed spec fn view(&self) -> EmployeeTable {
        EmployeeTable { rows: self.rows@, next_id: self.next_id as int }
    }
}

impl EmployeeRepository {
    /// What the table holds is well formed at all times.
    #[verifier::type_invariant]
    pub open spec fn inv(self) -> bool {
        self@.wf()
    }

    /// An empty table; the first employee stored in it gets the identity 1.
    pub fn new() -> (repo: EmployeeRepository)
        ensures
            repo@ == (EmployeeTable { rows: Seq::empty(), next_id: 1 }),
            repo@.wf(),
    {
        EmployeeRepository { rows: Vec::new(), next_id: 1 }
    }

    /// An empty table whose first employee gets the identity `first_id`; `None`
    /// where `first_id` is below 1.
    pub fn starting_at(first_id: i32) -> (r: Option<EmployeeRepository>)
        ensures
            first_id < 1 ==> r is None,
            first_id >= 1 ==> r is Some && r->0@ == (EmployeeTable { rows: Seq::empty(), next_id: first_id as int })
                && r->0@.wf(),
    {
        if first_id < 1 {
            None
        } else {
            Some(EmployeeRepository { rows: Vec::new(), next_id: first_id })
        }
    }

    /// Stores `employee` as a new row behind the others and returns it as
    /// stored, with its identity. An identity that `employee` brings is not
    /// used. Fails with `IdentitiesExhausted`, and stores nothing, where the
    /// table has no identity left.
    pub fn create_employee(&mut self, employee: &Employee) -> (r: Result<Employee, StorageError>)
        ensures
            final(self)@.wf(),
            old(self)@.has_room() ==> r == Ok::<Employee, StorageError>(
                old(self)@.stored(*employee),
            ) && final(self)@ == old(self)@.insert(*employee),
            !old(self)@.has_room() ==> r == Err::<Employee, StorageError>(
                StorageError::IdentitiesExhausted,
            ) && final(self)@ == old(self)@,
    {
        proof {
            use_type_invariant(&*self);
        }
        if self.next_id == i32::MAX {
            return Err(StorageError::IdentitiesExhausted);
        }
        let id = self.next_id;
        let mut row = employee.clone();
        row.id = Some(id);
        let created = row.clone();
        let mut rows: Vec<Employee> = Vec::new();
        std::mem::swap(&mut rows, &mut self.rows);
        rows.push(row);
        self.next_id = id + 1;
        self.rows = rows;
        Ok(created)
    }

    /// The number of employees that work in the office `office_id`.
    pub fn current_employee_nr_by_office_id(&self, office_id: i32) -> (count: i64)
        ensures
            self@.wf(),
            count == self@.occupants(office_id),
    {
        proof {
            use_type_invariant(self);
        }
        let mut count: i64 = 0;
        let mut i: usize = 0;
        while i < self.rows.len()
            invariant
                i <= self.rows.len(),
                self.rows.len() < i32::MAX,
                count == in_office(self.rows@.take(i as int), office_id).len(),
                count <= i,
            decreases self.rows.len() - i,
        {
            proof {
                assert(self.rows@.take(i + 1).drop_last() == self.rows@.take(i as int));
            }
            if self.rows[i].office_id == office_id {
                count = count + 1;
            }
            i = i + 1;
        }
        assert(self.rows@.take(i as int) == self.rows@);
        count
    }

    /// The employee with the identity `id`, or `None` where the table has
    /// none.
    pub fn get_employee_by_id(&self, id: i32) -> (r: Option<Employee>)
        ensures
            self@.wf(),
            r == self@.by_id(id),
    {
        proof {
            use_type_invariant(self);
        }
        let mut i: usize = 0;
        while i < self.rows.len()
            invariant
                i <= self.rows.len(),
                self@.wf(),
                forall|k: int| 0 <= k < i ==> (#[trigger] self.rows@[k]).id != Some(id),
            decreases self.rows.len() - i,
        {
            let found = match self.rows[i].id {
                Some(k) => k == id,
                None => false,
            };
            if found {
                proof {
                    lemma_employee_by_id(self@, i as int);
                }
                return Some(self.rows[i].clone());
            }
            i = i + 1;
        }
        None
    }

    /// All employees, in the order in which they were stored.
    pub fn get_all_employees(&self) -> (r: Vec<Employee>)
        ensures
            self@.wf(),
            r@ == self@.rows,
    {
        proof {
            use_type_invariant(self);
        }
        let mut all: Vec<Employee> = Vec::new();
        let mut i: usize = 0;
        while i < self.rows.len()
            invariant
                i <= self.rows.len(),
                self@.wf(),
                all@ == self.rows@.take(i as int),
            decreases self.rows.len() - i,
        {
            all.push(self.rows[i].clone());
            assert(self.rows@.take(i + 1) == self.rows@.take(i as int).push(self.rows@[i as int]));
            i = i + 1;
        }
        assert(self.rows@.take(i as int) == self.rows@);
        all
    }

    /// The employees that work in the office `office_id`, in the order in
    /// which they were stored.
    pub fn get_employees_by_office_id(&self, office_id: i32) -> (r: Vec<Employee>)
        ensures
            self@.wf(),
            r@ == self@.of_office(office_id),
    {
        proof {
            use_type_invariant(self);
        }
        let mut found: Vec<Employee> = Vec::new();
        let mut i: usize = 0;
        while i < self.rows.len()
            invariant
                i <= self.rows.len(),
                self@.wf(),
                found@ == in_office(self.rows@.take(i as int), office_id),
            decreases self.rows.len() - i,
        {
            proof {
                assert(self.rows@.take(i + 1).drop_last() == self.rows@.take(i as int));
            }
            if self.rows[i].office_id == office_id {
                found.push(self.rows[i].clone());
            }
            i = i + 1;
        }
        assert(self.rows@.take(i as int) == self.rows@);
        found
    }

    /// Gives the row of identity `id` the fields of `employee` and returns the
    /// row as it now stands. An identity that `employee` brings is not used.
    /// Fails with `RowNotFound`, and changes nothing, where the table has no
    /// row of that identity.
    pub fn update_employee_by_id(&mut self, id: i32, employee: &Employee) -> (r: Result<
        Employee,
        StorageError,
    >)
        ensures
            final(self)@.wf(),
            final(self)@ == old(self)@.update(id, *employee),
            old(self)@.has_id(id) ==> r == Ok::<Employee, StorageError>(
                EmployeeTable::replaced(id, *employee),
            ),
            !old(self)@.has_id(id) ==> r == Err::<Employee, StorageError>(
                StorageError::RowNotFound,
            ),
    {
        proof {
            use_type_invariant(&*self);
        }
        let mut i: usize = 0;
        while i < self.rows.len()
            invariant
                i <= self.rows.len(),
                self@.wf(),
                self@ == old(self)@,
                forall|k: int| 0 <= k < i ==> (#[trigger] self.rows@[k]).id != Some(id),
            decreases self.rows.len() - i,
        {
            let found = match self.rows[i].id {
                Some(k) => k == id,
                None => false,
            };
            if found {
                proof {
                    lemma_employee_by_id(self@, i as int);
                }
                let mut row = employee.clone();
                row.id = Some(id);
                let updated = row.clone();
                let mut rows: Vec<Employee> = Vec::new();
                std::mem::swap(&mut rows, &mut self.rows);
                rows.set(i, row);
                self.rows = rows;
                return Ok(updated);
            }
            i = i + 1;
        }
        Err(StorageError::RowNotFound)
    }

    /// Takes out the row of identity `id` and returns the number of rows
    /// taken out: 1, or 0 where the table has no such row.
    pub fn delete_employee(&mut self, id: i32) -> (rows_affected: u64)
        ensures
            final(self)@.wf(),
            final(self)@ == old(self)@.remove(id),
            rows_affected == (if old(self)@.has_id(id) { 1u64 } else { 0u64 }),
    {
        proof {
            use_type_invariant(&*self);
        }
        let mut i: usize = 0;
        while i < self.rows.len()
            invariant
                i <= self.rows.len(),
                self@.wf(),
                self@ == old(self)@,
                forall|k: int| 0 <= k < i ==> (#[trigger] self.rows@[k]).id != Some(id),
            decreases self.rows.len() - i,
        {
            let found = match self.rows[i].id {
                Some(k) => k == id,
                None => false,
            };
            if found {
                proof {
                    lemma_employee_by_id(self@, i as int);
                }
                let mut rows: Vec<Employee> = Vec::new();
                std::mem::swap(&mut rows, &mut self.rows);
                let _ = rows.remove(i);
                self.rows = rows;
                return 1;
            }
            i = i + 1;
        }
        0
    }
}

} // verus!
