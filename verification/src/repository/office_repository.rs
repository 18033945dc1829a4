//! The table of offices.

use crate::entity::office::Office;
use crate::repository::StorageError;
use vstd::prelude::*;

verus! {

/// What a table of offices holds: its rows in the order in which they were
/// stored, and the identity that the next office gets.
pub struct OfficeTable {
    pub rows: Seq<Office>,
    pub next_id: int,
}

impl OfficeTable {
    /// Every row has an identity below the next one to be given out, no two
    /// rows share one, and there are fewer rows than identities given out.
    pub open spec fn wf(self) -> bool {
        &&& 1 <= self.next_id <= i32::MAX
        &&& self.rows.len() < self.next_id
        &&& forall|i: int|
            0 <= i < self.rows.len() ==> (#[trigger] self.rows[i]).id is Some && 1
                <= self.rows[i].id->0 < self.next_id
        &&& forall|i: int, j: int|
            0 <= i < j < self.rows.len() ==> (#[trigger] self.rows[i]).id != (
            #[trigger] self.rows[j]).id
    }

    /// No two rows have the same name.
    pub open spec fn names_unique(self) -> bool {
        forall|i: int, j: int|
            0 <= i < j < self.rows.len() ==> (#[trigger] self.rows[i]).name@ != (
            #[trigger] self.rows[j]).name@
    }

    /// Some row has the identity `id`.
    pub open spec fn has_id(self, id: i32) -> bool {
        exists|i: int| 0 <= i < self.rows.len() && (#[trigger] self.rows[i]).id == Some(id)
    }

    /// The place of a row with the identity `id`, where there is one.
    pub open spec fn index_of(self, id: i32) -> int {
        choose|i: int| 0 <= i < self.rows.len() && (#[trigger] self.rows[i]).id == Some(id)
    }

    /// The office with the identity `id`, if the table has it.
    pub open spec fn by_id(self, id: i32) -> Option<Office> {
        if self.has_id(id) {
            Some(self.rows[self.index_of(id)])
        } else {
            None
        }
    }

    /// Some row has the name `name`, character for character.
    pub open spec fn has_name(self, name: Seq<char>) -> bool {
        exists|i: int| 0 <= i < self.rows.len() && (#[trigger] self.rows[i]).name@ == name
    }

    /// The row at `i` has the name `name`, and no row before it has.
    pub open spec fn first_named(self, name: Seq<char>, i: int) -> bool {
        &&& 0 <= i < self.rows.len()
        &&& self.rows[i].name@ == name
        &&& forall|j: int| 0 <= j < i ==> (#[trigger] self.rows[j]).name@ != name
    }

    /// The first office, in the order of the rows, with the name `name`.
    pub open spec fn by_name(self, name: Seq<char>) -> Option<Office> {
        if self.has_name(name) {
            Some(self.rows[choose|i: int| self.first_named(name, i)])
        } else {
            None
        }
    }

    /// Whether the table can still give out an identity.
    pub open spec fn has_room(self) -> bool {
        self.next_id < i32::MAX
    }

    /// `office` as the table stores it next: with the next identity.
    pub open spec fn stored(self, office: Office) -> Office {
        Office { id: Some(self.next_id as i32), name: office.name, max_occupancy: office.max_occupancy }
    }

    /// The table after it has stored `office` behind its rows.
    pub open spec fn insert(self, office: Office) -> OfficeTable {
        OfficeTable { rows: self.rows.push(self.stored(office)), next_id: self.next_id + 1 }
    }

    /// `office` as it stands in the row of identity `id` after an update:
    /// name and capacity are taken over, the identity stays.
    pub open spec fn replaced(id: i32, office: Office) -> Office {
        Office { id: Some(id), name: office.name, max_occupancy: office.max_occupancy }
    }

    /// The table after the row of identity `id` has taken over name and
    /// capacity of `office`; the same table where it has no such row.
    pub open spec fn update(self, id: i32, office: Office) -> OfficeTable {
        if self.has_id(id) {
            OfficeTable {
                rows: self.rows.update(self.index_of(id), Self::replaced(id, office)),
                next_id: self.next_id,
            }
        } else {
            self
        }
    }

    /// The table without the row of identity `id`; the same table where it
    /// has no such row.
    pub open spec fn remove(self, id: i32) -> OfficeTable {
        if self.has_id(id) {
            OfficeTable { rows: self.rows.remove(self.index_of(id)), next_id: self.next_id }
        } else {
            self
        }
    }
}

/// In a well-formed table a row is found under its own identity.
pub proof fn lemma_row_by_id(table: OfficeTable, i: int)
    requires
        table.wf(),
        0 <= i < table.rows.len(),
    ensures
        table.has_id(table.rows[i].id->0),
        table.index_of(table.rows[i].id->0) == i,
        table.by_id(table.rows[i].id->0) == Some(table.rows[i]),
{
    let id = table.rows[i].id->0;
    assert(table.rows[i].id == Some(id));
    let k = table.index_of(id);
    if k < i {
        assert(table.rows[k].id != table.rows[i].id);
    }
    if i < k {
        assert(table.rows[i].id != table.rows[k].id);
    }
}

/// The row at `i` is the first of its name, so a search by name finds it.
pub proof fn lemma_row_by_name(table: OfficeTable, name: Seq<char>, i: int)
    requires
        table.first_named(name, i),
    ensures
        table.by_name(name) == Some(table.rows[i]),
{
    let k = choose|k: int| table.first_named(name, k);
    assert(table.first_named(name, k));
    if k < i {
        assert(table.rows[k].name@ != name);
    }
    if i < k {
        assert(table.rows[i].name@ != name);
    }
}

/// A table of offices in memory.
pub struct OfficeRepository {
    rows: Vec<Office>,
    next_id: i32,
}

impl View for OfficeRepository {
    type V = OfficeTable;

    closed spec fn view(&self) -> OfficeTable {
        OfficeTable { rows: self.rows@, next_id: self.next_id as int }
    }
}

impl OfficeRepository {
    /// What the table holds is well formed at all times.
    #[verifier::type_invariant]
    pub open spec fn inv(self) -> bool {
        self@.wf()
    }

    /// An empty table; the first office stored in it gets the identity 1.
    pub fn new() -> (repo: OfficeRepository)
        ensures
            repo@ == (OfficeTable { rows: Seq::empty(), next_id: 1 }),
            repo@.wf(),
    {
        OfficeRepository { rows: Vec::new(), next_id: 1 }
    }

    /// An empty table whose first office gets the identity `first_id`; `None`
    /// where `first_id` is below 1.
    pub fn starting_at(first_id: i32) -> (r: Option<OfficeRepository>)
        ensures
            first_id < 1 ==> r is None,
            first_id >= 1 ==> r is Some && r->0@ == (OfficeTable { rows: Seq::empty(), next_id: first_id as int })
                && r->0@.wf(),
    {
        if first_id < 1 {
            None
        } else {
            Some(OfficeRepository { rows: Vec::new(), next_id: first_id })
        }
    }

    /// Stores `office` as a new row behind the others and returns it as
    /// stored, with its identity. An identity that `office` brings is not
    /// used. Fails with `IdentitiesExhausted`, and stores nothing, where the
    /// table has no identity left.
    pub fn create_office(&mut self, office: &Office) -> (r: Result<Office, StorageError>)
        ensures
            final(self)@.wf(),
            old(self)@.has_room() ==> r == Ok::<Office, StorageError>(old(self)@.stored(*office))
                && final(self)@ == old(self)@.insert(*office),
            !old(self)@.has_room() ==> r == Err::<Office, StorageError>(
                StorageError::IdentitiesExhausted,
            ) && final(self)@ == old(self)@,
    {
        proof {
            use_type_invariant(&*self);
        }
        if self.next_id == i32::MAX {
            return Err(StorageError::IdentitiesExhausted);
        }
        let id = self.next_id;
        let row = Office { id: Some(id), name: office.name.clone(), max_occupancy: office.max_occupancy };
        let created = row.clone();
        let mut rows: Vec<Office> = Vec::new();
        std::mem::swap(&mut rows, &mut self.rows);
        rows.push(row);
        self.next_id = id + 1;
        self.rows = rows;
        Ok(created)
    }

    /// The office with the identity `id`, or `None` where the table has none.
    pub fn get_office_by_id(&self, id: i32) -> (r: Option<Office>)
        ensures
            self@.wf(),
            r == self@.by_id(id),
    {
        proof {
            use_type_invariant(self);
        }
        let mut i: usize = 0;
        while i < self.rows.len()
            invariant
                i <= self.rows.len(),
                self@.wf(),
                forall|k: int| 0 <= k < i ==> (#[trigger] self.rows@[k]).id != Some(id),
            decreases self.rows.len() - i,
        {
            let found = match self.rows[i].id {
                Some(k) => k == id,
                None => false,
            };
            if found {
                proof {
                    lemma_row_by_id(self@, i as int);
                }
                return Some(self.rows[i].clone());
            }
            i = i + 1;
        }
        None
    }

    /// All offices, in the order in which they were stored.
    pub fn get_all_offices(&self) -> (r: Vec<Office>)
        ensures
            self@.wf(),
            r@ == self@.rows,
    {
        proof {
            use_type_invariant(self);
        }
        let mut all: Vec<Office> = Vec::new();
        let mut i: usize = 0;
        while i < self.rows.len()
            invariant
                i <= self.rows.len(),
                self@.wf(),
                all@ == self.rows@.take(i as int),
            decreases self.rows.len() - i,
        {
            all.push(self.rows[i].clone());
            assert(self.rows@.take(i + 1) == self.rows@.take(i as int).push(self.rows@[i as int]));
            i = i + 1;
        }
        assert(self.rows@.take(i as int) == self.rows@);
        all
    }

    /// The first office stored under the name `name`, compared character for
    /// character, or `None` where no office has that name.
    pub fn get_office_by_name(&self, name: &str) -> (r: Option<Office>)
        ensures
            self@.wf(),
            r == self@.by_name(name@),
    {
        proof {
            use_type_invariant(self);
        }
        let wanted = name.to_owned();
        let mut i: usize = 0;
        while i < self.rows.len()
            invariant
                i <= self.rows.len(),
                wanted@ == name@,
                self@.wf(),
                forall|k: int| 0 <= k < i ==> (#[trigger] self.rows@[k]).name@ != name@,
            decreases self.rows.len() - i,
        {
            if self.rows[i].name == wanted {
                proof {
                    lemma_row_by_name(self@, name@, i as int);
                }
                return Some(self.rows[i].clone());
            }
            i = i + 1;
        }
        None
    }

    /// Gives the row of identity `id` the name and the capacity of `office`
    /// and returns the row as it now stands. An identity that `office` brings
    /// is not used. Fails with `RowNotFound`, and changes nothing, where the
    /// table has no row of that identity.
    pub fn update_office_by_id(&mut self, id: i32, office: &Office) -> (r: Result<
        Office,
        StorageError,
    >)
        ensures
            final(self)@.wf(),
            final(self)@ == old(self)@.update(id, *office),
            old(self)@.has_id(id) ==> r == Ok::<Office, StorageError>(
                OfficeTable::replaced(id, *office),
            ),
            !old(self)@.has_id(id) ==> r == Err::<Office, StorageError>(StorageError::RowNotFound),
    {
        proof {
            use_type_invariant(&*self);
        }
        let mut i: usize = 0;
        while i < self.rows.len()
            invariant
                i <= self.rows.len(),
                self@.wf(),
                self@ == old(self)@,
                forall|k: int| 0 <= k < i ==> (#[trigger] self.rows@[k]).id != Some(id),
            decreases self.rows.len() - i,
        {
            let found = match self.rows[i].id {
                Some(k) => k == id,
                None => false,
            };
            if found {
                proof {
                    lemma_row_by_id(self@, i as int);
                }
                let row = Office {
                    id: Some(id),
                    name: office.name.clone(),
                    max_occupancy: office.max_occupancy,
                };
                let updated = row.clone();
                let mut rows: Vec<Office> = Vec::new();
                std::mem::swap(&mut rows, &mut self.rows);
                rows.set(i, row);
                self.rows = rows;
                return Ok(updated);
            }
            i = i + 1;
        }
        Err(StorageError::RowNotFound)
    }

    /// Takes out the row of identity `id` and returns the number of rows
    /// taken out: 1, or 0 where the table has no such row.
    pub fn delete_office(&mut self, id: i32) -> (rows_affected: u64)
        ensures
            final(self)@.wf(),
            final(self)@ == old(self)@.remove(id),
            rows_affected == (if old(self)@.has_id(id) { 1u64 } else { 0u64 }),
    {
        proof {
            use_type_invariant(&*self);
        }
        let mut i: usize = 0;
        while i < self.rows.len()
            invariant
                i <= self.rows.len(),
                self@.wf(),
                self@ == old(self)@,
                forall|k: int| 0 <= k < i ==> (#[trigger] self.rows@[k]).id != Some(id),
            decreases self.rows.len() - i,
        {
            let found = match self.rows[i].id {
                Some(k) => k == id,
                None => false,
            };
            if found {
                proof {
                    lemma_row_by_id(self@, i as int);
                }
                let mut rows: Vec<Office> = Vec::new();
                std::mem::swap(&mut rows, &mut self.rows);
                let _ = rows.remove(i);
                self.rows = rows;
                return 1;
            }
            i = i + 1;
        }
        0
    }
}

} // verus!
