//! The pool of a record type: every loaded record of the type, in the order
//! in which the records came in.
use crate::name_index::{
    first_slot, lemma_first_slot, lemma_first_slot_unique, names_of, record_names,
};
use crate::named_handle::{Handle, NamedHandle, Record};
use vstd::prelude::*;

verus! {

/// The records of one registered type. `id` is the number of the type; the
/// handle of a record is `id` together with the record's slot.
#[derive(Debug, PartialEq)]
pub struct Pool<D> {
    pub id: usize,
    pub records: Vec<Record<D>>,
}

/// Access to the record that a named reference was resolved to.
pub trait GetNamedTrait<T> {
    /// The record that `h` leads to in this pool, if `h` is resolved to a
    /// handle of this pool.
    spec fn named(&self, h: &NamedHandle) -> Option<T>;

    /// The record that `h` leads to, or nothing where `h` is unresolved or its
    /// handle is not one of this pool.
    fn get_named(&self, h: &NamedHandle) -> (r: Option<&T>)
        ensures
            match r {
                Some(record) => self.named(h) == Some(*record),
                None => self.named(h) is None,
            },
    ;

    /// The record that a reference resolved into this pool leads to.
    fn get_named_expect(&self, h: &NamedHandle) -> (r: &T)
        requires
            self.named(h) is Some,
        ensures
            self.named(h) == Some(*r),
    ;
}

impl<D> Pool<D> {
    /// The record that `handle` identifies: none for a handle of another pool
    /// or for a slot that the pool does not have.
    pub open spec fn spec_get(&self, handle: Handle) -> Option<Record<D>> {
        if handle.pool == self.id && handle.slot < self.records@.len() {
            Some(self.records@[handle.slot as int])
        } else {
            None
        }
    }

    /// The handle of the first record that bears `name`.
    pub open spec fn spec_get_by_name(&self, name: Seq<char>) -> Option<Handle> {
        match first_slot(record_names(self.records@), name) {
            Some(slot) => Some(Handle { pool: self.id, slot: slot as usize }),
            None => None,
        }
    }

    /// The empty pool of the type `id`.
    pub fn new(id: usize) -> (r: Pool<D>)
        ensures
            r.id == id,
            r.records@.len() == 0,
    {
        Pool { id, records: Vec::new() }
    }

    /// The number of records.
    pub fn len(&self) -> (r: usize)
        ensures
            r == self.records@.len(),
    {
        self.records.len()
    }

    /// Adds a record behind the others and hands out its handle.
    pub fn insert(&mut self, record: Record<D>) -> (r: Handle)
        ensures
            final(self).id == old(self).id,
            final(self).records@ == old(self).records@.push(record),
            r == (Handle { pool: old(self).id, slot: old(self).records@.len() as usize }),
            final(self).spec_get(r) == Some(record),
    {
        let slot = self.records.len();
        self.records.push(record);
        Handle { pool: self.id, slot }
    }

    /// The record that `handle` identifies.
    pub fn get(&self, handle: Handle) -> (r: Option<&Record<D>>)
        ensures
            match r {
                Some(record) => self.spec_get(handle) == Some(*record),
                None => self.spec_get(handle) is None,
            },
    {
        if handle.pool == self.id && handle.slot < self.records.len() {
            Some(&self.records[handle.slot])
        } else {
            None
        }
    }

    /// The handle of the first record whose name is exactly `name`.
    pub fn get_by_name(&self, name: &str) -> (r: Option<Handle>)
        ensures
            r == self.spec_get_by_name(name@),
            r matches Some(handle) ==> self.spec_get(handle) matches Some(record) && record.name@
                == name@,
    {
        let wanted = name.to_owned();
        let mut i: usize = 0;
        while i < self.records.len()
            invariant
                i <= self.records@.len(),
                wanted@ == name@,
                forall|j: int| 0 <= j < i ==> record_names(self.records@)[j] != name@,
            decreases self.records@.len() - i,
        {
            if self.records[i].name == wanted {
                proof {
                    lemma_first_slot_unique(record_names(self.records@), name@, i as int);
                }
                return Some(Handle { pool: self.id, slot: i });
            }
            i += 1;
        }
        proof {
            lemma_first_slot(record_names(self.records@), name@);
        }
        None
    }

    /// The names of the records, slot by slot.
    pub fn names(&self) -> (r: Vec<String>)
        ensures
            names_of(r@) == record_names(self.records@),
    {
        let mut names: Vec<String> = Vec::new();
        let mut i: usize = 0;
        while i < self.records.len()
            invariant
                i <= self.records@.len(),
                names@.len() == i,
                forall|j: int| 0 <= j < i ==> (#[trigger] names@[j])@ == self.records@[j].name@,
            decreases self.records@.len() - i,
        {
            names.push(self.records[i].name.clone());
            i += 1;
        }
        assert(names_of(names@) =~= record_names(self.records@));
        names
    }
}

impl<D> GetNamedTrait<Record<D>> for Pool<D> {
    open spec fn named(&self, h: &NamedHandle) -> Option<Record<D>> {
        match h.maybe_handle {
            Some(handle) => self.spec_get(handle),
            None => None,
        }
    }

    fn get_named(&self, h: &NamedHandle) -> (r: Option<&Record<D>>) {
        match h.maybe_handle {
            Some(handle) => self.get(handle),
            None => None,
        }
    }

    fn get_named_expect(&self, h: &NamedHandle) -> (r: &Record<D>) {
        let handle = h.get_handle();
        &self.records[handle.slot]
    }
}

} // verus!
