//! Handles, named references and the records that carry them.
use crate::name_index::{lookup, NameIndex};
use vstd::prelude::*;

verus! {

/// Identifies a record: the pool that owns it, by the number of its registered
/// type, and its slot in that pool. A handle of one pool is never valid for
/// another.
#[derive(Clone, Copy, Debug, PartialEq, Eq, Hash, Structural)]
pub struct Handle {
    pub pool: usize,
    pub slot: usize,
}

/// A reference to a record of the type `target` by its name. It starts out
/// unresolved and holds a handle into the target pool once resolved.
#[derive(Debug, PartialEq, Eq)]
pub struct NamedHandle {
    pub name: String,
    pub target: usize,
    pub maybe_handle: Option<Handle>,
}

/// A reference field of a record: a single named reference or a list of them.
#[derive(Debug, PartialEq, Eq)]
pub struct RefField {
    pub field: String,
    pub handles: Vec<NamedHandle>,
}

/// A loaded record: its lookup name, its reference fields, and the rest of
/// its fields as `data`.
#[derive(Debug, PartialEq)]
pub struct Record<D> {
    pub name: String,
    pub data: D,
    pub fields: Vec<RefField>,
}

impl NamedHandle {
    /// An unresolved reference, as it is read from a source file.
    pub fn new(name: String, target: usize) -> (r: NamedHandle)
        ensures
            r.name == name,
            r.target == target,
            r.maybe_handle is None,
    {
        NamedHandle { name, target, maybe_handle: None }
    }

    /// The handle of a resolved reference.
    pub fn get_handle(&self) -> (r: Handle)
        requires
            self.maybe_handle is Some,
        ensures
            self.maybe_handle == Some(r),
    {
        match self.maybe_handle {
            Some(handle) => handle,
            None => Handle { pool: self.target, slot: 0 },
        }
    }

    /// Looks the reference up: the handle of the first record of the target
    /// type that bears exactly this name, if there is one. The reference
    /// itself is left as it is.
    pub fn load(&self, ass: &NameIndex) -> (r: Option<Handle>)
        ensures
            r == lookup(ass@, self.target, self.name@),
    {
        ass.lookup(self.target, &self.name)
    }
}

/// No reference among `handles` is resolved.
pub open spec fn handles_unresolved(handles: Seq<NamedHandle>) -> bool {
    forall|k: int| 0 <= k < handles.len() ==> (#[trigger] handles[k]).maybe_handle is None
}

/// No reference in any of `fields` is resolved.
pub open spec fn fields_unresolved(fields: Seq<RefField>) -> bool {
    forall|j: int| 0 <= j < fields.len() ==> handles_unresolved((#[trigger] fields[j]).handles@)
}

impl RefField {
    /// A field that holds one unresolved reference.
    pub fn single(field: String, name: String, target: usize) -> (r: RefField)
        ensures
            r.field == field,
            r.handles@.len() == 1,
            r.handles@[0].name == name,
            r.handles@[0].target == target,
            r.handles@[0].maybe_handle is None,
    {
        let mut handles: Vec<NamedHandle> = Vec::new();
        handles.push(NamedHandle::new(name, target));
        RefField { field, handles }
    }

    /// A field that holds a list of unresolved references to one target type,
    /// in the order of `names`.
    pub fn list(field: String, names: Vec<String>, target: usize) -> (r: RefField)
        ensures
            r.field == field,
            r.handles@.len() == names@.len(),
            forall|k: int|
                0 <= k < names@.len() ==> {
                    &&& (#[trigger] r.handles@[k]).name == names@[k]
                    &&& r.handles@[k].target == target
                    &&& r.handles@[k].maybe_handle is None
                },
    {
        let mut handles: Vec<NamedHandle> = Vec::new();
        let mut k: usize = 0;
        while k < names.len()
            invariant
                k <= names@.len(),
                handles@.len() == k,
                forall|i: int|
                    0 <= i < k ==> {
                        &&& (#[trigger] handles@[i]).name == names@[i]
                        &&& handles@[i].target == target
                        &&& handles@[i].maybe_handle is None
                    },
            decreases names@.len() - k,
        {
            handles.push(NamedHandle::new(names[k].clone(), target));
            k += 1;
        }
        RefField { field, handles }
    }

    /// Whether no reference of the field is resolved.
    pub fn is_unresolved(&self) -> (r: bool)
        ensures
            r == handles_unresolved(self.handles@),
    {
        let mut k: usize = 0;
        while k < self.handles.len()
            invariant
                k <= self.handles@.len(),
                forall|i: int| 0 <= i < k ==> (#[trigger] self.handles@[i]).maybe_handle is None,
            decreases self.handles@.len() - k,
        {
            if self.handles[k].maybe_handle.is_some() {
                return false;
            }
            k += 1;
        }
        true
    }
}

impl<D> Record<D> {
    /// A record with the given name, data and reference fields.
    pub fn new(name: String, data: D, fields: Vec<RefField>) -> (r: Record<D>)
        ensures
            r.name == name,
            r.data == data,
            r.fields == fields,
    {
        Record { name, data, fields }
    }

    /// Whether no reference of the record is resolved.
    pub fn is_unresolved(&self) -> (r: bool)
        ensures
            r == fields_unresolved(self.fields@),
    {
        let mut j: usize = 0;
        while j < self.fields.len()
            invariant
                j <= self.fields@.len(),
                forall|i: int|
                    0 <= i < j ==> handles_unresolved((#[trigger] self.fields@[i]).handles@),
            decreases self.fields@.len() - j,
        {
            if !self.fields[j].is_unresolved() {
                return false;
            }
            j += 1;
        }
        true
    }
}

} // verus!
