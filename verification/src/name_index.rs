//! The names of the records of every pool, by which references are looked up.
use crate::named_handle::{Handle, Record};
use crate::pool::Pool;
use vstd::prelude::*;

verus! {

/// The first slot at which `name` stands in `names`. Names are compared
/// character by character: a name that differs in case is another name.
pub open spec fn first_slot(names: Seq<Seq<char>>, name: Seq<char>) -> Option<int>
    decreases names.len(),
{
    if names.len() == 0 {
        None
    } else {
        match first_slot(names.drop_last(), name) {
            Some(slot) => Some(slot),
            None => if names.last() == name {
                Some(names.len() - 1)
            } else {
                None
            },
        }
    }
}

/// `first_slot` finds a slot that holds the name and has no match before it,
/// and finds none only where no slot holds the name.
pub proof fn lemma_first_slot(names: Seq<Seq<char>>, name: Seq<char>)
    ensures
        match first_slot(names, name) {
            Some(slot) => {
                &&& 0 <= slot < names.len()
                &&& names[slot] == name
                &&& forall|j: int| 0 <= j < slot ==> names[j] != name
            },
            None => forall|j: int| 0 <= j < names.len() ==> names[j] != name,
        },
    decreases names.len(),
{
    if names.len() > 0 {
        let init = names.drop_last();
        lemma_first_slot(init, name);
        assert forall|j: int| 0 <= j < init.len() implies init[j] == names[j] by {}
        match first_slot(init, name) {
            Some(slot) => {
                assert forall|j: int| 0 <= j < slot implies names[j] != name by {
                    assert(init[j] != name);
                }
            },
            None => {
                assert forall|j: int| 0 <= j < names.len() - 1 implies names[j] != name by {
                    assert(init[j] != name);
                }
            },
        }
    }
}

/// A slot that holds the name and has no match before it is the first slot.
pub proof fn lemma_first_slot_unique(names: Seq<Seq<char>>, name: Seq<char>, slot: int)
    requires
        0 <= slot < names.len(),
        names[slot] == name,
        forall|j: int| 0 <= j < slot ==> names[j] != name,
    ensures
        first_slot(names, name) == Some(slot),
{
    lemma_first_slot(names, name);
}

/// The names of a list of strings, as character sequences.
pub open spec fn names_of(names: Seq<String>) -> Seq<Seq<char>> {
    Seq::new(names.len(), |i: int| names[i]@)
}

/// The names of the records of a pool, slot by slot.
pub open spec fn record_names<D>(records: Seq<Record<D>>) -> Seq<Seq<char>> {
    Seq::new(records.len(), |i: int| records[i].name@)
}

/// The names of the records of every pool, pool by pool.
pub open spec fn pool_names<D>(pools: Seq<Pool<D>>) -> Seq<Seq<Seq<char>>> {
    Seq::new(pools.len(), |t: int| record_names(pools[t].records@))
}

/// The handle that `name` resolves to in the pool of the type `target`: the
/// first record of that pool that bears the name. There is none where no type
/// is registered under `target`.
pub open spec fn lookup(index: Seq<Seq<Seq<char>>>, target: usize, name: Seq<char>) -> Option<
    Handle,
> {
    if target < index.len() {
        match first_slot(index[target as int], name) {
            Some(slot) => Some(Handle { pool: target, slot: slot as usize }),
            None => None,
        }
    } else {
        None
    }
}

/// The first slot of `names` that holds `name`.
pub fn find_name(names: &Vec<String>, name: &String) -> (r: Option<usize>)
    ensures
        match r {
            Some(slot) => first_slot(names_of(names@), name@) == Some(slot as int),
            None => first_slot(names_of(names@), name@) is None,
        },
{
    let mut i: usize = 0;
    while i < names.len()
        invariant
            i <= names@.len(),
            forall|j: int| 0 <= j < i ==> names_of(names@)[j] != name@,
        decreases names@.len() - i,
    {
        if names[i] == *name {
            proof {
                lemma_first_slot_unique(names_of(names@), name@, i as int);
            }
            return Some(i);
        }
        i += 1;
    }
    proof {
        lemma_first_slot(names_of(names@), name@);
    }
    None
}

/// A snapshot of the names in every pool, taken when the pools are complete.
#[derive(Debug, PartialEq, Eq)]
pub struct NameIndex {
    pub names: Vec<Vec<String>>,
}

impl View for NameIndex {
    type V = Seq<Seq<Seq<char>>>;

    open spec fn view(&self) -> Seq<Seq<Seq<char>>> {
        Seq::new(self.names@.len(), |t: int| names_of(self.names@[t]@))
    }
}

impl NameIndex {
    /// Takes the snapshot of `pools`.
    pub fn build<D>(pools: &Vec<Pool<D>>) -> (r: NameIndex)
        ensures
            r@ == pool_names(pools@),
    {
        let mut names: Vec<Vec<String>> = Vec::new();
        let mut t: usize = 0;
        while t < pools.len()
            invariant
                t <= pools@.len(),
                names@.len() == t,
                forall|u: int|
                    0 <= u < t ==> names_of((#[trigger] names@[u])@) == record_names(
                        pools@[u].records@,
                    ),
            decreases pools@.len() - t,
        {
            names.push(pools[t].names());
            t += 1;
        }
        let r = NameIndex { names };
        assert(r@ =~= pool_names(pools@));
        r
    }

    /// The handle that `name` resolves to in the pool of the type `target`.
    pub fn lookup(&self, target: usize, name: &String) -> (r: Option<Handle>)
        ensures
            r == lookup(self@, target, name@),
    {
        if target < self.names.len() {
            match find_name(&self.names[target], name) {
                Some(slot) => Some(Handle { pool: target, slot }),
                None => None,
            }
        } else {
            None
        }
    }
}

} // verus!
