//! Resolving the named references of a pool.
//!
//! Every reference is looked up by its name in the pool of its target type.
//! A reference that is found is resolved to the handle of the record found; one
//! that is not found is left as it was and reported. Nothing else in a record
//! changes.
use crate::error::SpecError;
use crate::name_index::{first_slot, lemma_first_slot, lookup, pool_names, record_names, NameIndex};
use crate::named_handle::{NamedHandle, Record, RefField};
use crate::pool::Pool;
use vstd::prelude::*;

verus! {

/// `after` is the reference `before` once it was looked up in `index`.
pub open spec fn handle_populated(
    before: NamedHandle,
    after: NamedHandle,
    index: Seq<Seq<Seq<char>>>,
) -> bool {
    &&& after.name == before.name
    &&& after.target == before.target
    &&& after.maybe_handle == match lookup(index, before.target, before.name@) {
        Some(handle) => Some(handle),
        None => before.maybe_handle,
    }
}

/// `after` holds the references of `before`, each looked up in `index`.
pub open spec fn handles_populated(
    before: Seq<NamedHandle>,
    after: Seq<NamedHandle>,
    index: Seq<Seq<Seq<char>>>,
) -> bool {
    &&& after.len() == before.len()
    &&& forall|k: int|
        0 <= k < before.len() ==> handle_populated(before[k], #[trigger] after[k], index)
}

/// `after` is the field `before` with its references looked up in `index`.
pub open spec fn field_populated(before: RefField, after: RefField, index: Seq<Seq<Seq<char>>>) -> bool {
    &&& after.field == before.field
    &&& handles_populated(before.handles@, after.handles@, index)
}

/// `after` holds the fields of `before`, each with its references looked up.
pub open spec fn fields_populated(
    before: Seq<RefField>,
    after: Seq<RefField>,
    index: Seq<Seq<Seq<char>>>,
) -> bool {
    &&& after.len() == before.len()
    &&& forall|j: int|
        0 <= j < before.len() ==> field_populated(before[j], #[trigger] after[j], index)
}

/// `after` is the record `before` with its references looked up in `index`:
/// the name and the data are those of `before`.
pub open spec fn record_populated<D>(
    before: Record<D>,
    after: Record<D>,
    index: Seq<Seq<Seq<char>>>,
) -> bool {
    &&& after.name == before.name
    &&& after.data == before.data
    &&& fields_populated(before.fields@, after.fields@, index)
}

/// `after` holds the records of `before`, slot by slot, each with its
/// references looked up in `index`.
pub open spec fn records_populated<D>(
    before: Seq<Record<D>>,
    after: Seq<Record<D>>,
    index: Seq<Seq<Seq<char>>>,
) -> bool {
    &&& after.len() == before.len()
    &&& forall|i: int|
        0 <= i < before.len() ==> record_populated(before[i], #[trigger] after[i], index)
}

/// One `UnresolvedName` for each reference among `handles` that `index` does
/// not resolve, in order.
pub open spec fn unresolved_in_handles(
    owning_type: usize,
    field: String,
    handles: Seq<NamedHandle>,
    index: Seq<Seq<Seq<char>>>,
) -> Seq<SpecError>
    decreases handles.len(),
{
    if handles.len() == 0 {
        Seq::empty()
    } else {
        let before = unresolved_in_handles(owning_type, field, handles.drop_last(), index);
        if lookup(index, handles.last().target, handles.last().name@) is None {
            before.push(SpecError::UnresolvedName { owning_type, field, name: handles.last().name })
        } else {
            before
        }
    }
}

/// The unresolved references of `fields`, field by field.
pub open spec fn unresolved_in_fields(
    owning_type: usize,
    fields: Seq<RefField>,
    index: Seq<Seq<Seq<char>>>,
) -> Seq<SpecError>
    decreases fields.len(),
{
    if fields.len() == 0 {
        Seq::empty()
    } else {
        unresolved_in_fields(owning_type, fields.drop_last(), index) + unresolved_in_handles(
            owning_type,
            fields.last().field,
            fields.last().handles@,
            index,
        )
    }
}

/// The unresolved references of `records`, record by record.
pub open spec fn unresolved_in_records<D>(
    owning_type: usize,
    records: Seq<Record<D>>,
    index: Seq<Seq<Seq<char>>>,
) -> Seq<SpecError>
    decreases records.len(),
{
    if records.len() == 0 {
        Seq::empty()
    } else {
        unresolved_in_records(owning_type, records.drop_last(), index) + unresolved_in_fields(
            owning_type,
            records.last().fields@,
            index,
        )
    }
}

/// The record at `slot` bears the name of a record at an earlier slot.
pub open spec fn repeats_name<D>(records: Seq<Record<D>>, slot: int) -> bool {
    first_slot(record_names(records.take(slot)), records[slot].name@) is Some
}

/// One `DuplicateName` for each record that bears the name of an earlier
/// record of the pool, in slot order.
pub open spec fn duplicate_names<D>(spec_type: usize, records: Seq<Record<D>>) -> Seq<SpecError>
    decreases records.len(),
{
    if records.len() == 0 {
        Seq::empty()
    } else {
        let before = duplicate_names(spec_type, records.drop_last());
        if repeats_name(records, records.len() - 1) {
            before.push(SpecError::DuplicateName { spec_type, name: records.last().name })
        } else {
            before
        }
    }
}

/// The faults of one pool: its duplicate names, then its unresolved
/// references.
pub open spec fn type_errors<D>(
    spec_type: usize,
    records: Seq<Record<D>>,
    index: Seq<Seq<Seq<char>>>,
) -> Seq<SpecError> {
    duplicate_names(spec_type, records) + unresolved_in_records(spec_type, records, index)
}

/// A record type whose named references can be resolved against the names of
/// the loaded records.
pub trait PopulateHandles: Sized {
    /// `self` is `before` with its references looked up in `ass`.
    spec fn populated_from(&self, before: &Self, ass: Seq<Seq<Seq<char>>>) -> bool;

    /// The references of `self` that `ass` does not resolve, as faults of the
    /// type `owning_type`.
    spec fn unresolved_names(&self, owning_type: usize, ass: Seq<Seq<Seq<char>>>) -> Seq<SpecError>;

    /// Resolves every reference that `ass` resolves and reports the others.
    fn populate_handles(&mut self, owning_type: usize, ass: &NameIndex) -> (errors: Vec<SpecError>)
        ensures
            final(self).populated_from(old(self), ass@),
            errors@ == old(self).unresolved_names(owning_type, ass@),
    ;
}

fn populate_field(
    field: &mut RefField,
    owning_type: usize,
    ass: &NameIndex,
    errors: &mut Vec<SpecError>,
)
    ensures
        field_populated(*old(field), *final(field), ass@),
        final(errors)@ == old(errors)@ + unresolved_in_handles(
            owning_type,
            old(field).field,
            old(field).handles@,
            ass@,
        ),
{
    let ghost before = *field;
    let ghost reported = errors@;
    let mut k: usize = 0;
    while k < field.handles.len()
        invariant
            k <= before.handles@.len(),
            field.field == before.field,
            field.handles@.len() == before.handles@.len(),
            forall|i: int|
                0 <= i < k ==> handle_populated(
                    before.handles@[i],
                    #[trigger] field.handles@[i],
                    ass@,
                ),
            forall|i: int|
                k <= i < before.handles@.len() ==> #[trigger] field.handles@[i]
                    == before.handles@[i],
            errors@ == reported + unresolved_in_handles(
                owning_type,
                before.field,
                before.handles@.take(k as int),
                ass@,
            ),
        decreases before.handles@.len() - k,
    {
        proof {
            assert(before.handles@.take(k + 1).drop_last() == before.handles@.take(k as int));
            assert(before.handles@.take(k + 1).last() == before.handles@[k as int]);
        }
        match field.handles[k].load(ass) {
            Some(handle) => {
                field.handles[k].maybe_handle = Some(handle);
            },
            None => {
                errors.push(
                    SpecError::UnresolvedName {
                        owning_type,
                        field: field.field.clone(),
                        name: field.handles[k].name.clone(),
                    },
                );
            },
        }
        k += 1;
    }
    proof {
        assert(before.handles@.take(before.handles@.len() as int) == before.handles@);
    }
}

impl<D> PopulateHandles for Record<D> {
    open spec fn populated_from(&self, before: &Self, ass: Seq<Seq<Seq<char>>>) -> bool {
        record_populated(*before, *self, ass)
    }

    open spec fn unresolved_names(&self, owning_type: usize, ass: Seq<Seq<Seq<char>>>) -> Seq<
        SpecError,
    > {
        unresolved_in_fields(owning_type, self.fields@, ass)
    }

    fn populate_handles(&mut self, owning_type: usize, ass: &NameIndex) -> (errors: Vec<SpecError>) {
        let ghost before = *self;
        let mut errors: Vec<SpecError> = Vec::new();
        let mut j: usize = 0;
        while j < self.fields.len()
            invariant
                j <= before.fields@.len(),
                self.name == before.name,
                self.data == before.data,
                self.fields@.len() == before.fields@.len(),
                forall|i: int|
                    0 <= i < j ==> field_populated(
                        before.fields@[i],
                        #[trigger] self.fields@[i],
                        ass@,
                    ),
                forall|i: int|
                    j <= i < before.fields@.len() ==> #[trigger] self.fields@[i]
                        == before.fields@[i],
                errors@ == unresolved_in_fields(owning_type, before.fields@.take(j as int), ass@),
            decreases before.fields@.len() - j,
        {
            proof {
                assert(before.fields@.take(j + 1).drop_last() == before.fields@.take(j as int));
                assert(before.fields@.take(j + 1).last() == before.fields@[j as int]);
            }
            populate_field(&mut self.fields[j], owning_type, ass, &mut errors);
            j += 1;
        }
        proof {
            assert(before.fields@.take(before.fields@.len() as int) == before.fields@);
        }
        errors
    }
}

/// Whether the record at `slot` bears the name of an earlier record.
fn is_repeat<D>(records: &Vec<Record<D>>, slot: usize) -> (r: bool)
    requires
        slot < records@.len(),
    ensures
        r == repeats_name(records@, slot as int),
{
    let ghost earlier = record_names(records@.take(slot as int));
    let ghost name = records@[slot as int].name@;
    proof {
        lemma_first_slot(earlier, name);
    }
    let mut j: usize = 0;
    while j < slot
        invariant
            j <= slot < records@.len(),
            earlier == record_names(records@.take(slot as int)),
            name == records@[slot as int].name@,
            forall|i: int| 0 <= i < j ==> earlier[i] != name,
        decreases slot - j,
    {
        if records[j].name == records[slot].name {
            proof {
                assert(earlier[j as int] == name);
                lemma_first_slot(earlier, name);
            }
            return true;
        }
        j += 1;
    }
    false
}

/// Appends the faults of the pool to `errors` and resolves its references.
pub(crate) fn populate_pool<D>(specs: &mut Pool<D>, ass: &NameIndex, errors: &mut Vec<SpecError>)
    ensures
        final(specs).id == old(specs).id,
        records_populated(old(specs).records@, final(specs).records@, ass@),
        final(errors)@ == old(errors)@ + type_errors(old(specs).id, old(specs).records@, ass@),
{
    let ghost before = *specs;
    let ghost reported = errors@;
    let mut i: usize = 0;
    while i < specs.records.len()
        invariant
            i <= before.records@.len(),
            *specs == before,
            errors@ == reported + duplicate_names(before.id, before.records@.take(i as int)),
        decreases before.records@.len() - i,
    {
        proof {
            assert(before.records@.take(i + 1).drop_last() == before.records@.take(i as int));
            assert(before.records@.take(i + 1).last() == before.records@[i as int]);
            assert(before.records@.take(i + 1).take(i as int) == before.records@.take(i as int));
        }
        if is_repeat(&specs.records, i) {
            errors.push(
                SpecError::DuplicateName { spec_type: specs.id, name: specs.records[i].name.clone() },
            );
        }
        i += 1;
    }
    proof {
        assert(before.records@.take(before.records@.len() as int) == before.records@);
    }
    let ghost doubled = errors@;
    let mut i: usize = 0;
    while i < specs.records.len()
        invariant
            i <= before.records@.len(),
            specs.id == before.id,
            specs.records@.len() == before.records@.len(),
            forall|s: int|
                0 <= s < i ==> record_populated(
                    before.records@[s],
                    #[trigger] specs.records@[s],
                    ass@,
                ),
            forall|s: int|
                i <= s < before.records@.len() ==> #[trigger] specs.records@[s]
                    == before.records@[s],
            errors@ == doubled + unresolved_in_records(
                before.id,
                before.records@.take(i as int),
                ass@,
            ),
        decreases before.records@.len() - i,
    {
        proof {
            assert(before.records@.take(i + 1).drop_last() == before.records@.take(i as int));
            assert(before.records@.take(i + 1).last() == before.records@[i as int]);
        }
        let owning_type = specs.id;
        let mut found = specs.records[i].populate_handles(owning_type, ass);
        errors.append(&mut found);
        i += 1;
    }
    proof {
        assert(before.records@.take(before.records@.len() as int) == before.records@);
    }
}

/// Resolves the references of every record of the pool against `ass`, and
/// reports the faults of the pool: a `DuplicateName` for each record that
/// repeats the name of an earlier one, then an `UnresolvedName` for each
/// reference that `ass` does not resolve. It succeeds exactly where there is
/// no fault.
pub fn populate_handles<D>(specs: &mut Pool<D>, ass: &NameIndex) -> (r: Result<(), Vec<SpecError>>)
    ensures
        final(specs).id == old(specs).id,
        records_populated(old(specs).records@, final(specs).records@, ass@),
        match r {
            Ok(_) => type_errors(old(specs).id, old(specs).records@, ass@).len() == 0,
            Err(errors) => errors@.len() > 0 && errors@ == type_errors(
                old(specs).id,
                old(specs).records@,
                ass@,
            ),
        },
{
    let mut errors: Vec<SpecError> = Vec::new();
    populate_pool(specs, ass, &mut errors);
    if errors.len() == 0 {
        Ok(())
    } else {
        Err(errors)
    }
}

/// `after` holds the pools of `before`, each with the references of its
/// records looked up in `index`.
pub open spec fn pools_populated<D>(
    before: Seq<Pool<D>>,
    after: Seq<Pool<D>>,
    index: Seq<Seq<Seq<char>>>,
) -> bool {
    &&& after.len() == before.len()
    &&& forall|t: int|
        0 <= t < before.len() ==> {
            &&& (#[trigger] after[t]).id == before[t].id
            &&& records_populated(before[t].records@, after[t].records@, index)
        }
}

/// The faults of all pools, pool by pool.
pub open spec fn errors_of_pools<D>(pools: Seq<Pool<D>>, index: Seq<Seq<Seq<char>>>) -> Seq<
    SpecError,
>
    decreases pools.len(),
{
    if pools.len() == 0 {
        Seq::empty()
    } else {
        errors_of_pools(pools.drop_last(), index) + type_errors(
            pools.last().id,
            pools.last().records@,
            index,
        )
    }
}

/// Resolves the references of every pool, in the order of the pools, against
/// the names that the pools hold when the pass begins, and reports the faults
/// of all pools together.
pub fn populate_all<D>(pools: &mut Vec<Pool<D>>) -> (errors: Vec<SpecError>)
    ensures
        pools_populated(old(pools)@, final(pools)@, pool_names(old(pools)@)),
        errors@ == errors_of_pools(old(pools)@, pool_names(old(pools)@)),
{
    let ass = NameIndex::build(pools);
    let ghost before = pools@;
    let mut errors: Vec<SpecError> = Vec::new();
    let mut t: usize = 0;
    while t < pools.len()
        invariant
            t <= before.len(),
            pools@.len() == before.len(),
            ass@ == pool_names(before),
            forall|u: int|
                0 <= u < t ==> {
                    &&& (#[trigger] pools@[u]).id == before[u].id
                    &&& records_populated(before[u].records@, pools@[u].records@, ass@)
                },
            forall|u: int| t <= u < before.len() ==> #[trigger] pools@[u] == before[u],
            errors@ == errors_of_pools(before.take(t as int), ass@),
        decreases before.len() - t,
    {
        proof {
            assert(before.take(t + 1).drop_last() == before.take(t as int));
            assert(before.take(t + 1).last() == before[t as int]);
        }
        populate_pool(&mut pools[t], &ass, &mut errors);
        t += 1;
    }
    proof {
        assert(before.take(before.len() as int) == before);
    }
    errors
}

/// Every reference among `handles` has a record to resolve to.
pub open spec fn handles_found(handles: Seq<NamedHandle>, index: Seq<Seq<Seq<char>>>) -> bool {
    forall|k: int|
        0 <= k < handles.len() ==> lookup(
            index,
            (#[trigger] handles[k]).target,
            handles[k].name@,
        ) is Some
}

/// Every reference in `fields` has a record to resolve to.
pub open spec fn fields_found(fields: Seq<RefField>, index: Seq<Seq<Seq<char>>>) -> bool {
    forall|j: int| 0 <= j < fields.len() ==> handles_found((#[trigger] fields[j]).handles@, index)
}

/// Every reference in `records` has a record to resolve to.
pub open spec fn records_found<D>(records: Seq<Record<D>>, index: Seq<Seq<Seq<char>>>) -> bool {
    forall|i: int| 0 <= i < records.len() ==> fields_found((#[trigger] records[i]).fields@, index)
}

/// The reference is resolved to a record of its target pool that bears its
/// name.
pub open spec fn handle_valid<D>(pools: Seq<Pool<D>>, h: NamedHandle) -> bool {
    &&& h.maybe_handle matches Some(handle)
    &&& handle.pool == h.target
    &&& pools[handle.pool as int].spec_get(handle) matches Some(record)
    &&& handle.pool < pools.len()
    &&& pools[handle.pool as int].id == handle.pool
    &&& record.name@ == h.name@
}

/// Every reference among `handles` is resolved to a record that bears its name.
pub open spec fn handles_complete<D>(pools: Seq<Pool<D>>, handles: Seq<NamedHandle>) -> bool {
    forall|k: int| 0 <= k < handles.len() ==> handle_valid(pools, #[trigger] handles[k])
}

/// Every reference in `fields` is resolved to a record that bears its name.
pub open spec fn fields_complete<D>(pools: Seq<Pool<D>>, fields: Seq<RefField>) -> bool {
    forall|j: int|
        0 <= j < fields.len() ==> handles_complete(pools, (#[trigger] fields[j]).handles@)
}

/// Every reference in `records` is resolved to a record that bears its name.
pub open spec fn records_complete<D>(pools: Seq<Pool<D>>, records: Seq<Record<D>>) -> bool {
    forall|i: int|
        0 <= i < records.len() ==> fields_complete(pools, (#[trigger] records[i]).fields@)
}

/// Every reference in every pool is resolved to a record of its target pool
/// that bears its name.
pub open spec fn pools_complete<D>(pools: Seq<Pool<D>>) -> bool {
    forall|t: int|
        0 <= t < pools.len() ==> records_complete(pools, (#[trigger] pools[t]).records@)
}

/// No reference among `handles` is reported exactly where each has a record to
/// resolve to.
pub proof fn lemma_handles_found(
    owning_type: usize,
    field: String,
    handles: Seq<NamedHandle>,
    index: Seq<Seq<Seq<char>>>,
)
    ensures
        unresolved_in_handles(owning_type, field, handles, index).len() == 0 <==> handles_found(
            handles,
            index,
        ),
    decreases handles.len(),
{
    if handles.len() > 0 {
        let init = handles.drop_last();
        lemma_handles_found(owning_type, field, init, index);
        if handles_found(handles, index) {
            assert(handles[handles.len() - 1] == handles.last());
            assert forall|k: int| 0 <= k < init.len() implies lookup(
                index,
                (#[trigger] init[k]).target,
                init[k].name@,
            ) is Some by {
                assert(init[k] == handles[k]);
            }
        }
        if unresolved_in_handles(owning_type, field, handles, index).len() == 0 {
            assert forall|k: int| 0 <= k < handles.len() implies lookup(
                index,
                (#[trigger] handles[k]).target,
                handles[k].name@,
            ) is Some by {
                if k < init.len() {
                    assert(init[k] == handles[k]);
                }
            }
        }
    }
}

/// No reference in `fields` is reported exactly where each has a record to
/// resolve to.
pub proof fn lemma_fields_found(
    owning_type: usize,
    fields: Seq<RefField>,
    index: Seq<Seq<Seq<char>>>,
)
    ensures
        unresolved_in_fields(owning_type, fields, index).len() == 0 <==> fields_found(
            fields,
            index,
        ),
    decreases fields.len(),
{
    if fields.len() > 0 {
        let init = fields.drop_last();
        lemma_fields_found(owning_type, init, index);
        lemma_handles_found(owning_type, fields.last().field, fields.last().handles@, index);
        if fields_found(fields, index) {
            assert(fields[fields.len() - 1] == fields.last());
            assert forall|j: int| 0 <= j < init.len() implies handles_found(
                (#[trigger] init[j]).handles@,
                index,
            ) by {
                assert(init[j] == fields[j]);
            }
        }
        if unresolved_in_fields(owning_type, fields, index).len() == 0 {
            assert forall|j: int| 0 <= j < fields.len() implies handles_found(
                (#[trigger] fields[j]).handles@,
                index,
            ) by {
                if j < init.len() {
                    assert(init[j] == fields[j]);
                }
            }
        }
    }
}

/// No reference in `records` is reported exactly where each has a record to
/// resolve to.
pub proof fn lemma_records_found<D>(
    owning_type: usize,
    records: Seq<Record<D>>,
    index: Seq<Seq<Seq<char>>>,
)
    ensures
        unresolved_in_records(owning_type, records, index).len() == 0 <==> records_found(
            records,
            index,
        ),
    decreases records.len(),
{
    if records.len() > 0 {
        let init = records.drop_last();
        lemma_records_found(owning_type, init, index);
        lemma_fields_found(owning_type, records.last().fields@, index);
        if records_found(records, index) {
            assert(records[records.len() - 1] == records.last());
            assert forall|i: int| 0 <= i < init.len() implies fields_found(
                (#[trigger] init[i]).fields@,
                index,
            ) by {
                assert(init[i] == records[i]);
            }
        }
        if unresolved_in_records(owning_type, records, index).len() == 0 {
            assert forall|i: int| 0 <= i < records.len() implies fields_found(
                (#[trigger] records[i]).fields@,
                index,
            ) by {
                if i < init.len() {
                    assert(init[i] == records[i]);
                }
            }
        }
    }
}

/// No two records bear the same name.
pub open spec fn names_distinct<D>(records: Seq<Record<D>>) -> bool {
    forall|i: int, j: int|
        0 <= i < j < records.len() ==> (#[trigger] records[i]).name@ != (#[trigger] records[j]).name@
}

/// Duplicate names are reported exactly where two records of the pool bear
/// the same name.
pub proof fn lemma_duplicates_reported<D>(spec_type: usize, records: Seq<Record<D>>)
    ensures
        duplicate_names(spec_type, records).len() == 0 <==> names_distinct(records),
    decreases records.len(),
{
    if records.len() > 0 {
        let init = records.drop_last();
        let n = records.len() - 1;
        lemma_duplicates_reported(spec_type, init);
        assert(records.take(n) == init);
        lemma_first_slot(record_names(init), records[n].name@);
        if duplicate_names(spec_type, records).len() == 0 {
            assert forall|i: int, j: int| 0 <= i < j < records.len() implies (
            #[trigger] records[i]).name@ != (#[trigger] records[j]).name@ by {
                if j < n {
                    assert(init[i].name@ != init[j].name@);
                } else {
                    assert(record_names(init)[i] != records[n].name@);
                }
            }
        }
        if names_distinct(records) {
            assert forall|i: int, j: int| 0 <= i < j < init.len() implies (#[trigger] init[i]).name@
                != (#[trigger] init[j]).name@ by {
                assert(records[i].name@ != records[j].name@);
            }
            if repeats_name(records, n) {
                let slot = first_slot(record_names(init), records[n].name@)->0;
                assert(record_names(init)[slot] == records[n].name@);
                assert(records[slot].name@ != records[n].name@);
            }
        }
    }
}

/// A pool has no fault exactly where its records bear distinct names and
/// every reference in it has a record to resolve to. The faults of a pool do
/// not depend on the names that repeat in other pools.
pub proof fn lemma_no_fault<D>(
    spec_type: usize,
    records: Seq<Record<D>>,
    index: Seq<Seq<Seq<char>>>,
)
    ensures
        type_errors(spec_type, records, index).len() == 0 <==> names_distinct(records)
            && records_found(records, index),
{
    lemma_duplicates_reported(spec_type, records);
    lemma_records_found(spec_type, records, index);
}

/// The pools are without fault exactly where each pool is.
pub proof fn lemma_pools_no_fault<D>(pools: Seq<Pool<D>>, index: Seq<Seq<Seq<char>>>)
    ensures
        errors_of_pools(pools, index).len() == 0 <==> forall|t: int|
            0 <= t < pools.len() ==> type_errors(
                (#[trigger] pools[t]).id,
                pools[t].records@,
                index,
            ).len() == 0,
    decreases pools.len(),
{
    if pools.len() > 0 {
        let init = pools.drop_last();
        lemma_pools_no_fault(init, index);
        assert(pools[pools.len() - 1] == pools.last());
        if errors_of_pools(pools, index).len() == 0 {
            assert forall|t: int| 0 <= t < pools.len() implies type_errors(
                (#[trigger] pools[t]).id,
                pools[t].records@,
                index,
            ).len() == 0 by {
                if t < init.len() {
                    assert(init[t] == pools[t]);
                }
            }
        }
        if forall|t: int|
            0 <= t < pools.len() ==> type_errors(
                (#[trigger] pools[t]).id,
                pools[t].records@,
                index,
            ).len() == 0 {
            assert forall|t: int| 0 <= t < init.len() implies type_errors(
                (#[trigger] init[t]).id,
                init[t].records@,
                index,
            ).len() == 0 by {
                assert(init[t] == pools[t]);
            }
        }
    }
}

/// Where no pool has a fault, every reference in every pool has a record to
/// resolve to.
pub proof fn lemma_pools_found<D>(pools: Seq<Pool<D>>, index: Seq<Seq<Seq<char>>>)
    requires
        errors_of_pools(pools, index).len() == 0,
    ensures
        forall|t: int| 0 <= t < pools.len() ==> records_found((#[trigger] pools[t]).records@, index),
{
    lemma_pools_no_fault(pools, index);
    assert forall|t: int| 0 <= t < pools.len() implies records_found(
        (#[trigger] pools[t]).records@,
        index,
    ) by {
        lemma_no_fault(pools[t].id, pools[t].records@, index);
    }
}

/// A name that is found in the pools is found at a record of the target pool
/// that bears it.
pub proof fn lemma_lookup_valid<D>(pools: Seq<Pool<D>>, target: usize, name: Seq<char>)
    requires
        forall|t: int| 0 <= t < pools.len() ==> (#[trigger] pools[t]).id == t,
    ensures
        match lookup(pool_names(pools), target, name) {
            Some(handle) => {
                &&& handle.pool == target
                &&& target < pools.len()
                &&& pools[target as int].spec_get(handle) matches Some(record)
                &&& record.name@ == name
                &&& pools[target as int].spec_get_by_name(name) == Some(handle)
            },
            None => target < pools.len() ==> pools[target as int].spec_get_by_name(name) is None,
        },
{
    if target < pools.len() {
        let pool = pools[target as int];
        lemma_first_slot(record_names(pool.records@), name);
        assert(pool_names(pools)[target as int] == record_names(pool.records@));
        assert(pool.records@.len() == pool.records.len());
    }
}

/// Completeness of a pass without faults: where the pools were resolved
/// against their own names and no pool had a fault, every reference in every
/// pool is resolved, to a handle that its target pool holds, and the record
/// there bears the name of the reference.
pub proof fn lemma_resolution_complete<D>(before: Seq<Pool<D>>, after: Seq<Pool<D>>)
    requires
        forall|t: int| 0 <= t < before.len() ==> (#[trigger] before[t]).id == t,
        pools_populated(before, after, pool_names(before)),
        errors_of_pools(before, pool_names(before)).len() == 0,
    ensures
        pools_complete(after),
{
    let index = pool_names(before);
    lemma_pools_found(before, index);
    assert forall|t: int| 0 <= t < after.len() implies records_complete(
        after,
        (#[trigger] after[t]).records@,
    ) by {
        let was = before[t].records@;
        let now = after[t].records@;
        assert(records_found(was, index));
        assert forall|i: int| 0 <= i < now.len() implies fields_complete(
            after,
            (#[trigger] now[i]).fields@,
        ) by {
            assert(record_populated(was[i], now[i], index));
            assert(fields_found(was[i].fields@, index));
            assert forall|j: int| 0 <= j < now[i].fields@.len() implies handles_complete(
                after,
                (#[trigger] now[i].fields@[j]).handles@,
            ) by {
                let was_field = was[i].fields@[j];
                let now_field = now[i].fields@[j];
                assert(field_populated(was_field, now_field, index));
                assert(handles_found(was_field.handles@, index));
                assert forall|k: int| 0 <= k < now_field.handles@.len() implies handle_valid(
                    after,
                    #[trigger] now_field.handles@[k],
                ) by {
                    let was_handle = was_field.handles@[k];
                    let now_handle = now_field.handles@[k];
                    assert(handle_populated(was_handle, now_handle, index));
                    lemma_lookup_valid(before, was_handle.target, was_handle.name@);
                    let handle = lookup(index, was_handle.target, was_handle.name@)->0;
                    let target = handle.pool as int;
                    assert(after[target].id == before[target].id);
                    assert(record_populated(
                        before[target].records@[handle.slot as int],
                        after[target].records@[handle.slot as int],
                        index,
                    ));
                }
            }
        }
    }
}

} // verus!
