//! The session: registered types, their pools, the loads under way and the
//! readiness state, in one value that every operation takes.
//!
//! A session is set up by registering record types and source folders. Loading
//! begins once, with the items that the loader handed out for the folders.
//! While items load, records are put into the pools of their types. Each tick
//! hands the loader's report to the session; at the tick at which every item
//! has reached an end, and at no other, the references of all pools are
//! resolved, type by type in registration order. The session becomes ready if
//! nothing failed to load and the pass found no fault; otherwise it stays
//! loading and holds the faults. After that tick nothing changes any more.
use crate::error::{ConfigError, SpecError};
use crate::loading::{
    concat_all, with_status, LoadState, LoadingHandles, PendingStatus, SpecLoadingHandles,
};
use crate::name_index::{lemma_first_slot, lookup, pool_names, record_names};
use crate::named_handle::{fields_unresolved, Handle, NamedHandle, Record};
use crate::pool::{GetNamedTrait, Pool};
use crate::populate::{
    errors_of_pools, fields_complete, fields_found, handle_valid, handles_complete, handles_found,
    lemma_no_fault, lemma_pools_found, lemma_pools_no_fault, lemma_resolution_complete,
    names_distinct, pools_complete, pools_populated, populate_all, record_populated,
    records_complete, records_found, type_errors,
};
use vstd::prelude::*;

verus! {

/// Whether consumers may rely on the records.
#[derive(Clone, Copy, Debug, PartialEq, Eq, Hash, Structural)]
pub enum AppState {
    /// Records are loading still, or the record set has faults.
    Loading,
    /// Every record is loaded and every reference is resolved.
    Ready,
}

/// No reference in `records` is resolved.
pub open spec fn records_unresolved<D>(records: Seq<Record<D>>) -> bool {
    forall|i: int|
        0 <= i < records.len() ==> fields_unresolved((#[trigger] records[i]).fields@)
}

/// No reference in any pool is resolved.
pub open spec fn pools_unresolved<D>(pools: Seq<Pool<D>>) -> bool {
    forall|t: int| 0 <= t < pools.len() ==> records_unresolved((#[trigger] pools[t]).records@)
}

/// One `LoadFailure` for each failed item, in order.
pub open spec fn load_failures(failed: Seq<u64>) -> Seq<SpecError> {
    Seq::new(failed.len(), |i: int| SpecError::LoadFailure { item: failed[i] })
}

/// All faults of a settled session: the failed loads, then the faults of the
/// pools in registration order.
pub open spec fn error_batch<D>(failed: Seq<u64>, pools: Seq<Pool<D>>) -> Seq<SpecError> {
    load_failures(failed) + errors_of_pools(pools, pool_names(pools))
}

/// A session.
pub struct SpecPlugin<D> {
    state: AppState,
    started: bool,
    all_loaded: bool,
    folders: Vec<String>,
    extensions: Vec<String>,
    spec_handles: Vec<SpecLoadingHandles>,
    pools: Vec<Pool<D>>,
    loading_handles: LoadingHandles,
    errors: Vec<SpecError>,
}

/// What a session holds.
pub struct SpecPluginView<D> {
    /// The readiness state.
    pub state: AppState,
    /// Loading has begun: the registration is closed.
    pub started: bool,
    /// The loads have settled and the references were resolved.
    pub all_loaded: bool,
    /// The source folders, in the order in which they were added.
    pub folders: Seq<String>,
    /// The file extension of each registered type, in registration order.
    pub extensions: Seq<String>,
    /// For each registered type, the items of the records in its pool.
    pub spec_handles: Seq<SpecLoadingHandles>,
    /// The pool of each registered type.
    pub pools: Seq<Pool<D>>,
    /// The items still loading.
    pub pending: Seq<u64>,
    /// The items that have loaded.
    pub loaded: Seq<u64>,
    /// The items that have failed.
    pub failed: Seq<u64>,
    /// The faults found when the loads settled.
    pub errors: Seq<SpecError>,
}

impl<D> SpecPluginView<D> {
    /// Every item has reached an end, and there is at least one.
    pub open spec fn settled(self) -> bool {
        self.pending.len() == 0 && self.loaded.len() + self.failed.len() > 0
    }

    /// What holds of every session.
    pub open spec fn wf(self) -> bool {
        &&& self.extensions.len() == self.pools.len()
        &&& self.spec_handles.len() == self.pools.len()
        &&& forall|t: int| 0 <= t < self.pools.len() ==> (#[trigger] self.pools[t]).id == t
        &&& forall|t: int|
            0 <= t < self.pools.len() ==> (#[trigger] self.spec_handles[t]).handles@.len()
                == self.pools[t].records@.len()
        &&& !self.started ==> self.pending.len() == 0 && self.loaded.len() == 0
            && self.failed.len() == 0
        &&& self.all_loaded ==> self.started && self.settled()
        &&& self.all_loaded ==> self.errors.len() >= self.failed.len() && forall|i: int|
            0 <= i < self.failed.len() ==> #[trigger] self.errors[i] == (SpecError::LoadFailure {
                item: self.failed[i],
            })
        &&& !self.all_loaded ==> self.errors.len() == 0 && pools_unresolved(self.pools)
        &&& self.state == AppState::Ready <==> self.all_loaded && self.errors.len() == 0
        &&& self.state == AppState::Ready ==> self.failed.len() == 0 && pools_complete(self.pools)
    }

    /// `after` is this session with one more registered type, whose pool is
    /// empty.
    pub open spec fn registers(self, after: Self, extension: Seq<char>) -> bool {
        &&& after.extensions.len() == self.extensions.len() + 1
        &&& after.extensions.drop_last() == self.extensions
        &&& after.extensions.last()@ == extension
        &&& after.spec_handles.len() == self.spec_handles.len() + 1
        &&& after.spec_handles.drop_last() == self.spec_handles
        &&& after.spec_handles.last().handles@.len() == 0
        &&& after.pools.len() == self.pools.len() + 1
        &&& after.pools.drop_last() == self.pools
        &&& after.pools.last().id == self.pools.len()
        &&& after.pools.last().records@.len() == 0
        &&& after.state == self.state
        &&& after.started == self.started
        &&& after.all_loaded == self.all_loaded
        &&& after.folders == self.folders
        &&& after.pending == self.pending
        &&& after.loaded == self.loaded
        &&& after.failed == self.failed
        &&& after.errors == self.errors
    }

    /// `after` is this session with one more source folder.
    pub open spec fn adds_folder(self, after: Self, folder: Seq<char>) -> bool {
        &&& after.folders.len() == self.folders.len() + 1
        &&& after.folders.drop_last() == self.folders
        &&& after.folders.last()@ == folder
        &&& after.state == self.state
        &&& after.started == self.started
        &&& after.all_loaded == self.all_loaded
        &&& after.extensions == self.extensions
        &&& after.spec_handles == self.spec_handles
        &&& after.pools == self.pools
        &&& after.pending == self.pending
        &&& after.loaded == self.loaded
        &&& after.failed == self.failed
        &&& after.errors == self.errors
    }

    /// `after` is this session once loading has begun with `items` pending.
    pub open spec fn begins_loading(self, after: Self, items: Seq<u64>) -> bool {
        &&& after.started
        &&& after.pending == items
        &&& after.state == self.state
        &&& after.all_loaded == self.all_loaded
        &&& after.folders == self.folders
        &&& after.extensions == self.extensions
        &&& after.spec_handles == self.spec_handles
        &&& after.pools == self.pools
        &&& after.loaded == self.loaded
        &&& after.failed == self.failed
        &&& after.errors == self.errors
    }

    /// `after` is this session with `record`, loaded from `item`, at the end
    /// of the pool of `spec_type`.
    pub open spec fn inserts(self, after: Self, spec_type: usize, item: u64, record: Record<D>) -> bool {
        &&& spec_type < self.pools.len()
        &&& after.pools.len() == self.pools.len()
        &&& after.spec_handles.len() == self.spec_handles.len()
        &&& forall|t: int|
            0 <= t < self.pools.len() && t != spec_type ==> #[trigger] after.pools[t]
                == self.pools[t]
        &&& forall|t: int|
            0 <= t < self.spec_handles.len() && t != spec_type ==> #[trigger] after.spec_handles[t]
                == self.spec_handles[t]
        &&& after.pools[spec_type as int].id == self.pools[spec_type as int].id
        &&& after.pools[spec_type as int].records@ == self.pools[spec_type as int].records@.push(
            record,
        )
        &&& after.spec_handles[spec_type as int].handles@
            == self.spec_handles[spec_type as int].handles@.push(item)
        &&& after.state == self.state
        &&& after.started == self.started
        &&& after.all_loaded == self.all_loaded
        &&& after.folders == self.folders
        &&& after.extensions == self.extensions
        &&& after.pending == self.pending
        &&& after.loaded == self.loaded
        &&& after.failed == self.failed
        &&& after.errors == self.errors
    }

    /// `after` is this session one tick later, the loader having reported
    /// `statuses` for the pending items. A session whose loads have settled
    /// before stays as it is. Otherwise the report is taken; if the loads are
    /// not settled by it, nothing else changes. If they are, every pool has
    /// its references resolved against the names that the pools hold, all
    /// faults are collected, and the session is ready exactly if there is no
    /// fault.
    pub open spec fn ticks(self, after: Self, statuses: Seq<LoadState>) -> bool {
        if self.all_loaded {
            after == self
        } else {
            &&& after.started == self.started
            &&& after.folders == self.folders
            &&& after.extensions == self.extensions
            &&& after.spec_handles == self.spec_handles
            &&& after.pending == with_status(self.pending, statuses, LoadState::Loading)
            &&& after.loaded == self.loaded + with_status(
                self.pending,
                statuses,
                LoadState::Loaded,
            )
            &&& after.failed == self.failed + with_status(
                self.pending,
                statuses,
                LoadState::Failed,
            )
            &&& after.all_loaded == after.settled()
            &&& if after.settled() {
                &&& pools_populated(self.pools, after.pools, pool_names(self.pools))
                &&& after.errors == error_batch(after.failed, self.pools)
                &&& after.state == if after.errors.len() == 0 {
                    AppState::Ready
                } else {
                    AppState::Loading
                }
            } else {
                &&& after.pools == self.pools
                &&& after.errors == self.errors
                &&& after.state == self.state
            }
        }
    }

    /// The record that a reference leads to, once the session is ready.
    pub open spec fn named(self, h: NamedHandle) -> Option<Record<D>> {
        match h.maybe_handle {
            Some(handle) => if self.state == AppState::Ready && handle.pool < self.pools.len() {
                self.pools[handle.pool as int].spec_get(handle)
            } else {
                None
            },
            None => None,
        }
    }
}

impl<D> View for SpecPlugin<D> {
    type V = SpecPluginView<D>;

    closed spec fn view(&self) -> SpecPluginView<D> {
        SpecPluginView {
            state: self.state,
            started: self.started,
            all_loaded: self.all_loaded,
            folders: self.folders@,
            extensions: self.extensions@,
            spec_handles: self.spec_handles@,
            pools: self.pools@,
            pending: self.loading_handles.pending@,
            loaded: self.loading_handles.loaded@,
            failed: self.loading_handles.failed@,
            errors: self.errors@,
        }
    }
}

/// Registering record types with a session.
pub trait AppHelperSpecRegisterTrait {
    /// The session is in order.
    spec fn registry_wf(&self) -> bool;

    /// Registers a record type whose files bear the extension
    /// `extension_name`, and hands out the number of the type.
    fn register_spec(&mut self, extension_name: &str) -> (r: Result<usize, ConfigError>)
        requires
            old(self).registry_wf(),
        ensures
            final(self).registry_wf(),
    ;
}

/// Adding source folders to a session.
pub trait AppHelperSpecLoaderTrait {
    /// The session is in order.
    spec fn loader_wf(&self) -> bool;

    /// Adds a folder whose files are to be loaded.
    fn add_spec_folder(&mut self, folder_name: &str) -> (r: Result<(), ConfigError>)
        requires
            old(self).loader_wf(),
        ensures
            final(self).loader_wf(),
    ;
}

/// One `LoadFailure` for each failed item.
fn failures_of(failed: &Vec<u64>) -> (r: Vec<SpecError>)
    ensures
        r@ == load_failures(failed@),
{
    let mut errors: Vec<SpecError> = Vec::new();
    let mut i: usize = 0;
    while i < failed.len()
        invariant
            i <= failed@.len(),
            errors@.len() == i,
            forall|j: int|
                0 <= j < i ==> #[trigger] errors@[j] == (SpecError::LoadFailure {
                    item: failed@[j],
                }),
        decreases failed@.len() - i,
    {
        errors.push(SpecError::LoadFailure { item: failed[i] });
        i += 1;
    }
    errors
}

impl<D> SpecPlugin<D> {
    /// The session is in order.
    pub open spec fn wf(&self) -> bool {
        self@.wf()
    }

    /// A session in which nothing is registered and nothing is loading.
    pub fn new() -> (r: SpecPlugin<D>)
        ensures
            r.wf(),
            r@.state == AppState::Loading,
            !r@.started,
            !r@.all_loaded,
            r@.folders.len() == 0,
            r@.extensions.len() == 0,
            r@.spec_handles.len() == 0,
            r@.pools.len() == 0,
            r@.pending.len() == 0,
            r@.loaded.len() == 0,
            r@.failed.len() == 0,
            r@.errors.len() == 0,
    {
        SpecPlugin {
            state: AppState::Loading,
            started: false,
            all_loaded: false,
            folders: Vec::new(),
            extensions: Vec::new(),
            spec_handles: Vec::new(),
            pools: Vec::new(),
            loading_handles: LoadingHandles::new(),
            errors: Vec::new(),
        }
    }

    /// Begins loading: `loaded` holds, for each source folder, the items that
    /// the loader handed out for it. All of them become pending, folder by
    /// folder. Loading begins once; from then on the registration is closed.
    pub fn load_specs_startup_system(&mut self, loaded: &Vec<Vec<u64>>) -> (r: Result<
        (),
        ConfigError,
    >)
        requires
            old(self).wf(),
        ensures
            final(self).wf(),
            r is Err <==> old(self)@.started,
            match r {
                Ok(_) => old(self)@.begins_loading(final(self)@, concat_all(loaded@)),
                Err(e) => e == ConfigError::AlreadyLoading && final(self)@ == old(self)@,
            },
    {
        if self.started {
            return Err(ConfigError::AlreadyLoading);
        }
        let mut f: usize = 0;
        while f < loaded.len()
            invariant
                f <= loaded@.len(),
                self.loading_handles.pending@ == concat_all(loaded@.take(f as int)),
                old(self).loading_handles.loaded@.len() == 0,
                old(self).loading_handles.failed@.len() == 0,
                self.loading_handles.loaded == old(self).loading_handles.loaded,
                self.loading_handles.failed == old(self).loading_handles.failed,
                self.state == old(self).state,
                self.started == old(self).started,
                self.all_loaded == old(self).all_loaded,
                self.folders == old(self).folders,
                self.extensions == old(self).extensions,
                self.spec_handles == old(self).spec_handles,
                self.pools == old(self).pools,
                self.errors == old(self).errors,
            decreases loaded@.len() - f,
        {
            proof {
                assert(loaded@.take(f + 1).drop_last() == loaded@.take(f as int));
                assert(loaded@.take(f + 1).last() == loaded@[f as int]);
            }
            let _ = self.loading_handles.track(&loaded[f]);
            f += 1;
        }
        proof {
            assert(loaded@.take(loaded@.len() as int) == loaded@);
        }
        self.started = true;
        Ok(())
    }

    /// Puts a record, loaded from `item`, into the pool of `spec_type` and
    /// hands out its handle. A record is refused once the loads have settled,
    /// for a type that is not registered, or if one of its references is
    /// resolved already; the session is then unchanged.
    pub fn insert(&mut self, spec_type: usize, item: u64, record: Record<D>) -> (r: Result<
        Handle,
        ConfigError,
    >)
        requires
            old(self).wf(),
        ensures
            final(self).wf(),
            match r {
                Ok(handle) => {
                    &&& old(self)@.inserts(final(self)@, spec_type, item, record)
                    &&& handle == (Handle {
                        pool: spec_type,
                        slot: old(self)@.pools[spec_type as int].records@.len() as usize,
                    })
                    &&& final(self)@.pools[spec_type as int].spec_get(handle) == Some(record)
                },
                Err(e) => final(self)@ == old(self)@ && e == if old(self)@.all_loaded {
                    ConfigError::Frozen
                } else if spec_type >= old(self)@.pools.len() {
                    ConfigError::UnknownType
                } else {
                    ConfigError::ResolvedReference
                },
            },
            r is Ok <==> !old(self)@.all_loaded && spec_type < old(self)@.pools.len()
                && fields_unresolved(record.fields@),
    {
        if self.all_loaded {
            return Err(ConfigError::Frozen);
        }
        if spec_type >= self.pools.len() {
            return Err(ConfigError::UnknownType);
        }
        if !record.is_unresolved() {
            return Err(ConfigError::ResolvedReference);
        }
        self.spec_handles[spec_type].handles.push(item);
        let handle = self.pools[spec_type].insert(record);
        proof {
            let before = old(self)@;
            let after = self@;
            assert forall|t: int| 0 <= t < after.pools.len() implies records_unresolved(
                (#[trigger] after.pools[t]).records@,
            ) by {
                assert(records_unresolved(before.pools[t].records@));
            }
        }
        Ok(handle)
    }

    /// One tick: takes the loader's report for the pending items and, at the
    /// tick at which the loads settle, resolves all references and decides
    /// whether the session is ready.
    pub fn monitor_spec_load(&mut self, statuses: &Vec<LoadState>) -> (r: PendingStatus)
        requires
            old(self).wf(),
        ensures
            final(self).wf(),
            old(self)@.ticks(final(self)@, statuses@),
            r.still_pending == (final(self)@.pending.len() > 0),
            r.any_failed == (final(self)@.failed.len() > 0),
    {
        if self.all_loaded {
            return self.loading_handles.status();
        }
        let r = self.loading_handles.poll(statuses);
        if self.loading_handles.settled() {
            let mut errors = failures_of(&self.loading_handles.failed);
            let mut found = populate_all(&mut self.pools);
            errors.append(&mut found);
            proof {
                if errors@.len() == 0 {
                    lemma_resolution_complete(old(self)@.pools, self@.pools);
                }
            }
            if errors.len() == 0 {
                self.state = AppState::Ready;
            }
            self.errors = errors;
            self.all_loaded = true;
        }
        r
    }

    /// The readiness state.
    pub fn state(&self) -> (r: AppState)
        ensures
            r == self@.state,
    {
        self.state
    }

    /// Whether consumers may rely on the records.
    pub fn is_ready(&self) -> (r: bool)
        ensures
            r == (self@.state == AppState::Ready),
    {
        self.state == AppState::Ready
    }

    /// The faults found when the loads settled.
    pub fn errors(&self) -> (r: &Vec<SpecError>)
        ensures
            r@ == self@.errors,
    {
        &self.errors
    }

    /// The source folders.
    pub fn folders(&self) -> (r: &Vec<String>)
        ensures
            r@ == self@.folders,
    {
        &self.folders
    }

    /// The items to ask the loader about, in the order in which a report
    /// lists them.
    pub fn pending(&self) -> (r: &Vec<u64>)
        ensures
            r@ == self@.pending,
    {
        &self.loading_handles.pending
    }

    /// The items loading, loaded and failed.
    pub fn loading_handles(&self) -> (r: &LoadingHandles)
        ensures
            r.pending@ == self@.pending,
            r.loaded@ == self@.loaded,
            r.failed@ == self@.failed,
    {
        &self.loading_handles
    }

    /// The number of registered types.
    pub fn spec_types(&self) -> (r: usize)
        ensures
            r == self@.pools.len(),
    {
        self.pools.len()
    }

    /// The file extension of a registered type.
    pub fn extension(&self, spec_type: usize) -> (r: Option<&String>)
        ensures
            match r {
                Some(extension) => spec_type < self@.extensions.len() && *extension
                    == self@.extensions[spec_type as int],
                None => spec_type >= self@.extensions.len(),
            },
    {
        if spec_type < self.extensions.len() {
            Some(&self.extensions[spec_type])
        } else {
            None
        }
    }

    /// The items of the records in the pool of a registered type.
    pub fn spec_loading_handles(&self, spec_type: usize) -> (r: Option<&SpecLoadingHandles>)
        ensures
            match r {
                Some(handles) => spec_type < self@.spec_handles.len() && *handles
                    == self@.spec_handles[spec_type as int],
                None => spec_type >= self@.spec_handles.len(),
            },
    {
        if spec_type < self.spec_handles.len() {
            Some(&self.spec_handles[spec_type])
        } else {
            None
        }
    }

    /// The pool of a registered type.
    pub fn get_pool(&self, spec_type: usize) -> (r: Option<&Pool<D>>)
        ensures
            match r {
                Some(pool) => spec_type < self@.pools.len() && *pool == self@.pools[spec_type as int],
                None => spec_type >= self@.pools.len(),
            },
    {
        if spec_type < self.pools.len() {
            Some(&self.pools[spec_type])
        } else {
            None
        }
    }
}

impl<D> AppHelperSpecRegisterTrait for SpecPlugin<D> {
    open spec fn registry_wf(&self) -> bool {
        self.wf()
    }

    /// Types are registered before loading begins; afterwards the session
    /// refuses and stays as it is.
    fn register_spec(&mut self, extension_name: &str) -> (r: Result<usize, ConfigError>)
        ensures
            r is Err <==> old(self)@.started,
            match r {
                Ok(spec_type) => spec_type == old(self)@.pools.len() && old(self)@.registers(
                    final(self)@,
                    extension_name@,
                ),
                Err(e) => e == ConfigError::AlreadyLoading && final(self)@ == old(self)@,
            },
    {
        if self.started {
            return Err(ConfigError::AlreadyLoading);
        }
        let spec_type = self.pools.len();
        self.extensions.push(extension_name.to_owned());
        self.spec_handles.push(SpecLoadingHandles::new());
        self.pools.push(Pool::new(spec_type));
        proof {
            let before = old(self)@;
            let after = self@;
            assert(after.extensions.drop_last() == before.extensions);
            assert(after.spec_handles.drop_last() == before.spec_handles);
            assert(after.pools.drop_last() == before.pools);
            assert forall|t: int| 0 <= t < after.pools.len() implies records_unresolved(
                (#[trigger] after.pools[t]).records@,
            ) by {
                if t < before.pools.len() {
                    assert(after.pools[t] == before.pools[t]);
                    assert(records_unresolved(before.pools[t].records@));
                }
            }
        }
        Ok(spec_type)
    }
}

impl<D> AppHelperSpecLoaderTrait for SpecPlugin<D> {
    open spec fn loader_wf(&self) -> bool {
        self.wf()
    }

    /// Folders are added before loading begins; afterwards the session
    /// refuses and stays as it is.
    fn add_spec_folder(&mut self, folder_name: &str) -> (r: Result<(), ConfigError>)
        ensures
            r is Err <==> old(self)@.started,
            match r {
                Ok(_) => old(self)@.adds_folder(final(self)@, folder_name@),
                Err(e) => e == ConfigError::AlreadyLoading && final(self)@ == old(self)@,
            },
    {
        if self.started {
            return Err(ConfigError::AlreadyLoading);
        }
        self.folders.push(folder_name.to_owned());
        proof {
            assert(self@.folders.drop_last() == old(self)@.folders);
        }
        Ok(())
    }
}

impl<D> GetNamedTrait<Record<D>> for SpecPlugin<D> {
    open spec fn named(&self, h: &NamedHandle) -> Option<Record<D>> {
        self@.named(*h)
    }

    /// Before the session is ready no reference leads anywhere.
    fn get_named(&self, h: &NamedHandle) -> (r: Option<&Record<D>>) {
        match h.maybe_handle {
            Some(handle) => {
                if self.is_ready() && handle.pool < self.pools.len() {
                    self.pools[handle.pool].get(handle)
                } else {
                    None
                }
            },
            None => None,
        }
    }

    fn get_named_expect(&self, h: &NamedHandle) -> (r: &Record<D>) {
        let handle = h.get_handle();
        &self.pools[handle.pool].records[handle.slot]
    }
}

/// No early resolution: as long as the loads of a session are not settled,
/// no reference in any of its pools is resolved, and the session is not ready.
pub proof fn lemma_no_early_resolution<D>(s: SpecPluginView<D>)
    requires
        s.wf(),
        !s.settled(),
    ensures
        pools_unresolved(s.pools),
        s.state == AppState::Loading,
{
}

/// A tick that leaves the loads unsettled resolves nothing: the pools are
/// what they were, with every reference unresolved.
pub proof fn lemma_unsettled_tick_resolves_nothing<D>(
    before: SpecPluginView<D>,
    after: SpecPluginView<D>,
    statuses: Seq<LoadState>,
)
    requires
        before.wf(),
        before.ticks(after, statuses),
        !after.settled(),
    ensures
        after.pools == before.pools,
        pools_unresolved(after.pools),
        after.state == AppState::Loading,
{
}

/// Completeness on success: in a ready session every load has ended well,
/// there is no fault, and every reference of every record is resolved to a
/// handle whose record the session hands out; that record bears the name of
/// the reference.
pub proof fn lemma_ready_complete<D>(
    s: SpecPluginView<D>,
    spec_type: int,
    slot: int,
    field: int,
    k: int,
)
    requires
        s.wf(),
        s.state == AppState::Ready,
        0 <= spec_type < s.pools.len(),
        0 <= slot < s.pools[spec_type].records@.len(),
        0 <= field < s.pools[spec_type].records@[slot].fields@.len(),
        0 <= k < s.pools[spec_type].records@[slot].fields@[field].handles@.len(),
    ensures
        s.settled(),
        s.failed.len() == 0,
        s.errors.len() == 0,
        pools_complete(s.pools),
        ({
            let h = s.pools[spec_type].records@[slot].fields@[field].handles@[k];
            &&& h.maybe_handle is Some
            &&& s.named(h) matches Some(record)
            &&& record.name@ == h.name@
        }),
{
    let records = s.pools[spec_type].records@;
    let fields = records[slot].fields@;
    let handles = fields[field].handles@;
    assert(records_complete(s.pools, records));
    assert(fields_complete(s.pools, fields));
    assert(handles_complete(s.pools, handles));
    assert(handle_valid(s.pools, handles[k]));
}

/// The tick at which the loads settle is the last to change a session: from
/// then on a tick leaves it as it is. So readiness is reached at most once and
/// never left, and a session that settled with faults never becomes ready.
pub proof fn lemma_settled_session_is_final<D>(
    before: SpecPluginView<D>,
    after: SpecPluginView<D>,
    statuses: Seq<LoadState>,
)
    requires
        before.wf(),
        before.settled(),
        before.ticks(after, statuses),
    ensures
        after.wf(),
        after.all_loaded,
        before.all_loaded ==> after == before,
        after.state == AppState::Ready <==> after.errors.len() == 0,
{
    if !before.all_loaded {
        lemma_tick_keeps_wf(before, after, statuses);
    }
}

/// A tick keeps a session in order.
pub proof fn lemma_tick_keeps_wf<D>(
    before: SpecPluginView<D>,
    after: SpecPluginView<D>,
    statuses: Seq<LoadState>,
)
    requires
        before.wf(),
        before.ticks(after, statuses),
    ensures
        after.wf(),
{
    if !before.all_loaded {
        if after.settled() {
            assert forall|t: int| 0 <= t < after.pools.len() implies (
            #[trigger] after.spec_handles[t]).handles@.len() == after.pools[t].records@.len() by {
                assert(after.pools[t].id == before.pools[t].id);
            }
            if after.errors.len() == 0 {
                lemma_resolution_complete(before.pools, after.pools);
            }
            if !before.started {
                assert(with_status(before.pending, statuses, LoadState::Loaded).len() == 0);
                assert(with_status(before.pending, statuses, LoadState::Failed).len() == 0);
            }
        }
    }
}

/// A session that holds a fault is not ready.
pub proof fn lemma_faults_block_readiness<D>(s: SpecPluginView<D>)
    requires
        s.wf(),
        s.errors.len() > 0,
    ensures
        s.state == AppState::Loading,
        s.all_loaded,
{
}

/// A failed load blocks readiness: after a tick that knows of a failed item
/// the session is not ready.
pub proof fn lemma_failed_load_blocks_readiness<D>(
    before: SpecPluginView<D>,
    after: SpecPluginView<D>,
    statuses: Seq<LoadState>,
)
    requires
        before.wf(),
        before.ticks(after, statuses),
        after.failed.len() > 0,
    ensures
        after.state == AppState::Loading,
        after.all_loaded ==> forall|i: int|
            0 <= i < after.failed.len() ==> #[trigger] after.errors[i] == (SpecError::LoadFailure {
                item: after.failed[i],
            }),
{
    lemma_tick_keeps_wf(before, after, statuses);
}

/// A session that holds a reference whose name its target pool does not hold
/// is not ready, whatever happened before.
pub proof fn lemma_missing_reference_not_ready<D>(
    s: SpecPluginView<D>,
    spec_type: int,
    slot: int,
    field: int,
    k: int,
)
    requires
        s.wf(),
        0 <= spec_type < s.pools.len(),
        0 <= slot < s.pools[spec_type].records@.len(),
        0 <= field < s.pools[spec_type].records@[slot].fields@.len(),
        0 <= k < s.pools[spec_type].records@[slot].fields@[field].handles@.len(),
        ({
            let h = s.pools[spec_type].records@[slot].fields@[field].handles@[k];
            lookup(pool_names(s.pools), h.target, h.name@) is None
        }),
    ensures
        s.state == AppState::Loading,
{
    if s.state == AppState::Ready {
        lemma_ready_complete(s, spec_type, slot, field, k);
        let h = s.pools[spec_type].records@[slot].fields@[field].handles@[k];
        let handle = h.maybe_handle->0;
        let names = record_names(s.pools[handle.pool as int].records@);
        assert(names[handle.slot as int] == h.name@);
        lemma_first_slot(names, h.name@);
        assert(pool_names(s.pools)[handle.pool as int] == names);
    }
}

/// A missing reference blocks readiness: where a reference names a record
/// that its target pool does not hold when the loads settle, the session
/// holds a fault from then on and never becomes ready.
pub proof fn lemma_missing_reference_blocks_readiness<D>(
    before: SpecPluginView<D>,
    after: SpecPluginView<D>,
    statuses: Seq<LoadState>,
    spec_type: int,
    slot: int,
    field: int,
    k: int,
)
    requires
        before.wf(),
        !before.all_loaded,
        before.ticks(after, statuses),
        after.settled(),
        0 <= spec_type < before.pools.len(),
        0 <= slot < before.pools[spec_type].records@.len(),
        0 <= field < before.pools[spec_type].records@[slot].fields@.len(),
        0 <= k < before.pools[spec_type].records@[slot].fields@[field].handles@.len(),
        ({
            let h = before.pools[spec_type].records@[slot].fields@[field].handles@[k];
            lookup(pool_names(before.pools), h.target, h.name@) is None
        }),
    ensures
        after.all_loaded,
        after.errors.len() > 0,
        after.state == AppState::Loading,
{
    let index = pool_names(before.pools);
    if errors_of_pools(before.pools, index).len() == 0 {
        lemma_pools_found(before.pools, index);
        let records = before.pools[spec_type].records@;
        let fields = records[slot].fields@;
        let handles = fields[field].handles@;
        assert(records_found(records, index));
        assert(fields_found(fields, index));
        assert(handles_found(handles, index));
        assert(lookup(index, handles[k].target, handles[k].name@) is Some);
    }
}

/// When a session becomes ready: the tick at which the loads settle makes the
/// session ready exactly if no item failed, no pool holds two records of one
/// name, and every reference has a record to resolve to.
pub proof fn lemma_ready_exactly_when<D>(
    before: SpecPluginView<D>,
    after: SpecPluginView<D>,
    statuses: Seq<LoadState>,
)
    requires
        before.wf(),
        !before.all_loaded,
        before.ticks(after, statuses),
    ensures
        after.state == AppState::Ready <==> {
            &&& after.settled()
            &&& after.failed.len() == 0
            &&& forall|t: int|
                0 <= t < before.pools.len() ==> names_distinct(
                    (#[trigger] before.pools[t]).records@,
                ) && records_found(before.pools[t].records@, pool_names(before.pools))
        },
{
    let index = pool_names(before.pools);
    lemma_pools_no_fault(before.pools, index);
    assert forall|t: int| 0 <= t < before.pools.len() implies (type_errors(
        (#[trigger] before.pools[t]).id,
        before.pools[t].records@,
        index,
    ).len() == 0 <==> names_distinct(before.pools[t].records@) && records_found(
        before.pools[t].records@,
        index,
    )) by {
        lemma_no_fault(before.pools[t].id, before.pools[t].records@, index);
    }
}

/// Pools never shrink and handles stay good: a record that a handle
/// identifies before a tick is identified by the same handle after it, with
/// the same name and the same data.
pub proof fn lemma_tick_keeps_records<D>(
    before: SpecPluginView<D>,
    after: SpecPluginView<D>,
    statuses: Seq<LoadState>,
    handle: Handle,
)
    requires
        before.wf(),
        before.ticks(after, statuses),
        handle.pool < before.pools.len(),
        before.pools[handle.pool as int].spec_get(handle) is Some,
    ensures
        after.pools.len() == before.pools.len(),
        after.pools[handle.pool as int].spec_get(handle) matches Some(record) && record.name
            == before.pools[handle.pool as int].spec_get(handle)->0.name && record.data
            == before.pools[handle.pool as int].spec_get(handle)->0.data,
{
    if !before.all_loaded && after.settled() {
        let t = handle.pool as int;
        assert(after.pools[t].id == before.pools[t].id);
        assert(record_populated(
            before.pools[t].records@[handle.slot as int],
            after.pools[t].records@[handle.slot as int],
            pool_names(before.pools),
        ));
    }
}

} // verus!
