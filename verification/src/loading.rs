//! Tracking the loads that are under way.
//!
//! Every item that was asked of the loader is pending until the loader reports
//! it as loaded or as failed. A poll takes the loader's report for the pending
//! items and moves those that reached an end to the loaded or to the failed
//! items. The pending items only ever shrink by polling.
use vstd::prelude::*;

verus! {

/// What the loader says of an item.
#[derive(Clone, Copy, Debug, PartialEq, Eq, Structural)]
pub enum LoadState {
    /// The load is under way.
    Loading,
    /// The item is there.
    Loaded,
    /// The loader could not produce the item.
    Failed,
}

/// What a poll found.
#[derive(Clone, Copy, Debug, PartialEq, Eq, Structural)]
pub struct PendingStatus {
    /// Some item is still loading.
    pub still_pending: bool,
    /// Some item has failed, at this poll or an earlier one.
    pub any_failed: bool,
}

/// The items whose records were put into the pool of one type, slot by slot.
#[derive(Debug, PartialEq, Eq)]
pub struct SpecLoadingHandles {
    pub handles: Vec<u64>,
}

impl SpecLoadingHandles {
    /// No items yet.
    pub fn new() -> (r: SpecLoadingHandles)
        ensures
            r.handles@.len() == 0,
    {
        SpecLoadingHandles { handles: Vec::new() }
    }
}

/// The items asked of the loader, of whatever type: those still pending, and
/// those that have loaded or failed, each in the order in which they were
/// tracked.
#[derive(Debug, PartialEq, Eq)]
pub struct LoadingHandles {
    pub pending: Vec<u64>,
    pub loaded: Vec<u64>,
    pub failed: Vec<u64>,
}

/// The state reported for the pending item at `slot`. An item that the report
/// does not reach is taken to be loading still.
pub open spec fn status_at(statuses: Seq<LoadState>, slot: int) -> LoadState {
    if 0 <= slot < statuses.len() {
        statuses[slot]
    } else {
        LoadState::Loading
    }
}

/// The pending items for which `state` is reported, in order.
pub open spec fn with_status(pending: Seq<u64>, statuses: Seq<LoadState>, state: LoadState) -> Seq<
    u64,
>
    decreases pending.len(),
{
    if pending.len() == 0 {
        Seq::empty()
    } else {
        let before = with_status(pending.drop_last(), statuses, state);
        if status_at(statuses, pending.len() - 1) == state {
            before.push(pending.last())
        } else {
            before
        }
    }
}

/// The items of all `lists`, list by list.
pub open spec fn concat_all(lists: Seq<Vec<u64>>) -> Seq<u64>
    decreases lists.len(),
{
    if lists.len() == 0 {
        Seq::empty()
    } else {
        concat_all(lists.drop_last()) + lists.last()@
    }
}

/// Polling never adds a pending item: those that stay pending are items that
/// were pending, and no more of them.
pub proof fn lemma_poll_shrinks(pending: Seq<u64>, statuses: Seq<LoadState>)
    ensures
        with_status(pending, statuses, LoadState::Loading).len() <= pending.len(),
        forall|item: u64|
            with_status(pending, statuses, LoadState::Loading).contains(item) ==> pending.contains(
                item,
            ),
    decreases pending.len(),
{
    if pending.len() > 0 {
        let init = pending.drop_last();
        lemma_poll_shrinks(init, statuses);
        let kept = with_status(pending, statuses, LoadState::Loading);
        assert forall|item: u64| kept.contains(item) implies pending.contains(item) by {
            let i = choose|i: int| 0 <= i < kept.len() && kept[i] == item;
            let before = with_status(init, statuses, LoadState::Loading);
            if i < before.len() {
                assert(before[i] == item);
                assert(before.contains(item));
                assert(init.contains(item));
                let j = choose|j: int| 0 <= j < init.len() && init[j] == item;
                assert(pending[j] == item);
            } else {
                assert(pending[pending.len() - 1] == item);
            }
        }
    }
}

/// A settled set of loads stays settled: a poll finds nothing to move.
pub proof fn lemma_settled_poll_changes_nothing(statuses: Seq<LoadState>, state: LoadState)
    ensures
        with_status(Seq::empty(), statuses, state) == Seq::<u64>::empty(),
{
}

/// Every pending item goes one way at a poll: it stays pending, or it is
/// counted as loaded, or as failed.
pub proof fn lemma_poll_partitions(pending: Seq<u64>, statuses: Seq<LoadState>)
    ensures
        with_status(pending, statuses, LoadState::Loading).len() + with_status(
            pending,
            statuses,
            LoadState::Loaded,
        ).len() + with_status(pending, statuses, LoadState::Failed).len() == pending.len(),
    decreases pending.len(),
{
    if pending.len() > 0 {
        lemma_poll_partitions(pending.drop_last(), statuses);
    }
}

impl LoadingHandles {
    /// Nothing tracked.
    pub fn new() -> (r: LoadingHandles)
        ensures
            r.pending@.len() == 0,
            r.loaded@.len() == 0,
            r.failed@.len() == 0,
    {
        LoadingHandles { pending: Vec::new(), loaded: Vec::new(), failed: Vec::new() }
    }

    /// What a poll reports of this state.
    pub open spec fn spec_status(&self) -> PendingStatus {
        PendingStatus { still_pending: self.pending@.len() > 0, any_failed: self.failed@.len() > 0 }
    }

    /// Every tracked item has reached an end, and there is at least one.
    pub open spec fn spec_settled(&self) -> bool {
        self.pending@.len() == 0 && self.loaded@.len() + self.failed@.len() > 0
    }

    /// Whether items are pending or have failed.
    pub fn status(&self) -> (r: PendingStatus)
        ensures
            r == self.spec_status(),
    {
        PendingStatus { still_pending: self.pending.len() > 0, any_failed: self.failed.len() > 0 }
    }

    /// Whether every tracked item has reached an end, and there is at least one.
    pub fn settled(&self) -> (r: bool)
        ensures
            r == self.spec_settled(),
    {
        self.pending.len() == 0 && (self.loaded.len() > 0 || self.failed.len() > 0)
    }

    /// Registers loads that have begun: the items become pending, behind
    /// those that are pending already. A settled tracker takes no more items:
    /// it stays as it is and the answer is `false`.
    pub fn track(&mut self, item_ids: &Vec<u64>) -> (r: bool)
        ensures
            r == !old(self).spec_settled(),
            final(self).pending@ == if r {
                old(self).pending@ + item_ids@
            } else {
                old(self).pending@
            },
            final(self).loaded == old(self).loaded,
            final(self).failed == old(self).failed,
    {
        if self.settled() {
            return false;
        }
        let ghost before = self.pending@;
        let mut i: usize = 0;
        while i < item_ids.len()
            invariant
                i <= item_ids@.len(),
                self.pending@ == before + item_ids@.take(i as int),
                self.loaded == old(self).loaded,
                self.failed == old(self).failed,
            decreases item_ids@.len() - i,
        {
            self.pending.push(item_ids[i]);
            i += 1;
        }
        proof {
            assert(item_ids@.take(item_ids@.len() as int) == item_ids@);
        }
        true
    }

    /// Takes the loader's report: `statuses` holds the state of each pending
    /// item, in the order of the pending items. An item reported as loaded or
    /// as failed is pending no more; the others stay pending, in order.
    pub fn poll(&mut self, statuses: &Vec<LoadState>) -> (r: PendingStatus)
        ensures
            final(self).pending@ == with_status(old(self).pending@, statuses@, LoadState::Loading),
            final(self).loaded@ == old(self).loaded@ + with_status(
                old(self).pending@,
                statuses@,
                LoadState::Loaded,
            ),
            final(self).failed@ == old(self).failed@ + with_status(
                old(self).pending@,
                statuses@,
                LoadState::Failed,
            ),
            r == final(self).spec_status(),
    {
        let ghost before = *self;
        let mut still: Vec<u64> = Vec::new();
        let mut i: usize = 0;
        while i < self.pending.len()
            invariant
                i <= before.pending@.len(),
                self.pending == before.pending,
                still@ == with_status(before.pending@.take(i as int), statuses@, LoadState::Loading),
                self.loaded@ == before.loaded@ + with_status(
                    before.pending@.take(i as int),
                    statuses@,
                    LoadState::Loaded,
                ),
                self.failed@ == before.failed@ + with_status(
                    before.pending@.take(i as int),
                    statuses@,
                    LoadState::Failed,
                ),
            decreases before.pending@.len() - i,
        {
            proof {
                assert(before.pending@.take(i + 1).drop_last() == before.pending@.take(i as int));
                assert(before.pending@.take(i + 1).last() == before.pending@[i as int]);
            }
            let item = self.pending[i];
            let state = if i < statuses.len() {
                statuses[i]
            } else {
                LoadState::Loading
            };
            match state {
                LoadState::Loading => still.push(item),
                LoadState::Loaded => self.loaded.push(item),
                LoadState::Failed => self.failed.push(item),
            }
            i += 1;
        }
        proof {
            assert(before.pending@.take(before.pending@.len() as int) == before.pending@);
        }
        self.pending = still;
        self.status()
    }
}

} // verus!
