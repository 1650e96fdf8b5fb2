//! The metric store as plain values, and what applying updates does to it.
//!
//! Updates only ever set time series: a series that is not named stays as it
//! is, none is ever removed, and where a series is named more than once the
//! last value stays.

use vstd::prelude::*;
use crate::family::{MetricFamily, Series};
use crate::labels::LabelKey;

verus! {

/// The metric store as plain values: the value of each time series, addressed
/// by family and label set.
pub type StoreView = Map<(MetricFamily, LabelKey), i64>;

/// The store after the time series `update` was set in `store`: its value is
/// the new one whether or not the series was there, and no other series
/// changes.
pub open spec fn store_set(store: StoreView, update: Series) -> StoreView {
    store.insert((update.family, update.key), update.value)
}

/// The store after `updates` were set in `store`, one after the other.
pub open spec fn store_apply(store: StoreView, updates: Seq<Series>) -> StoreView
    decreases updates.len(),
{
    if updates.len() == 0 {
        store
    } else {
        store_set(store_apply(store, updates.drop_last()), updates.last())
    }
}

/// A store to which nothing was applied yet: the one gauge without labels
/// holds zero, and no family holds a time series.
pub open spec fn fresh_store() -> StoreView {
    Map::empty().insert((MetricFamily::DomainsBeingBlocked, Seq::empty()), 0i64)
}

/// The address of the time series that an update sets.
pub open spec fn address(update: Series) -> (MetricFamily, LabelKey) {
    (update.family, update.key)
}

/// Two stores agree on one time series: both hold it with the same value, or
/// neither holds it.
pub open spec fn same_at(a: StoreView, b: StoreView, k: (MetricFamily, LabelKey)) -> bool {
    &&& a.dom().contains(k) == b.dom().contains(k)
    &&& a.dom().contains(k) ==> a[k] == b[k]
}

/// Two stores agree on every time series of one family.
pub open spec fn same_family(a: StoreView, b: StoreView, family: MetricFamily) -> bool {
    forall|key: LabelKey| same_at(a, b, (family, key))
}

/// No update of the list is of the family.
pub open spec fn spares_family(updates: Seq<Series>, family: MetricFamily) -> bool {
    forall|i: int| 0 <= i < updates.len() ==> (#[trigger] updates[i]).family != family
}

/// Applying one list of updates after another is applying the two as one.
pub proof fn lemma_apply_concat(store: StoreView, first: Seq<Series>, second: Seq<Series>)
    ensures
        store_apply(store, first + second) == store_apply(store_apply(store, first), second),
    decreases second.len(),
{
    if second.len() == 0 {
        assert(first + second =~= first);
    } else {
        lemma_apply_concat(store, first, second.drop_last());
        assert((first + second).drop_last() =~= first + second.drop_last());
        assert((first + second).last() == second.last());
    }
}

/// A time series that no update names is left as it is.
pub proof fn lemma_apply_untouched(
    store: StoreView,
    updates: Seq<Series>,
    k: (MetricFamily, LabelKey),
)
    requires
        forall|i: int| 0 <= i < updates.len() ==> address(#[trigger] updates[i]) != k,
    ensures
        same_at(store_apply(store, updates), store, k),
    decreases updates.len(),
{
    if updates.len() > 0 {
        let front = updates.drop_last();
        assert forall|i: int| 0 <= i < front.len() implies address(#[trigger] front[i]) != k by {
            assert(front[i] == updates[i]);
        }
        lemma_apply_untouched(store, front, k);
        assert(address(updates[updates.len() - 1]) != k);
    }
}

/// Updates never remove a time series: what the store held before, it holds
/// afterwards.
pub proof fn lemma_apply_keeps_series(store: StoreView, updates: Seq<Series>)
    ensures
        forall|k: (MetricFamily, LabelKey)|
            store.dom().contains(k) ==> #[trigger] store_apply(store, updates).dom().contains(k),
    decreases updates.len(),
{
    if updates.len() > 0 {
        let front = updates.drop_last();
        lemma_apply_keeps_series(store, front);
        assert forall|k: (MetricFamily, LabelKey)| store.dom().contains(k) implies #[trigger] store_apply(
            store,
            updates,
        ).dom().contains(k) by {
            assert(store_apply(store, front).dom().contains(k));
        }
    }
}

/// The last value stays: a time series holds the value of the last update
/// that names it, whatever it held before and whatever earlier updates set.
pub proof fn lemma_apply_last_wins(store: StoreView, updates: Seq<Series>, i: int)
    requires
        0 <= i < updates.len(),
        forall|j: int| i < j < updates.len() ==> address(#[trigger] updates[j]) != address(updates[i]),
    ensures
        store_apply(store, updates).dom().contains(address(updates[i])),
        store_apply(store, updates)[address(updates[i])] == updates[i].value,
    decreases updates.len(),
{
    let front = updates.drop_last();
    if i < updates.len() - 1 {
        assert forall|j: int| i < j < front.len() implies address(#[trigger] front[j]) != address(
            front[i],
        ) by {
            assert(front[j] == updates[j]);
        }
        lemma_apply_last_wins(store, front, i);
        assert(address(updates[updates.len() - 1]) != address(updates[i]));
    }
}

/// Updates of other families leave a family as it is.
pub proof fn lemma_apply_spares_family(store: StoreView, updates: Seq<Series>, family: MetricFamily)
    requires
        spares_family(updates, family),
    ensures
        same_family(store_apply(store, updates), store, family),
{
    assert forall|key: LabelKey| same_at(store_apply(store, updates), store, (family, key)) by {
        lemma_apply_untouched(store, updates, (family, key));
    }
}

} // verus!
