//! What a cycle does to the metric store, family by family.

use vstd::prelude::*;
use crate::aggregate::{
    counted, cycle_series, dimension_series, summary_series, totals_series, upstream_point,
    upstream_series, window_family, window_series,
};
use crate::api::{distinct_keys, Counters, QueriesResponse, StatsResponse, UpstreamsResponse};
use crate::family::{
    counter_of, gauge_of, labelled_point, lemma_counter_of_gauge, MetricFamily, Series,
};
use crate::format::{has_line, sample_line};
use crate::labels::{one_label, LabelKey};
use crate::metrics::shows;
use crate::store::{
    address, lemma_apply_concat, lemma_apply_last_wins, lemma_apply_spares_family,
    lemma_apply_untouched, same_at, same_family, spares_family, store_apply, StoreView,
};
use crate::window::{
    first_seen, is_local_status, key_of, keys_of, lemma_attribution, lemma_first_seen,
    lemma_occurrences_bounded, lemma_tally_total, occurrences, resolved_upstream, tally, total,
    WindowKey,
};

verus! {

/// Whether a label set is that of one of the counters, in a family with one
/// label.
pub open spec fn names_counter(family: MetricFamily, counters: Counters, key: LabelKey) -> bool {
    &&& key.len() == 1
    &&& family.spec_label() == Some(key[0].0)
    &&& exists|i: int| 0 <= i < counters.len() && (#[trigger] counters[i]).0 == key[0].1
}

/// Whether a label set is that of a key that some query of the window has in
/// one dimension.
pub open spec fn seen_in_window(queries: QueriesResponse, dimension: WindowKey, key: LabelKey) -> bool {
    &&& key.len() == 1
    &&& window_family(dimension).spec_label() == Some(key[0].0)
    &&& occurrences(keys_of(queries.queries@, dimension), key[0].1) > 0
}

/// The label set under which a key is counted in one dimension.
pub open spec fn window_label(dimension: WindowKey, key: Seq<char>) -> LabelKey {
    one_label(window_family(dimension).spec_label()->0, key)
}

/// The label sets of the keys that the queries of a window have in one
/// dimension, each once.
pub open spec fn window_labels(queries: QueriesResponse, dimension: WindowKey) -> Seq<LabelKey> {
    first_seen(keys_of(queries.queries@, dimension)).map_values(
        |k: Seq<char>| window_label(dimension, k),
    )
}

/// The sum of the values that a store holds for the given label sets of one
/// family.
pub open spec fn series_sum(store: StoreView, family: MetricFamily, keys: Seq<LabelKey>) -> int
    decreases keys.len(),
{
    if keys.len() == 0 {
        0
    } else {
        series_sum(store, family, keys.drop_last()) + store[(family, keys.last())]
    }
}

/// The sum of the counters that the values stand for which a store holds for
/// the given label sets of one family.
pub open spec fn counter_sum(store: StoreView, family: MetricFamily, keys: Seq<LabelKey>) -> nat
    decreases keys.len(),
{
    if keys.len() == 0 {
        0
    } else {
        counter_sum(store, family, keys.drop_last()) + counter_of(store[(family, keys.last())])
    }
}

/// Two lists that spare a family spare it together.
proof fn lemma_spares_concat(a: Seq<Series>, b: Seq<Series>, family: MetricFamily)
    requires
        spares_family(a, family),
        spares_family(b, family),
    ensures
        spares_family(a + b, family),
{
    assert forall|i: int| 0 <= i < (a + b).len() implies (#[trigger] (a + b)[i]).family
        != family by {
        if i < a.len() {
            assert((a + b)[i] == a[i]);
        } else {
            assert((a + b)[i] == b[i - a.len()]);
        }
    }
}

/// The updates of counters are all of the counters' family.
proof fn lemma_counted_spares(family: MetricFamily, counters: Counters, other: MetricFamily)
    requires
        other != family,
    ensures
        spares_family(counted(family, counters), other),
{
}

/// The updates of a summary spare the one-minute families and that of the
/// upstream resolvers.
proof fn lemma_summary_spares(summary: StatsResponse, family: MetricFamily)
    requires
        family.spec_is_windowed() || family == MetricFamily::QueryUpstreamCount,
    ensures
        spares_family(summary_series(summary), family),
{
    let a = counted(MetricFamily::QueryByType, summary.queries.types.deep_view());
    let b = counted(MetricFamily::QueryByStatus, summary.queries.status.deep_view());
    let c = counted(MetricFamily::QueryReplies, summary.queries.replies.deep_view());
    let d = totals_series(summary);
    lemma_counted_spares(MetricFamily::QueryByType, summary.queries.types.deep_view(), family);
    lemma_counted_spares(MetricFamily::QueryByStatus, summary.queries.status.deep_view(), family);
    lemma_counted_spares(MetricFamily::QueryReplies, summary.queries.replies.deep_view(), family);
    assert(spares_family(d, family));
    lemma_spares_concat(a, b, family);
    lemma_spares_concat(a + b, c, family);
    lemma_spares_concat(a + b + c, d, family);
}

/// The updates of the upstream resolvers are all of their own family.
proof fn lemma_upstream_spares(upstreams: UpstreamsResponse, family: MetricFamily)
    requires
        family != MetricFamily::QueryUpstreamCount,
    ensures
        spares_family(upstream_series(upstreams), family),
{
}

/// The updates of one dimension of a window are all of that dimension's
/// family.
proof fn lemma_dimension_spares(queries: QueriesResponse, dimension: WindowKey, family: MetricFamily)
    requires
        family != window_family(dimension),
    ensures
        spares_family(dimension_series(queries, dimension), family),
{
    lemma_counted_spares(
        window_family(dimension),
        tally(keys_of(queries.queries@, dimension)),
        family,
    );
}

/// The updates of a window that come before those of one dimension.
spec fn window_before(queries: QueriesResponse, dimension: WindowKey) -> Seq<Series> {
    match dimension {
        WindowKey::QueryType => Seq::empty(),
        WindowKey::Status => dimension_series(queries, WindowKey::QueryType),
        WindowKey::ReplyType => dimension_series(queries, WindowKey::QueryType) + dimension_series(
            queries,
            WindowKey::Status,
        ),
        WindowKey::Client => dimension_series(queries, WindowKey::QueryType) + dimension_series(
            queries,
            WindowKey::Status,
        ) + dimension_series(queries, WindowKey::ReplyType),
        WindowKey::Upstream => dimension_series(queries, WindowKey::QueryType) + dimension_series(
            queries,
            WindowKey::Status,
        ) + dimension_series(queries, WindowKey::ReplyType) + dimension_series(
            queries,
            WindowKey::Client,
        ),
    }
}

/// The updates of a window that come after those of one dimension.
spec fn window_after(queries: QueriesResponse, dimension: WindowKey) -> Seq<Series> {
    match dimension {
        WindowKey::QueryType => dimension_series(queries, WindowKey::Status) + dimension_series(
            queries,
            WindowKey::ReplyType,
        ) + dimension_series(queries, WindowKey::Client) + dimension_series(
            queries,
            WindowKey::Upstream,
        ),
        WindowKey::Status => dimension_series(queries, WindowKey::ReplyType) + dimension_series(
            queries,
            WindowKey::Client,
        ) + dimension_series(queries, WindowKey::Upstream),
        WindowKey::ReplyType => dimension_series(queries, WindowKey::Client) + dimension_series(
            queries,
            WindowKey::Upstream,
        ),
        WindowKey::Client => dimension_series(queries, WindowKey::Upstream),
        WindowKey::Upstream => Seq::empty(),
    }
}

/// The updates of a window are those of one dimension with, before and after
/// them, updates of other families only.
proof fn lemma_window_split(queries: QueriesResponse, dimension: WindowKey)
    ensures
        window_series(queries) == window_before(queries, dimension) + dimension_series(
            queries,
            dimension,
        ) + window_after(queries, dimension),
        spares_family(window_before(queries, dimension), window_family(dimension)),
        spares_family(window_after(queries, dimension), window_family(dimension)),
{
    let family = window_family(dimension);
    let a = dimension_series(queries, WindowKey::QueryType);
    let b = dimension_series(queries, WindowKey::Status);
    let c = dimension_series(queries, WindowKey::ReplyType);
    let d = dimension_series(queries, WindowKey::Client);
    let e = dimension_series(queries, WindowKey::Upstream);
    let empty = Seq::<Series>::empty();
    assert(spares_family(empty, family));
    if dimension != WindowKey::QueryType {
        lemma_dimension_spares(queries, WindowKey::QueryType, family);
    }
    if dimension != WindowKey::Status {
        lemma_dimension_spares(queries, WindowKey::Status, family);
    }
    if dimension != WindowKey::ReplyType {
        lemma_dimension_spares(queries, WindowKey::ReplyType, family);
    }
    if dimension != WindowKey::Client {
        lemma_dimension_spares(queries, WindowKey::Client, family);
    }
    if dimension != WindowKey::Upstream {
        lemma_dimension_spares(queries, WindowKey::Upstream, family);
    }
    match dimension {
        WindowKey::QueryType => {
            lemma_spares_concat(b, c, family);
            lemma_spares_concat(b + c, d, family);
            lemma_spares_concat(b + c + d, e, family);
        },
        WindowKey::Status => {
            lemma_spares_concat(c, d, family);
            lemma_spares_concat(c + d, e, family);
        },
        WindowKey::ReplyType => {
            lemma_spares_concat(a, b, family);
            lemma_spares_concat(d, e, family);
        },
        WindowKey::Client => {
            lemma_spares_concat(a, b, family);
            lemma_spares_concat(a + b, c, family);
        },
        WindowKey::Upstream => {
            lemma_spares_concat(a, b, family);
            lemma_spares_concat(a + b, c, family);
            lemma_spares_concat(a + b + c, d, family);
        },
    }
    assert(window_series(queries) =~= window_before(queries, dimension) + dimension_series(
        queries,
        dimension,
    ) + window_after(queries, dimension));
}

/// What applying the updates of a list of counters with distinct keys does to
/// one time series of their family: the series of a counter holds its count,
/// and every other series is left as it is.
pub proof fn lemma_counted_applied(
    store: StoreView,
    family: MetricFamily,
    counters: Counters,
    key: LabelKey,
)
    requires
        family.spec_label() is Some,
        distinct_keys(counters),
    ensures
        !names_counter(family, counters, key) ==> same_at(
            store_apply(store, counted(family, counters)),
            store,
            (family, key),
        ),
        forall|i: int|
            0 <= i < counters.len() && key == one_label(
                family.spec_label()->0,
                (#[trigger] counters[i]).0,
            ) ==> store_apply(store, counted(family, counters)).dom().contains((family, key))
                && store_apply(store, counted(family, counters))[(family, key)] == gauge_of(
                counters[i].1,
            ),
{
    let updates = counted(family, counters);
    let name = family.spec_label()->0;
    if !names_counter(family, counters, key) {
        assert forall|i: int| 0 <= i < updates.len() implies address(#[trigger] updates[i]) != (
            family,
            key,
        ) by {
            if address(updates[i]) == (family, key) {
                assert(key == one_label(name, counters[i].0));
                assert(key[0] == (name, counters[i].0));
                assert(names_counter(family, counters, key));
            }
        }
        lemma_apply_untouched(store, updates, (family, key));
    }
    assert forall|i: int|
        0 <= i < counters.len() && key == one_label(
            name,
            (#[trigger] counters[i]).0,
        ) implies store_apply(store, updates).dom().contains((family, key)) && store_apply(
        store,
        updates,
    )[(family, key)] == gauge_of(counters[i].1) by {
        assert(address(updates[i]) == (family, key));
        assert forall|j: int| i < j < updates.len() implies address(#[trigger] updates[j])
            != address(updates[i]) by {
            if address(updates[j]) == address(updates[i]) {
                assert(one_label(name, counters[j].0)[0] == one_label(name, counters[i].0)[0]);
                assert(counters[i].0 != counters[j].0);
            }
        }
        lemma_apply_last_wins(store, updates, i);
    }
}

/// As [`lemma_counted_applied`], with updates of other families before and
/// after those of the counters.
proof fn lemma_counted_within(
    store: StoreView,
    before: Seq<Series>,
    family: MetricFamily,
    counters: Counters,
    after: Seq<Series>,
    key: LabelKey,
)
    requires
        family.spec_label() is Some,
        distinct_keys(counters),
        spares_family(before, family),
        spares_family(after, family),
    ensures
        !names_counter(family, counters, key) ==> same_at(
            store_apply(store, before + counted(family, counters) + after),
            store,
            (family, key),
        ),
        forall|i: int|
            0 <= i < counters.len() && key == one_label(
                family.spec_label()->0,
                (#[trigger] counters[i]).0,
            ) ==> store_apply(store, before + counted(family, counters) + after).dom().contains(
                (family, key),
            ) && store_apply(store, before + counted(family, counters) + after)[(family, key)]
                == gauge_of(counters[i].1),
{
    let middle = counted(family, counters);
    let first = store_apply(store, before);
    let second = store_apply(first, middle);
    let third = store_apply(second, after);
    lemma_apply_concat(store, before, middle);
    lemma_apply_concat(store, before + middle, after);
    lemma_apply_spares_family(store, before, family);
    lemma_apply_spares_family(second, after, family);
    lemma_counted_applied(first, family, counters, key);
    assert(same_at(first, store, (family, key)));
    assert(same_at(third, second, (family, key)));
}

/// The counters of a window name each key once, in the order first seen.
proof fn lemma_tally_distinct(keys: Seq<Seq<char>>)
    ensures
        distinct_keys(tally(keys)),
        tally(keys).len() == first_seen(keys).len(),
        forall|i: int|
            0 <= i < first_seen(keys).len() ==> (#[trigger] tally(keys)[i]) == (
                first_seen(keys)[i],
                occurrences(keys, first_seen(keys)[i]) as u64,
            ),
{
    lemma_first_seen(keys);
}

/// The label sets seen in a window are those of its counters, and those that
/// its list of label sets holds.
proof fn lemma_seen_is_counted(queries: QueriesResponse, dimension: WindowKey, key: LabelKey)
    ensures
        seen_in_window(queries, dimension, key) <==> names_counter(
            window_family(dimension),
            tally(keys_of(queries.queries@, dimension)),
            key,
        ),
        seen_in_window(queries, dimension, key) <==> window_labels(queries, dimension).contains(key),
{
    let keys = keys_of(queries.queries@, dimension);
    let seen = first_seen(keys);
    let counters = tally(keys);
    let labels = window_labels(queries, dimension);
    lemma_first_seen(keys);
    lemma_tally_distinct(keys);
    if key.len() == 1 {
        lemma_occurrences_bounded(keys, key[0].1);
    }
    if seen_in_window(queries, dimension, key) {
        assert(seen.contains(key[0].1));
        let i = choose|i: int| 0 <= i < seen.len() && seen[i] == key[0].1;
        assert(counters[i].0 == key[0].1);
        assert(labels[i] =~= key);
    }
    if names_counter(window_family(dimension), counters, key) {
        let i = choose|i: int| 0 <= i < counters.len() && (#[trigger] counters[i]).0 == key[0].1;
        assert(seen[i] == key[0].1);
        assert(seen.contains(key[0].1));
    }
    if labels.contains(key) {
        let i = choose|i: int| 0 <= i < labels.len() && labels[i] == key;
        assert(key == window_label(dimension, seen[i]));
        assert(key[0].1 == seen[i]);
        assert(seen.contains(key[0].1));
    }
}

/// What a cycle does to one time series of a one-minute family. The series
/// of a key that some query of the window has holds the number of those
/// queries afterwards, whatever it held before. Every other series of the
/// family is left as it is: none is cleared, none is removed.
pub proof fn lemma_cycle_window_family(
    store: StoreView,
    summary: StatsResponse,
    upstreams: UpstreamsResponse,
    queries: QueriesResponse,
    dimension: WindowKey,
    key: LabelKey,
)
    ensures
        seen_in_window(queries, dimension, key) ==> {
            let after = store_apply(store, cycle_series(summary, upstreams, queries));
            let k = (window_family(dimension), key);
            after.dom().contains(k) && after[k] == gauge_of(
                occurrences(keys_of(queries.queries@, dimension), key[0].1) as u64,
            )
        },
        !seen_in_window(queries, dimension, key) ==> same_at(
            store_apply(store, cycle_series(summary, upstreams, queries)),
            store,
            (window_family(dimension), key),
        ),
{
    let family = window_family(dimension);
    let keys = keys_of(queries.queries@, dimension);
    let counters = tally(keys);
    assert(queries.queries.len() == queries.queries@.len());
    let before = summary_series(summary) + upstream_series(upstreams) + window_before(
        queries,
        dimension,
    );
    let after = window_after(queries, dimension);
    lemma_window_split(queries, dimension);
    lemma_summary_spares(summary, family);
    lemma_upstream_spares(upstreams, family);
    lemma_spares_concat(summary_series(summary), upstream_series(upstreams), family);
    lemma_spares_concat(
        summary_series(summary) + upstream_series(upstreams),
        window_before(queries, dimension),
        family,
    );
    assert(cycle_series(summary, upstreams, queries) =~= before + counted(family, counters)
        + after);
    lemma_tally_distinct(keys);
    lemma_seen_is_counted(queries, dimension, key);
    lemma_counted_within(store, before, family, counters, after, key);
    if seen_in_window(queries, dimension, key) {
        lemma_first_seen(keys);
        let i = choose|i: int| 0 <= i < counters.len() && (#[trigger] counters[i]).0 == key[0].1;
        assert(key =~= one_label(family.spec_label()->0, counters[i].0));
    }
}

/// A cycle on an empty window leaves every time series of the one-minute
/// families as it is.
pub proof fn lemma_empty_window_keeps_minute_families(
    store: StoreView,
    summary: StatsResponse,
    upstreams: UpstreamsResponse,
    queries: QueriesResponse,
    family: MetricFamily,
)
    requires
        queries.queries@.len() == 0,
        family.spec_is_windowed(),
    ensures
        same_family(store_apply(store, cycle_series(summary, upstreams, queries)), store, family),
{
    assert forall|key: LabelKey|
        same_at(
            store_apply(store, cycle_series(summary, upstreams, queries)),
            store,
            (family, key),
        ) by {
        let dimension = choose|d: WindowKey| window_family(d) == family;
        assert(window_family(WindowKey::QueryType) == MetricFamily::QueryType1m);
        assert(window_family(WindowKey::Status) == MetricFamily::QueryStatus1m);
        assert(window_family(WindowKey::ReplyType) == MetricFamily::QueryReply1m);
        assert(window_family(WindowKey::Client) == MetricFamily::QueryClient1m);
        assert(window_family(WindowKey::Upstream) == MetricFamily::QueryUpstream1m);
        assert(window_family(dimension) == family);
        lemma_cycle_window_family(store, summary, upstreams, queries, dimension, key);
        assert(!seen_in_window(queries, dimension, key));
    }
}

/// Where a store holds the gauge of each counter under the label set of the
/// same place, the counters that its values stand for add up to the sum of
/// the counts, and so do the values themselves where every count fits a
/// gauge.
proof fn lemma_sum_of_counts(
    store: StoreView,
    family: MetricFamily,
    labels: Seq<LabelKey>,
    counters: Counters,
)
    requires
        labels.len() == counters.len(),
        forall|i: int|
            0 <= i < labels.len() ==> store[(family, #[trigger] labels[i])] == gauge_of(
                counters[i].1,
            ),
    ensures
        counter_sum(store, family, labels) == total(counters),
        (forall|i: int| 0 <= i < counters.len() ==> (#[trigger] counters[i]).1 <= i64::MAX)
            ==> series_sum(store, family, labels) == total(counters),
    decreases labels.len(),
{
    if labels.len() > 0 {
        let front = labels.drop_last();
        let rest = counters.drop_last();
        let last = labels.len() - 1;
        assert forall|i: int| 0 <= i < front.len() implies store[(family, #[trigger] front[i])]
            == gauge_of(rest[i].1) by {
            assert(front[i] == labels[i]);
        }
        lemma_sum_of_counts(store, family, front, rest);
        assert(store[(family, labels[last])] == gauge_of(counters[last].1));
        lemma_counter_of_gauge(counters[last].1);
        if forall|i: int| 0 <= i < counters.len() ==> (#[trigger] counters[i]).1 <= i64::MAX {
            assert forall|i: int| 0 <= i < rest.len() implies (#[trigger] rest[i]).1
                <= i64::MAX by {
                assert(rest[i] == counters[i]);
            }
            assert(counters[last].1 <= i64::MAX);
        }
    }
}

/// Conservation of count. Where a one-minute family holds no time series
/// from an earlier window that the new window lacks, the family holds after
/// the cycle exactly the series of the keys of the window, each once, and the
/// counters that their values stand for add up to the number of queries of
/// the window. So do the values themselves, for a window of as many queries
/// as a gauge can hold.
pub proof fn lemma_window_family_sum(
    store: StoreView,
    summary: StatsResponse,
    upstreams: UpstreamsResponse,
    queries: QueriesResponse,
    dimension: WindowKey,
)
    requires
        forall|key: LabelKey| #[trigger]
            store.dom().contains((window_family(dimension), key)) ==> seen_in_window(
                queries,
                dimension,
                key,
            ),
    ensures
        window_labels(queries, dimension).no_duplicates(),
        forall|key: LabelKey|
            store_apply(store, cycle_series(summary, upstreams, queries)).dom().contains(
                (window_family(dimension), key),
            ) <==> #[trigger] window_labels(queries, dimension).contains(key),
        counter_sum(
            store_apply(store, cycle_series(summary, upstreams, queries)),
            window_family(dimension),
            window_labels(queries, dimension),
        ) == queries.queries@.len(),
        queries.queries@.len() <= i64::MAX ==> series_sum(
            store_apply(store, cycle_series(summary, upstreams, queries)),
            window_family(dimension),
            window_labels(queries, dimension),
        ) == queries.queries@.len(),
{
    let family = window_family(dimension);
    let keys = keys_of(queries.queries@, dimension);
    let seen = first_seen(keys);
    let counters = tally(keys);
    let labels = window_labels(queries, dimension);
    let after = store_apply(store, cycle_series(summary, upstreams, queries));
    assert(queries.queries.len() == queries.queries@.len());
    lemma_first_seen(keys);
    lemma_tally_distinct(keys);
    lemma_tally_total(keys);
    assert forall|i: int, j: int| 0 <= i < labels.len() && 0 <= j < labels.len() && i
        != j implies labels[i] != labels[j] by {
        assert(labels[i][0].1 == seen[i]);
        assert(labels[j][0].1 == seen[j]);
    }
    assert forall|key: LabelKey|
        after.dom().contains((family, key)) <==> #[trigger] labels.contains(key) by {
        lemma_cycle_window_family(store, summary, upstreams, queries, dimension, key);
        lemma_seen_is_counted(queries, dimension, key);
    }
    assert forall|i: int| 0 <= i < labels.len() implies after[(family, #[trigger] labels[i])]
        == gauge_of(counters[i].1) by {
        let key = labels[i];
        lemma_cycle_window_family(store, summary, upstreams, queries, dimension, key);
        lemma_seen_is_counted(queries, dimension, key);
        assert(labels.contains(key));
        assert(key[0].1 == seen[i]);
    }
    lemma_sum_of_counts(after, family, labels, counters);
    if queries.queries@.len() <= i64::MAX {
        assert forall|i: int| 0 <= i < counters.len() implies (#[trigger] counters[i]).1
            <= i64::MAX by {
            lemma_occurrences_bounded(keys, seen[i]);
        }
    }
}

/// The updates of a window spare every family that is not a one-minute
/// family.
proof fn lemma_window_spares(queries: QueriesResponse, family: MetricFamily)
    requires
        !family.spec_is_windowed(),
    ensures
        spares_family(window_series(queries), family),
{
    let a = dimension_series(queries, WindowKey::QueryType);
    let b = dimension_series(queries, WindowKey::Status);
    let c = dimension_series(queries, WindowKey::ReplyType);
    let d = dimension_series(queries, WindowKey::Client);
    let e = dimension_series(queries, WindowKey::Upstream);
    lemma_dimension_spares(queries, WindowKey::QueryType, family);
    lemma_dimension_spares(queries, WindowKey::Status, family);
    lemma_dimension_spares(queries, WindowKey::ReplyType, family);
    lemma_dimension_spares(queries, WindowKey::Client, family);
    lemma_dimension_spares(queries, WindowKey::Upstream, family);
    lemma_spares_concat(a, b, family);
    lemma_spares_concat(a + b, c, family);
    lemma_spares_concat(a + b + c, d, family);
    lemma_spares_concat(a + b + c + d, e, family);
}

/// The eight scalar updates of a summary name eight different time series.
proof fn lemma_totals_distinct(summary: StatsResponse)
    ensures
        totals_series(summary).len() == 8,
        forall|i: int, j: int|
            0 <= i < j < 8 ==> address(#[trigger] totals_series(summary)[i]) != address(
                #[trigger] totals_series(summary)[j],
            ),
        forall|i: int|
            0 <= i < 8 ==> {
                let family = (#[trigger] totals_series(summary)[i]).family;
                family == MetricFamily::QueryCount || family == MetricFamily::ClientCount || family
                    == MetricFamily::DomainsBeingBlocked
            },
{
    reveal_strlit("total");
    reveal_strlit("blocked");
    reveal_strlit("unique");
    reveal_strlit("forwarded");
    reveal_strlit("cached");
    reveal_strlit("active");
    let t = totals_series(summary);
    assert(t[0].key[0].1 == "total"@);
    assert(t[1].key[0].1 == "blocked"@);
    assert(t[2].key[0].1 == "unique"@);
    assert(t[3].key[0].1 == "forwarded"@);
    assert(t[4].key[0].1 == "cached"@);
    assert(t[5].key[0].1 == "active"@);
    assert(t[6].key[0].1 == "total"@);
    assert(t[7].key.len() == 0);
    assert("unique"@[0] != "cached"@[0]);
    assert("total"@.len() == 5 && "blocked"@.len() == 7 && "unique"@.len() == 6 && "forwarded"@.len()
        == 9 && "cached"@.len() == 6 && "active"@.len() == 6);
}

/// The scalar values of a summary stand in the store after a cycle: each of
/// the five query totals, the two client counts and the size of the
/// blocklist is the value of its time series.
pub proof fn lemma_cycle_totals(
    store: StoreView,
    summary: StatsResponse,
    upstreams: UpstreamsResponse,
    queries: QueriesResponse,
    i: int,
)
    requires
        0 <= i < 8,
    ensures
        store_apply(store, cycle_series(summary, upstreams, queries)).dom().contains(
            address(totals_series(summary)[i]),
        ),
        store_apply(store, cycle_series(summary, upstreams, queries))[address(
            totals_series(summary)[i],
        )] == totals_series(summary)[i].value,
{
    let head = counted(MetricFamily::QueryByType, summary.queries.types.deep_view()) + counted(
        MetricFamily::QueryByStatus,
        summary.queries.status.deep_view(),
    ) + counted(MetricFamily::QueryReplies, summary.queries.replies.deep_view());
    let totals = totals_series(summary);
    let rest = upstream_series(upstreams) + window_series(queries);
    let family = totals[i].family;
    lemma_totals_distinct(summary);
    assert(cycle_series(summary, upstreams, queries) =~= head + totals + rest);
    lemma_apply_concat(store, head, totals);
    lemma_apply_concat(store, head + totals, rest);
    lemma_apply_last_wins(store_apply(store, head), totals, i);
    lemma_upstream_spares(upstreams, family);
    lemma_window_spares(queries, family);
    lemma_spares_concat(upstream_series(upstreams), window_series(queries), family);
    lemma_apply_spares_family(store_apply(store, head + totals), rest, family);
    assert(same_at(
        store_apply(store, head + totals + rest),
        store_apply(store, head + totals),
        (family, totals[i].key),
    ));
}

/// Among the updates of a summary exactly one sets the time series of the
/// query-count family whose category is `unique`, and its value is the
/// summary's number of unique domains.
pub proof fn lemma_unique_domains_entry(summary: StatsResponse)
    ensures
        ({
            let series = summary_series(summary);
            let place = (summary.queries.types@.len() + summary.queries.status@.len()
                + summary.queries.replies@.len() + 2) as int;
            &&& place < series.len()
            &&& series[place] == labelled_point(
                MetricFamily::QueryCount,
                "unique"@,
                gauge_of(summary.queries.unique_domains),
            )
            &&& forall|i: int|
                0 <= i < series.len() && i != place ==> address(#[trigger] series[i]) != address(
                    series[place],
                )
        }),
{
    let a = counted(MetricFamily::QueryByType, summary.queries.types.deep_view());
    let b = counted(MetricFamily::QueryByStatus, summary.queries.status.deep_view());
    let c = counted(MetricFamily::QueryReplies, summary.queries.replies.deep_view());
    let totals = totals_series(summary);
    let series = summary_series(summary);
    let n = (a.len() + b.len() + c.len()) as int;
    let place = n + 2;
    lemma_totals_distinct(summary);
    assert(summary.queries.types.deep_view().len() == summary.queries.types@.len());
    assert(summary.queries.status.deep_view().len() == summary.queries.status@.len());
    assert(summary.queries.replies.deep_view().len() == summary.queries.replies@.len());
    assert(series == a + b + c + totals);
    assert(series[place] == totals[2]);
    assert forall|i: int| 0 <= i < series.len() && i != place implies address(
        #[trigger] series[i],
    ) != address(series[place]) by {
        if i < a.len() {
            assert(series[i] == a[i]);
        } else if i < a.len() + b.len() {
            assert(series[i] == b[i - a.len()]);
        } else if i < n {
            assert(series[i] == c[i - a.len() - b.len()]);
        } else {
            assert(series[i] == totals[i - n]);
        }
    }
}

/// The counters of a summary that one of the three 24-hour counter families
/// copies.
pub open spec fn summary_counters(summary: StatsResponse, family: MetricFamily) -> Counters {
    match family {
        MetricFamily::QueryByType => summary.queries.types.deep_view(),
        MetricFamily::QueryByStatus => summary.queries.status.deep_view(),
        MetricFamily::QueryReplies => summary.queries.replies.deep_view(),
        _ => Seq::empty(),
    }
}

/// The updates of a cycle that come before those of one of the three 24-hour
/// counter families.
spec fn summary_before(summary: StatsResponse, family: MetricFamily) -> Seq<Series> {
    if family == MetricFamily::QueryByType {
        Seq::empty()
    } else if family == MetricFamily::QueryByStatus {
        counted(MetricFamily::QueryByType, summary.queries.types.deep_view())
    } else {
        counted(MetricFamily::QueryByType, summary.queries.types.deep_view()) + counted(
            MetricFamily::QueryByStatus,
            summary.queries.status.deep_view(),
        )
    }
}

/// The updates of a cycle that come after those of one of the three 24-hour
/// counter families.
spec fn summary_after(
    summary: StatsResponse,
    upstreams: UpstreamsResponse,
    queries: QueriesResponse,
    family: MetricFamily,
) -> Seq<Series> {
    let rest = totals_series(summary) + (upstream_series(upstreams) + window_series(queries));
    if family == MetricFamily::QueryByType {
        counted(MetricFamily::QueryByStatus, summary.queries.status.deep_view()) + counted(
            MetricFamily::QueryReplies,
            summary.queries.replies.deep_view(),
        ) + rest
    } else if family == MetricFamily::QueryByStatus {
        counted(MetricFamily::QueryReplies, summary.queries.replies.deep_view()) + rest
    } else {
        rest
    }
}

/// The updates of a cycle are those of one 24-hour counter family with,
/// before and after them, updates of other families only.
proof fn lemma_summary_split(
    summary: StatsResponse,
    upstreams: UpstreamsResponse,
    queries: QueriesResponse,
    family: MetricFamily,
)
    requires
        family == MetricFamily::QueryByType || family == MetricFamily::QueryByStatus || family
            == MetricFamily::QueryReplies,
    ensures
        cycle_series(summary, upstreams, queries) == summary_before(summary, family) + counted(
            family,
            summary_counters(summary, family),
        ) + summary_after(summary, upstreams, queries, family),
        spares_family(summary_before(summary, family), family),
        spares_family(summary_after(summary, upstreams, queries, family), family),
{
    let a = counted(MetricFamily::QueryByType, summary.queries.types.deep_view());
    let b = counted(MetricFamily::QueryByStatus, summary.queries.status.deep_view());
    let c = counted(MetricFamily::QueryReplies, summary.queries.replies.deep_view());
    let totals = totals_series(summary);
    let rest = totals + (upstream_series(upstreams) + window_series(queries));
    assert(spares_family(rest, family)) by {
        lemma_totals_distinct(summary);
        assert(spares_family(totals, family));
        lemma_upstream_spares(upstreams, family);
        lemma_window_spares(queries, family);
        lemma_spares_concat(upstream_series(upstreams), window_series(queries), family);
        lemma_spares_concat(totals, upstream_series(upstreams) + window_series(queries), family);
    }
    assert(spares_family(Seq::<Series>::empty(), family));
    if family == MetricFamily::QueryByType {
        lemma_counted_spares(MetricFamily::QueryByStatus, summary.queries.status.deep_view(), family);
        lemma_counted_spares(MetricFamily::QueryReplies, summary.queries.replies.deep_view(), family);
        lemma_spares_concat(b, c, family);
        lemma_spares_concat(b + c, rest, family);
    } else if family == MetricFamily::QueryByStatus {
        lemma_counted_spares(MetricFamily::QueryByType, summary.queries.types.deep_view(), family);
        lemma_counted_spares(MetricFamily::QueryReplies, summary.queries.replies.deep_view(), family);
        lemma_spares_concat(c, rest, family);
    } else {
        lemma_counted_spares(MetricFamily::QueryByType, summary.queries.types.deep_view(), family);
        lemma_counted_spares(MetricFamily::QueryByStatus, summary.queries.status.deep_view(), family);
        lemma_spares_concat(a, b, family);
    }
    assert(cycle_series(summary, upstreams, queries) =~= summary_before(summary, family) + counted(
        family,
        summary_counters(summary, family),
    ) + summary_after(summary, upstreams, queries, family));
}

/// What a cycle does to one time series of a 24-hour counter family, for a
/// summary that names each key once: the series of a key of the summary holds
/// the summary's count for it, and every other series is left as it is.
pub proof fn lemma_cycle_summary_family(
    store: StoreView,
    summary: StatsResponse,
    upstreams: UpstreamsResponse,
    queries: QueriesResponse,
    family: MetricFamily,
    key: LabelKey,
)
    requires
        family == MetricFamily::QueryByType || family == MetricFamily::QueryByStatus || family
            == MetricFamily::QueryReplies,
        summary.queries.wf(),
    ensures
        !names_counter(family, summary_counters(summary, family), key) ==> same_at(
            store_apply(store, cycle_series(summary, upstreams, queries)),
            store,
            (family, key),
        ),
        forall|i: int|
            0 <= i < summary_counters(summary, family).len() && key == one_label(
                family.spec_label()->0,
                (#[trigger] summary_counters(summary, family)[i]).0,
            ) ==> store_apply(store, cycle_series(summary, upstreams, queries)).dom().contains(
                (family, key),
            ) && store_apply(store, cycle_series(summary, upstreams, queries))[(family, key)]
                == gauge_of(summary_counters(summary, family)[i].1),
{
    lemma_summary_split(summary, upstreams, queries, family);
    lemma_counted_within(
        store,
        summary_before(summary, family),
        family,
        summary_counters(summary, family),
        summary_after(summary, upstreams, queries, family),
        key,
    );
}

/// The time series of an upstream resolver holds the resolver's 24-hour
/// count after a cycle. Where the list names the same address, name and port
/// more than once, this holds of the last of them.
pub proof fn lemma_cycle_upstream(
    store: StoreView,
    summary: StatsResponse,
    upstreams: UpstreamsResponse,
    queries: QueriesResponse,
    i: int,
)
    requires
        0 <= i < upstreams.upstreams@.len(),
        forall|j: int|
            i < j < upstreams.upstreams@.len() ==> upstream_point(
                #[trigger] upstreams.upstreams@[j],
            ).key != upstream_point(upstreams.upstreams@[i]).key,
    ensures
        store_apply(store, cycle_series(summary, upstreams, queries)).dom().contains(
            address(upstream_point(upstreams.upstreams@[i])),
        ),
        store_apply(store, cycle_series(summary, upstreams, queries))[address(
            upstream_point(upstreams.upstreams@[i]),
        )] == gauge_of(upstreams.upstreams@[i].count),
{
    let family = MetricFamily::QueryUpstreamCount;
    let head = summary_series(summary);
    let middle = upstream_series(upstreams);
    let rest = window_series(queries);
    lemma_apply_concat(store, head, middle);
    lemma_apply_concat(store, head + middle, rest);
    assert forall|j: int| i < j < middle.len() implies address(#[trigger] middle[j]) != address(
        middle[i],
    ) by {
        assert(middle[j] == upstream_point(upstreams.upstreams@[j]));
    }
    lemma_apply_last_wins(store_apply(store, head), middle, i);
    lemma_window_spares(queries, family);
    lemma_apply_spares_family(store_apply(store, head + middle), rest, family);
    assert(same_at(
        store_apply(store, head + middle + rest),
        store_apply(store, head + middle),
        (family, middle[i].key),
    ));
}

/// A cycle leaves the time series of the upstream family as they are, but
/// for those of the resolvers that the list names.
pub proof fn lemma_cycle_upstream_absent(
    store: StoreView,
    summary: StatsResponse,
    upstreams: UpstreamsResponse,
    queries: QueriesResponse,
    key: LabelKey,
)
    requires
        forall|j: int|
            0 <= j < upstreams.upstreams@.len() ==> upstream_point(
                #[trigger] upstreams.upstreams@[j],
            ).key != key,
    ensures
        same_at(
            store_apply(store, cycle_series(summary, upstreams, queries)),
            store,
            (MetricFamily::QueryUpstreamCount, key),
        ),
{
    let family = MetricFamily::QueryUpstreamCount;
    let head = summary_series(summary);
    let middle = upstream_series(upstreams);
    let rest = window_series(queries);
    lemma_apply_concat(store, head, middle);
    lemma_apply_concat(store, head + middle, rest);
    lemma_summary_spares(summary, family);
    lemma_apply_spares_family(store, head, family);
    assert forall|j: int| 0 <= j < middle.len() implies address(#[trigger] middle[j]) != (
        family,
        key,
    ) by {
        assert(middle[j] == upstream_point(upstreams.upstreams@[j]));
    }
    lemma_apply_untouched(store_apply(store, head), middle, (family, key));
    lemma_window_spares(queries, family);
    lemma_apply_spares_family(store_apply(store, head + middle), rest, family);
    assert(same_at(store_apply(store, head), store, (family, key)));
    assert(same_at(
        store_apply(store, head + middle + rest),
        store_apply(store, head + middle),
        (family, key),
    ));
}

/// Where all keys are the same, that key occurs as often as there are keys,
/// and no other key occurs.
proof fn lemma_uniform_occurrences(keys: Seq<Seq<char>>, x: Seq<char>, y: Seq<char>)
    requires
        forall|i: int| 0 <= i < keys.len() ==> #[trigger] keys[i] == x,
    ensures
        occurrences(keys, x) == keys.len(),
        y != x ==> occurrences(keys, y) == 0,
    decreases keys.len(),
{
    if keys.len() > 0 {
        let front = keys.drop_last();
        assert forall|i: int| 0 <= i < front.len() implies #[trigger] front[i] == x by {
            assert(front[i] == keys[i]);
        }
        lemma_uniform_occurrences(front, x, y);
        assert(keys[keys.len() - 1] == x);
    }
}

/// A window whose queries all have the same key in one dimension, applied to
/// a store that holds no time series of that dimension's family: afterwards
/// the family holds exactly one series, that of the key, and its value is the
/// number of queries of the window.
pub proof fn lemma_uniform_window(
    store: StoreView,
    summary: StatsResponse,
    upstreams: UpstreamsResponse,
    queries: QueriesResponse,
    dimension: WindowKey,
    x: Seq<char>,
    key: LabelKey,
)
    requires
        queries.queries@.len() > 0,
        forall|i: int|
            0 <= i < queries.queries@.len() ==> key_of(
                #[trigger] queries.queries@[i],
                dimension,
            ) == x,
        forall|k: LabelKey| !(#[trigger] store.dom().contains((window_family(dimension), k))),
    ensures
        store_apply(store, cycle_series(summary, upstreams, queries)).dom().contains(
            (window_family(dimension), key),
        ) <==> key == window_label(dimension, x),
        store_apply(store, cycle_series(summary, upstreams, queries))[(
            window_family(dimension),
            window_label(dimension, x),
        )] == gauge_of(queries.queries@.len() as u64),
        queries.queries@.len() <= i64::MAX ==> store_apply(
            store,
            cycle_series(summary, upstreams, queries),
        )[(window_family(dimension), window_label(dimension, x))] == queries.queries@.len(),
{
    let keys = keys_of(queries.queries@, dimension);
    let label = window_label(dimension, x);
    assert forall|i: int| 0 <= i < keys.len() implies #[trigger] keys[i] == x by {
        assert(keys[i] == key_of(queries.queries@[i], dimension));
    }
    lemma_uniform_occurrences(keys, x, x);
    if key.len() == 1 {
        lemma_uniform_occurrences(keys, x, key[0].1);
    }
    assert(seen_in_window(queries, dimension, label));
    assert(label[0].1 == x);
    if seen_in_window(queries, dimension, key) {
        assert(key[0].1 == x);
        assert(key =~= label);
    }
    lemma_cycle_window_family(store, summary, upstreams, queries, dimension, key);
    lemma_cycle_window_family(store, summary, upstreams, queries, dimension, label);
}

/// A window in which every query has the same upstream recorded, applied to
/// a store that holds no time series of the one-minute upstream family:
/// afterwards the family holds exactly one series, that of the recorded
/// upstream as it is, with the number of queries of the window, whatever the
/// statuses of the queries.
pub proof fn lemma_explicit_upstream_window(
    store: StoreView,
    summary: StatsResponse,
    upstreams: UpstreamsResponse,
    queries: QueriesResponse,
    upstream: Seq<char>,
    key: LabelKey,
)
    requires
        queries.queries@.len() > 0,
        forall|i: int|
            0 <= i < queries.queries@.len() ==> (#[trigger] queries.queries@[i]).upstream is Some
                && queries.queries@[i].upstream->0@ == upstream,
        forall|k: LabelKey| !(#[trigger] store.dom().contains((MetricFamily::QueryUpstream1m, k))),
    ensures
        store_apply(store, cycle_series(summary, upstreams, queries)).dom().contains(
            (MetricFamily::QueryUpstream1m, key),
        ) <==> key == one_label("query_upstream"@, upstream),
        store_apply(store, cycle_series(summary, upstreams, queries))[(
            MetricFamily::QueryUpstream1m,
            one_label("query_upstream"@, upstream),
        )] == gauge_of(queries.queries@.len() as u64),
{
    assert forall|i: int| 0 <= i < queries.queries@.len() implies key_of(
        #[trigger] queries.queries@[i],
        WindowKey::Upstream,
    ) == upstream by {
        lemma_attribution(queries.queries@[i]);
    }
    lemma_uniform_window(store, summary, upstreams, queries, WindowKey::Upstream, upstream, key);
}

/// A window in which no query has an upstream recorded and every query has
/// the same one of the three local statuses, applied to a store that holds no
/// time series of the one-minute upstream family: afterwards the family holds
/// exactly one series, under `None-` followed by the status, with the number
/// of queries of the window.
pub proof fn lemma_local_status_window(
    store: StoreView,
    summary: StatsResponse,
    upstreams: UpstreamsResponse,
    queries: QueriesResponse,
    status: Seq<char>,
    key: LabelKey,
)
    requires
        queries.queries@.len() > 0,
        is_local_status(status),
        forall|i: int|
            0 <= i < queries.queries@.len() ==> (#[trigger] queries.queries@[i]).upstream is None
                && queries.queries@[i].status@ == status,
        forall|k: LabelKey| !(#[trigger] store.dom().contains((MetricFamily::QueryUpstream1m, k))),
    ensures
        store_apply(store, cycle_series(summary, upstreams, queries)).dom().contains(
            (MetricFamily::QueryUpstream1m, key),
        ) <==> key == one_label("query_upstream"@, "None-"@ + status),
        store_apply(store, cycle_series(summary, upstreams, queries))[(
            MetricFamily::QueryUpstream1m,
            one_label("query_upstream"@, "None-"@ + status),
        )] == gauge_of(queries.queries@.len() as u64),
        status == "GRAVITY"@ ==> "None-"@ + status == "None-GRAVITY"@,
        status == "CACHE"@ ==> "None-"@ + status == "None-CACHE"@,
        status == "SPECIAL_DOMAIN"@ ==> "None-"@ + status == "None-SPECIAL_DOMAIN"@,
{
    let first = queries.queries@[0];
    lemma_attribution(first);
    assert(resolved_upstream(first) == "None-"@ + status);
    assert forall|i: int| 0 <= i < queries.queries@.len() implies key_of(
        #[trigger] queries.queries@[i],
        WindowKey::Upstream,
    ) == "None-"@ + status by {}
    lemma_uniform_window(
        store,
        summary,
        upstreams,
        queries,
        WindowKey::Upstream,
        "None-"@ + status,
        key,
    );
}

/// A window in which no query has an upstream recorded nor one of the three
/// local statuses, applied to a store that holds no time series of the
/// one-minute upstream family: afterwards the family holds exactly one
/// series, under `None-OTHER`, with the number of queries of the window, and
/// none made of a status.
pub proof fn lemma_other_status_window(
    store: StoreView,
    summary: StatsResponse,
    upstreams: UpstreamsResponse,
    queries: QueriesResponse,
    key: LabelKey,
)
    requires
        queries.queries@.len() > 0,
        forall|i: int|
            0 <= i < queries.queries@.len() ==> (#[trigger] queries.queries@[i]).upstream is None
                && !is_local_status(queries.queries@[i].status@),
        forall|k: LabelKey| !(#[trigger] store.dom().contains((MetricFamily::QueryUpstream1m, k))),
    ensures
        store_apply(store, cycle_series(summary, upstreams, queries)).dom().contains(
            (MetricFamily::QueryUpstream1m, key),
        ) <==> key == one_label("query_upstream"@, "None-OTHER"@),
        store_apply(store, cycle_series(summary, upstreams, queries))[(
            MetricFamily::QueryUpstream1m,
            one_label("query_upstream"@, "None-OTHER"@),
        )] == gauge_of(queries.queries@.len() as u64),
{
    assert forall|i: int| 0 <= i < queries.queries@.len() implies key_of(
        #[trigger] queries.queries@[i],
        WindowKey::Upstream,
    ) == "None-OTHER"@ by {}
    lemma_uniform_window(
        store,
        summary,
        upstreams,
        queries,
        WindowKey::Upstream,
        "None-OTHER"@,
        key,
    );
}

/// A text that shows the store after a cycle holds the line of each scalar
/// value of the summary: the name of its family, its category where it has
/// one, and the value.
pub proof fn lemma_text_holds_totals(
    text: Seq<char>,
    store: StoreView,
    summary: StatsResponse,
    upstreams: UpstreamsResponse,
    queries: QueriesResponse,
    i: int,
)
    requires
        0 <= i < 8,
        shows(text, store_apply(store, cycle_series(summary, upstreams, queries))),
    ensures
        has_line(
            text,
            sample_line(
                totals_series(summary)[i].family.spec_name(),
                totals_series(summary)[i].key,
                totals_series(summary)[i].value,
            ),
        ),
{
    lemma_cycle_totals(store, summary, upstreams, queries, i);
}

/// A text that shows the store after a cycle holds the line of each upstream
/// resolver, with its three labels and its 24-hour count. Where the list
/// names the same address, name and port more than once, this holds of the
/// last of them.
pub proof fn lemma_text_holds_upstream(
    text: Seq<char>,
    store: StoreView,
    summary: StatsResponse,
    upstreams: UpstreamsResponse,
    queries: QueriesResponse,
    i: int,
)
    requires
        0 <= i < upstreams.upstreams@.len(),
        forall|j: int|
            i < j < upstreams.upstreams@.len() ==> upstream_point(
                #[trigger] upstreams.upstreams@[j],
            ).key != upstream_point(upstreams.upstreams@[i]).key,
        shows(text, store_apply(store, cycle_series(summary, upstreams, queries))),
    ensures
        has_line(
            text,
            sample_line(
                MetricFamily::QueryUpstreamCount.spec_name(),
                upstream_point(upstreams.upstreams@[i]).key,
                gauge_of(upstreams.upstreams@[i].count),
            ),
        ),
{
    lemma_cycle_upstream(store, summary, upstreams, queries, i);
}

/// A text that shows the store after a cycle holds, for each key that some
/// query of the window has in a dimension, the line of that key with the
/// number of those queries.
pub proof fn lemma_text_holds_window_count(
    text: Seq<char>,
    store: StoreView,
    summary: StatsResponse,
    upstreams: UpstreamsResponse,
    queries: QueriesResponse,
    dimension: WindowKey,
    key: LabelKey,
)
    requires
        seen_in_window(queries, dimension, key),
        shows(text, store_apply(store, cycle_series(summary, upstreams, queries))),
    ensures
        has_line(
            text,
            sample_line(
                window_family(dimension).spec_name(),
                key,
                gauge_of(occurrences(keys_of(queries.queries@, dimension), key[0].1) as u64),
            ),
        ),
{
    lemma_cycle_window_family(store, summary, upstreams, queries, dimension, key);
}

} // verus!
