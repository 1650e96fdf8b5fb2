//! The aggregation engine: from the three responses of one cycle to the list
//! of updates that the cycle applies to the metric store.

use vstd::prelude::*;
use vstd::string::StringExecFns;
use crate::api::{Counters, QueriesResponse, StatsResponse, UpstreamInfo, UpstreamsResponse};
use crate::family::{
    gauge_of, labelled_point, series_of, to_gauge, unlabelled_point, MetricEntry, MetricFamily,
    Series,
};
use crate::labels::UpstreamLabels;
use crate::text::{signed_decimal, signed_decimal_string};
use crate::window::{count_keys, keys_of, tally, WindowKey};

verus! {

/// One time series for each counter, in the order of the counters: its label
/// is the counter's key, its value the counter's count.
pub open spec fn counted(family: MetricFamily, counters: Counters) -> Seq<Series> {
    counters.map_values(|c: (Seq<char>, u64)| labelled_point(family, c.0, gauge_of(c.1)))
}

/// The eight time series of the summary's scalar values: five query totals,
/// two client counts, and the size of the blocklist.
pub open spec fn totals_series(summary: StatsResponse) -> Seq<Series> {
    seq![
        labelled_point(MetricFamily::QueryCount, "total"@, gauge_of(summary.queries.total)),
        labelled_point(MetricFamily::QueryCount, "blocked"@, gauge_of(summary.queries.blocked)),
        labelled_point(
            MetricFamily::QueryCount,
            "unique"@,
            gauge_of(summary.queries.unique_domains),
        ),
        labelled_point(MetricFamily::QueryCount, "forwarded"@, gauge_of(summary.queries.forwarded)),
        labelled_point(MetricFamily::QueryCount, "cached"@, gauge_of(summary.queries.cached)),
        labelled_point(MetricFamily::ClientCount, "active"@, gauge_of(summary.clients.active)),
        labelled_point(MetricFamily::ClientCount, "total"@, gauge_of(summary.clients.total)),
        unlabelled_point(gauge_of(summary.gravity.domains_being_blocked)),
    ]
}

/// The updates that a summary gives: one for each key of its three counter
/// objects, then those of its scalar values.
pub open spec fn summary_series(summary: StatsResponse) -> Seq<Series> {
    counted(MetricFamily::QueryByType, summary.queries.types.deep_view()) + counted(
        MetricFamily::QueryByStatus,
        summary.queries.status.deep_view(),
    ) + counted(MetricFamily::QueryReplies, summary.queries.replies.deep_view()) + totals_series(
        summary,
    )
}

/// The time series of one upstream resolver: its labels are the resolver's
/// address, name and port, the port in decimal; its value is the resolver's
/// 24-hour count.
pub open spec fn upstream_point(upstream: UpstreamInfo) -> Series {
    Series {
        family: MetricFamily::QueryUpstreamCount,
        key: seq![
            ("ip"@, upstream.ip@),
            ("name"@, upstream.name@),
            ("port"@, signed_decimal(upstream.port as int)),
        ],
        value: gauge_of(upstream.count),
    }
}

/// The updates that the list of upstream resolvers gives: one for each.
pub open spec fn upstream_series(upstreams: UpstreamsResponse) -> Seq<Series> {
    upstreams.upstreams@.map_values(|u: UpstreamInfo| upstream_point(u))
}

/// The family in which the queries of a window are counted in one dimension.
pub open spec fn window_family(dimension: WindowKey) -> MetricFamily {
    match dimension {
        WindowKey::QueryType => MetricFamily::QueryType1m,
        WindowKey::Status => MetricFamily::QueryStatus1m,
        WindowKey::ReplyType => MetricFamily::QueryReply1m,
        WindowKey::Client => MetricFamily::QueryClient1m,
        WindowKey::Upstream => MetricFamily::QueryUpstream1m,
    }
}

/// The updates of one dimension of a window: one for each distinct key, with
/// the number of queries that have it.
pub open spec fn dimension_series(queries: QueriesResponse, dimension: WindowKey) -> Seq<Series> {
    counted(window_family(dimension), tally(keys_of(queries.queries@, dimension)))
}

/// The updates that the query log of a window gives: those of its five
/// dimensions.
pub open spec fn window_series(queries: QueriesResponse) -> Seq<Series> {
    dimension_series(queries, WindowKey::QueryType) + dimension_series(queries, WindowKey::Status)
        + dimension_series(queries, WindowKey::ReplyType) + dimension_series(
        queries,
        WindowKey::Client,
    ) + dimension_series(queries, WindowKey::Upstream)
}

/// All updates of one cycle, in the order in which they are applied.
pub open spec fn cycle_series(
    summary: StatsResponse,
    upstreams: UpstreamsResponse,
    queries: QueriesResponse,
) -> Seq<Series> {
    summary_series(summary) + upstream_series(upstreams) + window_series(queries)
}

/// Appends one update for each counter.
fn push_counted(out: &mut Vec<MetricEntry>, family: MetricFamily, counters: &Vec<(String, u64)>)
    requires
        family.spec_label() is Some,
    ensures
        series_of(final(out)@) == series_of(old(out)@) + counted(family, counters.deep_view()),
{
    let ghost start = series_of(out@);
    let ghost all = counted(family, counters.deep_view());
    let mut i: usize = 0;
    assert(series_of(out@) =~= start + all.take(0));
    while i < counters.len()
        invariant
            i <= counters.len(),
            family.spec_label() is Some,
            all == counted(family, counters.deep_view()),
            all.len() == counters.len(),
            series_of(out@) == start + all.take(i as int),
        decreases counters.len() - i,
    {
        let label = counters[i].0.clone();
        let value = to_gauge(counters[i].1);
        let ghost before = out@;
        assert(counters.deep_view()[i as int] == (counters@[i as int].0@, counters@[i as int].1));
        match MetricEntry::labelled(family, label, value) {
            Some(entry) => {
                out.push(entry);
                assert(series_of(out@) =~= series_of(before).push(entry@));
            },
            None => {},
        }
        assert(series_of(out@) =~= start + all.take(i + 1));
        i = i + 1;
    }
    assert(all.take(i as int) =~= all);
}

/// Appends one update of a category family.
fn push_category(out: &mut Vec<MetricEntry>, family: MetricFamily, category: &str, count: u64)
    requires
        family == MetricFamily::QueryCount || family == MetricFamily::ClientCount,
    ensures
        series_of(final(out)@) == series_of(old(out)@).push(
            labelled_point(family, category@, gauge_of(count)),
        ),
{
    let ghost before = out@;
    match MetricEntry::labelled(family, String::from_str(category), to_gauge(count)) {
        Some(entry) => {
            out.push(entry);
            assert(series_of(out@) =~= series_of(before).push(entry@));
        },
        None => {},
    }
}

/// Appends the updates that a summary gives.
fn push_summary(out: &mut Vec<MetricEntry>, summary: &StatsResponse)
    ensures
        series_of(final(out)@) == series_of(old(out)@) + summary_series(*summary),
{
    let ghost start = series_of(out@);
    push_counted(out, MetricFamily::QueryByType, &summary.queries.types);
    push_counted(out, MetricFamily::QueryByStatus, &summary.queries.status);
    push_counted(out, MetricFamily::QueryReplies, &summary.queries.replies);
    push_category(out, MetricFamily::QueryCount, "total", summary.queries.total);
    push_category(out, MetricFamily::QueryCount, "blocked", summary.queries.blocked);
    push_category(out, MetricFamily::QueryCount, "unique", summary.queries.unique_domains);
    push_category(out, MetricFamily::QueryCount, "forwarded", summary.queries.forwarded);
    push_category(out, MetricFamily::QueryCount, "cached", summary.queries.cached);
    push_category(out, MetricFamily::ClientCount, "active", summary.clients.active);
    push_category(out, MetricFamily::ClientCount, "total", summary.clients.total);
    let ghost before = out@;
    let blocked = MetricEntry::DomainsBeingBlocked(to_gauge(summary.gravity.domains_being_blocked));
    out.push(blocked);
    assert(series_of(out@) =~= series_of(before).push(blocked@));
    assert(series_of(out@) =~= start + summary_series(*summary));
}

/// Appends the updates that the list of upstream resolvers gives.
fn push_upstreams(out: &mut Vec<MetricEntry>, upstreams: &UpstreamsResponse)
    ensures
        series_of(final(out)@) == series_of(old(out)@) + upstream_series(*upstreams),
{
    let ghost start = series_of(out@);
    let ghost all = upstream_series(*upstreams);
    let mut i: usize = 0;
    assert(series_of(out@) =~= start + all.take(0));
    while i < upstreams.upstreams.len()
        invariant
            i <= upstreams.upstreams.len(),
            all == upstream_series(*upstreams),
            series_of(out@) == start + all.take(i as int),
        decreases upstreams.upstreams.len() - i,
    {
        let upstream = &upstreams.upstreams[i];
        let labels = UpstreamLabels {
            ip: upstream.ip.clone(),
            name: upstream.name.clone(),
            port: signed_decimal_string(upstream.port),
        };
        let entry = MetricEntry::QueryUpstreamCount(labels, to_gauge(upstream.count));
        let ghost before = out@;
        out.push(entry);
        assert(entry@ == upstream_point(*upstream));
        assert(series_of(out@) =~= series_of(before).push(entry@));
        assert(series_of(out@) =~= start + all.take(i + 1));
        i = i + 1;
    }
    assert(all.take(i as int) =~= all);
}

/// The family in which the queries of a window are counted in one dimension.
pub fn family_of_dimension(dimension: WindowKey) -> (family: MetricFamily)
    ensures
        family == window_family(dimension),
{
    match dimension {
        WindowKey::QueryType => MetricFamily::QueryType1m,
        WindowKey::Status => MetricFamily::QueryStatus1m,
        WindowKey::ReplyType => MetricFamily::QueryReply1m,
        WindowKey::Client => MetricFamily::QueryClient1m,
        WindowKey::Upstream => MetricFamily::QueryUpstream1m,
    }
}

/// Appends the updates of one dimension of a window.
fn push_dimension(out: &mut Vec<MetricEntry>, queries: &QueriesResponse, dimension: WindowKey)
    ensures
        series_of(final(out)@) == series_of(old(out)@) + dimension_series(*queries, dimension),
{
    let counters = count_keys(&queries.queries, dimension);
    push_counted(out, family_of_dimension(dimension), &counters);
}

/// Appends the updates that the query log of a window gives.
fn push_window(out: &mut Vec<MetricEntry>, queries: &QueriesResponse)
    ensures
        series_of(final(out)@) == series_of(old(out)@) + window_series(*queries),
{
    let ghost start = series_of(out@);
    push_dimension(out, queries, WindowKey::QueryType);
    push_dimension(out, queries, WindowKey::Status);
    push_dimension(out, queries, WindowKey::ReplyType);
    push_dimension(out, queries, WindowKey::Client);
    push_dimension(out, queries, WindowKey::Upstream);
    assert(series_of(out@) =~= start + window_series(*queries));
}

/// The updates that a summary gives.
pub fn summary_entries(summary: &StatsResponse) -> (entries: Vec<MetricEntry>)
    ensures
        series_of(entries@) == summary_series(*summary),
{
    let mut entries: Vec<MetricEntry> = Vec::new();
    push_summary(&mut entries, summary);
    assert(series_of(entries@) =~= summary_series(*summary));
    entries
}

/// The updates that the list of upstream resolvers gives.
pub fn upstream_entries(upstreams: &UpstreamsResponse) -> (entries: Vec<MetricEntry>)
    ensures
        series_of(entries@) == upstream_series(*upstreams),
{
    let mut entries: Vec<MetricEntry> = Vec::new();
    push_upstreams(&mut entries, upstreams);
    assert(series_of(entries@) =~= upstream_series(*upstreams));
    entries
}

/// The updates that the query log of a window gives.
pub fn window_entries(queries: &QueriesResponse) -> (entries: Vec<MetricEntry>)
    ensures
        series_of(entries@) == window_series(*queries),
{
    let mut entries: Vec<MetricEntry> = Vec::new();
    push_window(&mut entries, queries);
    assert(series_of(entries@) =~= window_series(*queries));
    entries
}

/// All updates of one cycle, in the order in which they are applied: those of
/// the summary, of the upstream resolvers, and of the window.
pub fn aggregate(
    summary: &StatsResponse,
    upstreams: &UpstreamsResponse,
    queries: &QueriesResponse,
) -> (entries: Vec<MetricEntry>)
    ensures
        series_of(entries@) == cycle_series(*summary, *upstreams, *queries),
{
    let mut entries: Vec<MetricEntry> = Vec::new();
    push_summary(&mut entries, summary);
    push_upstreams(&mut entries, upstreams);
    push_window(&mut entries, queries);
    assert(series_of(entries@) =~= cycle_series(*summary, *upstreams, *queries));
    entries
}

} // verus!
