//! The twelve metric families and the updates that are applied to them.

use vstd::prelude::*;
use crate::labels::{
    one_label, CategoryLabels, ClientLabels, LabelKey, QueryStatusLabels, QueryTypeLabels,
    ReplyTypeLabels, UpstreamCountLabels, UpstreamLabels,
};

verus! {

/// One of the twelve exposed metric families: seven that copy the appliance's
/// 24-hour counters, five that are counted over the last whole minute.
#[derive(Clone, Copy, Debug, PartialEq, Eq, Structural)]
pub enum MetricFamily {
    QueryByType,
    QueryByStatus,
    QueryReplies,
    QueryCount,
    ClientCount,
    DomainsBeingBlocked,
    QueryUpstreamCount,
    QueryType1m,
    QueryStatus1m,
    QueryReply1m,
    QueryClient1m,
    QueryUpstream1m,
}

impl MetricFamily {
    /// The name under which the family is exposed.
    pub open spec fn spec_name(self) -> Seq<char> {
        match self {
            MetricFamily::QueryByType => "pihole_query_by_type"@,
            MetricFamily::QueryByStatus => "pihole_query_by_status"@,
            MetricFamily::QueryReplies => "pihole_query_replies"@,
            MetricFamily::QueryCount => "pihole_query_count"@,
            MetricFamily::ClientCount => "pihole_client_count"@,
            MetricFamily::DomainsBeingBlocked => "pihole_domains_being_blocked"@,
            MetricFamily::QueryUpstreamCount => "pihole_query_upstream_count"@,
            MetricFamily::QueryType1m => "pihole_query_type_1m"@,
            MetricFamily::QueryStatus1m => "pihole_query_status_1m"@,
            MetricFamily::QueryReply1m => "pihole_query_reply_1m"@,
            MetricFamily::QueryClient1m => "pihole_query_client_1m"@,
            MetricFamily::QueryUpstream1m => "pihole_query_upstream_1m"@,
        }
    }

    /// The help text that describes the family.
    pub open spec fn spec_help(self) -> Seq<char> {
        match self {
            MetricFamily::QueryByType => "Count of queries by type (24h)"@,
            MetricFamily::QueryByStatus => "Count of queries by status over 24h"@,
            MetricFamily::QueryReplies => "Count of replies by type over 24h"@,
            MetricFamily::QueryCount => "Query counts by category, 24h"@,
            MetricFamily::ClientCount => "Total/active client counts"@,
            MetricFamily::DomainsBeingBlocked => "Number of domains on current blocklist"@,
            MetricFamily::QueryUpstreamCount => "Total query upstream counts (24h)"@,
            MetricFamily::QueryType1m => "Count of query types (last whole 1m)"@,
            MetricFamily::QueryStatus1m => "Count of query status (last whole 1m)"@,
            MetricFamily::QueryReply1m => "Count of query reply types (last whole 1m)"@,
            MetricFamily::QueryClient1m => "Count of query clients (last whole 1m)"@,
            MetricFamily::QueryUpstream1m => "Count of query upstream destinations (last whole 1m)"@,
        }
    }

    /// The name of the label, for a family whose time series are told apart
    /// by one label: all but the gauge without labels and the family of the
    /// upstream resolvers, which has three.
    pub open spec fn spec_label(self) -> Option<Seq<char>> {
        match self {
            MetricFamily::QueryByType => Some("query_type"@),
            MetricFamily::QueryByStatus => Some("query_status"@),
            MetricFamily::QueryReplies => Some("reply_type"@),
            MetricFamily::QueryCount => Some("category"@),
            MetricFamily::ClientCount => Some("category"@),
            MetricFamily::DomainsBeingBlocked => None,
            MetricFamily::QueryUpstreamCount => None,
            MetricFamily::QueryType1m => Some("query_type"@),
            MetricFamily::QueryStatus1m => Some("query_status"@),
            MetricFamily::QueryReply1m => Some("reply_type"@),
            MetricFamily::QueryClient1m => Some("query_client"@),
            MetricFamily::QueryUpstream1m => Some("query_upstream"@),
        }
    }

    /// Whether the time series of the family carry labels: all but the one
    /// gauge without labels.
    pub open spec fn spec_labelled(self) -> bool {
        self != MetricFamily::DomainsBeingBlocked
    }

    /// The length of the family's name and the character at which names of
    /// the same length differ.
    pub open spec fn name_shape(self) -> (nat, char) {
        match self {
            MetricFamily::QueryByType => (20, 'b'),
            MetricFamily::QueryByStatus => (22, 'b'),
            MetricFamily::QueryReplies => (20, 'r'),
            MetricFamily::QueryCount => (18, 'c'),
            MetricFamily::ClientCount => (19, '_'),
            MetricFamily::DomainsBeingBlocked => (28, 's'),
            MetricFamily::QueryUpstreamCount => (27, 'u'),
            MetricFamily::QueryType1m => (20, 't'),
            MetricFamily::QueryStatus1m => (22, 's'),
            MetricFamily::QueryReply1m => (21, 'r'),
            MetricFamily::QueryClient1m => (22, 'c'),
            MetricFamily::QueryUpstream1m => (24, 'u'),
        }
    }

    /// Whether the family is counted over the last whole minute.
    pub open spec fn spec_is_windowed(self) -> bool {
        self == MetricFamily::QueryType1m || self == MetricFamily::QueryStatus1m || self
            == MetricFamily::QueryReply1m || self == MetricFamily::QueryClient1m || self
            == MetricFamily::QueryUpstream1m
    }

    /// The name under which the family is exposed.
    pub fn name(self) -> (s: &'static str)
        ensures
            s@ == self.spec_name(),
    {
        match self {
            MetricFamily::QueryByType => "pihole_query_by_type",
            MetricFamily::QueryByStatus => "pihole_query_by_status",
            MetricFamily::QueryReplies => "pihole_query_replies",
            MetricFamily::QueryCount => "pihole_query_count",
            MetricFamily::ClientCount => "pihole_client_count",
            MetricFamily::DomainsBeingBlocked => "pihole_domains_being_blocked",
            MetricFamily::QueryUpstreamCount => "pihole_query_upstream_count",
            MetricFamily::QueryType1m => "pihole_query_type_1m",
            MetricFamily::QueryStatus1m => "pihole_query_status_1m",
            MetricFamily::QueryReply1m => "pihole_query_reply_1m",
            MetricFamily::QueryClient1m => "pihole_query_client_1m",
            MetricFamily::QueryUpstream1m => "pihole_query_upstream_1m",
        }
    }

    /// The help text that describes the family.
    pub fn help(self) -> (s: &'static str)
        ensures
            s@ == self.spec_help(),
    {
        match self {
            MetricFamily::QueryByType => "Count of queries by type (24h)",
            MetricFamily::QueryByStatus => "Count of queries by status over 24h",
            MetricFamily::QueryReplies => "Count of replies by type over 24h",
            MetricFamily::QueryCount => "Query counts by category, 24h",
            MetricFamily::ClientCount => "Total/active client counts",
            MetricFamily::DomainsBeingBlocked => "Number of domains on current blocklist",
            MetricFamily::QueryUpstreamCount => "Total query upstream counts (24h)",
            MetricFamily::QueryType1m => "Count of query types (last whole 1m)",
            MetricFamily::QueryStatus1m => "Count of query status (last whole 1m)",
            MetricFamily::QueryReply1m => "Count of query reply types (last whole 1m)",
            MetricFamily::QueryClient1m => "Count of query clients (last whole 1m)",
            MetricFamily::QueryUpstream1m => "Count of query upstream destinations (last whole 1m)",
        }
    }
}

/// The shape of the name of each family.
pub proof fn lemma_name_shape(family: MetricFamily)
    ensures
        family.spec_name().len() == family.name_shape().0,
        family.spec_name()[13] == family.name_shape().1,
{
    reveal_strlit("pihole_query_by_type");
    reveal_strlit("pihole_query_by_status");
    reveal_strlit("pihole_query_replies");
    reveal_strlit("pihole_query_count");
    reveal_strlit("pihole_client_count");
    reveal_strlit("pihole_domains_being_blocked");
    reveal_strlit("pihole_query_upstream_count");
    reveal_strlit("pihole_query_type_1m");
    reveal_strlit("pihole_query_status_1m");
    reveal_strlit("pihole_query_reply_1m");
    reveal_strlit("pihole_query_client_1m");
    reveal_strlit("pihole_query_upstream_1m");
}

/// No two families are exposed under the same name.
pub proof fn lemma_names_distinct(a: MetricFamily, b: MetricFamily)
    requires
        a != b,
    ensures
        a.spec_name() != b.spec_name(),
{
    lemma_name_shape(a);
    lemma_name_shape(b);
}

/// The twelve families in the order in which they are registered.
pub open spec fn all_families() -> Seq<MetricFamily> {
    seq![
        MetricFamily::QueryByType,
        MetricFamily::QueryByStatus,
        MetricFamily::QueryReplies,
        MetricFamily::QueryCount,
        MetricFamily::ClientCount,
        MetricFamily::DomainsBeingBlocked,
        MetricFamily::QueryUpstreamCount,
        MetricFamily::QueryType1m,
        MetricFamily::QueryStatus1m,
        MetricFamily::QueryReply1m,
        MetricFamily::QueryClient1m,
        MetricFamily::QueryUpstream1m,
    ]
}

/// The value that a gauge holds for the counter `n`: `n` itself where it fits
/// a signed 64-bit integer, and its two's complement reading above that.
pub open spec fn gauge_of(n: u64) -> i64 {
    if n <= i64::MAX as u64 {
        n as i64
    } else {
        (n as int - 0x1_0000_0000_0000_0000) as i64
    }
}

/// The counter that a gauge value stands for: the value itself where it is
/// not negative, and its unsigned 64-bit reading otherwise.
pub open spec fn counter_of(value: i64) -> nat {
    if value >= 0 {
        value as nat
    } else {
        (value + 0x1_0000_0000_0000_0000) as nat
    }
}

/// A gauge stands for the counter that it was set from.
pub proof fn lemma_counter_of_gauge(n: u64)
    ensures
        counter_of(gauge_of(n)) == n,
        n <= i64::MAX ==> gauge_of(n) == n,
{
}

/// Converts a counter to the value that a gauge holds for it.
pub fn to_gauge(n: u64) -> (v: i64)
    ensures
        v == gauge_of(n),
{
    if n <= i64::MAX as u64 {
        n as i64
    } else {
        let below: u64 = u64::MAX - n;
        -(below as i64) - 1
    }
}

/// One time series with its value, as plain values: what a [`MetricEntry`]
/// stands for.
pub struct Series {
    pub family: MetricFamily,
    pub key: LabelKey,
    pub value: i64,
}

/// One update of the metric store: a family, the label set of one of its time
/// series, and the value to set it to.
#[derive(Debug)]
pub enum MetricEntry {
    QueryByType(QueryTypeLabels, i64),
    QueryByStatus(QueryStatusLabels, i64),
    QueryReplies(ReplyTypeLabels, i64),
    QueryCount(CategoryLabels, i64),
    ClientCount(CategoryLabels, i64),
    DomainsBeingBlocked(i64),
    QueryUpstreamCount(UpstreamLabels, i64),
    QueryType1m(QueryTypeLabels, i64),
    QueryStatus1m(QueryStatusLabels, i64),
    QueryReply1m(ReplyTypeLabels, i64),
    QueryClient1m(ClientLabels, i64),
    QueryUpstream1m(UpstreamCountLabels, i64),
}

impl View for MetricEntry {
    type V = Series;

    open spec fn view(&self) -> Series {
        match *self {
            MetricEntry::QueryByType(l, v) => Series {
                family: MetricFamily::QueryByType,
                key: l.key(),
                value: v,
            },
            MetricEntry::QueryByStatus(l, v) => Series {
                family: MetricFamily::QueryByStatus,
                key: l.key(),
                value: v,
            },
            MetricEntry::QueryReplies(l, v) => Series {
                family: MetricFamily::QueryReplies,
                key: l.key(),
                value: v,
            },
            MetricEntry::QueryCount(l, v) => Series {
                family: MetricFamily::QueryCount,
                key: l.key(),
                value: v,
            },
            MetricEntry::ClientCount(l, v) => Series {
                family: MetricFamily::ClientCount,
                key: l.key(),
                value: v,
            },
            MetricEntry::DomainsBeingBlocked(v) => Series {
                family: MetricFamily::DomainsBeingBlocked,
                key: Seq::empty(),
                value: v,
            },
            MetricEntry::QueryUpstreamCount(l, v) => Series {
                family: MetricFamily::QueryUpstreamCount,
                key: l.key(),
                value: v,
            },
            MetricEntry::QueryType1m(l, v) => Series {
                family: MetricFamily::QueryType1m,
                key: l.key(),
                value: v,
            },
            MetricEntry::QueryStatus1m(l, v) => Series {
                family: MetricFamily::QueryStatus1m,
                key: l.key(),
                value: v,
            },
            MetricEntry::QueryReply1m(l, v) => Series {
                family: MetricFamily::QueryReply1m,
                key: l.key(),
                value: v,
            },
            MetricEntry::QueryClient1m(l, v) => Series {
                family: MetricFamily::QueryClient1m,
                key: l.key(),
                value: v,
            },
            MetricEntry::QueryUpstream1m(l, v) => Series {
                family: MetricFamily::QueryUpstream1m,
                key: l.key(),
                value: v,
            },
        }
    }
}

/// The time series of a one-label family whose label has the value `label`,
/// with its value.
pub open spec fn labelled_point(family: MetricFamily, label: Seq<char>, value: i64) -> Series {
    Series { family, key: one_label(family.spec_label()->0, label), value }
}

/// The one time series of the gauge without labels, with its value.
pub open spec fn unlabelled_point(value: i64) -> Series {
    Series { family: MetricFamily::DomainsBeingBlocked, key: Seq::empty(), value }
}

impl MetricEntry {
    /// The update that sets the time series of a one-label family whose label
    /// has the value `label`. There is none for the two families that are not
    /// told apart by one label.
    pub fn labelled(family: MetricFamily, label: String, value: i64) -> (entry: Option<MetricEntry>)
        ensures
            entry is Some <==> family.spec_label() is Some,
            entry matches Some(e) ==> e@ == labelled_point(family, label@, value),
    {
        match family {
            MetricFamily::QueryByType => Some(
                MetricEntry::QueryByType(QueryTypeLabels { query_type: label }, value),
            ),
            MetricFamily::QueryByStatus => Some(
                MetricEntry::QueryByStatus(QueryStatusLabels { query_status: label }, value),
            ),
            MetricFamily::QueryReplies => Some(
                MetricEntry::QueryReplies(ReplyTypeLabels { reply_type: label }, value),
            ),
            MetricFamily::QueryCount => Some(
                MetricEntry::QueryCount(CategoryLabels { category: label }, value),
            ),
            MetricFamily::ClientCount => Some(
                MetricEntry::ClientCount(CategoryLabels { category: label }, value),
            ),
            MetricFamily::DomainsBeingBlocked => None,
            MetricFamily::QueryUpstreamCount => None,
            MetricFamily::QueryType1m => Some(
                MetricEntry::QueryType1m(QueryTypeLabels { query_type: label }, value),
            ),
            MetricFamily::QueryStatus1m => Some(
                MetricEntry::QueryStatus1m(QueryStatusLabels { query_status: label }, value),
            ),
            MetricFamily::QueryReply1m => Some(
                MetricEntry::QueryReply1m(ReplyTypeLabels { reply_type: label }, value),
            ),
            MetricFamily::QueryClient1m => Some(
                MetricEntry::QueryClient1m(ClientLabels { query_client: label }, value),
            ),
            MetricFamily::QueryUpstream1m => Some(
                MetricEntry::QueryUpstream1m(UpstreamCountLabels { query_upstream: label }, value),
            ),
        }
    }
}

/// The time series that a list of updates stands for, in the same order.
pub open spec fn series_of(entries: Seq<MetricEntry>) -> Seq<Series> {
    entries.map_values(|e: MetricEntry| e@)
}

} // verus!
