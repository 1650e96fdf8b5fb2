//! The metric store: twelve families of gauges, each addressed by label set,
//! registered under their names with the registry they are written out from.

use vstd::prelude::*;
use prometheus_client::registry::Registry;
use crate::exposition::{
    add_family, add_gauge, described, encode_into, exposed, exposition_new, get_gauge, get_series,
    registered, set_gauge, set_series, share_family, share_gauge, Exposition,
};
use crate::format::{
    body_text, describes, end_marker, has_line, has_row, is_terminated, lemma_written_line,
    lemma_written_terminated, sample_line, written_as, writes, Descriptors, Rows,
};
use crate::family::{
    all_families, lemma_names_distinct, series_of, MetricEntry, MetricFamily,
};
use crate::labels::{LabelKey, LabelSet};
pub use crate::labels::{
    CategoryLabels, ClientLabels, QueryStatusLabels, QueryTypeLabels, ReplyTypeLabels,
    UpstreamCountLabels, UpstreamLabels,
};
use crate::store::{fresh_store, store_apply, store_set, StoreView};

verus! {

/// The descriptors of the twelve families, in the order of registration: the
/// name of each, and its help text with a full stop added.
pub open spec fn descriptors() -> Seq<(Seq<char>, Seq<char>)> {
    all_families().map_values(|f: MetricFamily| (f.spec_name(), f.spec_help().push('.')))
}

/// The descriptors of the twelve families with the kind of each.
pub open spec fn kinds() -> Descriptors {
    all_families().map_values(
        |f: MetricFamily| (f.spec_name(), f.spec_help().push('.'), f.spec_labelled()),
    )
}

/// The text holds the line of every time series of the store, under the name
/// of its family.
pub open spec fn shows(text: Seq<char>, store: StoreView) -> bool {
    forall|family: MetricFamily, key: LabelKey| #[trigger]
        store.dom().contains((family, key)) ==> has_line(
            text,
            sample_line(family.spec_name(), key, store[(family, key)]),
        )
}

/// The rows are the time series that the store holds of the family, each
/// once and with its value, in some order.
pub open spec fn family_rows(rows: Rows, family: MetricFamily, store: StoreView) -> bool {
    &&& forall|i: int, j: int|
        0 <= i < j < rows.len() ==> (#[trigger] rows[i]).0 != (#[trigger] rows[j]).0
    &&& forall|j: int|
        0 <= j < rows.len() ==> store.dom().contains((family, (#[trigger] rows[j]).0))
            && rows[j].1 == store[(family, rows[j].0)]
    &&& forall|key: LabelKey| #[trigger]
        store.dom().contains((family, key)) ==> has_row(rows, key)
}

/// `after` is `before` followed by what is written of the twelve families,
/// with the time series of each as `listing` gives them, and by the end
/// marker.
pub open spec fn store_written_as(
    before: Seq<char>,
    after: Seq<char>,
    store: StoreView,
    listing: Seq<Rows>,
) -> bool {
    &&& listing.len() == all_families().len()
    &&& forall|i: int|
        0 <= i < listing.len() ==> family_rows(#[trigger] listing[i], all_families()[i], store)
    &&& after == before + body_text(kinds(), listing) + end_marker()
}

/// `after` is `before` followed by the exposition of the store and by the end
/// marker: of each family that has a time series, in the order of
/// registration, its help line, its type line and one line for each of its
/// time series, these in some order; and nothing else.
pub open spec fn store_writes(before: Seq<char>, after: Seq<char>, store: StoreView) -> bool {
    exists|listing: Seq<Rows>| store_written_as(before, after, store, listing)
}

/// The place of a family in the order of registration.
pub open spec fn place(family: MetricFamily) -> int {
    match family {
        MetricFamily::QueryByType => 0,
        MetricFamily::QueryByStatus => 1,
        MetricFamily::QueryReplies => 2,
        MetricFamily::QueryCount => 3,
        MetricFamily::ClientCount => 4,
        MetricFamily::DomainsBeingBlocked => 5,
        MetricFamily::QueryUpstreamCount => 6,
        MetricFamily::QueryType1m => 7,
        MetricFamily::QueryStatus1m => 8,
        MetricFamily::QueryReply1m => 9,
        MetricFamily::QueryClient1m => 10,
        MetricFamily::QueryUpstream1m => 11,
    }
}

/// Each family is described, with its kind, at its place.
proof fn lemma_described(family: MetricFamily)
    ensures
        describes(kinds(), family.spec_name(), family.spec_labelled()),
{
    assert(all_families()[place(family)] == family);
    assert(kinds()[place(family)].0 == family.spec_name());
}

/// Container for all exposed metrics.
#[derive(Debug)]
pub struct PiholeMetrics {
    exposition: Exposition,
}

impl View for PiholeMetrics {
    type V = StoreView;

    closed spec fn view(&self) -> StoreView {
        Map::new(
            |k: (MetricFamily, LabelKey)| exposed(self.exposition).dom().contains((k.0.spec_name(), k.1)),
            |k: (MetricFamily, LabelKey)| exposed(self.exposition)[(k.0.spec_name(), k.1)],
        )
    }
}

impl PiholeMetrics {
    /// The twelve families are registered, each once and under its own name,
    /// and the gauge without labels has its one time series.
    #[verifier::type_invariant]
    closed spec fn inv(self) -> bool {
        &&& described(self.exposition) == kinds()
        &&& forall|key: LabelKey| #[trigger]
            exposed(self.exposition).dom().contains(
                (MetricFamily::DomainsBeingBlocked.spec_name(), key),
            ) <==> key == Seq::<(Seq<char>, Seq<char>)>::empty()
    }

    /// Creates a store to which nothing was applied yet, with the twelve
    /// families registered with its registry.
    pub fn new() -> (metrics: Self)
        ensures
            metrics@ == fresh_store(),
    {
        let mut exposition = exposition_new();
        proof {
            assert forall|a: MetricFamily, b: MetricFamily| a != b implies a.spec_name()
                != b.spec_name() by {
                lemma_names_distinct(a, b);
            }
        }
        add_family(
            &mut exposition,
            MetricFamily::QueryByType.name(),
            MetricFamily::QueryByType.help(),
        );
        add_family(
            &mut exposition,
            MetricFamily::QueryByStatus.name(),
            MetricFamily::QueryByStatus.help(),
        );
        add_family(
            &mut exposition,
            MetricFamily::QueryReplies.name(),
            MetricFamily::QueryReplies.help(),
        );
        add_family(
            &mut exposition,
            MetricFamily::QueryCount.name(),
            MetricFamily::QueryCount.help(),
        );
        add_family(
            &mut exposition,
            MetricFamily::ClientCount.name(),
            MetricFamily::ClientCount.help(),
        );
        add_gauge(
            &mut exposition,
            MetricFamily::DomainsBeingBlocked.name(),
            MetricFamily::DomainsBeingBlocked.help(),
        );
        add_family(
            &mut exposition,
            MetricFamily::QueryUpstreamCount.name(),
            MetricFamily::QueryUpstreamCount.help(),
        );
        add_family(
            &mut exposition,
            MetricFamily::QueryType1m.name(),
            MetricFamily::QueryType1m.help(),
        );
        add_family(
            &mut exposition,
            MetricFamily::QueryStatus1m.name(),
            MetricFamily::QueryStatus1m.help(),
        );
        add_family(
            &mut exposition,
            MetricFamily::QueryReply1m.name(),
            MetricFamily::QueryReply1m.help(),
        );
        add_family(
            &mut exposition,
            MetricFamily::QueryClient1m.name(),
            MetricFamily::QueryClient1m.help(),
        );
        add_family(
            &mut exposition,
            MetricFamily::QueryUpstream1m.name(),
            MetricFamily::QueryUpstream1m.help(),
        );
        assert(described(exposition) =~= kinds());
        let metrics = PiholeMetrics { exposition };
        assert(metrics@ =~= fresh_store());
        metrics
    }

    /// Registers all twelve families with another registry as well, after
    /// what it holds already.
    pub fn register(&self, registry: &mut Registry)
        ensures
            registered(*final(registry)) == registered(*old(registry)) + descriptors(),
    {
        proof {
            use_type_invariant(self);
            lemma_described(MetricFamily::QueryByType);
            lemma_described(MetricFamily::QueryByStatus);
            lemma_described(MetricFamily::QueryReplies);
            lemma_described(MetricFamily::QueryCount);
            lemma_described(MetricFamily::ClientCount);
            lemma_described(MetricFamily::DomainsBeingBlocked);
            lemma_described(MetricFamily::QueryUpstreamCount);
            lemma_described(MetricFamily::QueryType1m);
            lemma_described(MetricFamily::QueryStatus1m);
            lemma_described(MetricFamily::QueryReply1m);
            lemma_described(MetricFamily::QueryClient1m);
            lemma_described(MetricFamily::QueryUpstream1m);
        }
        share_family(
            &self.exposition,
            MetricFamily::QueryByType.name(),
            MetricFamily::QueryByType.help(),
            registry,
        );
        share_family(
            &self.exposition,
            MetricFamily::QueryByStatus.name(),
            MetricFamily::QueryByStatus.help(),
            registry,
        );
        share_family(
            &self.exposition,
            MetricFamily::QueryReplies.name(),
            MetricFamily::QueryReplies.help(),
            registry,
        );
        share_family(
            &self.exposition,
            MetricFamily::QueryCount.name(),
            MetricFamily::QueryCount.help(),
            registry,
        );
        share_family(
            &self.exposition,
            MetricFamily::ClientCount.name(),
            MetricFamily::ClientCount.help(),
            registry,
        );
        share_gauge(
            &self.exposition,
            MetricFamily::DomainsBeingBlocked.name(),
            MetricFamily::DomainsBeingBlocked.help(),
            registry,
        );
        share_family(
            &self.exposition,
            MetricFamily::QueryUpstreamCount.name(),
            MetricFamily::QueryUpstreamCount.help(),
            registry,
        );
        share_family(
            &self.exposition,
            MetricFamily::QueryType1m.name(),
            MetricFamily::QueryType1m.help(),
            registry,
        );
        share_family(
            &self.exposition,
            MetricFamily::QueryStatus1m.name(),
            MetricFamily::QueryStatus1m.help(),
            registry,
        );
        share_family(
            &self.exposition,
            MetricFamily::QueryReply1m.name(),
            MetricFamily::QueryReply1m.help(),
            registry,
        );
        share_family(
            &self.exposition,
            MetricFamily::QueryClient1m.name(),
            MetricFamily::QueryClient1m.help(),
            registry,
        );
        share_family(
            &self.exposition,
            MetricFamily::QueryUpstream1m.name(),
            MetricFamily::QueryUpstream1m.help(),
            registry,
        );
        assert(registered(*registry) =~= registered(*old(registry)) + descriptors());
    }

    /// Sets one time series of a family with labels.
    fn set_labelled(&mut self, family: MetricFamily, labels: &LabelSet, value: i64)
        requires
            family.spec_labelled(),
            labels.deep_view().len() > 0,
        ensures
            final(self)@ == old(self)@.insert((family, labels.deep_view()), value),
    {
        proof {
            use_type_invariant(&*self);
            lemma_described(family);
            assert forall|other: MetricFamily| other != family implies (
            #[trigger] other.spec_name()) != family.spec_name() by {
                lemma_names_distinct(other, family);
            }
            assert(labels.deep_view().len() == labels@.len());
        }
        set_series(&mut self.exposition, family.name(), labels, value);
        assert(self@ =~= old(self)@.insert((family, labels.deep_view()), value));
    }

    /// Sets one time series: its value is `entry`'s afterwards, whether or
    /// not the series was there before, and no other series changes.
    pub fn set(&mut self, entry: &MetricEntry)
        ensures
            final(self)@ == store_set(old(self)@, entry@),
    {
        match entry {
            MetricEntry::QueryByType(labels, value) => {
                let labels = labels.label_set();
                self.set_labelled(MetricFamily::QueryByType, &labels, *value);
            },
            MetricEntry::QueryByStatus(labels, value) => {
                let labels = labels.label_set();
                self.set_labelled(MetricFamily::QueryByStatus, &labels, *value);
            },
            MetricEntry::QueryReplies(labels, value) => {
                let labels = labels.label_set();
                self.set_labelled(MetricFamily::QueryReplies, &labels, *value);
            },
            MetricEntry::QueryCount(labels, value) => {
                let labels = labels.label_set();
                self.set_labelled(MetricFamily::QueryCount, &labels, *value);
            },
            MetricEntry::ClientCount(labels, value) => {
                let labels = labels.label_set();
                self.set_labelled(MetricFamily::ClientCount, &labels, *value);
            },
            MetricEntry::DomainsBeingBlocked(value) => {
                proof {
                    use_type_invariant(&*self);
                    lemma_described(MetricFamily::DomainsBeingBlocked);
                    assert forall|other: MetricFamily|
                        other != MetricFamily::DomainsBeingBlocked implies (
                    #[trigger] other.spec_name())
                        != MetricFamily::DomainsBeingBlocked.spec_name() by {
                        lemma_names_distinct(other, MetricFamily::DomainsBeingBlocked);
                    }
                }
                set_gauge(&mut self.exposition, MetricFamily::DomainsBeingBlocked.name(), *value);
                assert(self@ =~= store_set(old(self)@, entry@));
            },
            MetricEntry::QueryUpstreamCount(labels, value) => {
                let labels = labels.label_set();
                self.set_labelled(MetricFamily::QueryUpstreamCount, &labels, *value);
            },
            MetricEntry::QueryType1m(labels, value) => {
                let labels = labels.label_set();
                self.set_labelled(MetricFamily::QueryType1m, &labels, *value);
            },
            MetricEntry::QueryStatus1m(labels, value) => {
                let labels = labels.label_set();
                self.set_labelled(MetricFamily::QueryStatus1m, &labels, *value);
            },
            MetricEntry::QueryReply1m(labels, value) => {
                let labels = labels.label_set();
                self.set_labelled(MetricFamily::QueryReply1m, &labels, *value);
            },
            MetricEntry::QueryClient1m(labels, value) => {
                let labels = labels.label_set();
                self.set_labelled(MetricFamily::QueryClient1m, &labels, *value);
            },
            MetricEntry::QueryUpstream1m(labels, value) => {
                let labels = labels.label_set();
                self.set_labelled(MetricFamily::QueryUpstream1m, &labels, *value);
            },
        }
    }

    /// Applies a list of updates in order. Where two of them name the same
    /// time series, the later one stays.
    pub fn apply(&mut self, entries: &Vec<MetricEntry>)
        ensures
            final(self)@ == store_apply(old(self)@, series_of(entries@)),
    {
        let ghost updates = series_of(entries@);
        let mut i: usize = 0;
        while i < entries.len()
            invariant
                i <= entries.len(),
                updates == series_of(entries@),
                self@ == store_apply(old(self)@, updates.take(i as int)),
            decreases entries.len() - i,
        {
            self.set(&entries[i]);
            proof {
                assert(updates.take(i + 1).drop_last() =~= updates.take(i as int));
            }
            i = i + 1;
        }
        assert(updates.take(i as int) =~= updates);
    }

    /// Reads one time series: its value, if the family holds the label set.
    pub fn value(&self, family: MetricFamily, labels: &LabelSet) -> (value: Option<i64>)
        ensures
            value == (if self@.dom().contains((family, labels.deep_view())) {
                Some(self@[(family, labels.deep_view())])
            } else {
                None
            }),
    {
        proof {
            use_type_invariant(self);
            lemma_described(family);
            assert(labels.deep_view().len() == labels@.len());
            assert(labels@.len() == 0 ==> labels.deep_view() =~= Seq::empty());
        }
        match family {
            MetricFamily::DomainsBeingBlocked => {
                if labels.len() == 0 {
                    Some(get_gauge(&self.exposition, family.name()))
                } else {
                    None
                }
            },
            _ => get_series(&self.exposition, family.name(), labels),
        }
    }

    /// Reads the gauge without labels: the number of domains on the
    /// blocklist, as last set.
    pub fn domains_being_blocked(&self) -> (value: i64)
        ensures
            self@.dom().contains((MetricFamily::DomainsBeingBlocked, Seq::empty())),
            value == self@[(MetricFamily::DomainsBeingBlocked, Seq::empty())],
    {
        proof {
            use_type_invariant(self);
            lemma_described(MetricFamily::DomainsBeingBlocked);
        }
        get_gauge(&self.exposition, MetricFamily::DomainsBeingBlocked.name())
    }

    /// Writes the store out after what the buffer holds, in the text
    /// exposition format, and tells whether the encoder reported success,
    /// which it always does. The text that is added is the exposition of the
    /// store and nothing else: it holds the line of every time series of the
    /// store, under the name of its family, and ends with the format's end
    /// marker. The gauge without labels is always among the series.
    pub fn encode(&self, buffer: &mut String) -> (done: bool)
        ensures
            done,
            store_writes(old(buffer)@, final(buffer)@, self@),
            shows(final(buffer)@, self@),
            is_terminated(final(buffer)@),
            self@.dom().contains((MetricFamily::DomainsBeingBlocked, Seq::empty())),
    {
        let done = encode_into(buffer, &self.exposition);
        proof {
            use_type_invariant(self);
            let before = old(buffer)@;
            let after = buffer@;
            let samples = exposed(self.exposition);
            assert(writes(before, after, kinds(), samples));
            let listing = choose|listing: Seq<Rows>|
                written_as(before, after, kinds(), samples, listing);
            lemma_written_terminated(before, after, kinds(), samples, listing);
            assert forall|i: int| 0 <= i < listing.len() implies family_rows(
                #[trigger] listing[i],
                all_families()[i],
                self@,
            ) by {
                let family = all_families()[i];
                let rows = listing[i];
                assert(kinds()[i].0 == family.spec_name());
                assert forall|key: LabelKey| #[trigger]
                    self@.dom().contains((family, key)) implies has_row(rows, key) by {
                    assert(samples.dom().contains((family.spec_name(), key)));
                }
            }
            assert(store_written_as(before, after, self@, listing));
            assert forall|family: MetricFamily, key: LabelKey| #[trigger]
                self@.dom().contains((family, key)) implies has_line(
                after,
                sample_line(family.spec_name(), key, self@[(family, key)]),
            ) by {
                let i = place(family);
                assert(all_families()[i] == family);
                assert(kinds()[i].0 == family.spec_name());
                assert(samples.dom().contains((family.spec_name(), key)));
                assert(has_row(listing[i], key));
                let j = choose|j: int| 0 <= j < listing[i].len() && (#[trigger] listing[i][j]).0 == key;
                lemma_written_line(before, after, kinds(), samples, listing, i, j);
            }
        }
        done
    }
}

impl Default for PiholeMetrics {
    fn default() -> (metrics: Self)
        ensures
            metrics@ == fresh_store(),
    {
        Self::new()
    }
}

} // verus!
