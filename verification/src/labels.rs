//! Label sets: the tuples of label values that tell the time series of one
//! metric family apart.

use vstd::prelude::*;
use vstd::string::StringExecFns;

verus! {

/// A label set as it is handed to the metric store: `(name, value)` pairs.
pub type LabelSet = Vec<(String, String)>;

/// A label set as plain values.
pub type LabelKey = Seq<(Seq<char>, Seq<char>)>;

/// The label set that holds the one label `name` with the value `value`.
pub open spec fn one_label(name: Seq<char>, value: Seq<char>) -> LabelKey {
    seq![(name, value)]
}

/// Builds the label set of a single label.
pub fn single_label(name: &str, value: &String) -> (r: LabelSet)
    ensures
        r.deep_view() == one_label(name@, value@),
{
    let r = vec![(String::from_str(name), value.clone())];
    assert(r.deep_view() =~= one_label(name@, value@));
    r
}

/// Labels for query type metrics.
#[derive(Clone, Debug, Hash, PartialEq, Eq)]
pub struct QueryTypeLabels {
    pub query_type: String,
}

impl QueryTypeLabels {
    pub open spec fn key(&self) -> LabelKey {
        one_label("query_type"@, self.query_type@)
    }

    pub fn label_set(&self) -> (r: LabelSet)
        ensures
            r.deep_view() == self.key(),
    {
        single_label("query_type", &self.query_type)
    }
}

/// Labels for query status metrics.
#[derive(Clone, Debug, Hash, PartialEq, Eq)]
pub struct QueryStatusLabels {
    pub query_status: String,
}

impl QueryStatusLabels {
    pub open spec fn key(&self) -> LabelKey {
        one_label("query_status"@, self.query_status@)
    }

    pub fn label_set(&self) -> (r: LabelSet)
        ensures
            r.deep_view() == self.key(),
    {
        single_label("query_status", &self.query_status)
    }
}

/// Labels for reply type metrics.
#[derive(Clone, Debug, Hash, PartialEq, Eq)]
pub struct ReplyTypeLabels {
    pub reply_type: String,
}

impl ReplyTypeLabels {
    pub open spec fn key(&self) -> LabelKey {
        one_label("reply_type"@, self.reply_type@)
    }

    pub fn label_set(&self) -> (r: LabelSet)
        ensures
            r.deep_view() == self.key(),
    {
        single_label("reply_type", &self.reply_type)
    }
}

/// Labels for category-based metrics.
#[derive(Clone, Debug, Hash, PartialEq, Eq)]
pub struct CategoryLabels {
    pub category: String,
}

impl CategoryLabels {
    pub open spec fn key(&self) -> LabelKey {
        one_label("category"@, self.category@)
    }

    pub fn label_set(&self) -> (r: LabelSet)
        ensures
            r.deep_view() == self.key(),
    {
        single_label("category", &self.category)
    }
}

/// Labels for upstream server metrics.
#[derive(Clone, Debug, Hash, PartialEq, Eq)]
pub struct UpstreamLabels {
    pub ip: String,
    pub name: String,
    pub port: String,
}

impl UpstreamLabels {
    pub open spec fn key(&self) -> LabelKey {
        seq![("ip"@, self.ip@), ("name"@, self.name@), ("port"@, self.port@)]
    }

    pub fn label_set(&self) -> (r: LabelSet)
        ensures
            r.deep_view() == self.key(),
    {
        let r = vec![
            (String::from_str("ip"), self.ip.clone()),
            (String::from_str("name"), self.name.clone()),
            (String::from_str("port"), self.port.clone()),
        ];
        assert(r.deep_view() =~= self.key());
        r
    }
}

/// Labels for client metrics.
#[derive(Clone, Debug, Hash, PartialEq, Eq)]
pub struct ClientLabels {
    pub query_client: String,
}

impl ClientLabels {
    pub open spec fn key(&self) -> LabelKey {
        one_label("query_client"@, self.query_client@)
    }

    pub fn label_set(&self) -> (r: LabelSet)
        ensures
            r.deep_view() == self.key(),
    {
        single_label("query_client", &self.query_client)
    }
}

/// Labels for upstream count metrics.
#[derive(Clone, Debug, Hash, PartialEq, Eq)]
pub struct UpstreamCountLabels {
    pub query_upstream: String,
}

impl UpstreamCountLabels {
    pub open spec fn key(&self) -> LabelKey {
        one_label("query_upstream"@, self.query_upstream@)
    }

    pub fn label_set(&self) -> (r: LabelSet)
        ensures
            r.deep_view() == self.key(),
    {
        single_label("query_upstream", &self.query_upstream)
    }
}

} // verus!
