//! The shapes of the appliance's API messages.
//!
//! These are plain data. A JSON object of counters is held as a list of
//! `(key, count)` pairs: a decoded object names each key once, which
//! [`distinct_keys`] states, and nothing here depends on the order of the
//! pairs. The library only ever goes through such an object from end to end;
//! it looks nothing up in it. A hash map would not serve here: the verifier
//! has no model of hashing for keys that are strings, so that nothing could
//! be stated of what is read out of one.

use vstd::prelude::*;

verus! {

/// A list of named counters, as plain values.
pub type Counters = Seq<(Seq<char>, u64)>;

/// No key is named twice in `counters`.
pub open spec fn distinct_keys(counters: Counters) -> bool {
    forall|i: int, j: int|
        0 <= i < j < counters.len() ==> (#[trigger] counters[i]).0 != (#[trigger] counters[j]).0
}

/// Authentication response from the appliance.
#[derive(Debug)]
pub struct AuthResponse {
    pub session: SessionInfo,
}

/// Session information after authentication.
#[derive(Debug)]
pub struct SessionInfo {
    pub sid: String,
}

/// Authentication request payload.
#[derive(Debug)]
pub struct AuthRequest {
    pub password: String,
}

/// Summary statistics: the appliance's rolling 24-hour counters.
#[derive(Debug)]
pub struct StatsResponse {
    pub queries: QueryStats,
    pub clients: ClientStats,
    pub gravity: GravityStats,
}

/// Query statistics.
#[derive(Debug)]
pub struct QueryStats {
    pub types: Vec<(String, u64)>,
    pub status: Vec<(String, u64)>,
    pub replies: Vec<(String, u64)>,
    pub total: u64,
    pub blocked: u64,
    pub unique_domains: u64,
    pub forwarded: u64,
    pub cached: u64,
}

impl QueryStats {
    /// Each of the three counter objects names each of its keys once.
    pub open spec fn wf(&self) -> bool {
        &&& distinct_keys(self.types.deep_view())
        &&& distinct_keys(self.status.deep_view())
        &&& distinct_keys(self.replies.deep_view())
    }
}

/// Client statistics.
#[derive(Debug)]
pub struct ClientStats {
    pub active: u64,
    pub total: u64,
}

/// Blocklist statistics.
#[derive(Debug)]
pub struct GravityStats {
    pub domains_being_blocked: u64,
}

/// The configured upstream resolvers with their 24-hour query counts.
#[derive(Debug)]
pub struct UpstreamsResponse {
    pub upstreams: Vec<UpstreamInfo>,
}

/// One upstream resolver.
#[derive(Debug)]
pub struct UpstreamInfo {
    pub ip: String,
    pub name: String,
    pub port: i16,
    pub count: u64,
}

/// The raw query log of one time window.
#[derive(Debug)]
pub struct QueriesResponse {
    pub queries: Vec<QueryInfo>,
}

/// A single DNS query.
#[derive(Debug)]
pub struct QueryInfo {
    pub query_type: String,
    pub status: String,
    pub reply: ReplyInfo,
    pub client: ClientInfo,
    pub upstream: Option<String>,
}

/// The reply to a DNS query.
#[derive(Debug)]
pub struct ReplyInfo {
    pub reply_type: String,
}

/// The client that sent a DNS query.
#[derive(Debug)]
pub struct ClientInfo {
    pub ip: String,
}

} // verus!
