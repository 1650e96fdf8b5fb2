//! The collector: the state of one exporter, and the cycle that brings the
//! metric store up to date with what was fetched.

use vstd::prelude::*;
use crate::aggregate::{aggregate, cycle_series};
use crate::api::{AuthResponse, QueriesResponse, StatsResponse, UpstreamsResponse};
use crate::client::{
    auth_call, base_url, queries_path, read_request, session_of, spec_api_url, spec_auth_headers,
    spec_base_url, spec_queries_path, spec_read_headers, summary_path, upstreams_path, ApiRequest,
    AuthCall, ExporterError, FetchError,
};
use crate::format::is_terminated;
use crate::family::MetricFamily;
use crate::metrics::{shows, store_writes, PiholeMetrics};
use crate::store::{fresh_store, lemma_apply_keeps_series, store_apply, StoreView};
use crate::window::WindowBoundary;

verus! {

/// What one cycle fetched: the three responses of the appliance.
#[derive(Debug)]
pub struct ScrapeData {
    pub summary: StatsResponse,
    pub upstreams: UpstreamsResponse,
    pub queries: QueriesResponse,
}

/// The time series that a cycle sets, in order, for what it fetched.
pub open spec fn scrape_series(data: ScrapeData) -> Seq<crate::family::Series> {
    cycle_series(data.summary, data.upstreams, data.queries)
}

/// The collector of one appliance: where the appliance is, the session that
/// was obtained at startup, if any, and the metric store, which holds the
/// registry it is written out from.
#[derive(Debug)]
pub struct PiholeCollector {
    pub base: String,
    pub sid: Option<String>,
    pub metrics: PiholeMetrics,
}

impl View for PiholeCollector {
    type V = StoreView;

    open spec fn view(&self) -> StoreView {
        self.metrics@
    }
}

/// The outcome of writing the store out, for what the encoder reported: the
/// text that it wrote where it reported success, an encode error otherwise.
pub fn encoded(done: bool, text: String) -> (outcome: Result<String, ExporterError>)
    ensures
        outcome == (if done {
            Ok::<String, ExporterError>(text)
        } else {
            Err::<String, ExporterError>(ExporterError::Encode)
        }),
{
    if done {
        Ok(text)
    } else {
        Err(ExporterError::Encode)
    }
}

impl PiholeCollector {
    /// The credential exchange to send before a collector is made, where a
    /// password is configured.
    pub fn auth_request(host: &str, tls: bool, password: &str) -> (call: AuthCall)
        ensures
            call.url@ == spec_api_url(spec_base_url(host@, tls), "auth"@),
            call.headers.deep_view() == spec_auth_headers(),
            call.body.password@ == password@,
    {
        let base = base_url(host, tls);
        auth_call(base.as_str(), password)
    }

    /// Creates a collector from the outcome of the credential exchange:
    /// `None` where no password is configured. A failed exchange gives no
    /// collector. Otherwise the collector starts with a store to which
    /// nothing was applied.
    pub fn new(host: String, tls: bool, auth: Option<Result<AuthResponse, FetchError>>) -> (made:
        Result<Self, ExporterError>)
        ensures
            match auth {
                Some(Err(e)) => made == Err::<Self, ExporterError>(ExporterError::Auth(e)),
                Some(Ok(response)) => made is Ok && made->Ok_0.sid == Some(response.session.sid),
                None => made is Ok && made->Ok_0.sid == None::<String>,
            },
            made matches Ok(collector) ==> {
                &&& collector.base@ == spec_base_url(host@, tls)
                &&& collector@ == fresh_store()
            },
    {
        let base = base_url(host.as_str(), tls);
        match session_of(auth) {
            Err(e) => Err(e),
            Ok(sid) => {
                let metrics = PiholeMetrics::new();
                Ok(PiholeCollector { base, sid, metrics })
            },
        }
    }

    /// The read of the summary statistics.
    pub fn summary_request(&self) -> (request: ApiRequest)
        ensures
            request.url@ == spec_api_url(self.base@, "stats/summary"@),
            request.headers.deep_view() == spec_read_headers(self.sid),
    {
        read_request(self.base.as_str(), summary_path(), &self.sid)
    }

    /// The read of the upstream statistics.
    pub fn upstreams_request(&self) -> (request: ApiRequest)
        ensures
            request.url@ == spec_api_url(self.base@, "stats/upstreams"@),
            request.headers.deep_view() == spec_read_headers(self.sid),
    {
        read_request(self.base.as_str(), upstreams_path(), &self.sid)
    }

    /// The read of the query log of one window.
    pub fn queries_request(&self, window: WindowBoundary) -> (request: ApiRequest)
        ensures
            request.url@ == spec_api_url(self.base@, spec_queries_path(window)),
            request.headers.deep_view() == spec_read_headers(self.sid),
    {
        let path = queries_path(window);
        read_request(self.base.as_str(), path.as_str(), &self.sid)
    }

    /// Brings the store up to date with the three responses of one cycle:
    /// every update that they give is applied, in order. Time series that no
    /// update names stay as they are.
    pub fn update_metrics(
        &mut self,
        summary: &StatsResponse,
        upstreams: &UpstreamsResponse,
        queries: &QueriesResponse,
    )
        ensures
            final(self)@ == store_apply(old(self)@, cycle_series(*summary, *upstreams, *queries)),
            old(self)@.dom().subset_of(final(self)@.dom()),
            final(self).base == old(self).base,
            final(self).sid == old(self).sid,
    {
        let entries = aggregate(summary, upstreams, queries);
        self.metrics.apply(&entries);
        proof {
            lemma_apply_keeps_series(old(self)@, cycle_series(*summary, *upstreams, *queries));
        }
    }

    /// Writes the store out in the text exposition format. The text is the
    /// exposition of the store and nothing else: it holds the line of every
    /// time series of the store, under the name of its family, and ends with
    /// the format's end marker; the gauge without labels is always among the
    /// series. Writing into a string does not fail.
    pub fn encode_metrics(&self) -> (outcome: Result<String, ExporterError>)
        ensures
            outcome matches Ok(text) && store_writes(Seq::empty(), text@, self@) && shows(
                text@,
                self@,
            ) && is_terminated(text@),
            self@.dom().contains((MetricFamily::DomainsBeingBlocked, Seq::empty())),
    {
        let mut buffer = String::new();
        let done = self.metrics.encode(&mut buffer);
        encoded(done, buffer)
    }

    /// One cycle, from what was fetched to the text to serve. A failed fetch
    /// fails the cycle and leaves the store as it was. Otherwise the store is
    /// brought up to date and written out, and the text is that of the store
    /// as the cycle left it. Both happen under the one exclusive borrow of the
    /// collector, so that no other cycle can change the store between the
    /// two.
    pub fn publish(&mut self, fetched: Result<ScrapeData, FetchError>) -> (outcome: Result<
        String,
        ExporterError,
    >)
        ensures
            final(self).base == old(self).base,
            final(self).sid == old(self).sid,
            match fetched {
                Err(e) => outcome == Err::<String, ExporterError>(ExporterError::Fetch(e))
                    && final(self)@ == old(self)@,
                Ok(data) => {
                    &&& final(self)@ == store_apply(old(self)@, scrape_series(data))
                    &&& old(self)@.dom().subset_of(final(self)@.dom())
                    &&& final(self)@.dom().contains(
                        (MetricFamily::DomainsBeingBlocked, Seq::empty()),
                    )
                    &&& outcome matches Ok(text) && store_writes(
                        Seq::empty(),
                        text@,
                        final(self)@,
                    ) && shows(text@, final(self)@) && is_terminated(text@)
                },
            },
    {
        match fetched {
            Err(e) => Err(ExporterError::Fetch(e)),
            Ok(data) => {
                self.update_metrics(&data.summary, &data.upstreams, &data.queries);
                self.encode_metrics()
            },
        }
    }
}

} // verus!
