//! What the two HTTP endpoints answer, as plain values.

use vstd::prelude::*;
use vstd::string::StringExecFns;
use crate::client::{ExporterError, FetchError};
use crate::collector::{scrape_series, PiholeCollector, ScrapeData};
use crate::family::MetricFamily;
use crate::format::is_terminated;
use crate::metrics::{shows, store_writes};
use crate::store::store_apply;

verus! {

/// An HTTP response: its status, its content type where the handler sets
/// one, and its body.
#[derive(Debug)]
pub struct HttpReply {
    pub status: u16,
    pub content_type: Option<String>,
    pub body: String,
}

/// The content type of the text exposition format.
pub open spec fn metrics_content_type() -> Seq<char> {
    "text/plain; version=0.0.4; charset=utf-8"@
}

/// The body that reports a failure: collecting covers the startup exchange
/// and the calls of a cycle, encoding the writing out of the store.
pub open spec fn failure_body(error: ExporterError) -> Seq<char> {
    match error {
        ExporterError::Encode => "Failed to encode metrics"@,
        _ => "Failed to collect metrics"@,
    }
}

/// Whether `reply` is the answer to a cycle that ended in `outcome`: the text
/// with status 200 and the exposition format's content type, or status 500
/// with a short message and no content type of its own.
pub open spec fn answers(reply: HttpReply, outcome: Result<String, ExporterError>) -> bool {
    match outcome {
        Ok(text) => {
            &&& reply.status == 200
            &&& reply.content_type matches Some(t)
            &&& t@ == metrics_content_type()
            &&& reply.body == text
        },
        Err(e) => {
            &&& reply.status == 500
            &&& reply.content_type is None
            &&& reply.body@ == failure_body(e)
        },
    }
}

/// The answer to a cycle that ended in `outcome`.
pub fn reply_for(outcome: Result<String, ExporterError>) -> (reply: HttpReply)
    ensures
        answers(reply, outcome),
{
    match outcome {
        Ok(text) => HttpReply {
            status: 200,
            content_type: Some(String::from_str("text/plain; version=0.0.4; charset=utf-8")),
            body: text,
        },
        Err(ExporterError::Encode) => HttpReply {
            status: 500,
            content_type: None,
            body: String::from_str("Failed to encode metrics"),
        },
        Err(_) => HttpReply {
            status: 500,
            content_type: None,
            body: String::from_str("Failed to collect metrics"),
        },
    }
}

/// Handler for the metrics endpoint: runs one cycle on what was fetched and
/// answers with its text. A failed fetch is answered with status 500, and the
/// store stays as it was. A cycle whose fetches succeeded is answered with
/// status 200 and the exposition of the store as the cycle left it.
pub fn metrics_handler(collector: &mut PiholeCollector, fetched: Result<ScrapeData, FetchError>) -> (reply:
    HttpReply)
    ensures
        final(collector).base == old(collector).base,
        final(collector).sid == old(collector).sid,
        match fetched {
            Err(e) => answers(reply, Err(ExporterError::Fetch(e))) && final(collector)@ == old(
                collector,
            )@,
            Ok(data) => {
                &&& final(collector)@ == store_apply(old(collector)@, scrape_series(data))
                &&& final(collector)@.dom().contains(
                    (MetricFamily::DomainsBeingBlocked, Seq::empty()),
                )
                &&& answers(reply, Ok(reply.body))
                &&& store_writes(Seq::empty(), reply.body@, final(collector)@)
                &&& shows(reply.body@, final(collector)@)
                &&& is_terminated(reply.body@)
            },
        },
{
    let outcome = collector.publish(fetched);
    reply_for(outcome)
}

/// Handler for the health endpoint: status 200 with the body `OK`, whatever
/// the state of the appliance.
pub fn health_handler() -> (reply: HttpReply)
    ensures
        reply.status == 200,
        reply.content_type is None,
        reply.body@ == "OK"@,
{
    HttpReply { status: 200, content_type: None, body: String::from_str("OK") }
}

} // verus!
