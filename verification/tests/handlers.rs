use pihole_exporter::api::{
    ClientStats, GravityStats, QueriesResponse, QueryStats, StatsResponse, UpstreamsResponse,
};
use pihole_exporter::family::MetricFamily;
use pihole_exporter::handlers::reply_for;
use pihole_exporter::{
    health_handler, metrics_handler, ExporterError, FetchError, PiholeCollector, ScrapeData,
};

fn data(total: u64) -> ScrapeData {
    ScrapeData {
        summary: StatsResponse {
            queries: QueryStats {
                types: vec![],
                status: vec![],
                replies: vec![],
                total,
                blocked: 0,
                unique_domains: 0,
                forwarded: 0,
                cached: 0,
            },
            clients: ClientStats { active: 0, total: 0 },
            gravity: GravityStats { domains_being_blocked: 0 },
        },
        upstreams: UpstreamsResponse { upstreams: vec![] },
        queries: QueriesResponse { queries: vec![] },
    }
}

#[test]
fn health_is_always_ok() {
    let reply = health_handler();
    assert_eq!(reply.status, 200);
    assert_eq!(reply.body, "OK");
    assert_eq!(reply.content_type, None);
}

#[test]
fn metrics_are_served_as_text() {
    let mut collector = PiholeCollector::new("localhost".to_string(), false, None).unwrap();
    let reply = metrics_handler(&mut collector, Ok(data(7)));
    assert_eq!(reply.status, 200);
    assert_eq!(
        reply.content_type,
        Some("text/plain; version=0.0.4; charset=utf-8".to_string())
    );
    assert!(reply.body.contains("pihole_query_count{category=\"total\"} 7\n"));
}

#[test]
fn fetch_failure_is_a_500_and_mutates_nothing() {
    let mut collector = PiholeCollector::new("localhost".to_string(), false, None).unwrap();
    let _ = metrics_handler(&mut collector, Ok(data(7)));
    let reply = metrics_handler(&mut collector, Err(FetchError::Timeout));
    assert_eq!(reply.status, 500);
    assert_eq!(reply.body, "Failed to collect metrics");
    assert_eq!(reply.content_type, None);
    let total = vec![("category".to_string(), "total".to_string())];
    assert_eq!(collector.metrics.value(MetricFamily::QueryCount, &total), Some(7));
    // the next successful scrape is served again
    let reply = metrics_handler(&mut collector, Ok(data(8)));
    assert_eq!(reply.status, 200);
    assert_eq!(collector.metrics.value(MetricFamily::QueryCount, &total), Some(8));
}

#[test]
fn replies_by_outcome() {
    let ok = reply_for(Ok("a 1\n".to_string()));
    assert_eq!((ok.status, ok.body.as_str()), (200, "a 1\n"));
    let encode = reply_for(Err(ExporterError::Encode));
    assert_eq!((encode.status, encode.body.as_str()), (500, "Failed to encode metrics"));
    assert_eq!(encode.content_type, None);
    let fetch = reply_for(Err(ExporterError::Fetch(FetchError::Status(502))));
    assert_eq!((fetch.status, fetch.body.as_str()), (500, "Failed to collect metrics"));
    let auth = reply_for(Err(ExporterError::Auth(FetchError::Network)));
    assert_eq!((auth.status, auth.body.as_str()), (500, "Failed to collect metrics"));
}
