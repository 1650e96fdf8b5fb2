use pihole_exporter::aggregate::{
    aggregate, family_of_dimension, summary_entries, upstream_entries, window_entries,
};
use pihole_exporter::api::{
    AuthResponse, ClientInfo, ClientStats, GravityStats, QueriesResponse, QueryInfo, QueryStats,
    ReplyInfo, SessionInfo, StatsResponse, UpstreamInfo, UpstreamsResponse,
};
use pihole_exporter::collector::encoded;
use pihole_exporter::family::{MetricEntry, MetricFamily};
use pihole_exporter::labels::CategoryLabels;
use pihole_exporter::window::WindowKey;
use pihole_exporter::{ExporterError, FetchError, PiholeCollector, ScrapeData};

fn label(name: &str, value: &str) -> Vec<(String, String)> {
    vec![(name.to_string(), value.to_string())]
}

fn query(kind: &str, status: &str, reply: &str, client: &str, upstream: Option<&str>) -> QueryInfo {
    QueryInfo {
        query_type: kind.to_string(),
        status: status.to_string(),
        reply: ReplyInfo { reply_type: reply.to_string() },
        client: ClientInfo { ip: client.to_string() },
        upstream: upstream.map(|u| u.to_string()),
    }
}

fn summary() -> StatsResponse {
    StatsResponse {
        queries: QueryStats {
            types: vec![("A".to_string(), 60), ("AAAA".to_string(), 40)],
            status: vec![("FORWARDED".to_string(), 80), ("CACHE".to_string(), 20)],
            replies: vec![("IP".to_string(), 90)],
            total: 100,
            blocked: 10,
            unique_domains: 42,
            forwarded: 80,
            cached: 20,
        },
        clients: ClientStats { active: 3, total: 5 },
        gravity: GravityStats { domains_being_blocked: 123456 },
    }
}

fn upstreams() -> UpstreamsResponse {
    UpstreamsResponse {
        upstreams: vec![UpstreamInfo {
            ip: "1.1.1.1".to_string(),
            name: "cloudflare".to_string(),
            port: 53,
            count: 80,
        }],
    }
}

fn window() -> QueriesResponse {
    QueriesResponse {
        queries: vec![
            query("A", "FORWARDED", "IP", "10.0.0.1", Some("1.1.1.1")),
            query("A", "FORWARDED", "IP", "10.0.0.2", Some("1.1.1.1")),
            query("AAAA", "CACHE", "IP", "10.0.0.1", None),
        ],
    }
}

fn empty_window() -> QueriesResponse {
    QueriesResponse { queries: vec![] }
}

fn anonymous() -> PiholeCollector {
    PiholeCollector::new("localhost".to_string(), false, None).unwrap()
}

#[test]
fn test_pihole_collector_creation() {
    let collector = PiholeCollector::new("localhost".to_string(), false, None);
    assert!(collector.is_ok());
}

#[test]
fn collector_without_credential_is_anonymous() {
    let collector = anonymous();
    assert_eq!(collector.base, "http://localhost");
    assert_eq!(collector.sid, None);
    assert_eq!(collector.metrics.value(MetricFamily::DomainsBeingBlocked, &vec![]), Some(0));
    let request = collector.summary_request();
    assert_eq!(request.url, "http://localhost/api/stats/summary");
    assert_eq!(request.headers, vec![("accept".to_string(), "application/json".to_string())]);
}

#[test]
fn collector_keeps_the_session_of_the_exchange() {
    let granted = AuthResponse { session: SessionInfo { sid: "tok".to_string() } };
    let collector = PiholeCollector::new("pi.hole".to_string(), true, Some(Ok(granted))).unwrap();
    assert_eq!(collector.base, "https://pi.hole");
    assert_eq!(collector.sid, Some("tok".to_string()));
    let request = collector.upstreams_request();
    assert_eq!(request.url, "https://pi.hole/api/stats/upstreams");
    assert_eq!(
        request.headers,
        vec![
            ("accept".to_string(), "application/json".to_string()),
            ("sid".to_string(), "tok".to_string()),
        ]
    );
    let w = pihole_exporter::window::WindowBoundary::at(1_700_000_039);
    assert_eq!(
        collector.queries_request(w).url,
        "https://pi.hole/api/queries?from=1699999920&until=1699999980&length=1000000"
    );
}

#[test]
fn failed_authentication_gives_no_collector() {
    for cause in
        [FetchError::Timeout, FetchError::Network, FetchError::Status(401), FetchError::Malformed]
    {
        let made = PiholeCollector::new("localhost".to_string(), false, Some(Err(cause)));
        assert_eq!(made.err(), Some(ExporterError::Auth(cause)));
    }
}

#[test]
fn auth_request_goes_to_the_auth_endpoint() {
    let call = PiholeCollector::auth_request("localhost", true, "secret");
    assert_eq!(call.url, "https://localhost/api/auth");
    assert_eq!(call.body.password, "secret");
}

#[test]
fn unique_domains_become_one_entry() {
    let mut s = summary();
    s.queries.unique_domains = 42;
    let entries = summary_entries(&s);
    let unique: Vec<&MetricEntry> = entries
        .iter()
        .filter(|e| matches!(e, MetricEntry::QueryCount(CategoryLabels { category }, _) if category == "unique"))
        .collect();
    assert_eq!(unique.len(), 1);
    assert!(matches!(unique[0], MetricEntry::QueryCount(_, 42)));
    let mut collector = anonymous();
    collector.metrics.apply(&entries);
    assert_eq!(
        collector.metrics.value(MetricFamily::QueryCount, &label("category", "unique")),
        Some(42)
    );
}

#[test]
fn summary_entries_in_order() {
    let entries = summary_entries(&summary());
    assert_eq!(entries.len(), 2 + 2 + 1 + 8);
    assert!(matches!(&entries[0], MetricEntry::QueryByType(l, 60) if l.query_type == "A"));
    assert!(matches!(&entries[1], MetricEntry::QueryByType(l, 40) if l.query_type == "AAAA"));
    assert!(matches!(&entries[2], MetricEntry::QueryByStatus(l, 80) if l.query_status == "FORWARDED"));
    assert!(matches!(&entries[3], MetricEntry::QueryByStatus(l, 20) if l.query_status == "CACHE"));
    assert!(matches!(&entries[4], MetricEntry::QueryReplies(l, 90) if l.reply_type == "IP"));
    assert!(matches!(&entries[5], MetricEntry::QueryCount(l, 100) if l.category == "total"));
    assert!(matches!(&entries[6], MetricEntry::QueryCount(l, 10) if l.category == "blocked"));
    assert!(matches!(&entries[7], MetricEntry::QueryCount(l, 42) if l.category == "unique"));
    assert!(matches!(&entries[8], MetricEntry::QueryCount(l, 80) if l.category == "forwarded"));
    assert!(matches!(&entries[9], MetricEntry::QueryCount(l, 20) if l.category == "cached"));
    assert!(matches!(&entries[10], MetricEntry::ClientCount(l, 3) if l.category == "active"));
    assert!(matches!(&entries[11], MetricEntry::ClientCount(l, 5) if l.category == "total"));
    assert!(matches!(&entries[12], MetricEntry::DomainsBeingBlocked(123456)));
}

#[test]
fn empty_summary_maps_give_no_entries() {
    let mut s = summary();
    s.queries.types = vec![];
    s.queries.status = vec![];
    s.queries.replies = vec![];
    assert_eq!(summary_entries(&s).len(), 8);
}

#[test]
fn upstream_entries_carry_three_labels() {
    let entries = upstream_entries(&upstreams());
    assert_eq!(entries.len(), 1);
    assert!(matches!(
        &entries[0],
        MetricEntry::QueryUpstreamCount(l, 80)
            if l.ip == "1.1.1.1" && l.name == "cloudflare" && l.port == "53"
    ));
    assert!(upstream_entries(&UpstreamsResponse { upstreams: vec![] }).is_empty());
    let odd = UpstreamsResponse {
        upstreams: vec![UpstreamInfo {
            ip: "::1".to_string(),
            name: "".to_string(),
            port: -1,
            count: 0,
        }],
    };
    assert!(matches!(&upstream_entries(&odd)[0], MetricEntry::QueryUpstreamCount(l, 0) if l.port == "-1"));
}

#[test]
fn window_entries_count_each_dimension() {
    let entries = window_entries(&window());
    assert_eq!(entries.len(), 2 + 2 + 1 + 2 + 2);
    assert!(matches!(&entries[0], MetricEntry::QueryType1m(l, 2) if l.query_type == "A"));
    assert!(matches!(&entries[1], MetricEntry::QueryType1m(l, 1) if l.query_type == "AAAA"));
    assert!(matches!(&entries[2], MetricEntry::QueryStatus1m(l, 2) if l.query_status == "FORWARDED"));
    assert!(matches!(&entries[3], MetricEntry::QueryStatus1m(l, 1) if l.query_status == "CACHE"));
    assert!(matches!(&entries[4], MetricEntry::QueryReply1m(l, 3) if l.reply_type == "IP"));
    assert!(matches!(&entries[5], MetricEntry::QueryClient1m(l, 2) if l.query_client == "10.0.0.1"));
    assert!(matches!(&entries[6], MetricEntry::QueryClient1m(l, 1) if l.query_client == "10.0.0.2"));
    assert!(matches!(&entries[7], MetricEntry::QueryUpstream1m(l, 2) if l.query_upstream == "1.1.1.1"));
    assert!(matches!(&entries[8], MetricEntry::QueryUpstream1m(l, 1) if l.query_upstream == "None-CACHE"));
    assert!(window_entries(&empty_window()).is_empty());
}

#[test]
fn aggregate_is_summary_then_upstreams_then_window() {
    let entries = aggregate(&summary(), &upstreams(), &window());
    assert_eq!(entries.len(), 13 + 1 + 9);
    assert!(matches!(&entries[12], MetricEntry::DomainsBeingBlocked(123456)));
    assert!(matches!(&entries[13], MetricEntry::QueryUpstreamCount(_, 80)));
    assert!(matches!(&entries[14], MetricEntry::QueryType1m(_, 2)));
    assert_eq!(family_of_dimension(WindowKey::Upstream), MetricFamily::QueryUpstream1m);
    assert_eq!(family_of_dimension(WindowKey::Client), MetricFamily::QueryClient1m);
}

#[test]
fn one_minute_values_add_up_to_the_window() {
    let mut collector = anonymous();
    collector.update_metrics(&summary(), &upstreams(), &window());
    let m = &collector.metrics;
    let types = m.value(MetricFamily::QueryType1m, &label("query_type", "A")).unwrap()
        + m.value(MetricFamily::QueryType1m, &label("query_type", "AAAA")).unwrap();
    assert_eq!(types, 3);
    let status = m.value(MetricFamily::QueryStatus1m, &label("query_status", "FORWARDED")).unwrap()
        + m.value(MetricFamily::QueryStatus1m, &label("query_status", "CACHE")).unwrap();
    assert_eq!(status, 3);
    assert_eq!(m.value(MetricFamily::QueryReply1m, &label("reply_type", "IP")), Some(3));
    let clients = m.value(MetricFamily::QueryClient1m, &label("query_client", "10.0.0.1")).unwrap()
        + m.value(MetricFamily::QueryClient1m, &label("query_client", "10.0.0.2")).unwrap();
    assert_eq!(clients, 3);
    let ups = m.value(MetricFamily::QueryUpstream1m, &label("query_upstream", "1.1.1.1")).unwrap()
        + m.value(MetricFamily::QueryUpstream1m, &label("query_upstream", "None-CACHE")).unwrap();
    assert_eq!(ups, 3);
}

#[test]
fn empty_window_leaves_one_minute_series() {
    let mut collector = anonymous();
    collector.update_metrics(&summary(), &upstreams(), &window());
    let mut later = summary();
    later.queries.total = 101;
    collector.update_metrics(&later, &upstreams(), &empty_window());
    let m = &collector.metrics;
    assert_eq!(m.value(MetricFamily::QueryType1m, &label("query_type", "A")), Some(2));
    assert_eq!(m.value(MetricFamily::QueryType1m, &label("query_type", "AAAA")), Some(1));
    assert_eq!(m.value(MetricFamily::QueryStatus1m, &label("query_status", "CACHE")), Some(1));
    assert_eq!(m.value(MetricFamily::QueryReply1m, &label("reply_type", "IP")), Some(3));
    assert_eq!(m.value(MetricFamily::QueryClient1m, &label("query_client", "10.0.0.2")), Some(1));
    assert_eq!(
        m.value(MetricFamily::QueryUpstream1m, &label("query_upstream", "None-CACHE")),
        Some(1)
    );
    // the 24-hour families follow the new summary
    assert_eq!(m.value(MetricFamily::QueryCount, &label("category", "total")), Some(101));
}

#[test]
fn keys_absent_from_a_later_window_keep_their_value() {
    let mut collector = anonymous();
    collector.update_metrics(&summary(), &upstreams(), &window());
    let later = QueriesResponse {
        queries: vec![query("A", "GRAVITY", "NODATA", "10.0.0.9", None)],
    };
    collector.update_metrics(&summary(), &upstreams(), &later);
    let m = &collector.metrics;
    // seen again: replaced, not added to
    assert_eq!(m.value(MetricFamily::QueryType1m, &label("query_type", "A")), Some(1));
    // not seen again: stale, not cleared
    assert_eq!(m.value(MetricFamily::QueryType1m, &label("query_type", "AAAA")), Some(1));
    assert_eq!(m.value(MetricFamily::QueryClient1m, &label("query_client", "10.0.0.1")), Some(2));
    assert_eq!(
        m.value(MetricFamily::QueryUpstream1m, &label("query_upstream", "None-GRAVITY")),
        Some(1)
    );
    assert_eq!(m.value(MetricFamily::QueryUpstream1m, &label("query_upstream", "1.1.1.1")), Some(2));
}

#[test]
fn end_to_end_text() {
    let mut collector = anonymous();
    let mut s = summary();
    s.queries.total = 100;
    s.queries.blocked = 10;
    let data = ScrapeData { summary: s, upstreams: upstreams(), queries: window() };
    let text = collector.publish(Ok(data)).unwrap();
    assert!(text.contains("pihole_query_count{category=\"total\"} 100\n"));
    assert!(text.contains("pihole_query_count{category=\"blocked\"} 10\n"));
    assert!(text.contains(
        "pihole_query_upstream_count{ip=\"1.1.1.1\",name=\"cloudflare\",port=\"53\"} 80\n"
    ));
    assert!(text.contains("pihole_query_upstream_1m{query_upstream=\"None-CACHE\"} 1\n"));
    assert!(text.contains("pihole_query_upstream_1m{query_upstream=\"1.1.1.1\"} 2\n"));
    assert!(text.contains("pihole_domains_being_blocked 123456\n"));
    assert!(text.ends_with("# EOF\n"));
}

#[test]
fn encode_of_a_fresh_collector() {
    let collector = anonymous();
    let text = collector.encode_metrics().unwrap();
    assert!(text.contains("# TYPE pihole_domains_being_blocked gauge\n"));
    assert!(text.contains("pihole_domains_being_blocked 0\n"));
    assert!(!text.contains("pihole_query_count{"));
    assert!(text.ends_with("# EOF\n"));
}

#[test]
fn failed_fetch_leaves_the_store() {
    let mut collector = anonymous();
    collector.update_metrics(&summary(), &upstreams(), &window());
    let before = collector.encode_metrics().unwrap();
    for cause in
        [FetchError::Timeout, FetchError::Network, FetchError::Status(503), FetchError::Malformed]
    {
        assert_eq!(collector.publish(Err(cause)), Err(ExporterError::Fetch(cause)));
    }
    assert_eq!(
        collector.metrics.value(MetricFamily::QueryCount, &label("category", "total")),
        Some(100)
    );
    let mut lines_before: Vec<&str> = before.lines().collect();
    let after = collector.encode_metrics().unwrap();
    let mut lines_after: Vec<&str> = after.lines().collect();
    lines_before.sort();
    lines_after.sort();
    assert_eq!(lines_before, lines_after);
}

#[test]
fn encoder_outcomes() {
    assert_eq!(encoded(true, "x 1\n".to_string()), Ok("x 1\n".to_string()));
    assert_eq!(encoded(false, "x 1\n".to_string()), Err(ExporterError::Encode));
    assert_eq!(encoded(false, String::new()), Err(ExporterError::Encode));
}

#[test]
fn counters_above_the_signed_range_wrap() {
    let mut s = summary();
    s.queries.total = u64::MAX;
    s.gravity.domains_being_blocked = 1u64 << 63;
    let mut collector = anonymous();
    collector.update_metrics(&s, &upstreams(), &empty_window());
    assert_eq!(
        collector.metrics.value(MetricFamily::QueryCount, &label("category", "total")),
        Some(-1)
    );
    assert_eq!(collector.metrics.value(MetricFamily::DomainsBeingBlocked, &vec![]), Some(i64::MIN));
}

fn uniform_window(n: usize, status: &str, upstream: Option<&str>) -> QueriesResponse {
    QueriesResponse {
        queries: (0..n).map(|i| query("A", status, "IP", &format!("10.0.0.{}", i), upstream)).collect(),
    }
}

fn upstream_lines(collector: &PiholeCollector) -> Vec<String> {
    let text = collector.encode_metrics().unwrap();
    let mut lines: Vec<String> = text
        .lines()
        .filter(|l| l.starts_with("pihole_query_upstream_1m{"))
        .map(|l| l.to_string())
        .collect();
    lines.sort();
    lines
}

#[test]
fn explicit_upstream_gives_one_series_whatever_the_status() {
    let mut collector = anonymous();
    let mut queries = uniform_window(2, "CACHE", Some("9.9.9.9")).queries;
    queries.push(query("A", "GRAVITY", "IP", "c", Some("9.9.9.9")));
    queries.push(query("A", "SPECIAL_DOMAIN", "IP", "c", Some("9.9.9.9")));
    queries.push(query("A", "FORWARDED", "IP", "c", Some("9.9.9.9")));
    collector.update_metrics(&summary(), &upstreams(), &QueriesResponse { queries });
    assert_eq!(upstream_lines(&collector), vec!["pihole_query_upstream_1m{query_upstream=\"9.9.9.9\"} 5"]);
}

#[test]
fn local_statuses_give_one_synthetic_series() {
    for (status, label) in [
        ("CACHE", "None-CACHE"),
        ("GRAVITY", "None-GRAVITY"),
        ("SPECIAL_DOMAIN", "None-SPECIAL_DOMAIN"),
    ] {
        let mut collector = anonymous();
        collector.update_metrics(&summary(), &upstreams(), &uniform_window(4, status, None));
        assert_eq!(
            upstream_lines(&collector),
            vec![format!("pihole_query_upstream_1m{{query_upstream=\"{}\"}} 4", label)]
        );
    }
}

#[test]
fn other_statuses_give_the_one_other_series() {
    let mut collector = anonymous();
    let queries = vec![
        query("A", "FORWARDED", "IP", "c", None),
        query("A", "cache", "IP", "c", None),
        query("A", "", "IP", "c", None),
    ];
    collector.update_metrics(&summary(), &upstreams(), &QueriesResponse { queries });
    assert_eq!(upstream_lines(&collector), vec!["pihole_query_upstream_1m{query_upstream=\"None-OTHER\"} 3"]);
}

#[test]
fn text_holds_a_line_for_every_series_of_the_store() {
    let mut collector = anonymous();
    collector.update_metrics(&summary(), &upstreams(), &window());
    let text = collector.encode_metrics().unwrap();
    for line in [
        "pihole_query_by_type{query_type=\"A\"} 60",
        "pihole_query_by_type{query_type=\"AAAA\"} 40",
        "pihole_query_by_status{query_status=\"FORWARDED\"} 80",
        "pihole_query_by_status{query_status=\"CACHE\"} 20",
        "pihole_query_replies{reply_type=\"IP\"} 90",
        "pihole_query_count{category=\"total\"} 100",
        "pihole_query_count{category=\"blocked\"} 10",
        "pihole_query_count{category=\"unique\"} 42",
        "pihole_query_count{category=\"forwarded\"} 80",
        "pihole_query_count{category=\"cached\"} 20",
        "pihole_client_count{category=\"active\"} 3",
        "pihole_client_count{category=\"total\"} 5",
        "pihole_domains_being_blocked 123456",
        "pihole_query_upstream_count{ip=\"1.1.1.1\",name=\"cloudflare\",port=\"53\"} 80",
        "pihole_query_type_1m{query_type=\"A\"} 2",
        "pihole_query_type_1m{query_type=\"AAAA\"} 1",
        "pihole_query_status_1m{query_status=\"FORWARDED\"} 2",
        "pihole_query_status_1m{query_status=\"CACHE\"} 1",
        "pihole_query_reply_1m{reply_type=\"IP\"} 3",
        "pihole_query_client_1m{query_client=\"10.0.0.1\"} 2",
        "pihole_query_client_1m{query_client=\"10.0.0.2\"} 1",
        "pihole_query_upstream_1m{query_upstream=\"1.1.1.1\"} 2",
        "pihole_query_upstream_1m{query_upstream=\"None-CACHE\"} 1",
    ] {
        assert!(text.lines().any(|l| l == line));
    }
    assert_eq!(text.lines().filter(|l| !l.starts_with('#')).count(), 23);
}

#[test]
fn text_is_the_exposition_of_the_store_and_nothing_else() {
    let mut collector = anonymous();
    collector.update_metrics(&summary(), &upstreams(), &window());
    let text = collector.encode_metrics().unwrap();
    let expected: Vec<(&str, &str, Vec<&str>)> = vec![
        (
            "pihole_query_by_type",
            "Count of queries by type (24h).",
            vec![
                "pihole_query_by_type{query_type=\"A\"} 60",
                "pihole_query_by_type{query_type=\"AAAA\"} 40",
            ],
        ),
        (
            "pihole_query_by_status",
            "Count of queries by status over 24h.",
            vec![
                "pihole_query_by_status{query_status=\"CACHE\"} 20",
                "pihole_query_by_status{query_status=\"FORWARDED\"} 80",
            ],
        ),
        (
            "pihole_query_replies",
            "Count of replies by type over 24h.",
            vec!["pihole_query_replies{reply_type=\"IP\"} 90"],
        ),
        (
            "pihole_query_count",
            "Query counts by category, 24h.",
            vec![
                "pihole_query_count{category=\"blocked\"} 10",
                "pihole_query_count{category=\"cached\"} 20",
                "pihole_query_count{category=\"forwarded\"} 80",
                "pihole_query_count{category=\"total\"} 100",
                "pihole_query_count{category=\"unique\"} 42",
            ],
        ),
        (
            "pihole_client_count",
            "Total/active client counts.",
            vec![
                "pihole_client_count{category=\"active\"} 3",
                "pihole_client_count{category=\"total\"} 5",
            ],
        ),
        (
            "pihole_domains_being_blocked",
            "Number of domains on current blocklist.",
            vec!["pihole_domains_being_blocked 123456"],
        ),
        (
            "pihole_query_upstream_count",
            "Total query upstream counts (24h).",
            vec!["pihole_query_upstream_count{ip=\"1.1.1.1\",name=\"cloudflare\",port=\"53\"} 80"],
        ),
        (
            "pihole_query_type_1m",
            "Count of query types (last whole 1m).",
            vec![
                "pihole_query_type_1m{query_type=\"A\"} 2",
                "pihole_query_type_1m{query_type=\"AAAA\"} 1",
            ],
        ),
        (
            "pihole_query_status_1m",
            "Count of query status (last whole 1m).",
            vec![
                "pihole_query_status_1m{query_status=\"CACHE\"} 1",
                "pihole_query_status_1m{query_status=\"FORWARDED\"} 2",
            ],
        ),
        (
            "pihole_query_reply_1m",
            "Count of query reply types (last whole 1m).",
            vec!["pihole_query_reply_1m{reply_type=\"IP\"} 3"],
        ),
        (
            "pihole_query_client_1m",
            "Count of query clients (last whole 1m).",
            vec![
                "pihole_query_client_1m{query_client=\"10.0.0.1\"} 2",
                "pihole_query_client_1m{query_client=\"10.0.0.2\"} 1",
            ],
        ),
        (
            "pihole_query_upstream_1m",
            "Count of query upstream destinations (last whole 1m).",
            vec![
                "pihole_query_upstream_1m{query_upstream=\"1.1.1.1\"} 2",
                "pihole_query_upstream_1m{query_upstream=\"None-CACHE\"} 1",
            ],
        ),
    ];
    let mut rest = text.as_str();
    for (name, help, samples) in expected {
        let head = format!("# HELP {} {}\n# TYPE {} gauge\n", name, help, name);
        assert!(rest.starts_with(&head));
        rest = &rest[head.len()..];
        let mut lines: Vec<&str> = Vec::new();
        for _ in 0..samples.len() {
            let end = rest.find('\n').unwrap();
            lines.push(&rest[..end]);
            rest = &rest[end + 1..];
        }
        lines.sort();
        assert_eq!(lines, samples);
    }
    assert_eq!(rest, "# EOF\n");
}

#[test]
fn a_cycle_that_fetched_is_always_served() {
    let mut collector = anonymous();
    let data = ScrapeData { summary: summary(), upstreams: upstreams(), queries: empty_window() };
    assert!(collector.publish(Ok(data)).is_ok());
    assert!(collector.encode_metrics().is_ok());
}
