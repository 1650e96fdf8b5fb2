use pihole_exporter::api::{ClientInfo, QueryInfo, ReplyInfo};
use pihole_exporter::window::{count_keys, key_string, resolve_upstream, WindowBoundary, WindowKey};

fn query(kind: &str, status: &str, reply: &str, client: &str, upstream: Option<&str>) -> QueryInfo {
    QueryInfo {
        query_type: kind.to_string(),
        status: status.to_string(),
        reply: ReplyInfo { reply_type: reply.to_string() },
        client: ClientInfo { ip: client.to_string() },
        upstream: upstream.map(|u| u.to_string()),
    }
}

#[test]
fn window_is_the_last_whole_minute() {
    let w = WindowBoundary::at(125);
    assert_eq!((w.start, w.end), (60, 120));
    let w = WindowBoundary::at(1_700_000_039);
    assert_eq!((w.start, w.end), (1_699_999_920, 1_699_999_980));
}

#[test]
fn window_on_a_whole_minute_ends_there() {
    let w = WindowBoundary::at(120);
    assert_eq!((w.start, w.end), (60, 120));
    let w = WindowBoundary::at(60);
    assert_eq!((w.start, w.end), (0, 60));
    let w = WindowBoundary::at(119);
    assert_eq!((w.start, w.end), (0, 60));
}

#[test]
fn no_window_before_the_first_minute() {
    assert_eq!(WindowBoundary::try_at(0), None);
    assert_eq!(WindowBoundary::try_at(59), None);
    assert_eq!(WindowBoundary::try_at(60), Some(WindowBoundary { start: 0, end: 60 }));
    assert_eq!(
        WindowBoundary::try_at(u64::MAX),
        Some(WindowBoundary { start: 18446744073709551540, end: 18446744073709551600 })
    );
}

#[test]
fn explicit_upstream_is_kept() {
    for status in ["FORWARDED", "CACHE", "GRAVITY", "SPECIAL_DOMAIN", ""] {
        assert_eq!(resolve_upstream(&query("A", status, "IP", "10.0.0.1", Some("1.1.1.1"))), "1.1.1.1");
    }
    // even one that looks like a synthetic label, or is empty
    assert_eq!(resolve_upstream(&query("A", "CACHE", "IP", "c", Some("None-OTHER"))), "None-OTHER");
    assert_eq!(resolve_upstream(&query("A", "CACHE", "IP", "c", Some(""))), "");
}

#[test]
fn missing_upstream_is_classified_by_status() {
    assert_eq!(resolve_upstream(&query("A", "CACHE", "IP", "c", None)), "None-CACHE");
    assert_eq!(resolve_upstream(&query("A", "GRAVITY", "IP", "c", None)), "None-GRAVITY");
    assert_eq!(
        resolve_upstream(&query("A", "SPECIAL_DOMAIN", "IP", "c", None)),
        "None-SPECIAL_DOMAIN"
    );
    assert_eq!(resolve_upstream(&query("A", "FORWARDED", "IP", "c", None)), "None-OTHER");
    assert_eq!(resolve_upstream(&query("A", "cache", "IP", "c", None)), "None-OTHER");
    assert_eq!(resolve_upstream(&query("A", "CACHE_STALE", "IP", "c", None)), "None-OTHER");
    assert_eq!(resolve_upstream(&query("A", "", "IP", "c", None)), "None-OTHER");
}

#[test]
fn keys_by_dimension() {
    let q = query("AAAA", "CACHE", "NODATA", "10.0.0.7", None);
    assert_eq!(key_string(&q, WindowKey::QueryType), "AAAA");
    assert_eq!(key_string(&q, WindowKey::Status), "CACHE");
    assert_eq!(key_string(&q, WindowKey::ReplyType), "NODATA");
    assert_eq!(key_string(&q, WindowKey::Client), "10.0.0.7");
    assert_eq!(key_string(&q, WindowKey::Upstream), "None-CACHE");
}

#[test]
fn counting_keeps_first_seen_order() {
    let queries = vec![
        query("A", "FORWARDED", "IP", "10.0.0.1", Some("1.1.1.1")),
        query("AAAA", "CACHE", "IP", "10.0.0.2", None),
        query("A", "GRAVITY", "NODATA", "10.0.0.1", None),
        query("A", "FORWARDED", "IP", "10.0.0.3", Some("8.8.8.8")),
        query("PTR", "FORWARDED", "DOMAIN", "10.0.0.1", Some("1.1.1.1")),
    ];
    assert_eq!(
        count_keys(&queries, WindowKey::QueryType),
        vec![("A".to_string(), 3), ("AAAA".to_string(), 1), ("PTR".to_string(), 1)]
    );
    assert_eq!(
        count_keys(&queries, WindowKey::Status),
        vec![("FORWARDED".to_string(), 3), ("CACHE".to_string(), 1), ("GRAVITY".to_string(), 1)]
    );
    assert_eq!(
        count_keys(&queries, WindowKey::ReplyType),
        vec![("IP".to_string(), 3), ("NODATA".to_string(), 1), ("DOMAIN".to_string(), 1)]
    );
    assert_eq!(
        count_keys(&queries, WindowKey::Client),
        vec![("10.0.0.1".to_string(), 3), ("10.0.0.2".to_string(), 1), ("10.0.0.3".to_string(), 1)]
    );
    assert_eq!(
        count_keys(&queries, WindowKey::Upstream),
        vec![
            ("1.1.1.1".to_string(), 2),
            ("None-CACHE".to_string(), 1),
            ("None-GRAVITY".to_string(), 1),
            ("8.8.8.8".to_string(), 1),
        ]
    );
}

#[test]
fn counts_add_up_to_the_number_of_queries() {
    let mut queries = Vec::new();
    for i in 0..100u32 {
        let kind = if i % 3 == 0 { "A" } else { "AAAA" };
        let status = if i % 5 == 0 { "CACHE" } else { "FORWARDED" };
        let upstream = if i % 5 == 0 { None } else { Some("9.9.9.9") };
        queries.push(query(kind, status, "IP", &format!("10.0.0.{}", i % 7), upstream));
    }
    for dimension in [
        WindowKey::QueryType,
        WindowKey::Status,
        WindowKey::ReplyType,
        WindowKey::Client,
        WindowKey::Upstream,
    ] {
        let counters = count_keys(&queries, dimension);
        let sum: u64 = counters.iter().map(|c| c.1).sum();
        assert_eq!(sum, 100);
    }
}

#[test]
fn counting_nothing_gives_nothing() {
    assert!(count_keys(&vec![], WindowKey::Client).is_empty());
}

#[test]
fn counting_agrees_with_a_hash_map() {
    let mut queries = Vec::new();
    let mut expected: std::collections::HashMap<String, u64> = std::collections::HashMap::new();
    let mut order: Vec<String> = Vec::new();
    for i in 0..20_000u64 {
        let client = format!("10.{}.{}.{}", (i * 7919) % 5, (i * 104729) % 11, (i * 31) % 13);
        if !expected.contains_key(&client) {
            order.push(client.clone());
        }
        *expected.entry(client.clone()).or_insert(0) += 1;
        queries.push(query("A", "FORWARDED", "IP", &client, Some("1.1.1.1")));
    }
    let counters = count_keys(&queries, WindowKey::Client);
    assert_eq!(counters.len(), expected.len());
    let keys: Vec<String> = counters.iter().map(|c| c.0.clone()).collect();
    assert_eq!(keys, order);
    for (key, count) in &counters {
        assert_eq!(expected.get(key), Some(count));
    }
    assert_eq!(counters.iter().map(|c| c.1).sum::<u64>(), 20_000);
}
