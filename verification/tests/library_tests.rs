use std::collections::HashMap;

use fluxdns::errors::{http_status_for_code, record_not_found, upstream_not_found, AppError};
use fluxdns::ip::{parse_ip, IpAddr, Ipv4Addr};
use fluxdns::listener_requests::{bind_address_text, failed_start, listener_action, tls_material, ListenerAction};
use fluxdns::log_requests::{csv_field, LogsQueryParams};
use fluxdns::log_writer::{DropCounter, FillEvent, LogBatch, MAX_BATCH};
use fluxdns::message::{DnsQuery, DnsResponse, DnsResponseCode, RecordType};
use fluxdns::models::{QueryLogFilter, ServerListener, UpstreamServerRow};
use fluxdns::plane_state::DataPlaneState;
use fluxdns::resolver::{is_record_type_disabled, DnsResolver, ResolveStep};
use fluxdns::rewrite::{MatchType, RewriteAction, RewriteEngine, RewriteRule};
use fluxdns::rewrite_requests::split_batch_patterns;
use fluxdns::server::{client_ip, dns_param, doh_request_kind, DohRequestKind, get_request_message, BodyCollector, RequestRefusal, MAX_DNS_MESSAGE};
use fluxdns::settings::{check_cleanup_days, normalize_record_types, plan_settings_update, settings_from_stored, SettingsUpdate};
use fluxdns::status::{upstream_statuses, upstreams_summary, StatsCache};
use fluxdns::strategy::{failover_candidates, ConcurrentTally, Failover, FailoverStep, ProxyManager, QueryResult};
use fluxdns::upstream::{servers_from_rows, UpstreamProtocol, UpstreamServer, UpstreamStats};
use fluxdns::cache::{CacheConfig, CacheKey, CacheManager};
use fluxdns::addr::parse_host_port;
use fluxdns::strategy::QueryStrategy;

fn listener(protocol: &str, enabled: bool, cert: Option<&str>) -> ServerListener {
    ServerListener {
        id: 1,
        protocol: protocol.to_string(),
        enabled,
        bind_address: "0.0.0.0".to_string(),
        port: 853,
        tls_cert: cert.map(|c| c.to_string()),
        tls_key: cert.map(|c| c.to_string()),
        created_at: "2024-01-01T00:00:00Z".to_string(),
        updated_at: "2024-01-01T00:00:00Z".to_string(),
    }
}

fn row(id: i64, protocol: &str) -> UpstreamServerRow {
    UpstreamServerRow { id, name: format!("s{}", id), address: "1.1.1.1:53".to_string(), protocol: protocol.to_string(), timeout: 5000, enabled: true }
}

#[test]
fn disabled_listener_is_stopped_and_enabled_one_started() {
    assert_eq!(listener_action(&listener("udp", false, None)), ListenerAction::Stop);
    assert_eq!(listener_action(&listener("udp", true, None)), ListenerAction::Start { warn_missing_tls: false });
    assert_eq!(listener_action(&listener("dot", true, None)), ListenerAction::Start { warn_missing_tls: true });
    assert_eq!(listener_action(&listener("dot", true, Some("pem"))), ListenerAction::Start { warn_missing_tls: false });
}

#[test]
fn failed_start_reverts_the_enabled_flag() {
    let (revert, err) = failed_start("address in use");
    assert_eq!(revert.enabled, Some(false));
    assert!(revert.port.is_none() && revert.bind_address.is_none());
    assert!(matches!(err, AppError::Internal(m) if m == "启动失败: address in use"));
}

#[test]
fn not_found_errors_name_the_id() {
    assert!(matches!(upstream_not_found(7), AppError::NotFound(m) if m == "Upstream server with id 7 not found"));
    assert!(matches!(record_not_found(-3), AppError::NotFound(m) if m == "DNS record with id -3 not found"));
    assert_eq!(upstream_not_found(1).code(), "NOT_FOUND");
    assert_eq!(http_status_for_code("NOT_FOUND"), 404);
    assert_eq!(http_status_for_code("BAD_REQUEST"), 400);
    assert_eq!(http_status_for_code("DNS_ERROR"), 500);
}

#[test]
fn rows_with_unknown_protocol_are_not_loaded() {
    let rows = vec![row(1, "udp"), row(2, "carrier-pigeon"), row(3, "DoH")];
    let servers = servers_from_rows(&rows);
    assert_eq!(servers.len(), 2);
    assert_eq!(servers[0].id, 1);
    assert_eq!(servers[0].protocol, UpstreamProtocol::Udp);
    assert_eq!(servers[1].id, 3);
    assert_eq!(servers[1].protocol, UpstreamProtocol::Doh);
    assert_eq!(servers[1].timeout_millis, 5000);
}

#[test]
fn disabled_type_setting_is_read_from_json() {
    assert!(is_record_type_disabled(Some("[\"aaaa\",\"MX\"]"), "AAAA"));
    assert!(!is_record_type_disabled(Some("[\"MX\"]"), "A"));
    assert!(!is_record_type_disabled(Some("not json"), "A"));
    assert!(!is_record_type_disabled(None, "A"));
    let mut state = DataPlaneState::new();
    state.apply_disabled_setting(Some("[\"AAAA\"]"));
    assert!(state.is_type_disabled(RecordType::AAAA));
    assert!(!state.is_type_disabled(RecordType::A));
}

#[test]
fn stored_settings_and_their_errors() {
    let s = settings_from_stored(Some("[\"A\"]".to_string()), Some("true".to_string()), None, Some("250".to_string())).unwrap();
    assert_eq!(s.disabled_record_types, vec!["A".to_string()]);
    assert!(s.alert_enabled);
    assert_eq!(s.alert_latency_threshold_ms, 250);
    assert!(settings_from_stored(Some("[oops".to_string()), None, None, None).is_err());
    assert!(settings_from_stored(None, None, None, Some("fast".to_string())).is_err());
}

#[test]
fn settings_update_refuses_unknown_types() {
    assert_eq!(normalize_record_types(&vec!["a".to_string(), "mx".to_string()]).unwrap(), vec!["A".to_string(), "MX".to_string()]);
    assert!(matches!(normalize_record_types(&vec![" mx ".to_string()]), Err(AppError::Validation(m)) if m == "Invalid record type:  mx "));
    assert!(matches!(normalize_record_types(&vec!["BOGUS".to_string()]), Err(AppError::Validation(_))));
    let update = SettingsUpdate { disabled_record_types: Some(vec!["NOPE".to_string()]), alert_enabled: None, alert_webhook_url: None, alert_latency_threshold_ms: None };
    assert!(matches!(plan_settings_update(&update), Err(AppError::Validation(_))));
    assert!(check_cleanup_days(-1).is_err());
    assert!(check_cleanup_days(0).is_ok());
    assert!(check_cleanup_days(30).is_ok());
}

#[test]
fn rfc3339_bounds_become_milliseconds() {
    let params = LogsQueryParams {
        query_name: None,
        query_type: None,
        client_ip: None,
        cache_hit: None,
        start_time: Some("1970-01-01T00:00:01.500Z".to_string()),
        end_time: Some("yesterday".to_string()),
        limit: None,
        offset: None,
        format: None,
    };
    let filter = QueryLogFilter::from(params);
    assert_eq!(filter.start_time, Some(1500));
    assert_eq!(filter.end_time, None);
}

#[test]
fn csv_fields_are_quoted_when_needed() {
    assert_eq!(csv_field("plain"), "plain");
    assert_eq!(csv_field("a,b"), "\"a,b\"");
    assert_eq!(csv_field("say \"hi\""), "\"say \"\"hi\"\"\"");
}

#[test]
fn doh_get_parameter_is_decoded() {
    let query = DnsQuery::with_id(1, "example.com", RecordType::A);
    let wire = query.to_bytes().unwrap();
    // base64url without padding of the wire bytes
    let encoded = {
        const ALPHABET: &[u8] = b"ABCDEFGHIJKLMNOPQRSTUVWXYZabcdefghijklmnopqrstuvwxyz0123456789-_";
        let mut out = String::new();
        for chunk in wire.chunks(3) {
            let b = [chunk[0], *chunk.get(1).unwrap_or(&0), *chunk.get(2).unwrap_or(&0)];
            let n = ((b[0] as u32) << 16) | ((b[1] as u32) << 8) | b[2] as u32;
            let chars = chunk.len() + 1;
            for i in 0..chars {
                out.push(ALPHABET[((n >> (18 - 6 * i)) & 63) as usize] as char);
            }
        }
        out
    };
    assert_eq!(dns_param(&format!("ct=x&dns={}", encoded)), Some(encoded.clone()));
    assert_eq!(get_request_message(Some(&format!("dns={}", encoded))).unwrap(), wire);
    assert_eq!(get_request_message(Some("dns=!!!")), Err(RequestRefusal::BadRequest));
    assert_eq!(get_request_message(None), Err(RequestRefusal::BadRequest));
}

#[test]
fn body_collector_caps_the_message_size() {
    let mut body = BodyCollector::new();
    assert!(body.push_chunk(&[1, 2, 3]).is_ok());
    assert_eq!(body.finish().unwrap(), vec![1, 2, 3]);
    let mut big = BodyCollector::new();
    let chunk = vec![0u8; MAX_DNS_MESSAGE];
    assert!(big.push_chunk(&chunk).is_ok());
    assert_eq!(big.push_chunk(&[1]), Err(RequestRefusal::PayloadTooLarge));
    assert_eq!(RequestRefusal::PayloadTooLarge.status_code(), 413);
    assert_eq!(BodyCollector::new().finish(), Err(RequestRefusal::BadRequest));
}

#[test]
fn client_ip_prefers_forwarded_for() {
    assert_eq!(client_ip(Some(" 10.0.0.1 , 10.0.0.2"), Some("10.0.0.9")), "10.0.0.1");
    assert_eq!(client_ip(None, Some("10.0.0.9")), "10.0.0.9");
    assert_eq!(client_ip(None, None), "unknown");
}

#[test]
fn batch_patterns_split_on_newlines_and_commas() {
    let pieces = split_batch_patterns("a.com, b.com\n\nc.com ,");
    assert_eq!(pieces, vec!["a.com".to_string(), "b.com".to_string(), "c.com".to_string()]);
}

#[test]
fn stats_cache_counts_queries() {
    let mut stats = StatsCache::new_on(10, 4, 2, 100);
    stats.record_query_on(true, 100);
    stats.record_query_on(false, 100);
    let s = stats.get_stats_on(100);
    assert_eq!((s.total_queries, s.cache_hits, s.queries_today), (12, 5, 4));
    let s = stats.get_stats_on(101);
    assert_eq!(s.queries_today, 0);
    assert_eq!(s.total_queries, 12);
    let mut live = StatsCache::empty();
    live.record_query(true);
    assert_eq!(live.get_stats().total_queries, 1);
}

#[test]
fn upstream_status_summary_counts_healthy_servers() {
    let mut stats = HashMap::new();
    let mut bad = UpstreamStats::new();
    for _ in 0..10 {
        bad.record_failure();
    }
    stats.insert(2, bad);
    let statuses = upstream_statuses(vec![row(1, "udp"), row(2, "udp")], &stats);
    assert!(statuses[0].healthy);
    assert!(!statuses[1].healthy);
    let summary = upstreams_summary(statuses);
    assert_eq!(summary.total, 2);
    assert_eq!(summary.healthy, 1);
}

#[test]
fn failover_skips_the_failed_server() {
    let servers = vec![
        UpstreamServer::new(1, "a", "1.1.1.1:53", UpstreamProtocol::Udp, 1000),
        UpstreamServer::new(2, "b", "8.8.8.8:53", UpstreamProtocol::Udp, 1000),
        UpstreamServer::new(3, "c", "9.9.9.9:53", UpstreamProtocol::Udp, 1000),
    ];
    let rest = failover_candidates(&servers, 2);
    assert_eq!(rest.iter().map(|s| s.id).collect::<Vec<_>>(), vec![1, 3]);
}

#[test]
fn random_pick_stays_in_range() {
    let proxy = ProxyManager::new();
    for _ in 0..50 {
        assert!(proxy.random_pick(3) < 3);
    }
}

#[test]
fn concurrent_tally_takes_first_accepted_reply() {
    let mut tally = ConcurrentTally::new();
    assert!(!tally.on_result(&Err("timeout".to_string())));
    assert!(!tally.on_result(&Ok(("a".to_string(), DnsResponseCode::ServFail))));
    assert!(tally.on_result(&Ok(("b".to_string(), DnsResponseCode::NxDomain))));
}

#[test]
fn circular_rewrites_end_in_an_error() {
    let mut engine = RewriteEngine::new();
    engine.add_rule(RewriteRule::new(1, "a.test".to_string(), MatchType::Exact, RewriteAction::MapToDomain("b.test".to_string()), 1));
    engine.add_rule(RewriteRule::new(2, "b.test".to_string(), MatchType::Exact, RewriteAction::MapToDomain("a.test".to_string()), 1));
    let mut resolver = DnsResolver::new(engine, CacheManager::with_config(CacheConfig { default_ttl: 60, max_entries: 10 }));
    let (_, step) = resolver.begin(&DnsQuery::with_id(1, "a.test", RecordType::A), false, 0);
    assert!(matches!(step, ResolveStep::Done(Err(_))));
}

#[test]
fn forwarded_answer_is_cached_for_the_next_lookup() {
    let mut resolver = DnsResolver::new(RewriteEngine::new(), CacheManager::with_config(CacheConfig { default_ttl: 60, max_entries: 10 }));
    let query = DnsQuery::with_id(11, "fresh.test", RecordType::A);
    let (res, step) = resolver.begin(&query, false, 1_000);
    assert!(matches!(step, ResolveStep::Forward(_)));
    let mut upstream = DnsResponse::new(999);
    upstream.add_answer(fluxdns::message::DnsRecordData::a("fresh.test", Ipv4Addr::new(1, 2, 3, 4), 120));
    let done = resolver.on_upstream_answer(&res, Ok((upstream, "up".to_string())), 1_000);
    match done {
        ResolveStep::Done(Ok(r)) => {
            assert_eq!(r.response.id, 11);
            assert_eq!(r.metadata.upstream_used, Some("up".to_string()));
        }
        _ => panic!("expected an answer"),
    }
    let (_, again) = resolver.begin(&DnsQuery::with_id(12, "FRESH.test", RecordType::A), false, 2_000);
    match again {
        ResolveStep::Done(Ok(r)) => {
            assert_eq!(r.response.id, 12);
            assert!(r.metadata.cache_hit);
            assert_eq!(r.response.answers[0].value, "1.2.3.4");
        }
        _ => panic!("expected a cache hit"),
    }
    let (_, expired) = resolver.begin(&DnsQuery::with_id(13, "fresh.test", RecordType::A), false, 1_000 + 120_000);
    assert!(matches!(expired, ResolveStep::Forward(_)));
}

#[test]
fn map_to_ip_answers_only_matching_family() {
    let mut engine = RewriteEngine::new();
    engine.add_rule(RewriteRule::new(5, "*.lan".to_string(), MatchType::Wildcard, RewriteAction::MapToIp(IpAddr::V4(Ipv4Addr::new(10, 0, 0, 5))), 1));
    let mut resolver = DnsResolver::new(engine, CacheManager::with_config(CacheConfig { default_ttl: 60, max_entries: 10 }));
    let (_, step) = resolver.begin(&DnsQuery::with_id(2, "nas.lan", RecordType::A), false, 0);
    match step {
        ResolveStep::Done(Ok(r)) => assert_eq!(r.response.answers[0].value, "10.0.0.5"),
        _ => panic!("expected an answer"),
    }
    let (_, step) = resolver.begin(&DnsQuery::with_id(3, "nas.lan", RecordType::AAAA), false, 0);
    match step {
        ResolveStep::Done(Ok(r)) => assert!(r.response.answers.is_empty()),
        _ => panic!("expected an empty answer"),
    }
}

#[test]
fn tally_judges_query_results_by_response_code() {
    let mut tally = ConcurrentTally::new();
    let mut refused = DnsResponse::new(1);
    refused.response_code = DnsResponseCode::Refused;
    let bad = Ok(QueryResult { response: refused, response_time_ms: 3, server_id: 1, server_name: "one".to_string() });
    assert!(!tally.on_query_result(&bad));
    assert_eq!(tally.last_error, Some("one returned REFUSED".to_string()));
    let good = Ok(QueryResult { response: DnsResponse::new(1), response_time_ms: 4, server_id: 2, server_name: "two".to_string() });
    assert!(tally.on_query_result(&good));
    assert_eq!(tally.received, 2);
    assert!(!tally.on_query_result(&Err("boom".to_string())));
    assert_eq!(tally.last_error, Some("boom".to_string()));
}

fn sample_log(name: &str) -> fluxdns::models::CreateQueryLog {
    fluxdns::models::CreateQueryLog {
        client_ip: "127.0.0.1".to_string(),
        query_name: name.to_string(),
        query_type: "A".to_string(),
        response_code: Some("NOERROR".to_string()),
        response_time: Some(1),
        cache_hit: false,
        upstream_used: None,
    }
}

#[test]
fn full_queue_drops_are_counted_and_reported_sparingly() {
    let mut counter = DropCounter::new();
    assert!(counter.note_drop());
    assert!(!counter.note_drop());
    assert_eq!(counter.dropped_count(), 2);
    for _ in 0..998 {
        counter.note_drop();
    }
    assert!(counter.note_drop());
    assert_eq!(counter.dropped_count(), 1001);
}

#[test]
fn batches_end_when_full_closed_or_lingered() {
    let mut batch = LogBatch::start(sample_log("a.example.com"));
    assert!(batch.wants_more());
    assert!(!batch.on_event(FillEvent::LingerOver));
    assert_eq!(batch.take().len(), 1);

    let mut batch = LogBatch::start(sample_log("a.example.com"));
    assert!(batch.on_event(FillEvent::Received(sample_log("b.example.com"))));
    assert!(!batch.on_event(FillEvent::Closed));
    let rows = batch.take();
    assert_eq!(rows.len(), 2);
    assert_eq!(rows[1].query_name, "b.example.com");

    let mut batch = LogBatch::start(sample_log("x"));
    let mut keep = true;
    let mut n = 1;
    while keep {
        keep = batch.on_event(FillEvent::Received(sample_log("y")));
        n += 1;
    }
    assert_eq!(n, MAX_BATCH);
    assert!(!batch.wants_more());
}

#[test]
fn tls_listener_needs_certificate_and_key() {
    let err = tls_material("dot", &listener("dot", true, None)).unwrap_err();
    assert_eq!(err, "DOT listener requires both a TLS certificate and a private key");
    let ((cert, key), (cert_file, key_file)) = tls_material("doh", &listener("doh", true, Some("PEM"))).unwrap();
    assert_eq!((cert.as_str(), key.as_str()), ("PEM", "PEM"));
    assert_eq!((cert_file.as_str(), key_file.as_str()), ("fluxdns_doh_cert.pem", "fluxdns_doh_key.pem"));
}

#[test]
fn readme_doh_example_is_a_query_for_www_example_com() {
    let message = get_request_message(Some("dns=q80BAAABAAAAAAAAA3d3dwdleGFtcGxlA2NvbQAAAQAB")).unwrap();
    let query = DnsQuery::from_bytes(&message).unwrap();
    assert_eq!(query.id, 0xabcd);
    assert_eq!(query.name, "www.example.com");
    assert_eq!(query.record_type, RecordType::A);
    assert!(query.recursion_desired);
}

#[test]
fn doh_methods_are_get_and_post_only() {
    assert_eq!(doh_request_kind("GET"), Ok(DohRequestKind::Get));
    assert_eq!(doh_request_kind("POST"), Ok(DohRequestKind::Post));
    assert_eq!(doh_request_kind("PUT"), Err(RequestRefusal::MethodNotAllowed));
    assert_eq!(RequestRefusal::MethodNotAllowed.status_code(), 405);
}

#[test]
fn failover_asks_the_other_servers_in_order() {
    let servers = vec![
        UpstreamServer::new(1, "a", "1.1.1.1:53", UpstreamProtocol::Udp, 1000),
        UpstreamServer::new(2, "b", "8.8.8.8:53", UpstreamProtocol::Udp, 1000),
        UpstreamServer::new(3, "c", "9.9.9.9:53", UpstreamProtocol::Udp, 1000),
    ];
    let (mut failover, step) = Failover::start(&servers, 1, "timeout");
    assert!(matches!(step, FailoverStep::Ask(ref s) if s.id == 2));
    let step = failover.on_result(Err("refused".to_string()));
    assert!(matches!(step, FailoverStep::Ask(ref s) if s.id == 3));
    let step = failover.on_result(Err("refused".to_string()));
    assert!(matches!(step, FailoverStep::Exhausted(ref m) if m == "Query failed and failover exhausted: timeout"));

    let (mut failover, _) = Failover::start(&servers, 2, "timeout");
    let answer = QueryResult { response: DnsResponse::new(5), response_time_ms: 9, server_id: 1, server_name: "a".to_string() };
    assert!(matches!(failover.on_result(Ok(answer)), FailoverStep::Answered(ref r) if r.server_id == 1));

    let (_, step) = Failover::start(&servers[..1].to_vec(), 1, "down");
    assert!(matches!(step, FailoverStep::Exhausted(ref m) if m == "Query failed and failover exhausted: down"));
}

#[test]
fn listener_binds_address_and_port() {
    assert_eq!(bind_address_text(&listener("dot", true, None)), "0.0.0.0:853");
}

#[test]
fn cache_keys_lowercase_every_name() {
    assert_eq!(CacheKey::new("Éa.com", RecordType::A).name, "éa.com");
    assert_eq!(CacheKey::new("ÉA.COM", RecordType::A).name, "éa.com");
    assert_eq!(CacheKey::new("plain.example", RecordType::AAAA).name, "plain.example");
}

#[test]
fn host_port_errors_name_the_problem() {
    assert_eq!(parse_host_port("[::1]:99999", 53).unwrap_err(), "Invalid port '99999' in address '[::1]:99999'");
    assert_eq!(parse_host_port("1.1.1.1:http", 53).unwrap_err(), "Invalid port 'http' in address '1.1.1.1:http'");
    assert_eq!(parse_host_port("[::1:853", 53).unwrap_err(), "Unterminated IPv6 bracket in address '[::1:853'");
    assert_eq!(parse_host_port("[::1]x", 53).unwrap_err(), "Unexpected trailing 'x' in address '[::1]x'");
}

#[test]
fn equal_priorities_are_checked_in_insertion_order() {
    let mut engine = RewriteEngine::new();
    let ip = |n: u8| RewriteAction::MapToIp(IpAddr::V4(Ipv4Addr::new(10, 0, 0, n)));
    engine.add_rule(RewriteRule::new(1, "*.example.com".to_string(), MatchType::Wildcard, ip(1), 5));
    engine.add_rule(RewriteRule::new(2, "low.example.com".to_string(), MatchType::Exact, ip(2), 1));
    engine.add_rule(RewriteRule::new(3, "a.example.com".to_string(), MatchType::Exact, ip(3), 5));
    engine.add_rule(RewriteRule::new(4, "*.example.com".to_string(), MatchType::Wildcard, ip(4), 5));
    assert_eq!(engine.check("a.example.com").unwrap().rule_id, 1);
    assert_eq!(engine.check("low.example.com").unwrap().rule_id, 1);
    engine.add_rule(RewriteRule::new(5, "a.example.com".to_string(), MatchType::Exact, ip(5), 6));
    assert_eq!(engine.check("a.example.com").unwrap().rule_id, 5);
    assert!(engine.check("other.test").is_none());
}

#[test]
fn strategies_read_back_from_their_names() {
    for s in [QueryStrategy::Concurrent, QueryStrategy::Fastest, QueryStrategy::RoundRobin, QueryStrategy::Random] {
        assert_eq!(QueryStrategy::from_str(s.as_str()), Some(s));
        assert_eq!(QueryStrategy::from_str(&s.as_str().to_uppercase()), Some(s));
    }
}

#[test]
fn ipv4_text_is_dotted_decimal_without_leading_zeros() {
    assert_eq!(parse_ip("255.0.10.1"), Some(IpAddr::V4(Ipv4Addr::new(255, 0, 10, 1))));
    assert_eq!(parse_ip("0.0.0.0"), Some(IpAddr::V4(Ipv4Addr::new(0, 0, 0, 0))));
    assert_eq!(parse_ip("01.2.3.4"), None);
    assert_eq!(parse_ip("256.1.1.1"), None);
    assert_eq!(parse_ip("1.2.3"), None);
    assert_eq!(parse_ip("1.2.3.4.5"), None);
    assert_eq!(parse_ip(" 1.2.3.4"), None);
}

#[test]
fn eviction_takes_the_entry_read_least_recently() {
    let mut cache = CacheManager::new();
    let first = CacheKey::new("first.example", RecordType::A);
    let second = CacheKey::new("second.example", RecordType::A);
    let third = CacheKey::new("third.example", RecordType::A);
    cache.set_with_ttl_at(first.clone(), DnsResponse::new(1), 60_000, 2, 10);
    cache.set_with_ttl_at(second.clone(), DnsResponse::new(2), 60_000, 2, 11);
    assert_eq!(cache.get_at(&first, 12).unwrap().id, 1);
    cache.set_with_ttl_at(first.clone(), DnsResponse::new(3), 60_000, 2, 13);
    assert_eq!(cache.stats().entries, 2);
    cache.set_with_ttl_at(third.clone(), DnsResponse::new(4), 60_000, 2, 15);
    assert_eq!(cache.stats().entries, 2);
    assert!(cache.get_at(&second, 16).is_none());
    assert_eq!(cache.get_at(&first, 16).unwrap().id, 3);
    assert_eq!(cache.get_at(&third, 16).unwrap().id, 4);
}
