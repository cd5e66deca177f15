use fluxdns::addr::{doh3_parse_url, doh_url, parse_host_port};
use fluxdns::cache::{CacheConfig, CacheKey, CacheManager, MAX_CACHE_TTL_SECS, MIN_CACHE_TTL_SECS};
use fluxdns::config::{AppConfig, ConfigManager, PartialConfig};
use fluxdns::dns_requests::DnsQueryRequest;
use fluxdns::ip::{IpAddr, Ipv4Addr, Ipv6Addr};
use fluxdns::log_requests::{LogsListResponse, LogsQueryParams};
use fluxdns::message::{DnsQuery, DnsRecordData, DnsResponse, DnsResponseCode, RecordType};
use fluxdns::models::{PaginatedResult, QueryLog, QueryLogFilter};
use fluxdns::plane_state::DataPlaneState;
use fluxdns::resolver::{DnsResolver, QueryMetadata, ResolveStep};
use fluxdns::rewrite::{MatchType, RewriteAction, RewriteEngine, RewriteRule};
use fluxdns::rewrite_requests::{
    validate_action, validate_match_type, validate_pattern, CreateRewriteRuleRequest,
};
use fluxdns::server::{TlsConfig, MAX_DNS_MESSAGE};
use fluxdns::status::{HealthCheckResponse, QueryStatusInfo};
use fluxdns::strategy::{ProxyManager, QueryPlan, QueryStrategy};
use fluxdns::upstream::{UpstreamManager, UpstreamProtocol, UpstreamServer, UpstreamStats};

fn create_test_response(id: u16) -> DnsResponse {
    let mut response = DnsResponse::new(id);
    response.add_answer(DnsRecordData::a("example.com", Ipv4Addr::new(93, 184, 216, 34), 300));
    response
}

fn create_test_resolver() -> DnsResolver {
    let rewrite_engine = RewriteEngine::new();
    let cache = CacheManager::with_config(CacheConfig { default_ttl: 60, max_entries: 1000 });
    DnsResolver::new(rewrite_engine, cache)
}

#[test]
fn test_dns_query_request_validation_valid() {
    let request = DnsQueryRequest {
        domain: "example.com".to_string(),
        record_type: "A".to_string(),
    };
    assert!(request.validate().is_ok());

    let request = DnsQueryRequest {
        domain: "example.com".to_string(),
        record_type: "aaaa".to_string(),
    };
    assert!(request.validate().is_ok());
}

#[test]
fn test_dns_query_request_validation_invalid_domain() {
    let request = DnsQueryRequest {
        domain: "".to_string(),
        record_type: "A".to_string(),
    };
    assert!(request.validate().is_err());

    let request = DnsQueryRequest {
        domain: "a".repeat(256),
        record_type: "A".to_string(),
    };
    assert!(request.validate().is_err());
}

#[test]
fn test_dns_query_request_validation_invalid_record_type() {
    let request = DnsQueryRequest {
        domain: "example.com".to_string(),
        record_type: "INVALID".to_string(),
    };
    assert!(request.validate().is_err());
}

#[test]
fn test_dns_query_request_get_record_type() {
    let request = DnsQueryRequest {
        domain: "example.com".to_string(),
        record_type: "A".to_string(),
    };
    assert_eq!(request.get_record_type(), Some(RecordType::A));

    let request = DnsQueryRequest {
        domain: "example.com".to_string(),
        record_type: "aaaa".to_string(),
    };
    assert_eq!(request.get_record_type(), Some(RecordType::AAAA));

    let request = DnsQueryRequest {
        domain: "example.com".to_string(),
        record_type: "INVALID".to_string(),
    };
    assert_eq!(request.get_record_type(), None);
}

#[test]
fn test_logs_query_params_to_filter() {
    let params = LogsQueryParams {
        query_name: Some("example.com".to_string()),
        query_type: Some("A".to_string()),
        client_ip: None,
        cache_hit: Some(true),
        start_time: None,
        end_time: None,
        limit: Some(50),
        offset: Some(0),
        format: None,
    };
    let filter = QueryLogFilter::from(params);
    assert_eq!(filter.query_name, Some("example.com".to_string()));
    assert_eq!(filter.query_type, Some("A".to_string()));
    assert_eq!(filter.cache_hit, Some(true));
    assert_eq!(filter.limit, Some(50));
    assert_eq!(filter.offset, Some(0));
}

#[test]
fn test_logs_list_response_has_more() {
    let dummy_log = QueryLog {
        id: 1,
        query_name: "example.com".to_string(),
        query_type: "A".to_string(),
        client_ip: "127.0.0.1".to_string(),
        response_code: Some("NOERROR".to_string()),
        response_time: Some(10),
        cache_hit: false,
        upstream_used: None,
        created_at: "2024-01-01T00:00:00+00:00".to_string(),
    };

    let result = PaginatedResult {
        items: vec![dummy_log.clone(); 50],
        total: 100,
        limit: 50,
        offset: 0,
    };
    let response = LogsListResponse::from(result);
    assert!(response.has_more);

    let result = PaginatedResult {
        items: vec![dummy_log; 50],
        total: 50,
        limit: 50,
        offset: 0,
    };
    let response = LogsListResponse::from(result);
    assert!(!response.has_more);
}

#[test]
fn test_validate_match_type_valid() {
    assert!(validate_match_type("exact").is_ok());
    assert!(validate_match_type("EXACT").is_ok());
    assert!(validate_match_type("wildcard").is_ok());
    assert!(validate_match_type("regex").is_ok());
}

#[test]
fn test_validate_match_type_invalid() {
    assert!(validate_match_type("invalid").is_err());
    assert!(validate_match_type("").is_err());
}

#[test]
fn test_validate_pattern_exact() {
    assert!(validate_pattern("example.com", "exact").is_ok());
    assert!(validate_pattern("sub.example.com", "exact").is_ok());
    assert!(validate_pattern("", "exact").is_err());
}

#[test]
fn test_validate_pattern_wildcard() {
    assert!(validate_pattern("*.example.com", "wildcard").is_ok());
    assert!(validate_pattern("*", "wildcard").is_ok());
    assert!(validate_pattern("example.com", "wildcard").is_err());
}

#[test]
fn test_validate_pattern_regex() {
    assert!(validate_pattern("^ads?\\.", "regex").is_ok());
    assert!(validate_pattern("[invalid", "regex").is_err());
}

#[test]
fn test_validate_action_map_ip() {
    assert!(validate_action("map_ip", &Some("192.168.1.1".to_string())).is_ok());
    assert!(validate_action("map_ip", &Some("::1".to_string())).is_ok());
    assert!(validate_action("map_ip", &None).is_err());
    assert!(validate_action("map_ip", &Some("invalid".to_string())).is_err());
}

#[test]
fn test_validate_action_map_domain() {
    assert!(validate_action("map_domain", &Some("example.com".to_string())).is_ok());
    assert!(validate_action("map_domain", &None).is_err());
    assert!(validate_action("map_domain", &Some("".to_string())).is_err());
}

#[test]
fn test_validate_action_block() {
    assert!(validate_action("block", &None).is_ok());
    assert!(validate_action("block", &Some("ignored".to_string())).is_ok());
}

#[test]
fn test_create_request_validation() {
    let valid_request = CreateRewriteRuleRequest {
        pattern: "*.ads.com".to_string(),
        match_type: "wildcard".to_string(),
        action_type: "block".to_string(),
        action_value: None,
        priority: 10,
        enabled: true,
        description: Some("Block ads".to_string()),
    };
    assert!(valid_request.validate().is_ok());

    let invalid_request = CreateRewriteRuleRequest {
        pattern: "".to_string(),
        match_type: "invalid".to_string(),
        action_type: "map_ip".to_string(),
        action_value: None,
        priority: 0,
        enabled: true,
        description: None,
    };
    let result = invalid_request.validate();
    assert!(result.is_err());
}

#[test]
fn test_create_request_into_create_rewrite_rule() {
    let request = CreateRewriteRuleRequest {
        pattern: "*.example.com".to_string(),
        match_type: "WILDCARD".to_string(),
        action_type: "BLOCK".to_string(),
        action_value: None,
        priority: 10,
        enabled: true,
        description: None,
    };
    let create_rule = request.into_create_rewrite_rule();
    assert_eq!(create_rule.match_type, "wildcard");
    assert_eq!(create_rule.action_type, "block");
}

#[test]
fn test_query_status_info() {
    let info = QueryStatusInfo {
        total_queries: 1000,
        cache_hits: 750,
        queries_today: 100,
        dropped_log_entries: 0,
    };
    assert_eq!(info.total_queries, 1000);
}

#[test]
fn test_health_check_response() {
    let response = HealthCheckResponse {
        status: "healthy".to_string(),
        database: true,
        upstreams: true,
    };
    assert_eq!(response.status, "healthy");
    assert!(response.database);
}

#[test]
fn test_default_config() {
    let config = AppConfig::default();
    assert_eq!(config.web_port, 8080);
    assert_eq!(config.database_url, "sqlite:fluxdns.db?mode=rwc");
    assert_eq!(config.admin_username, "admin");
    assert_eq!(config.log_level, "info");
}

#[test]
fn test_merge_config() {
    let mut config = AppConfig::default();
    let partial = PartialConfig {
        web_port: Some(9090),
        database_url: Some("sqlite:merged.db".to_string()),
        ..Default::default()
    };

    ConfigManager::merge_config(&mut config, partial);

    assert_eq!(config.web_port, 9090);
    assert_eq!(config.database_url, "sqlite:merged.db");
    assert_eq!(config.log_level, "info");
}

#[test]
fn test_env_priority_over_file() {
    let file_config = PartialConfig {
        web_port: Some(9090),
        database_url: Some("sqlite:file.db".to_string()),
        ..Default::default()
    };

    let env_config = PartialConfig {
        web_port: Some(8888),
        ..Default::default()
    };

    let manager = ConfigManager::from_configs(Some(file_config), Some(env_config));
    let config = manager.get();

    assert_eq!(config.web_port, 8888);
    assert_eq!(config.database_url, "sqlite:file.db");
}

#[test]
fn test_missing_config_file_uses_defaults() {
    let manager = ConfigManager::load(None, PartialConfig::default()).unwrap();
    let config = manager.get();

    assert_eq!(config.web_port, 8080);
    assert_eq!(config.database_url, "sqlite:fluxdns.db?mode=rwc");
}

#[test]
fn test_cache_set_and_get() {
    let mut cache = CacheManager::new();
    let key = CacheKey::new("example.com", RecordType::A);
    let response = create_test_response(12345);

    cache.set(key.clone(), response.clone());

    let cached = cache.get(&key);
    assert!(cached.is_some());
    assert_eq!(cached.unwrap().id, 12345);
}

#[test]
fn test_cache_miss() {
    let mut cache = CacheManager::new();
    let key = CacheKey::new("nonexistent.com", RecordType::A);

    let cached = cache.get(&key);
    assert!(cached.is_none());
}

#[test]
fn test_cache_expiration() {
    let mut cache = CacheManager::new();
    let key = CacheKey::new("example.com", RecordType::A);

    cache.set_with_ttl(key.clone(), create_test_response(12345), 1, 100);

    let start = std::time::Instant::now();
    while start.elapsed() < std::time::Duration::from_millis(10) {}
    assert!(cache.get(&key).is_none());
}

#[test]
fn test_effective_ttl_uses_smallest_answer_ttl() {
    let mut response = DnsResponse::new(1);
    response.add_answer(DnsRecordData::a("example.com", Ipv4Addr::new(93, 184, 216, 34), 600));
    response.add_answer(DnsRecordData::a("example.com", Ipv4Addr::new(93, 184, 216, 35), 120));

    assert_eq!(CacheManager::effective_ttl(&response, 60), 120);
}

#[test]
fn test_effective_ttl_clamps_to_bounds() {
    let mut tiny = DnsResponse::new(1);
    tiny.add_answer(DnsRecordData::a("example.com", Ipv4Addr::new(93, 184, 216, 34), 1));
    assert_eq!(CacheManager::effective_ttl(&tiny, 60), MIN_CACHE_TTL_SECS);

    let mut huge = DnsResponse::new(1);
    huge.add_answer(DnsRecordData::a("example.com", Ipv4Addr::new(93, 184, 216, 34), 86_400));
    assert_eq!(CacheManager::effective_ttl(&huge, 60), MAX_CACHE_TTL_SECS);
}

#[test]
fn test_effective_ttl_falls_back_without_answers() {
    let empty = DnsResponse::new(1);
    assert_eq!(CacheManager::effective_ttl(&empty, 45), 45);
}

#[test]
fn test_cache_key_normalizes_ascii_case() {
    let lower = CacheKey::new("example.com", RecordType::A);
    let mixed = CacheKey::new("ExAmPlE.CoM", RecordType::A);

    assert_eq!(lower, mixed);
    assert_eq!(&*mixed.name, "example.com");
}

#[test]
fn test_full_cache_replaces_existing_key_without_evicting_another() {
    let mut cache = CacheManager::new();
    let first = CacheKey::new("first.example", RecordType::A);
    let second = CacheKey::new("second.example", RecordType::A);

    cache.set_with_ttl(first.clone(), create_test_response(1), 60_000, 2);
    cache.set_with_ttl(second.clone(), create_test_response(2), 60_000, 2);
    cache.set_with_ttl(first.clone(), create_test_response(3), 60_000, 2);

    assert_eq!(cache.stats().entries, 2);
    assert_eq!(cache.get(&first).unwrap().id, 3);
    assert!(cache.get(&second).is_some());
}

#[test]
fn test_inserting_past_capacity_evicts_one_entry() {
    let mut cache = CacheManager::new();
    let first = CacheKey::new("first.example", RecordType::A);
    let second = CacheKey::new("second.example", RecordType::A);
    let third = CacheKey::new("third.example", RecordType::A);

    for (key, id) in [(first, 1), (second, 2), (third.clone(), 3)] {
        cache.set_with_ttl(key, create_test_response(id), 60_000, 2);
    }

    assert_eq!(cache.stats().entries, 2);
    assert!(cache.get(&third).is_some());
}

#[test]
fn test_zero_capacity_does_not_store_entries() {
    let mut cache = CacheManager::new();
    let key = CacheKey::new("example.com", RecordType::A);

    cache.set_with_ttl(key.clone(), create_test_response(1), 60_000, 0);

    assert!(cache.get(&key).is_none());
}

#[test]
fn test_cache_clear() {
    let mut cache = CacheManager::new();
    let key1 = CacheKey::new("example1.com", RecordType::A);
    let key2 = CacheKey::new("example2.com", RecordType::A);

    cache.set(key1.clone(), create_test_response(1));
    cache.set(key2.clone(), create_test_response(2));

    cache.clear();

    assert!(cache.get(&key1).is_none());
    assert!(cache.get(&key2).is_none());
}

#[test]
fn test_cache_stats() {
    let mut cache = CacheManager::new();
    let key = CacheKey::new("example.com", RecordType::A);
    let response = create_test_response(12345);

    cache.get(&key);
    cache.set(key.clone(), response);
    cache.get(&key);
    cache.get(&key);

    let stats = cache.stats();
    assert_eq!(stats.hits, 2);
    assert_eq!(stats.misses, 1);
    assert_eq!(stats.entries, 1);
    let hit_rate = stats.hits as f64 / (stats.hits + stats.misses) as f64;
    assert!((hit_rate - 0.666).abs() < 0.01);
}

#[test]
fn test_record_type_from_str() {
    assert_eq!("A".parse::<RecordType>().unwrap(), RecordType::A);
    assert_eq!("aaaa".parse::<RecordType>().unwrap(), RecordType::AAAA);
    assert_eq!("CNAME".parse::<RecordType>().unwrap(), RecordType::CNAME);
    assert_eq!("mx".parse::<RecordType>().unwrap(), RecordType::MX);
    assert!("INVALID".parse::<RecordType>().is_err());
}

#[test]
fn test_record_type_display() {
    assert_eq!(RecordType::A.to_string(), "A");
    assert_eq!(RecordType::AAAA.to_string(), "AAAA");
    assert_eq!(RecordType::CNAME.to_string(), "CNAME");
}

#[test]
fn test_dns_query_creation() {
    let query = DnsQuery::new("example.com", RecordType::A);
    assert_eq!(query.name, "example.com");
    assert_eq!(query.record_type, RecordType::A);
    assert!(query.recursion_desired);
}

#[test]
fn test_dns_response_creation() {
    let mut response = DnsResponse::new(12345);
    response.add_answer(DnsRecordData::a("example.com", Ipv4Addr::new(93, 184, 216, 34), 300));

    assert_eq!(response.id, 12345);
    assert_eq!(response.response_code, DnsResponseCode::NoError);
    assert_eq!(response.answers.len(), 1);
}

#[test]
fn test_dns_response_nxdomain() {
    let response = DnsResponse::nxdomain(12345);
    assert_eq!(response.response_code, DnsResponseCode::NxDomain);
    assert!(response.answers.is_empty());
}

#[test]
fn test_dns_record_data_a() {
    let record = DnsRecordData::a("example.com", Ipv4Addr::new(93, 184, 216, 34), 300);
    assert_eq!(record.name, "example.com");
    assert_eq!(record.record_type, RecordType::A);
    assert_eq!(record.value, "93.184.216.34");
    assert_eq!(record.ttl, 300);
    assert!(record.priority.is_none());
}

#[test]
fn test_dns_record_data_mx() {
    let record = DnsRecordData::mx("example.com", "mail.example.com", 10, 3600);
    assert_eq!(record.record_type, RecordType::MX);
    assert_eq!(record.value, "mail.example.com");
    assert_eq!(record.priority, Some(10));
}

#[test]
fn test_response_code_display() {
    assert_eq!(DnsResponseCode::NoError.to_string(), "NOERROR");
    assert_eq!(DnsResponseCode::NxDomain.to_string(), "NXDOMAIN");
    assert_eq!(DnsResponseCode::ServFail.to_string(), "SERVFAIL");
}

#[test]
fn test_masks_start_empty() {
    let state = DataPlaneState::new();
    for &record_type in RecordType::all() {
        assert!(!state.is_type_disabled(record_type));
        assert!(!state.may_have_local_record(record_type));
    }
}

#[test]
fn test_each_record_type_has_a_distinct_bit() {
    let mut seen = 0u16;
    for &record_type in RecordType::all() {
        let bit = record_type.mask_bit();
        assert_eq!(seen & bit, 0, "duplicate bit for {:?}", record_type);
        seen |= bit;
    }
}

#[test]
fn test_mask_from_names_is_case_insensitive() {
    let mask = DataPlaneState::mask_from_names(&["aaaa".to_string(), "TXT".to_string()]).unwrap();

    assert_eq!(mask, RecordType::AAAA.mask_bit() | RecordType::TXT.mask_bit());
}

#[test]
fn test_mask_from_names_rejects_unknown_type() {
    let err = DataPlaneState::mask_from_names(&["NOTATYPE".to_string()]).unwrap_err();
    assert!(err.to_string().contains("Unknown record type"));
}

#[test]
fn test_disabled_lookup_only_matches_stored_types() {
    let mut state = DataPlaneState::new();
    state.set_disabled_types(DataPlaneState::mask_from_names(&["AAAA".to_string()]).unwrap());

    assert!(state.is_type_disabled(RecordType::AAAA));
    assert!(!state.is_type_disabled(RecordType::A));
}

#[test]
fn test_doh_url_generation() {
    let server = UpstreamServer::new(1, "Test", "dns.google", UpstreamProtocol::Doh, 5000);
    assert_eq!(doh_url(&server.address), "https://dns.google/dns-query");

    let server2 = UpstreamServer::new(
        2,
        "Test2",
        "https://cloudflare-dns.com/dns-query",
        UpstreamProtocol::Doh,
        5000,
    );
    assert_eq!(doh_url(&server2.address), "https://cloudflare-dns.com/dns-query");
}

#[test]
fn test_parse_host_port_accepts_supported_forms() {
    assert_eq!(parse_host_port("1.1.1.1:53", 53).unwrap(), ("1.1.1.1".to_string(), 53));
    assert_eq!(parse_host_port("1.1.1.1", 53).unwrap(), ("1.1.1.1".to_string(), 53));
    assert_eq!(parse_host_port("dns.google:853", 53).unwrap(), ("dns.google".to_string(), 853));
    assert_eq!(
        parse_host_port("[2001:4860:4860::8888]:853", 53).unwrap(),
        ("2001:4860:4860::8888".to_string(), 853)
    );
    assert_eq!(parse_host_port("[::1]", 853).unwrap(), ("::1".to_string(), 853));
    assert_eq!(
        parse_host_port("2001:4860:4860::8888", 853).unwrap(),
        ("2001:4860:4860::8888".to_string(), 853)
    );
}

#[test]
fn test_parse_host_port_rejects_bad_port_instead_of_defaulting() {
    for address in ["[::1]:99999", "dns.google:99999", "1.1.1.1:http"] {
        let err = parse_host_port(address, 53).expect_err(&format!("{} should be rejected", address));
        assert!(err.contains("Invalid port"), "unexpected error for {}: {}", address, err);
    }
}

#[test]
fn test_parse_host_port_rejects_unterminated_bracket() {
    let err = parse_host_port("[::1:853", 53).unwrap_err();
    assert!(err.contains("Unterminated IPv6 bracket"));
}

#[test]
fn test_doh3_parse_url_forms() {
    let parse = |address: &str| {
        let server = UpstreamServer::new(1, "Test", address, UpstreamProtocol::Doh3, 5000);
        doh3_parse_url(&server.address).unwrap()
    };

    let (sni, host, port, path) = parse("https://dns.google/dns-query");
    assert_eq!(
        (sni.as_str(), host.as_str(), port, path.as_str()),
        ("dns.google", "dns.google", 443, "/dns-query")
    );

    let (_, host, port, path) = parse("https://dns.google");
    assert_eq!((host.as_str(), port, path.as_str()), ("dns.google", 443, "/dns-query"));

    let (_, host, port, path) = parse("https://[2001:4860:4860::8888]:8443/query");
    assert_eq!(
        (host.as_str(), port, path.as_str()),
        ("2001:4860:4860::8888", 8443, "/query")
    );

    let (_, host, port, path) = parse("dns.google:8443");
    assert_eq!((host.as_str(), port, path.as_str()), ("dns.google", 8443, "/dns-query"));
}

#[test]
fn test_doq_default_port_is_applied() {
    let server = UpstreamServer::new(1, "Test", "dns.adguard.com", UpstreamProtocol::Doq, 5000);
    let (_, port) = parse_host_port(&server.address, UpstreamProtocol::Doq.default_port()).unwrap();
    assert_eq!(port, 853);
}

#[test]
fn test_strategy_from_str() {
    assert_eq!(QueryStrategy::from_str("concurrent"), Some(QueryStrategy::Concurrent));
    assert_eq!(QueryStrategy::from_str("CONCURRENT"), Some(QueryStrategy::Concurrent));
    assert_eq!(QueryStrategy::from_str("fastest"), Some(QueryStrategy::Fastest));
    assert_eq!(QueryStrategy::from_str("fastest_first"), Some(QueryStrategy::Fastest));
    assert_eq!(QueryStrategy::from_str("round_robin"), Some(QueryStrategy::RoundRobin));
    assert_eq!(QueryStrategy::from_str("roundrobin"), Some(QueryStrategy::RoundRobin));
    assert_eq!(QueryStrategy::from_str("random"), Some(QueryStrategy::Random));
    assert_eq!(QueryStrategy::from_str("invalid"), None);
}

#[test]
fn test_strategy_as_str() {
    assert_eq!(QueryStrategy::Concurrent.as_str(), "concurrent");
    assert_eq!(QueryStrategy::Fastest.as_str(), "fastest");
    assert_eq!(QueryStrategy::RoundRobin.as_str(), "round_robin");
    assert_eq!(QueryStrategy::Random.as_str(), "random");
}

#[test]
fn test_strategy_default() {
    assert_eq!(QueryStrategy::default(), QueryStrategy::Concurrent);
}

#[test]
fn test_proxy_manager_strategy() {
    let mut proxy_manager = ProxyManager::new();

    assert_eq!(proxy_manager.get_strategy(), QueryStrategy::Concurrent);

    proxy_manager.set_strategy(QueryStrategy::RoundRobin);
    assert_eq!(proxy_manager.get_strategy(), QueryStrategy::RoundRobin);
}

#[test]
fn test_proxy_manager_no_servers() {
    let upstream_manager = UpstreamManager::new();
    let mut proxy_manager = ProxyManager::new();

    let healthy = upstream_manager.get_healthy_servers();
    let fastest = upstream_manager.get_fastest_server();
    let result = proxy_manager.plan_query(&healthy, fastest);

    assert!(result.is_err());
}

#[test]
fn test_round_robin_counter() {
    let mut upstream_manager = UpstreamManager::new();
    upstream_manager.add_server(UpstreamServer::new(1, "Server1", "8.8.8.8:53", UpstreamProtocol::Udp, 5000));
    upstream_manager.add_server(UpstreamServer::new(2, "Server2", "8.8.4.4:53", UpstreamProtocol::Udp, 5000));
    upstream_manager.add_server(UpstreamServer::new(3, "Server3", "1.1.1.1:53", UpstreamProtocol::Udp, 5000));

    let mut proxy_manager = ProxyManager::new();
    proxy_manager.set_strategy(QueryStrategy::RoundRobin);

    let initial = proxy_manager.round_robin_counter();
    assert_eq!(initial, 0);
}

#[test]
fn test_protocol_from_str() {
    assert_eq!(UpstreamProtocol::from_str("udp"), Some(UpstreamProtocol::Udp));
    assert_eq!(UpstreamProtocol::from_str("UDP"), Some(UpstreamProtocol::Udp));
    assert_eq!(UpstreamProtocol::from_str("dot"), Some(UpstreamProtocol::Dot));
    assert_eq!(UpstreamProtocol::from_str("doh"), Some(UpstreamProtocol::Doh));
    assert_eq!(UpstreamProtocol::from_str("doq"), Some(UpstreamProtocol::Doq));
    assert_eq!(UpstreamProtocol::from_str("doh3"), Some(UpstreamProtocol::Doh3));
    assert_eq!(UpstreamProtocol::from_str("h3"), Some(UpstreamProtocol::Doh3));
    assert_eq!(UpstreamProtocol::from_str("invalid"), None);
}

#[test]
fn test_protocol_default_port() {
    assert_eq!(UpstreamProtocol::Udp.default_port(), 53);
    assert_eq!(UpstreamProtocol::Dot.default_port(), 853);
    assert_eq!(UpstreamProtocol::Doh.default_port(), 443);
    assert_eq!(UpstreamProtocol::Doq.default_port(), 853);
    assert_eq!(UpstreamProtocol::Doh3.default_port(), 443);
}

#[test]
fn test_upstream_server_creation() {
    let server = UpstreamServer::new(1, "Cloudflare", "1.1.1.1:53", UpstreamProtocol::Udp, 5000);

    assert_eq!(server.id, 1);
    assert_eq!(server.name, "Cloudflare");
    assert_eq!(server.address, "1.1.1.1:53");
    assert_eq!(server.protocol, UpstreamProtocol::Udp);
    assert_eq!(server.timeout_ms(), 5000);
    assert!(server.enabled);
}

#[test]
fn test_upstream_stats_success() {
    let mut stats = UpstreamStats::new();
    stats.record_success(50);
    stats.record_success(100);

    assert_eq!(stats.queries, 2);
    assert_eq!(stats.successes, 2);
    assert_eq!(stats.failures, 0);
    assert_eq!(stats.avg_response_time_ms(), 75);
    assert_eq!(stats.successes as f64 / stats.queries as f64, 1.0);
    assert!(stats.is_healthy());
}

#[test]
fn test_upstream_stats_failure() {
    let mut stats = UpstreamStats::new();
    stats.record_failure();
    stats.record_failure();

    assert_eq!(stats.queries, 2);
    assert_eq!(stats.successes, 0);
    assert_eq!(stats.failures, 2);
    assert_eq!(stats.successes as f64 / stats.queries as f64, 0.0);
}

#[test]
fn test_upstream_stats_health_degradation() {
    let mut stats = UpstreamStats::new();
    for _ in 0..5 {
        stats.record_failure();
    }
    assert!(!stats.is_healthy());
}

#[test]
fn test_upstream_stats_reset_health() {
    let mut stats = UpstreamStats::new();
    for _ in 0..5 {
        stats.record_failure();
    }
    assert!(!stats.is_healthy());

    stats.reset_health();
    assert!(stats.is_healthy());
}

#[test]
fn test_upstream_manager_add_server() {
    let mut manager = UpstreamManager::new();
    let server = UpstreamServer::new(1, "Test", "8.8.8.8:53", UpstreamProtocol::Udp, 5000);

    manager.add_server(server);
    assert_eq!(manager.server_count(), 1);

    let servers = manager.get_servers();
    assert_eq!(servers[0].name, "Test");
}

#[test]
fn test_upstream_manager_remove_server() {
    let mut manager = UpstreamManager::new();
    manager.add_server(UpstreamServer::new(1, "Test1", "8.8.8.8:53", UpstreamProtocol::Udp, 5000));
    manager.add_server(UpstreamServer::new(2, "Test2", "8.8.4.4:53", UpstreamProtocol::Udp, 5000));

    manager.remove_server(1);
    assert_eq!(manager.server_count(), 1);
    assert!(manager.get_server(1).is_none());
    assert!(manager.get_server(2).is_some());
}

#[test]
fn test_upstream_manager_stats() {
    let mut manager = UpstreamManager::new();
    manager.add_server(UpstreamServer::new(1, "Test", "8.8.8.8:53", UpstreamProtocol::Udp, 5000));

    manager.record_success(1, 50);
    manager.record_success(1, 100);

    let stats = manager.get_stats(1).unwrap();
    assert_eq!(stats.successes, 2);
    assert_eq!(stats.avg_response_time_ms(), 75);
}

#[test]
fn test_upstream_manager_healthy_servers() {
    let mut manager = UpstreamManager::new();
    manager.add_server(UpstreamServer::new(1, "Healthy", "8.8.8.8:53", UpstreamProtocol::Udp, 5000));
    manager.add_server(UpstreamServer::new(2, "Unhealthy", "8.8.4.4:53", UpstreamProtocol::Udp, 5000));

    for _ in 0..5 {
        manager.record_failure(2);
    }

    let healthy = manager.get_healthy_servers();
    assert_eq!(healthy.len(), 1);
    assert_eq!(healthy[0].id, 1);
}

#[test]
fn test_upstream_manager_fastest_server() {
    let mut manager = UpstreamManager::new();
    manager.add_server(UpstreamServer::new(1, "Slow", "8.8.8.8:53", UpstreamProtocol::Udp, 5000));
    manager.add_server(UpstreamServer::new(2, "Fast", "8.8.4.4:53", UpstreamProtocol::Udp, 5000));

    manager.record_success(1, 100);
    manager.record_success(2, 50);

    let fastest = manager.get_fastest_server().unwrap();
    assert_eq!(fastest.id, 2);
}

#[test]
fn test_upstream_manager_clear() {
    let mut manager = UpstreamManager::new();
    manager.add_server(UpstreamServer::new(1, "Test", "8.8.8.8:53", UpstreamProtocol::Udp, 5000));

    manager.clear();
    assert_eq!(manager.server_count(), 0);
}

#[test]
fn test_resolver_creation() {
    let resolver = create_test_resolver();
    assert!(!resolver.has_database());
}

#[test]
fn test_resolver_rewrite_block() {
    let mut resolver = create_test_resolver();
    resolver.rewrite_engine.add_rule(RewriteRule::new(
        1,
        "blocked.com".to_string(),
        MatchType::Exact,
        RewriteAction::Block,
        10,
    ));

    let query = DnsQuery::new("blocked.com", RecordType::A);
    let (_, step) = resolver.begin(&query, false, 0);
    let result = match step {
        ResolveStep::Done(Ok(r)) => r,
        other => panic!("unexpected step {:?}", other),
    };

    assert_eq!(result.response.response_code, DnsResponseCode::NxDomain);
    assert!(result.metadata.rewrite_applied);
    assert_eq!(result.metadata.rewrite_rule_id, Some(1));
}

#[test]
fn test_resolver_rewrite_map_to_ip() {
    let mut resolver = create_test_resolver();
    let ip = IpAddr::V4(Ipv4Addr::new(127, 0, 0, 1));
    resolver.rewrite_engine.add_rule(RewriteRule::new(
        1,
        "local.test".to_string(),
        MatchType::Exact,
        RewriteAction::MapToIp(ip),
        10,
    ));

    let query = DnsQuery::new("local.test", RecordType::A);
    let (_, step) = resolver.begin(&query, false, 0);
    let result = match step {
        ResolveStep::Done(Ok(r)) => r,
        other => panic!("unexpected step {:?}", other),
    };

    assert_eq!(result.response.response_code, DnsResponseCode::NoError);
    assert!(result.metadata.rewrite_applied);
    assert_eq!(result.response.answers.len(), 1);
    assert_eq!(result.response.answers[0].value, "127.0.0.1");
}

#[test]
fn test_resolver_cache_hit() {
    let mut resolver = create_test_resolver();

    let cache_key = CacheKey::new("cached.com", RecordType::A);
    let mut response = DnsResponse::new(12345);
    response.add_answer(DnsRecordData::a("cached.com", Ipv4Addr::new(1, 2, 3, 4), 300));
    resolver.cache.set_at(cache_key, response, 1_000);

    let query = DnsQuery::new("cached.com", RecordType::A);
    let (_, step) = resolver.begin(&query, false, 2_000);
    let result = match step {
        ResolveStep::Done(Ok(r)) => r,
        other => panic!("unexpected step {:?}", other),
    };

    assert!(result.metadata.cache_hit);
    assert!(!result.metadata.rewrite_applied);
    assert!(result.metadata.upstream_used.is_none());
    assert_eq!(result.response.answers.len(), 1);
}

#[test]
fn test_resolver_no_upstream_servers() {
    let mut resolver = create_test_resolver();
    let upstream_manager = UpstreamManager::new();
    let mut proxy = ProxyManager::new();

    let query = DnsQuery::new("example.com", RecordType::A);
    let (resolution, step) = resolver.begin(&query, false, 0);
    let target = match step {
        ResolveStep::Forward(q) => q,
        other => panic!("unexpected step {:?}", other),
    };
    assert_eq!(target.name, "example.com");

    let healthy = upstream_manager.get_healthy_servers();
    let answer = match proxy.plan_query(&healthy, upstream_manager.get_fastest_server()) {
        Ok(QueryPlan::AllAtOnce(_)) | Ok(QueryPlan::One(_)) => panic!("no server should be planned"),
        Err(e) => Err(e),
    };
    let step = resolver.on_upstream_answer(&resolution, answer, 0);

    assert!(matches!(step, ResolveStep::Done(Err(_))));
}

#[test]
fn test_create_ip_response_a_record() {
    let resolver = create_test_resolver();
    let query = DnsQuery::new("test.com", RecordType::A);
    let ip = IpAddr::V4(Ipv4Addr::new(192, 168, 1, 1));

    let response = resolver.create_ip_response(&query, ip).unwrap();

    assert_eq!(response.response_code, DnsResponseCode::NoError);
    assert_eq!(response.answers.len(), 1);
    assert_eq!(response.answers[0].record_type, RecordType::A);
    assert_eq!(response.answers[0].value, "192.168.1.1");
}

#[test]
fn test_create_ip_response_mismatched_type() {
    let resolver = create_test_resolver();
    let query = DnsQuery::new("test.com", RecordType::AAAA);
    let ip = IpAddr::V4(Ipv4Addr::new(192, 168, 1, 1));

    let response = resolver.create_ip_response(&query, ip).unwrap();

    assert_eq!(response.response_code, DnsResponseCode::NoError);
    assert_eq!(response.answers.len(), 0);
}

#[test]
fn test_query_metadata_default() {
    let metadata = QueryMetadata::default();

    assert_eq!(metadata.response_time_ms, 0);
    assert!(!metadata.cache_hit);
    assert!(metadata.upstream_used.is_none());
    assert!(!metadata.rewrite_applied);
    assert!(metadata.rewrite_rule_id.is_none());
}

#[test]
fn test_match_type_from_str() {
    assert_eq!(MatchType::from_str("exact"), Some(MatchType::Exact));
    assert_eq!(MatchType::from_str("WILDCARD"), Some(MatchType::Wildcard));
    assert_eq!(MatchType::from_str("Regex"), Some(MatchType::Regex));
    assert_eq!(MatchType::from_str("invalid"), None);
}

#[test]
fn test_rewrite_action_from_parts() {
    let ip_action = RewriteAction::from_parts("map_ip", Some("192.168.1.1"));
    assert!(matches!(ip_action, Some(RewriteAction::MapToIp(_))));

    let domain_action = RewriteAction::from_parts("map_domain", Some("example.com"));
    assert!(matches!(domain_action, Some(RewriteAction::MapToDomain(_))));

    let block_action = RewriteAction::from_parts("block", None);
    assert!(matches!(block_action, Some(RewriteAction::Block)));

    let invalid = RewriteAction::from_parts("invalid", None);
    assert!(invalid.is_none());
}

#[test]
fn test_exact_match() {
    let rule = RewriteRule::new(1, "example.com".to_string(), MatchType::Exact, RewriteAction::Block, 0);

    assert!(rule.matches("example.com"));
    assert!(rule.matches("EXAMPLE.COM"));
    assert!(!rule.matches("sub.example.com"));
    assert!(!rule.matches("example.org"));
}

#[test]
fn test_wildcard_match() {
    let rule = RewriteRule::new(1, "*.example.com".to_string(), MatchType::Wildcard, RewriteAction::Block, 0);

    assert!(rule.matches("sub.example.com"));
    assert!(rule.matches("www.example.com"));
    assert!(rule.matches("deep.sub.example.com"));
    assert!(!rule.matches("example.com"));
    assert!(!rule.matches("example.org"));
}

#[test]
fn test_regex_match() {
    let rule = RewriteRule::new(1, r"^ads?\..*\.com$".to_string(), MatchType::Regex, RewriteAction::Block, 0);

    assert!(rule.matches("ad.example.com"));
    assert!(rule.matches("ads.tracker.com"));
    assert!(!rule.matches("example.com"));
    assert!(!rule.matches("ad.example.org"));
}

#[test]
fn test_disabled_rule() {
    let mut rule = RewriteRule::new(1, "example.com".to_string(), MatchType::Exact, RewriteAction::Block, 0);
    rule.enabled = false;

    assert!(!rule.matches("example.com"));
}

#[test]
fn test_action_type_and_value() {
    let ip_action = RewriteAction::MapToIp(IpAddr::V4(Ipv4Addr::new(192, 168, 1, 1)));
    assert_eq!(ip_action.action_type(), "map_ip");
    assert_eq!(ip_action.action_value(), Some("192.168.1.1".to_string()));

    let domain_action = RewriteAction::MapToDomain("example.com".to_string());
    assert_eq!(domain_action.action_type(), "map_domain");
    assert_eq!(domain_action.action_value(), Some("example.com".to_string()));

    let block_action = RewriteAction::Block;
    assert_eq!(block_action.action_type(), "block");
    assert_eq!(block_action.action_value(), None);
}

#[test]
fn test_rewrite_engine_check() {
    let mut engine = RewriteEngine::new();

    engine.add_rule(RewriteRule::new(1, "blocked.com".to_string(), MatchType::Exact, RewriteAction::Block, 10));
    engine.add_rule(RewriteRule::new(
        2,
        "*.ads.com".to_string(),
        MatchType::Wildcard,
        RewriteAction::MapToIp(IpAddr::V4(Ipv4Addr::new(0, 0, 0, 0))),
        5,
    ));

    let result = engine.check("blocked.com");
    assert!(result.is_some());
    assert!(matches!(result.unwrap().action, RewriteAction::Block));

    let result = engine.check("tracker.ads.com");
    assert!(result.is_some());
    assert!(matches!(result.unwrap().action, RewriteAction::MapToIp(_)));

    let result = engine.check("allowed.com");
    assert!(result.is_none());
}

#[test]
fn test_rewrite_engine_priority() {
    let mut engine = RewriteEngine::new();

    engine.add_rule(RewriteRule::new(
        1,
        "*.example.com".to_string(),
        MatchType::Wildcard,
        RewriteAction::MapToDomain("fallback.com".to_string()),
        1,
    ));
    engine.add_rule(RewriteRule::new(
        2,
        "special.example.com".to_string(),
        MatchType::Exact,
        RewriteAction::Block,
        10,
    ));

    let result = engine.check("special.example.com");
    assert!(result.is_some());
    assert_eq!(result.unwrap().rule_id, 2);
}

#[test]
fn test_rewrite_engine_remove_rule() {
    let mut engine = RewriteEngine::new();

    engine.add_rule(RewriteRule::new(1, "example.com".to_string(), MatchType::Exact, RewriteAction::Block, 0));
    assert_eq!(engine.rule_count(), 1);

    engine.remove_rule(1);
    assert_eq!(engine.rule_count(), 0);
}

#[test]
fn test_rewrite_engine_clear() {
    let mut engine = RewriteEngine::new();

    engine.add_rule(RewriteRule::new(1, "a.com".to_string(), MatchType::Exact, RewriteAction::Block, 0));
    engine.add_rule(RewriteRule::new(2, "b.com".to_string(), MatchType::Exact, RewriteAction::Block, 0));

    engine.clear_rules();
    assert_eq!(engine.rule_count(), 0);
}

#[test]
fn test_ipv6_action() {
    let ip = IpAddr::V6(Ipv6Addr::new(0, 0, 0, 0, 0, 0, 0, 1));
    let action = RewriteAction::MapToIp(ip);
    assert_eq!(action.action_value(), Some("::1".to_string()));
}

#[test]
fn test_doh3_tls_config_paths() {
    let tls_config = TlsConfig::new("/path/to/cert.pem", "/path/to/key.pem");
    assert_eq!(tls_config.cert_path, "/path/to/cert.pem");
    assert_eq!(tls_config.key_path, "/path/to/key.pem");
}

#[test]
fn test_max_dns_message_matches_wire_limit() {
    assert_eq!(MAX_DNS_MESSAGE, 65535);
}

#[test]
fn test_tls_config_creation() {
    let config = TlsConfig::new("/path/to/cert.pem", "/path/to/key.pem");
    assert_eq!(config.cert_path, "/path/to/cert.pem");
    assert_eq!(config.key_path, "/path/to/key.pem");
}
