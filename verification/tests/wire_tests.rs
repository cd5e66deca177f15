use fluxdns::cache::CacheKey;
use fluxdns::exchange::{
    doq_query, failed_resolution_reply, frame_message, framed_length, udp_datagram_verdict, unreadable_request_reply,
    DatagramVerdict,
};
use fluxdns::ip::Ipv4Addr;
use fluxdns::message::{DnsError, DnsQuery, DnsRecordData, DnsResponse, DnsResponseCode, RecordType};
use fluxdns::resolver::{DnsResolver, ResolveStep};
use fluxdns::rewrite::RewriteEngine;
use fluxdns::cache::{CacheConfig, CacheManager};
use fluxdns::wire::{
    data_to_record, decode_wire, record_to_data, record_type_from_code, rcode_for_wire, wire_type_code,
    WireData, WireRecord,
};

fn record(name: &str, record_type: RecordType, value: &str, ttl: u32, priority: Option<u16>) -> DnsRecordData {
    DnsRecordData { name: name.to_string(), record_type, value: value.to_string(), ttl, priority }
}

#[test]
fn test_dns_query_roundtrip() {
    let query = DnsQuery::with_id(12345, "example.com", RecordType::A);
    let bytes = query.to_bytes().unwrap();
    let parsed = DnsQuery::from_bytes(&bytes).unwrap();

    assert_eq!(parsed.id, 12345);
    assert_eq!(parsed.name, "example.com");
    assert_eq!(parsed.record_type, RecordType::A);
}

#[test]
fn query_roundtrip_keeps_every_supported_type_and_flag() {
    for t in [RecordType::AAAA, RecordType::CNAME, RecordType::MX, RecordType::TXT, RecordType::PTR, RecordType::NS, RecordType::SOA, RecordType::SRV] {
        let mut query = DnsQuery::with_id(7, "a.example.org", t);
        query.recursion_desired = false;
        let parsed = DnsQuery::from_bytes(&query.to_bytes().unwrap()).unwrap();
        assert_eq!(parsed.id, 7);
        assert_eq!(parsed.name, "a.example.org");
        assert_eq!(parsed.record_type, t);
        assert!(!parsed.recursion_desired);
    }
}

#[test]
fn query_from_garbage_is_a_parse_error() {
    let invalid = vec![0u8; 10];
    assert!(matches!(DnsQuery::from_bytes(&invalid), Err(DnsError::ParseError(_))));
    assert!(matches!(DnsResponse::from_bytes(&[1, 2, 3]), Err(DnsError::ParseError(_))));
}

#[test]
fn query_without_question_is_a_parse_error() {
    // A bare header: ID 0x0102, no question.
    let header = vec![1u8, 2, 1, 0, 0, 0, 0, 0, 0, 0, 0, 0];
    match DnsQuery::from_bytes(&header) {
        Err(DnsError::ParseError(m)) => assert_eq!(m, "No query in message"),
        other => panic!("unexpected {:?}", other),
    }
}

#[test]
fn query_of_unsupported_type_is_refused() {
    // Question for "a." of type HINFO (13), class IN.
    let mut bytes = vec![0u8, 9, 1, 0, 0, 1, 0, 0, 0, 0, 0, 0];
    bytes.extend_from_slice(&[1, b'a', 0, 0, 13, 0, 1]);
    match DnsQuery::from_bytes(&bytes) {
        Err(DnsError::InvalidRecordType(m)) => assert_eq!(m, "HINFO"),
        other => panic!("unexpected {:?}", other),
    }
}

#[test]
fn query_with_bad_name_is_not_encoded() {
    let long_label = "a".repeat(70);
    let query = DnsQuery::with_id(1, &format!("{}.com", long_label), RecordType::A);
    assert!(matches!(query.to_bytes(), Err(DnsError::InvalidDomainName(_))));
}

#[test]
fn response_roundtrip_keeps_header_and_records() {
    let query = DnsQuery::with_id(4242, "example.com", RecordType::A);
    let mut response = DnsResponse::new(4242);
    response.authoritative = true;
    response.add_answer(DnsRecordData::a("example.com", Ipv4Addr::new(93, 184, 216, 34), 300));
    response.add_answer(DnsRecordData::cname("www.example.com", "example.com", 60));
    response.add_answer(DnsRecordData::mx("example.com", "mail.example.com", 5, 120));
    response.add_answer(DnsRecordData::txt("example.com", "v=spf1 -all", 30));
    response.authority.push(DnsRecordData::ns("example.com", "ns1.example.com", 900));
    let bytes = response.to_bytes(&query).unwrap();
    let back = DnsResponse::from_bytes(&bytes).unwrap();
    assert_eq!(back.id, 4242);
    assert_eq!(back.response_code, DnsResponseCode::NoError);
    assert!(back.authoritative);
    assert_eq!(back.answers.len(), 4);
    assert_eq!(back.answers[0].value, "93.184.216.34");
    assert_eq!(back.answers[1].name, "www.example.com");
    assert_eq!(back.answers[1].value, "example.com");
    assert_eq!(back.answers[2].priority, Some(5));
    assert_eq!(back.answers[2].value, "mail.example.com");
    assert_eq!(back.answers[3].value, "v=spf1 -all");
    assert_eq!(back.authority.len(), 1);
    assert_eq!(back.authority[0].value, "ns1.example.com");
}

#[test]
fn response_codes_survive_the_wire() {
    let query = DnsQuery::with_id(1, "example.com", RecordType::A);
    for code in [DnsResponseCode::NxDomain, DnsResponseCode::ServFail, DnsResponseCode::Refused, DnsResponseCode::FormErr, DnsResponseCode::NotImp] {
        let mut response = DnsResponse::new(1);
        response.response_code = code;
        let back = DnsResponse::from_bytes(&response.to_bytes(&query).unwrap()).unwrap();
        assert_eq!(back.response_code, code);
    }
}

#[test]
fn wire_rcode_folds_large_other_codes() {
    assert_eq!(rcode_for_wire(DnsResponseCode::Refused), 5);
    assert_eq!(rcode_for_wire(DnsResponseCode::Other(9)), 9);
    assert_eq!(rcode_for_wire(DnsResponseCode::Other(0x123)), 0x13);
}

#[test]
fn type_codes_match_the_registry() {
    assert_eq!(wire_type_code(RecordType::AAAA), 28);
    assert_eq!(wire_type_code(RecordType::SRV), 33);
    assert_eq!(record_type_from_code(15), Some(RecordType::MX));
    assert_eq!(record_type_from_code(13), None);
}

#[test]
fn soa_and_srv_values_are_written_out() {
    let soa = WireRecord {
        name: "example.com.".to_string(),
        ttl: 3600,
        data: WireData::SOA("ns.example.com.".to_string(), "admin.example.com.".to_string(), 2024010101, 7200, -1, 1209600, 300),
    };
    let d = record_to_data(&soa).unwrap();
    assert_eq!(d.name, "example.com");
    assert_eq!(d.record_type, RecordType::SOA);
    assert_eq!(d.value, "ns.example.com admin.example.com 2024010101 7200 -1 1209600 300");
    let srv = WireRecord { name: "_sip._tcp.example.com.".to_string(), ttl: 60, data: WireData::SRV(10, 20, 5060, "sip.example.com.".to_string()) };
    let d = record_to_data(&srv).unwrap();
    assert_eq!(d.value, "20 5060 sip.example.com");
    assert_eq!(d.priority, Some(10));
    assert!(record_to_data(&WireRecord { name: "x.".to_string(), ttl: 1, data: WireData::Other }).is_none());
}

#[test]
fn txt_strings_are_joined() {
    let txt = WireRecord { name: "t.example.".to_string(), ttl: 5, data: WireData::TXT(vec![b"hello ".to_vec(), b"world".to_vec()]) };
    assert_eq!(record_to_data(&txt).unwrap().value, "hello world");
}

#[test]
fn soa_and_srv_values_are_read_back() {
    let soa = record("example.com", RecordType::SOA, " ns.example.com  admin.example.com 1 2 3 4 5 ", 60, None);
    match data_to_record(&soa).unwrap().data {
        WireData::SOA(m, r, a, b, c, d, e) => {
            assert_eq!((m.as_str(), r.as_str()), ("ns.example.com", "admin.example.com"));
            assert_eq!((a, b, c, d, e), (1, 2, 3, 4, 5));
        }
        other => panic!("unexpected {:?}", other),
    }
    assert!(data_to_record(&record("example.com", RecordType::SOA, "ns a 1 2 3 4", 60, None)).is_none());
    assert!(data_to_record(&record("example.com", RecordType::SOA, "ns a 1 x 3 4 5", 60, None)).is_none());
    match data_to_record(&record("s.example.com", RecordType::SRV, "20 5060 sip.example.com", 60, None)).unwrap().data {
        WireData::SRV(p, w, port, t) => assert_eq!((p, w, port, t.as_str()), (0, 20, 5060, "sip.example.com")),
        other => panic!("unexpected {:?}", other),
    }
    assert!(data_to_record(&record("s.example.com", RecordType::SRV, "20 70000 sip", 60, None)).is_none());
}

#[test]
fn mx_preference_defaults_to_ten() {
    match data_to_record(&record("example.com", RecordType::MX, "mail.example.com", 60, None)).unwrap().data {
        WireData::MX(p, e) => assert_eq!((p, e.as_str()), (10, "mail.example.com")),
        other => panic!("unexpected {:?}", other),
    }
}

#[test]
fn unreadable_values_are_left_out() {
    assert!(data_to_record(&record("example.com", RecordType::A, "not-an-ip", 60, None)).is_none());
    assert!(data_to_record(&record("example.com", RecordType::AAAA, "1.2.3.4", 60, None)).is_none());
    let query = DnsQuery::with_id(3, "example.com", RecordType::A);
    let mut response = DnsResponse::new(3);
    response.add_answer(record("example.com", RecordType::A, "bad", 60, None));
    response.add_answer(record("example.com", RecordType::A, "10.0.0.1", 60, None));
    let back = DnsResponse::from_bytes(&response.to_bytes(&query).unwrap()).unwrap();
    assert_eq!(back.answers.len(), 1);
    assert_eq!(back.answers[0].value, "10.0.0.1");
}

#[test]
fn decoded_names_carry_their_trailing_dot() {
    let query = DnsQuery::with_id(77, "example.com", RecordType::A);
    let wire = decode_wire(&query.to_bytes().unwrap()).unwrap();
    assert_eq!(wire.header.id, 77);
    assert_eq!(wire.questions.len(), 1);
    assert_eq!(wire.questions[0].name, "example.com.");
    assert_eq!(wire.answers.len(), 0);
    assert!(decode_wire(&[0u8; 3]).is_err());
}

#[test]
fn datagram_verdicts() {
    let query = DnsQuery::with_id(500, "example.com", RecordType::A);
    let answer = DnsResponse::new(500).to_bytes(&query).unwrap();
    assert_eq!(udp_datagram_verdict(true, &answer, 500), DatagramVerdict::Accept);
    assert_eq!(udp_datagram_verdict(false, &answer, 500), DatagramVerdict::Discard);
    assert_eq!(udp_datagram_verdict(true, &answer, 501), DatagramVerdict::Discard);
    assert_eq!(udp_datagram_verdict(true, &[1], 500), DatagramVerdict::Discard);
    let mut truncated = answer.clone();
    truncated[2] |= 0x02;
    assert_eq!(udp_datagram_verdict(true, &truncated, 500), DatagramVerdict::RetryOverTcp);
}

#[test]
fn unreadable_request_gets_servfail_with_id_zero() {
    let (response, query) = unreadable_request_reply();
    let back = DnsResponse::from_bytes(&response.to_bytes(&query).unwrap()).unwrap();
    assert_eq!(back.id, 0);
    assert_eq!(back.response_code, DnsResponseCode::ServFail);
    assert!(back.answers.is_empty());
    let query = DnsQuery::with_id(99, "example.com", RecordType::A);
    let failed = failed_resolution_reply(&query);
    assert_eq!(failed.id, 99);
    assert_eq!(failed.response_code, DnsResponseCode::ServFail);
}

#[test]
fn cached_answer_travels_over_the_wire() {
    let mut resolver = DnsResolver::new(
        RewriteEngine::new(),
        CacheManager::with_config(CacheConfig { default_ttl: 60, max_entries: 1000 }),
    );
    let mut response = DnsResponse::new(0);
    response.add_answer(DnsRecordData::a("test.example.com", Ipv4Addr::new(192, 168, 1, 100), 300));
    resolver.cache.set(CacheKey::new("test.example.com", RecordType::A), response);

    let query_bytes = DnsQuery::with_id(12345, "test.example.com", RecordType::A).to_bytes().unwrap();
    let query = DnsQuery::from_bytes(&query_bytes).unwrap();
    let now_ms = std::time::SystemTime::now().duration_since(std::time::UNIX_EPOCH).unwrap().as_millis() as u64;
    let (_, step) = resolver.begin(&query, false, now_ms);
    let result = match step {
        ResolveStep::Done(Ok(r)) => r,
        _ => panic!("expected a cached answer"),
    };
    let back = DnsResponse::from_bytes(&result.response.to_bytes(&query).unwrap()).unwrap();
    assert_eq!(back.id, 12345);
    assert_eq!(back.answers.len(), 1);
    assert_eq!(back.answers[0].value, "192.168.1.100");
}

#[test]
fn stream_frames_carry_their_length() {
    let message = vec![7u8; 300];
    let framed = frame_message(&message).unwrap();
    assert_eq!(&framed[..2], &[1, 44]);
    assert_eq!(framed_length([framed[0], framed[1]]), 300);
    assert_eq!(&framed[2..], &message[..]);
    assert!(frame_message(&vec![0u8; 65536]).is_none());
    assert_eq!(frame_message(&[]).unwrap(), vec![0, 0]);
}

#[test]
fn doq_queries_use_id_zero() {
    let q = doq_query(&DnsQuery::with_id(4321, "example.com", RecordType::AAAA));
    assert_eq!(q.id, 0);
    assert_eq!(q.name, "example.com");
    assert_eq!(q.record_type, RecordType::AAAA);
}

#[test]
fn query_roundtrip_lowercases_the_name() {
    let query = DnsQuery::with_id(12345, "ExAmple.COM", RecordType::MX);
    let parsed = DnsQuery::from_bytes(&query.to_bytes().unwrap()).unwrap();
    assert_eq!(parsed.id, 12345);
    assert_eq!(parsed.name, "example.com");
    assert_eq!(parsed.record_type, RecordType::MX);
    assert!(parsed.recursion_desired);
}

#[test]
fn decoded_message_keeps_sections_apart() {
    let query = DnsQuery::with_id(9, "example.com", RecordType::A);
    let mut response = DnsResponse::new(9);
    response.add_answer(DnsRecordData::a("example.com", Ipv4Addr::new(10, 0, 0, 1), 60));
    response.authority.push(DnsRecordData::ns("example.com", "ns1.example.com", 900));
    response.additional.push(DnsRecordData::a("ns1.example.com", Ipv4Addr::new(10, 0, 0, 2), 900));
    let wire = decode_wire(&response.to_bytes(&query).unwrap()).unwrap();
    assert_eq!(wire.header.id, 9);
    assert_eq!(wire.questions.len(), 1);
    assert_eq!(wire.questions[0].type_code, 1);
    assert_eq!(wire.answers.len(), 1);
    assert_eq!(wire.authority.len(), 1);
    assert_eq!(wire.additional.len(), 1);
    assert_eq!(wire.answers[0].name, "example.com.");
    assert_eq!(wire.answers[0].ttl, 60);
    assert!(matches!(wire.answers[0].data, WireData::A([10, 0, 0, 1])));
    assert!(matches!(&wire.authority[0].data, WireData::NS(n) if n == "ns1.example.com."));
    assert_eq!(wire.additional[0].name, "ns1.example.com.");
}

#[test]
fn mx_srv_and_soa_records_come_back_with_their_priorities() {
    let query = DnsQuery::with_id(5, "example.com", RecordType::MX);
    let mut response = DnsResponse::new(5);
    response.add_answer(record("example.com", RecordType::MX, "mail.example.com", 60, None));
    response.add_answer(record("_sip._tcp.example.com", RecordType::SRV, "5 5060 sip.example.com", 60, None));
    response.add_answer(record("_sip._tcp.example.com", RecordType::SRV, "5 5060 sip.example.com", 60, Some(7)));
    response.add_answer(record(
        "example.com",
        RecordType::SOA,
        "ns.example.com admin.example.com 2024010101 7200 3600 1209600 300",
        3600,
        None,
    ));
    let back = DnsResponse::from_bytes(&response.to_bytes(&query).unwrap()).unwrap();
    assert_eq!(back.answers.len(), 4);
    assert_eq!(back.answers[0].value, "mail.example.com");
    assert_eq!(back.answers[0].priority, Some(10));
    assert_eq!(back.answers[1].value, "5 5060 sip.example.com");
    assert_eq!(back.answers[1].priority, Some(0));
    assert_eq!(back.answers[2].priority, Some(7));
    assert_eq!(back.answers[3].value, "ns.example.com admin.example.com 2024010101 7200 3600 1209600 300");
    assert_eq!(back.answers[3].priority, None);
    assert_eq!(back.answers[3].ttl, 3600);
}

#[test]
fn response_bytes_read_back_with_lowercase_names() {
    let query = DnsQuery::with_id(11, "WWW.Example.com", RecordType::CNAME);
    let mut response = DnsResponse::new(11);
    response.add_answer(DnsRecordData::cname("WWW.Example.com", "Target.Example.COM", 60));
    response.authority.push(record(
        "Example.com",
        RecordType::SOA,
        "NS1.Example.com Admin.Example.com 7 3600 600 86400 60",
        300,
        None,
    ));
    let bytes = response.to_bytes(&query).unwrap();
    let wire = decode_wire(&bytes).unwrap();
    assert_eq!(wire.questions[0].name, "www.example.com.");
    let back = DnsResponse::from_bytes(&bytes).unwrap();
    assert_eq!(back.id, 11);
    assert_eq!(back.answers.len(), 1);
    assert_eq!(back.answers[0].name, "www.example.com");
    assert_eq!(back.answers[0].value, "target.example.com");
    assert_eq!(back.authority.len(), 1);
    assert_eq!(back.authority[0].name, "example.com");
    assert_eq!(back.authority[0].value, "ns1.example.com admin.example.com 7 3600 600 86400 60");
}
