//! The HTTP ingress, over TCP and over QUIC, and its connection pool.

use ferrotunnel::frame::Protocol;
use ferrotunnel::http::{
    all_usable, contains, only_usable, split_all, starts_with, to_text, trim, Headers,
};
use ferrotunnel::http3_ingress::{
    accept_forward, after_request_hooks, after_response_hooks, build_forward_request,
    collect_failure_message,
    forward_candidate, forward_request_failed, host_header_value, start_request,
    strip_hop_by_hop_headers, BodyBudget, ChunkStep, Http3IngressConfig, Http3Start,
};
use ferrotunnel::ingress::{
    accept_uri, candidate_uri, canonical_uri, content_length_exceeds, full_response,
    is_connection_close_error, is_grpc, is_websocket_upgrade, parse_and_normalize_host, with_alt_svc_header, BodyCollectError,
    BodyCollector, BodyEvent, CollectStep, HookOutcome, IngressConfig, IngressRequest, IngressStep,
    LimitedBody, TimeoutBody, UpstreamEnd,
};
use ferrotunnel::net::{IpAddr, SocketAddr};
use ferrotunnel::pool::{ConnectionPool, ConnectionPoolError, PoolConfig};
use ferrotunnel::session::Session;
use ferrotunnel::sharded::SessionStoreBackend;
use ferrotunnel::tcp_ingress::{
    tunnel_connection_timeout, IdleStep, TcpAdmission, TcpIngress, TcpIngressConfig,
};

fn headers(fields: &[(&str, &str)]) -> Headers {
    let mut headers = Headers::new();
    for (name, value) in fields {
        headers.append(name, value.as_bytes().to_vec());
    }
    headers
}

fn host(value: &str) -> Result<String, &'static str> {
    parse_and_normalize_host(Some(&value.as_bytes().to_vec()))
}

fn addr() -> SocketAddr {
    SocketAddr::new(IpAddr::V4(127, 0, 0, 1), 5000)
}

fn sessions(tunnel_id: &str, capability: &str, multiplexer: Option<u64>) -> SessionStoreBackend {
    let mut sessions = SessionStoreBackend::default();
    sessions
        .add(Session::new(
            1,
            tunnel_id.to_string(),
            addr(),
            "tok".to_string(),
            vec![capability.to_string()],
            multiplexer,
            0,
        ))
        .unwrap();
    sessions
}

#[test]
fn test_parse_host_simple() {
    assert_eq!(host("example.com").unwrap(), "example.com");
}

#[test]
fn test_parse_host_with_port() {
    assert_eq!(host("example.com:8080").unwrap(), "example.com");
}

#[test]
fn test_parse_host_uppercase() {
    assert_eq!(host("EXAMPLE.COM").unwrap(), "example.com");
}

#[test]
fn test_parse_host_trailing_dot() {
    assert_eq!(host("example.com.").unwrap(), "example.com");
}

#[test]
fn test_parse_host_ipv6() {
    assert_eq!(host("[::1]:8080").unwrap(), "::1");
}

#[test]
fn test_parse_host_ipv4() {
    assert_eq!(host("192.168.1.1:3000").unwrap(), "192.168.1.1");
}

#[test]
fn test_parse_host_empty() {
    assert!(host("").is_err());
}

#[test]
fn test_parse_host_missing() {
    assert!(parse_and_normalize_host(None).is_err());
}

#[test]
fn hosts_are_alike_whatever_their_case() {
    assert_eq!(host("My-Tunnel.Example.Org:443"), host("MY-TUNNEL.example.org:443"));
    assert_eq!(host("My-Tunnel.Example.Org:443").unwrap(), "my-tunnel.example.org");
    assert!(parse_and_normalize_host(Some(&vec![0xff, 0xfe])).is_err());
}

#[test]
fn test_websocket_upgrade_detected() {
    assert!(is_websocket_upgrade(&headers(&[
        ("upgrade", "websocket"),
        ("connection", "Upgrade")
    ])));
}

#[test]
fn test_websocket_upgrade_case_insensitive() {
    assert!(is_websocket_upgrade(&headers(&[
        ("upgrade", "WebSocket"),
        ("connection", "keep-alive, Upgrade")
    ])));
}

#[test]
fn test_not_websocket_without_upgrade_header() {
    assert!(!is_websocket_upgrade(&headers(&[("connection", "Upgrade")])));
}

#[test]
fn test_not_websocket_without_connection_header() {
    assert!(!is_websocket_upgrade(&headers(&[("upgrade", "websocket")])));
}

#[test]
fn test_not_websocket_regular_request() {
    assert!(!is_websocket_upgrade(&headers(&[])));
}

#[test]
fn content_length_exceeds_when_over_limit() {
    assert!(content_length_exceeds(&headers(&[("content-length", "2048")]), 1024));
}

#[test]
fn content_length_within_limit_is_allowed() {
    assert!(!content_length_exceeds(&headers(&[("content-length", "512")]), 1024));
}

#[test]
fn content_length_missing_is_allowed() {
    assert!(!content_length_exceeds(&headers(&[]), 1024));
}

#[test]
fn content_length_non_numeric_is_allowed() {
    assert!(!content_length_exceeds(&headers(&[("content-length", "not-a-number")]), 1024));
}

#[test]
fn limited_body_sets_flag_and_errors_when_oversized() {
    let mut limited = LimitedBody::new(1024);
    assert!(!limited.forward(2048), "body over the limit must error");
    assert!(limited.exceeded, "the exceeded flag must be set");

    let mut limited = LimitedBody::new(1024);
    assert!(limited.forward(1000));
    assert!(limited.forward(24));
    assert!(!limited.exceeded);
    assert!(!limited.forward(1));
}

#[test]
fn stalled_response_body_times_out() {
    let mut collector = BodyCollector::new(1024);
    assert_eq!(
        collector.collect(BodyEvent::TimedOut),
        CollectStep::Failed(BodyCollectError::Timeout)
    );
    assert_eq!(BodyCollectError::Timeout.status(), 504);
}

#[test]
fn response_body_over_limit_is_rejected() {
    let mut collector = BodyCollector::new(1024);
    assert_eq!(
        collector.collect(BodyEvent::Data(vec![0u8; 2048])),
        CollectStep::Failed(BodyCollectError::TooLarge)
    );
    assert_eq!(BodyCollectError::TooLarge.status(), 502);
}

#[test]
fn response_body_within_limit_is_collected() {
    let mut collector = BodyCollector::new(1024);
    assert_eq!(collector.collect(BodyEvent::Data(b"hel".to_vec())), CollectStep::More);
    assert_eq!(collector.collect(BodyEvent::Other), CollectStep::More);
    assert_eq!(collector.collect(BodyEvent::Data(b"lo".to_vec())), CollectStep::More);
    assert_eq!(collector.collect(BodyEvent::End), CollectStep::Complete);
    assert_eq!(collector.collected, b"hello".to_vec());
    assert_eq!(
        BodyCollector::new(4).collect(BodyEvent::Failed),
        CollectStep::Failed(BodyCollectError::Read)
    );
}

#[test]
fn streaming_response_body_times_out_per_frame() {
    let mut body = TimeoutBody::new(50, 0);
    assert!(!body.expired(49));
    assert!(body.expired(50));
    body.on_frame(40);
    assert!(!body.expired(50));
    assert!(body.expired(90));
}

#[test]
fn chunked_oversized_request_body_returns_413() {
    let sessions = sessions("oversized.test", "http", Some(4));
    let config = IngressConfig { max_request_body_size: 1024, ..IngressConfig::default() };
    let mut fields = headers(&[("host", "oversized.test")]);
    let mut request = IngressRequest::start("/", &fields).unwrap();
    assert_eq!(
        request.after_request_hooks(HookOutcome::Proceed, &mut fields, &sessions, &config),
        IngressStep::OpenStream { multiplexer: 4, protocol: Protocol::HTTP }
    );
    assert_eq!(request.after_open(true), IngressStep::Handshake { http2: false });
    assert_eq!(request.after_handshake(UpstreamEnd::Done), IngressStep::SendRequest);

    let mut body = LimitedBody::new(config.max_request_body_size);
    assert!(!body.forward(4096));
    match request.after_send(UpstreamEnd::Failed, body.exceeded, 0, false) {
        IngressStep::Answer(reply) => assert_eq!(reply.status, 413),
        other => panic!("unexpected {other:?}"),
    }
}

#[test]
fn requests_are_routed_or_answered() {
    assert_eq!(
        IngressRequest::start("/health", &headers(&[])),
        Err(full_response(200, "OK"))
    );
    assert_eq!(IngressRequest::start("/", &headers(&[])).unwrap_err().status, 400);

    let config = IngressConfig::default();
    let mut fields = headers(&[("host", "nobody.test")]);
    let mut request = IngressRequest::start("/", &fields).unwrap();
    let ready = sessions("a.test", "http", Some(9));
    match request.after_request_hooks(HookOutcome::Proceed, &mut fields, &ready, &config) {
        IngressStep::Answer(reply) => assert_eq!(reply, full_response(404, "Tunnel not found")),
        other => panic!("unexpected {other:?}"),
    }
    let waiting = sessions("nobody.test", "http", None);
    match request.after_request_hooks(HookOutcome::Proceed, &mut fields, &waiting, &config) {
        IngressStep::Answer(reply) => assert_eq!(reply, full_response(502, "Tunnel not ready")),
        other => panic!("unexpected {other:?}"),
    }
    let refusal = HookOutcome::Reject { status: 403, reason: "no".to_string() };
    match request.after_request_hooks(refusal, &mut fields, &ready, &config) {
        IngressStep::Answer(reply) => assert_eq!(reply.status, 403),
        other => panic!("unexpected {other:?}"),
    }
    match request.after_request_hooks(HookOutcome::Failed, &mut fields, &ready, &config) {
        IngressStep::Answer(reply) => assert_eq!(reply.status, 500),
        other => panic!("unexpected {other:?}"),
    }

    let mut fields = headers(&[("host", "a.test"), ("content-length", "99999999999")]);
    let mut request = IngressRequest::start("/", &fields).unwrap();
    match request.after_request_hooks(HookOutcome::Proceed, &mut fields, &ready, &config) {
        IngressStep::Answer(reply) => assert_eq!(reply.status, 413),
        other => panic!("unexpected {other:?}"),
    }
}

#[test]
fn upgrades_and_grpc_take_their_own_ways() {
    let ready = sessions("a.test", "http", Some(9));
    let config = IngressConfig::default();
    let mut fields =
        headers(&[("host", "a.test"), ("upgrade", "websocket"), ("connection", "upgrade")]);
    let mut request = IngressRequest::start("/", &fields).unwrap();
    assert_eq!(
        request.after_request_hooks(HookOutcome::Proceed, &mut fields, &ready, &config),
        IngressStep::OpenStream { multiplexer: 9, protocol: Protocol::WebSocket }
    );
    assert_eq!(request.after_send(UpstreamEnd::Done, false, 101, true), IngressStep::Upgrade);

    let mut fields = headers(&[
        ("host", "a.test"),
        ("content-type", "application/grpc+proto"),
        ("connection", "keep-alive"),
    ]);
    assert!(is_grpc(&fields));
    let mut request = IngressRequest::start("/", &fields).unwrap();
    assert_eq!(
        request.after_request_hooks(HookOutcome::Proceed, &mut fields, &ready, &config),
        IngressStep::OpenStream { multiplexer: 9, protocol: Protocol::GRPC }
    );
    assert!(fields.get("connection").is_none());
    assert_eq!(request.after_open(true), IngressStep::Handshake { http2: true });
    match request.after_send(UpstreamEnd::TimedOut, false, 0, false) {
        IngressStep::Answer(reply) => {
            assert_eq!(reply, full_response(504, "gRPC upstream response timeout"));
        }
        other => panic!("unexpected {other:?}"),
    }
    assert!(matches!(request.after_open(false), IngressStep::Answer(_)));
}

#[test]
fn responses_are_streamed_unless_a_hook_wants_them_whole() {
    let request = IngressRequest::start("/", &headers(&[("host", "a.test")])).unwrap();
    assert_eq!(
        request.after_send(UpstreamEnd::Done, false, 200, false),
        IngressStep::StreamResponse
    );
    assert_eq!(
        request.after_send(UpstreamEnd::Done, false, 200, true),
        IngressStep::BufferResponse
    );
    assert_eq!(request.after_buffer(None), IngressStep::RunResponseHooks);
    match request.after_buffer(Some(BodyCollectError::Timeout)) {
        IngressStep::Answer(reply) => assert_eq!(reply.status, 504),
        other => panic!("unexpected {other:?}"),
    }
    assert_eq!(request.after_response_hooks(HookOutcome::Proceed), IngressStep::SendResponse);
}

#[test]
fn uris_are_made_absolute_by_the_host() {
    let fields = headers(&[("host", "a.test")]);
    assert_eq!(
        canonical_uri(false, &fields, Some("/x?y=1")),
        Some("http://a.test/x?y=1".to_string())
    );
    assert_eq!(canonical_uri(true, &fields, Some("/x")), None);
    assert_eq!(canonical_uri(false, &headers(&[]), Some("/x")), None);
}

#[test]
fn http3_is_advertised() {
    let config = Http3IngressConfig::with_certs("c.pem".to_string(), "k.pem".to_string());
    let value = config.alt_svc_header_value(443);
    assert_eq!(value, "h3=\":443\"; ma=86400, h3-29=\":443\"; ma=86400");
    let ingress =
        IngressConfig { alt_svc_header: Some(value.clone().into_bytes()), ..Default::default() };
    let mut fields = headers(&[]);
    with_alt_svc_header(&mut fields, &ingress);
    assert_eq!(fields.get_text("alt-svc"), Some(value));
    let mut plain = headers(&[]);
    with_alt_svc_header(&mut plain, &IngressConfig::default());
    assert!(plain.get("alt-svc").is_none());
}

#[test]
fn http3_needs_certificates() {
    assert!(Http3IngressConfig::default().endpoint_tls().is_err());
    let config = Http3IngressConfig::with_certs("c.pem".to_string(), "k.pem".to_string());
    assert_eq!(config.endpoint_tls().unwrap().cert_path, "c.pem");
    assert!(!config.endpoint_tls().unwrap().client_auth);
    let config = config.client_auth(true).ca_cert_path(Some("ca.pem".to_string()));
    assert!(config.endpoint_tls().unwrap().client_auth);
}

#[test]
fn http3_requests_keep_the_host_that_routed_them() {
    let fields = headers(&[("host", "spoofed.test"), ("te", "trailers"), ("x-kept", "1")]);
    let authority = Some(b"a.test".to_vec());
    assert_eq!(host_header_value(&headers(&[]), authority.clone()), authority);
    match start_request("/", &headers(&[]), authority.clone()) {
        Http3Start::RunRequestHooks { request, host } => {
            assert_eq!(request.tunnel_id, "a.test");
            assert_eq!(host, b"a.test".to_vec());
        }
        other => panic!("unexpected {other:?}"),
    }
    assert!(matches!(start_request("/", &headers(&[]), None), Http3Start::Fail(_)));
    match start_request("/health", &headers(&[]), None) {
        Http3Start::Answer(reply) => assert_eq!(reply.status, 200),
        other => panic!("unexpected {other:?}"),
    }

    let forward =
        build_forward_request(&fields, &b"a.test".to_vec(), false, true, Some("/p")).unwrap();
    assert!(!forward.http2);
    assert_eq!(forward.headers.get_text("host"), Some("a.test".to_string()));
    assert_eq!(forward.headers.get_text("x-kept"), Some("1".to_string()));
    assert!(forward.headers.get("te").is_none());
}

#[test]
fn hop_by_hop_fields_are_taken_off() {
    let fields = headers(&[
        ("connection", "close, X-Private"),
        ("x-private", "1"),
        ("transfer-encoding", "chunked"),
        ("keep-alive", "timeout=5"),
        ("accept", "*/*"),
    ]);
    let left = strip_hop_by_hop_headers(&fields);
    assert!(left.get("connection").is_none());
    assert!(left.get("transfer-encoding").is_none());
    assert!(left.get("keep-alive").is_none());
    assert_eq!(left.get_text("accept"), Some("*/*".to_string()));
}

#[test]
fn an_http3_body_has_a_budget() {
    let mut budget = BodyBudget::new(10);
    assert_eq!(budget.chunk(0), ChunkStep::Skip);
    assert_eq!(budget.chunk(6), ChunkStep::Forward);
    assert_eq!(budget.chunk(4), ChunkStep::Forward);
    assert_eq!(budget.chunk(1), ChunkStep::TooLarge);
    assert!(forward_request_failed("boom").status >= 400);
    assert_eq!(
        collect_failure_message(BodyCollectError::Read, "reset"),
        "Failed to read upstream response body: reset"
    );
    assert_eq!(
        collect_failure_message(BodyCollectError::Timeout, ""),
        "upstream body collection inactivity timeout"
    );
    assert_eq!(
        collect_failure_message(BodyCollectError::TooLarge, ""),
        "HTTP/3 upstream response body too large"
    );
}

#[test]
fn connections_that_just_close_are_no_errors() {
    assert!(is_connection_close_error("connection reset by peer"));
    assert!(is_connection_close_error("write failed: broken pipe"));
    assert!(!is_connection_close_error("certificate expired"));
}

#[test]
fn header_texts() {
    assert_eq!(to_text(b"plain\ttext"), Some("plain\ttext".to_string()));
    assert_eq!(to_text(&[0xc3, 0xa9]), None);
    assert!(starts_with("abc", "ab"));
    assert!(!starts_with("abc", "b"));
    assert!(contains("xaby", "ab"));
    assert!(contains("x", ""));
    assert!(!contains("xay", "ab"));
    assert_eq!(trim("  a b\t"), "a b");
    assert_eq!(split_all("a,b,,c", ','), vec!["a", "b", "", "c"]);
    let mut fields = headers(&[("A", "1"), ("b", "2"), ("a", "3")]);
    assert_eq!(fields.get_text("a"), Some("1".to_string()));
    fields.set("a", b"4".to_vec());
    assert_eq!(fields.get_text("a"), Some("4".to_string()));
    fields.remove("a");
    assert!(fields.get("a").is_none());
    assert_eq!(fields.get_text("b"), Some("2".to_string()));
}

#[test]
fn test_pool_config_default() {
    let config = PoolConfig::default();
    assert_eq!(config.max_idle_per_host, 32);
    assert_eq!(config.idle_timeout, 90_000_000_000);
    assert!(!config.prefer_h2);
}

#[test]
fn test_connection_pool_new() {
    let config = PoolConfig::default();
    let pool = ConnectionPool::new("127.0.0.1:8080".to_string(), config);
    assert_eq!(pool.target_addr, "127.0.0.1:8080");
}

#[test]
fn test_pool_config_custom() {
    let config = PoolConfig { max_idle_per_host: 10, idle_timeout: 60_000_000_000, prefer_h2: true };
    assert_eq!(config.max_idle_per_host, 10);
    assert_eq!(config.idle_timeout, 60_000_000_000);
    assert!(config.prefer_h2);
}

#[test]
fn acquire_h2_reuses_connection_without_redial() {
    let mut pool = ConnectionPool::new("127.0.0.1:8080".to_string(), PoolConfig::default());
    assert_eq!(pool.cached_h2(false), None);
    assert_eq!(pool.store_h2(7, false), 7);
    assert_eq!(pool.cached_h2(true), Some(7));
    // Of two dials that overlap, the first that is ready is kept.
    assert_eq!(pool.store_h2(8, true), 7);
    assert_eq!(pool.store_h2(9, false), 9);
}

#[test]
fn idle_connections_are_reused_last_first_and_expire() {
    let second = 1_000_000_000u128;
    let config = PoolConfig { max_idle_per_host: 2, idle_timeout: 90_000_000_000, prefer_h2: false };
    let mut pool = ConnectionPool::new("127.0.0.1:8080".to_string(), config);
    pool.release_h1(1, false, 0);
    pool.release_h1(2, false, 50 * second);
    pool.release_h1(3, false, 50 * second);
    pool.release_h1(4, true, 50 * second);
    assert_eq!(pool.h1_pool.len(), 2);
    assert_eq!(pool.acquire_h1(60 * second, &vec![]), Some(2));
    assert_eq!(pool.acquire_h1(60 * second, &vec![1]), None);

    pool.release_h1(5, false, 0);
    pool.release_h1(6, false, 80 * second);
    pool.evict_expired(100 * second, &vec![]);
    assert_eq!(pool.h1_pool.len(), 1);
    assert_eq!(pool.acquire_h1(100 * second, &vec![]), Some(6));
    assert_eq!(
        ConnectionPoolError::Connection("refused".to_string()).message(),
        "Connection error: refused"
    );
    assert_eq!(ConnectionPoolError::PoolFull.message(), "Pool is full");
}

#[test]
fn test_tcp_ingress_config_default() {
    let config = TcpIngressConfig::default();
    assert_eq!(config.max_connections, 1000);
    assert_eq!(config.connection_timeout_millis, 10_000);
    assert_eq!(config.idle_timeout_millis, 300_000);
    assert_eq!(config.buffer_size, 64 * 1024);
}

#[test]
fn test_tcp_ingress_creation() {
    let ingress = TcpIngress::new(addr());
    assert_eq!(ingress.addr, addr());
}

#[test]
fn test_tcp_ingress_custom_config() {
    let config = TcpIngressConfig {
        max_connections: 500,
        connection_timeout_millis: 5_000,
        idle_timeout_millis: 60_000,
        buffer_size: 32 * 1024,
    };
    let ingress = TcpIngress::with_config(addr(), config);
    assert_eq!(ingress.config.max_connections, 500);
}

#[test]
fn only_quiet_tcp_connections_are_closed() {
    let config = TcpIngressConfig { idle_timeout_millis: 60_000, ..TcpIngressConfig::default() };
    let ingress = TcpIngress::with_config(addr(), config);
    assert_eq!(ingress.on_quiet(0), IdleStep::Wait(60_000));
    assert_eq!(ingress.on_quiet(59_999), IdleStep::Wait(1));
    assert_eq!(ingress.on_quiet(60_000), IdleStep::Close);
}

#[test]
fn tcp_connections_are_served_within_capacity() {
    let config = TcpIngressConfig { max_connections: 1, ..TcpIngressConfig::default() };
    let mut ingress = TcpIngress::with_config(addr(), config);
    assert_eq!(ingress.on_connection(&SessionStoreBackend::default()), TcpAdmission::NoTunnel);
    let ready = sessions("a", "tcp", Some(5));
    assert_eq!(ingress.on_connection(&ready), TcpAdmission::Serve(5));
    assert_eq!(ingress.on_connection(&ready), TcpAdmission::AtCapacity);
    ingress.on_closed();
    assert_eq!(ingress.on_connection(&ready), TcpAdmission::Serve(5));
    assert!(!tunnel_connection_timeout().message().is_empty());
}

fn pairs(list: &[(&str, &str)]) -> Vec<(String, String)> {
    list.iter().map(|(name, value)| (name.to_string(), value.to_string())).collect()
}

#[test]
fn header_fields_are_checked() {
    assert!(all_usable(&pairs(&[("X-A", "1"), ("b", "tab\there"), ("c", "na\u{ef}ve")])));
    assert!(all_usable(&pairs(&[(&"a".repeat(65535), "")])));
    assert!(!all_usable(&pairs(&[(&"a".repeat(65536), "")])));
    for name in ["", "a b", "a:b", "a(b", "\u{ef}"] {
        assert!(!all_usable(&pairs(&[(name, "1")])), "{name}");
    }
    for value in ["line\nbreak", "\u{7f}", "\u{0}"] {
        assert!(!all_usable(&pairs(&[("a", value)])));
    }
    let mixed = pairs(&[("a", "1"), ("b b", "2"), ("c", "3\r"), ("d", "4")]);
    assert_eq!(only_usable(&mixed), pairs(&[("a", "1"), ("d", "4")]));
}

#[test]
fn a_plugin_answer_with_a_bad_header_field_is_not_given() {
    let request = IngressRequest::start("/", &headers(&[("host", "a.test")])).unwrap();
    let respond = |list: &[(&str, &str)]| HookOutcome::Respond {
        status: 201,
        headers: pairs(list),
        body: b"hi".to_vec(),
    };
    assert_eq!(
        request.after_response_hooks(respond(&[("x-a", "1")])),
        IngressStep::AnswerAs {
            status: 201,
            headers: pairs(&[("x-a", "1")]),
            body: b"hi".to_vec()
        }
    );
    match request.after_response_hooks(respond(&[("x-a", "1"), ("bad name", "2")])) {
        IngressStep::Answer(reply) => {
            assert_eq!(reply.status, 500);
            assert_eq!(reply.body, "Failed to build plugin response");
        }
        other => panic!("unexpected {other:?}"),
    }

    let mut request = request;
    let sessions = SessionStoreBackend::default();
    let step = after_request_hooks(
        &mut request,
        respond(&[("x-a", "1"), ("bad name", "2")]),
        &headers(&[]),
        &sessions,
    );
    assert_eq!(
        step,
        IngressStep::AnswerAs {
            status: 201,
            headers: pairs(&[("x-a", "1")]),
            body: b"hi".to_vec()
        }
    );
}

#[test]
fn a_text_that_is_no_uri_is_not_sent() {
    let fields = headers(&[("host", "a b")]);
    let candidate = candidate_uri(false, &fields, Some("/x"));
    assert_eq!(candidate, Some("http://a b/x".to_string()));
    assert_eq!(canonical_uri(false, &fields, Some("/x")), None);
    assert_eq!(accept_uri(candidate.clone(), Some("bad".to_string())), None);
    assert_eq!(accept_uri(candidate.clone(), None), candidate);

    let host = b"a b".to_vec();
    let error = build_forward_request(&headers(&[]), &host, true, false, None).unwrap_err();
    assert!(error.starts_with("Invalid gRPC URI: "));
    assert!(error.len() > "Invalid gRPC URI: ".len());
    let forward = forward_candidate(&headers(&[]), &host, true, false, None).unwrap();
    assert_eq!(forward.uri.as_deref(), Some("https://a b/"));
    assert_eq!(
        accept_forward(forward, Some("bad".to_string())).unwrap_err(),
        "Invalid gRPC URI: bad"
    );
    assert_eq!(
        build_forward_request(&headers(&[]), &vec![200], true, false, None).unwrap_err(),
        "Invalid Host header for gRPC request"
    );
    let forward =
        build_forward_request(&headers(&[]), &b"a.test".to_vec(), true, false, Some("/x")).unwrap();
    assert_eq!(forward.uri.as_deref(), Some("https://a.test/x"));
    assert_eq!(forward.headers.get_text("te"), Some("trailers".to_string()));
}

#[test]
fn http3_honours_what_response_hooks_decide() {
    assert_eq!(after_response_hooks(HookOutcome::Proceed), IngressStep::SendResponse);
    match after_response_hooks(HookOutcome::Failed) {
        IngressStep::Answer(reply) => {
            assert_eq!(reply.status, 500);
            assert_eq!(reply.body, "Plugin processing error");
        }
        other => panic!("unexpected {other:?}"),
    }
    let reject = HookOutcome::Reject { status: 451, reason: "no".to_string() };
    match after_response_hooks(reject) {
        IngressStep::Answer(reply) => assert_eq!((reply.status, reply.body.as_str()), (451, "no")),
        other => panic!("unexpected {other:?}"),
    }
}
