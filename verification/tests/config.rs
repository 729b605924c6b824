//! Configuration, builders, and the lives of the embeddable client and server.

use ferrotunnel::client::{client_stream_handler, AfterConnection, Client, StreamHandler};
use ferrotunnel::config::{LimitsConfig, QuicConfig, TlsConfig};
use ferrotunnel::error::TunnelError;
use ferrotunnel::frame::Protocol;
use ferrotunnel::net::{IpAddr, SocketAddr};
use ferrotunnel::server::Server;
use ferrotunnel::transport::TransportConfig;
use ferrotunnel::tunnel_config::{ClientConfig, ServerConfig, TunnelInfo};

const SECOND: u64 = 1000;

fn v4(a: u8, b: u8, c: u8, d: u8, port: u16) -> SocketAddr {
    SocketAddr::new(IpAddr::V4(a, b, c, d), port)
}

fn error_of<T>(result: Result<T, TunnelError>) -> TunnelError {
    match result {
        Ok(_) => panic!("expected an error"),
        Err(e) => e,
    }
}

fn built<T>(result: Result<T, TunnelError>) -> T {
    match result {
        Ok(t) => t,
        Err(e) => panic!("should build: {e:?}"),
    }
}

#[test]
fn test_client_builder_success() {
    let client = Client::builder()
        .server_addr("localhost:7835")
        .token("secret-token")
        .local_addr("127.0.0.1:9000")
        .build();
    assert!(client.is_ok());
}

#[test]
fn test_client_builder_with_all_options() {
    let client = built(
        Client::builder()
            .server_addr("tunnel.example.com:7835")
            .token("my-token")
            .local_addr("127.0.0.1:3000")
            .auto_reconnect(false)
            .reconnect_delay(10 * SECOND)
            .limits(&LimitsConfig { max_frame_bytes: 4096, ..Default::default() })
            .build(),
    );

    assert_eq!(client.config().server_addr, "tunnel.example.com:7835");
    assert_eq!(client.config().token, "my-token");
    assert_eq!(client.config().local_addr, "127.0.0.1:3000");
    assert!(!client.config().auto_reconnect);
    assert_eq!(client.config().reconnect_delay, 10 * SECOND);
    assert_eq!(client.config().limits.max_frame_bytes, 4096);
}

#[test]
fn test_client_builder_missing_server_addr() {
    let result = Client::builder().token("secret").local_addr("127.0.0.1:8080").build();
    assert!(result.is_err());
    assert!(error_of(result).message().contains("server_addr"));
}

#[test]
fn test_client_builder_missing_token() {
    let result =
        Client::builder().server_addr("localhost:7835").local_addr("127.0.0.1:8080").build();
    assert!(result.is_err());
    assert!(error_of(result).message().contains("token"));
}

#[test]
fn test_client_builder_default_local_addr() {
    let client = built(Client::builder().server_addr("localhost:7835").token("secret").build());

    assert_eq!(client.config().local_addr, "127.0.0.1:8080");
}

#[test]
fn test_client_not_running_initially() {
    let client = built(Client::builder().server_addr("localhost:7835").token("secret").build());

    assert!(!client.is_running());
}

#[test]
fn test_client_builder_tls_disabled() {
    let tls = TlsConfig { enabled: false, ..Default::default() };
    let client = built(
        Client::builder().server_addr("localhost:7835").token("secret").tls(&tls).build(),
    );

    assert!(!client.config().server_addr.is_empty());
    assert!(matches!(client.transport_config, TransportConfig::Tcp));
}

#[test]
fn a_transport_that_is_enabled_is_used() {
    let tls = TlsConfig {
        enabled: true,
        ca_cert_path: Some("ca.pem".to_string()),
        ..Default::default()
    };
    let client = built(
        Client::builder().server_addr("localhost:7835").token("secret").tls(&tls).build(),
    );
    assert!(matches!(
        &client.transport_config,
        TransportConfig::Tls(t) if t.ca_cert_path.as_deref() == Some("ca.pem")
    ));

    let quic = QuicConfig { enabled: true, enable_0rtt: true, ..Default::default() };
    let client = built(
        Client::builder().server_addr("localhost:7835").token("secret").quic(&quic).build(),
    );
    assert!(matches!(&client.transport_config, TransportConfig::Quic(q) if q.enable_0rtt));
}

#[test]
fn a_client_is_started_once_and_stopped() {
    let mut client = built(
        Client::builder()
            .server_addr("localhost:7835")
            .token("secret")
            .reconnect_delay(7)
            .build(),
    );
    assert_eq!(client.start(), Ok(()));
    assert!(client.is_running());
    assert_eq!(
        client.start(),
        Err(TunnelError::InvalidState("client already started".to_string()))
    );
    assert_eq!(client.after_connection(false), AfterConnection::Reconnect(7));
    assert_eq!(client.after_connection(true), AfterConnection::Stop);
    let info = client.publish_tunnel_info(5).expect("the first session is published");
    assert_eq!(info.session_id(), Some(5));
    assert!(client.publish_tunnel_info(6).is_none());
    client.task_finished();
    assert!(!client.is_running());
    client.shutdown();
    assert!(!client.is_running());
}

#[test]
fn streams_are_handled_by_protocol() {
    assert_eq!(client_stream_handler(Protocol::HTTP, false), StreamHandler::Http);
    assert_eq!(client_stream_handler(Protocol::GRPC, false), StreamHandler::Grpc);
    assert_eq!(client_stream_handler(Protocol::TCP, false), StreamHandler::Http);
    assert_eq!(client_stream_handler(Protocol::HTTP, true), StreamHandler::Raw);
    assert_eq!(
        Client::connection_failed(),
        TunnelError::Connection("Failed to establish connection".to_string())
    );
}

#[test]
fn test_client_config_default() {
    let config = ClientConfig::default();
    assert!(config.server_addr.is_empty());
    assert!(config.token.is_empty());
    assert_eq!(config.local_addr, "127.0.0.1:8080");
    assert!(config.auto_reconnect);
    assert_eq!(config.reconnect_delay, 5 * SECOND);
    assert_eq!(config.startup_timeout, Some(30 * SECOND));
    assert_eq!(config.limits.max_frame_bytes, 16 * 1024 * 1024);
}

#[test]
fn test_client_config_validate_success() {
    let config = ClientConfig {
        server_addr: "localhost:7835".to_string(),
        token: "secret-token".to_string(),
        local_addr: "127.0.0.1:8080".to_string(),
        ..Default::default()
    };
    assert!(config.validate().is_ok());
}

#[test]
fn test_client_config_validate_rejects_zero_frame_limit() {
    let mut config = ClientConfig {
        server_addr: "localhost:7835".to_string(),
        token: "secret-token".to_string(),
        local_addr: "127.0.0.1:8080".to_string(),
        ..Default::default()
    };
    config.limits.max_frame_bytes = 0;
    let err = config.validate().unwrap_err();
    assert!(err.message().contains("max_frame_bytes"));
}

#[test]
fn test_client_config_validate_rejects_oversized_frame_limit() {
    let mut config = ClientConfig {
        server_addr: "localhost:7835".to_string(),
        token: "secret-token".to_string(),
        local_addr: "127.0.0.1:8080".to_string(),
        ..Default::default()
    };
    config.limits.max_frame_bytes = 17 * 1024 * 1024;
    let err = config.validate().unwrap_err();
    assert!(err.message().contains("max_frame_bytes"));
}

#[test]
fn test_client_config_validate_missing_server_addr() {
    let config = ClientConfig {
        server_addr: String::new(),
        token: "secret".to_string(),
        local_addr: "127.0.0.1:8080".to_string(),
        ..Default::default()
    };
    let err = config.validate().unwrap_err();
    assert!(err.message().contains("server_addr"));
}

#[test]
fn test_client_config_validate_missing_token() {
    let config = ClientConfig {
        server_addr: "localhost:7835".to_string(),
        token: String::new(),
        local_addr: "127.0.0.1:8080".to_string(),
        ..Default::default()
    };
    let err = config.validate().unwrap_err();
    assert!(err.message().contains("token"));
}

#[test]
fn test_client_config_validate_missing_local_addr() {
    let config = ClientConfig {
        server_addr: "localhost:7835".to_string(),
        token: "secret".to_string(),
        local_addr: String::new(),
        ..Default::default()
    };
    let err = config.validate().unwrap_err();
    assert!(err.message().contains("local_addr"));
}

#[test]
fn test_client_config_getters() {
    let config = ClientConfig {
        server_addr: "localhost:7835".to_string(),
        token: "secret".to_string(),
        local_addr: "127.0.0.1:8080".to_string(),
        tunnel_id: Some("my-tunnel".to_string()),
        ..Default::default()
    };
    assert_eq!(config.server_addr(), "localhost:7835");
    assert_eq!(config.token(), "secret");
    assert_eq!(config.local_addr(), "127.0.0.1:8080");
    assert_eq!(config.tunnel_id(), Some("my-tunnel"));
    assert!(config.auto_reconnect());
    assert_eq!(config.reconnect_delay(), 5 * SECOND);
    assert_eq!(config.startup_timeout(), Some(30 * SECOND));
    assert_eq!(config.limits().max_frame_bytes, 16 * 1024 * 1024);
}

#[test]
fn test_client_config_debug_redacts_token() {
    let config = ClientConfig {
        server_addr: "localhost:7835".to_string(),
        token: "super-secret-token".to_string(),
        ..Default::default()
    };
    let rendered = config.debug_text();
    assert!(!rendered.contains("super-secret-token"));
    assert!(rendered.contains("<redacted>"));
    assert!(rendered.contains("server_addr: \"localhost:7835\""));
}

#[test]
fn test_server_config_default() {
    let config = ServerConfig::default();
    assert_eq!(config.bind_addr, v4(0, 0, 0, 0, 7835));
    assert_eq!(config.http_bind_addr, v4(0, 0, 0, 0, 8080));
    assert!(config.token.is_empty());
    assert_eq!(config.limits.max_frame_bytes, 16 * 1024 * 1024);
}

#[test]
fn test_server_config_validate_success() {
    let config = ServerConfig { token: "secret-token".to_string(), ..Default::default() };
    assert!(config.validate().is_ok());
}

#[test]
fn test_server_config_validate_rejects_zero_frame_limit() {
    let mut config = ServerConfig { token: "secret-token".to_string(), ..Default::default() };
    config.limits.max_frame_bytes = 0;
    let err = config.validate().unwrap_err();
    assert!(err.message().contains("max_frame_bytes"));
}

#[test]
fn test_server_config_validate_rejects_oversized_frame_limit() {
    let mut config = ServerConfig { token: "secret-token".to_string(), ..Default::default() };
    config.limits.max_frame_bytes = 17 * 1024 * 1024;
    let err = config.validate().unwrap_err();
    assert!(err.message().contains("max_frame_bytes"));
}

#[test]
fn test_server_config_validate_missing_token() {
    let config = ServerConfig::default();
    let err = config.validate().unwrap_err();
    assert!(err.message().contains("token"));
}

#[test]
fn test_server_config_getters() {
    let config = ServerConfig { token: "secret".to_string(), ..Default::default() };
    assert_eq!(config.bind_addr(), v4(0, 0, 0, 0, 7835));
    assert_eq!(config.http_bind_addr(), v4(0, 0, 0, 0, 8080));
    assert_eq!(config.token(), "secret");
    assert_eq!(config.limits().max_frame_bytes, 16 * 1024 * 1024);
    assert_eq!(config.http3_bind_addr(), None);
    assert_eq!(config.http3_cert_path(), None);
    assert_eq!(config.rate_limits().streams_per_sec, 100);
    assert_eq!(config.http_response_timeout(), 60 * SECOND);
}

#[test]
fn test_server_config_debug_redacts_token() {
    let config = ServerConfig { token: "super-secret-token".to_string(), ..Default::default() };
    let rendered = config.debug_text();
    assert!(!rendered.contains("super-secret-token"));
    assert!(rendered.contains("<redacted>"));
    assert!(rendered.contains("bind_addr: 0.0.0.0:7835"));
}

#[test]
fn configurations_that_differ_in_their_tokens_print_alike() {
    let a = ServerConfig { token: "one".to_string(), ..Default::default() };
    let b = ServerConfig { token: "two".to_string(), ..Default::default() };
    assert_eq!(a.debug_text(), b.debug_text());
    let a = ClientConfig { token: "one".to_string(), ..Default::default() };
    let b = ClientConfig { token: "two".to_string(), ..Default::default() };
    assert_eq!(a.debug_text(), b.debug_text());
}

#[test]
fn the_http3_ingress_needs_certificates() {
    let config = ServerConfig {
        token: "secret".to_string(),
        http3_bind_addr: Some(v4(127, 0, 0, 1, 443)),
        ..Default::default()
    };
    assert!(config.validate().is_err());
    let config = ServerConfig {
        token: "secret".to_string(),
        http_response_timeout: 0,
        ..Default::default()
    };
    assert!(config.validate().is_err());
    let server = built(
        Server::builder()
            .token("secret")
            .http3(v4(127, 0, 0, 1, 443), "c.pem", "k.pem")
            .build(),
    );
    assert_eq!(server.config().http3_cert_path(), Some("c.pem"));
    assert_eq!(server.config().http3_key_path(), Some("k.pem"));
}

#[test]
fn test_tunnel_info_none_values() {
    let info = TunnelInfo { session_id: None, public_url: None };
    assert!(info.session_id().is_none());
    assert!(info.public_url().is_none());
}

#[test]
fn test_tunnel_info_with_values() {
    let uuid = uuid::Uuid::new_v4().as_u128();
    let info = TunnelInfo {
        session_id: Some(uuid),
        public_url: Some("https://tunnel.example.com".to_string()),
    };
    assert_eq!(info.session_id(), Some(uuid));
    assert_eq!(info.public_url(), Some("https://tunnel.example.com"));
}

#[test]
fn test_server_builder_success() {
    let server = Server::builder()
        .bind(v4(127, 0, 0, 1, 7835))
        .http_bind(v4(127, 0, 0, 1, 8080))
        .token("secret-token")
        .build();
    assert!(server.is_ok());
}

#[test]
fn test_server_builder_with_all_options() {
    let server = built(
        Server::builder()
            .bind(v4(0, 0, 0, 0, 9000))
            .http_bind(v4(0, 0, 0, 0, 9001))
            .token("my-token")
            .build(),
    );

    assert_eq!(server.config().bind_addr, v4(0, 0, 0, 0, 9000));
    assert_eq!(server.config().http_bind_addr, v4(0, 0, 0, 0, 9001));
    assert_eq!(server.config().token, "my-token");
}

#[test]
fn test_server_builder_missing_token() {
    let result = Server::builder().bind(v4(127, 0, 0, 1, 7835)).build();
    assert!(result.is_err());
    assert!(error_of(result).message().contains("token"));
}

#[test]
fn test_server_builder_default_addresses() {
    let server = built(Server::builder().token("secret").build());

    assert_eq!(server.config().bind_addr, v4(0, 0, 0, 0, 7835));
    assert_eq!(server.config().http_bind_addr, v4(0, 0, 0, 0, 8080));
}

#[test]
fn test_server_not_running_initially() {
    let server = built(Server::builder().token("secret").build());

    assert!(!server.is_running());
}

#[test]
fn test_server_builder_tls_disabled() {
    let tls = TlsConfig { enabled: false, ..Default::default() };
    let server = built(Server::builder().token("secret").tls(&tls).build());

    assert!(!server.is_running());
}

#[test]
fn a_server_is_started_once_and_stopped() {
    let mut server = built(Server::builder().token("secret").build());
    assert_eq!(server.start(), Ok(()));
    assert!(server.is_running());
    assert!(server.start().is_err());
    assert!(!server.uses_quic());
    server.task_finished();
    assert!(!server.is_running());
    server.shutdown();
    let quic = QuicConfig { enabled: true, ..Default::default() };
    assert!(built(Server::builder().token("secret").quic(&quic).build()).uses_quic());
    assert!(Server::service_panicked(true, "oops").message().contains("oops"));
}

#[test]
fn addresses_in_words() {
    assert_eq!(v4(127, 0, 0, 1, 80).words(), "127.0.0.1:80");
    let v6 = SocketAddr::new(IpAddr::V6(0x2001_0db8_0000_0000_0000_0000_0000_00ff), 443);
    assert_eq!(v6.words(), "[2001:db8::ff]:443");
    assert!(IpAddr::V4(127, 9, 9, 9).is_loopback());
    assert!(IpAddr::V6(1).is_loopback());
    assert!(!IpAddr::V6(2).is_loopback());
}

#[test]
fn settings_that_are_not_given_are_the_safe_ones() {
    assert!(!TlsConfig::default().skip_verify);
    assert!(!TlsConfig::default().enabled);
    assert!(!QuicConfig::default().skip_verify);
}

#[test]
fn configurations_are_put_in_words() {
    let mut config = ClientConfig {
        server_addr: "a\"b\\c\n\u{1b}\u{7f}'".to_string(),
        token: "secret".to_string(),
        tunnel_id: Some("na\u{ef}ve\u{301}\u{200b}".to_string()),
        reconnect_delay: 1_250,
        startup_timeout: Some(30_000),
        ..Default::default()
    };
    let rendered = config.debug_text();
    assert!(rendered.contains(&format!("server_addr: {:?}", config.server_addr)));
    assert!(rendered.contains(&format!("tunnel_id: {:?}", config.tunnel_id)));
    assert!(rendered.contains("token: \"<redacted>\""));
    assert!(rendered.contains("reconnect_delay: 1.25s"));
    assert!(rendered.contains("startup_timeout: Some(30s)"));
    for millis in [0, 1, 250, 999, 1_000, 1_001, 1_010, 1_100, 59_999, 86_400_000] {
        config.reconnect_delay = millis;
        let delay = std::time::Duration::from_millis(millis);
        assert!(config.debug_text().contains(&format!("reconnect_delay: {delay:?},")));
    }
}
