//! Authentication, reconnection, accept loops and transports.

use ferrotunnel::accept_backoff::{
    is_fd_exhaustion, is_fd_exhaustion_with_codes, is_transient_accept_error,
    is_transient_with_codes, AcceptBackoff, IoError, IoErrorKind,
};
use ferrotunnel::auth::{
    constant_time_eq, hash_token, matches_any_token, validate_token_format, verify_token_hash,
    TokenValidationError,
};
use ferrotunnel::config::{QuicConfig, TlsConfig};
use ferrotunnel::error::TunnelError;
use ferrotunnel::reconnect::{Backoff, ReconnectManager, ReconnectState};
use ferrotunnel::transport::{
    client_tls_plan, server_client_ca, split_host_port, tls_server_name, PushOutcome, PushRetry,
    PushStep, QuicTransportConfig, ServerVerification, TlsTransportConfig,
};

fn error(kind: IoErrorKind) -> IoError {
    IoError { kind, raw_os_error: None }
}

fn os_error(code: i32) -> IoError {
    IoError { kind: IoErrorKind::Other, raw_os_error: Some(code) }
}

#[test]
fn test_constant_time_eq() {
    assert!(constant_time_eq(b"hello", b"hello"));
    assert!(!constant_time_eq(b"hello", b"world"));
    assert!(!constant_time_eq(b"hello", b"hell"));
    assert!(!constant_time_eq(b"", b"x"));
    assert!(constant_time_eq(b"", b""));
}

#[test]
fn test_hash_and_verify() {
    let token = "my-secret-token";
    let hash = hash_token(token);

    assert!(verify_token_hash(token, &hash));
    assert!(!verify_token_hash("wrong-token", &hash));
}

#[test]
fn a_token_is_hashed_with_sha256() {
    let hash = hash_token("abc");
    assert_eq!(hash[..8], [0xba, 0x78, 0x16, 0xbf, 0x8f, 0x01, 0xcf, 0xea]);
    assert_eq!(hash[24..], [0xb4, 0x10, 0xff, 0x61, 0xf2, 0x00, 0x15, 0xad]);
}

#[test]
fn test_validate_token_format() {
    assert!(validate_token_format("valid-token-123", 256).is_ok());
    assert!(validate_token_format("", 256).is_err());
    assert!(validate_token_format("x".repeat(300).as_str(), 256).is_err());
    assert!(validate_token_format("has\nnewline", 256).is_err());
}

#[test]
fn each_malformed_token_has_its_error() {
    assert_eq!(validate_token_format("", 256), Err(TokenValidationError::Empty));
    assert_eq!(
        validate_token_format("abcd", 3),
        Err(TokenValidationError::TooLong { len: 4, max: 3 })
    );
    assert_eq!(
        validate_token_format("tab\tinside", 256),
        Err(TokenValidationError::InvalidCharacters)
    );
    assert!(validate_token_format("abc", 3).is_ok());
    assert_eq!(TokenValidationError::Empty.message(), "token is empty");
}

#[test]
fn any_of_several_tokens_matches() {
    let tokens = vec!["alpha".to_string(), "beta".to_string()];
    assert!(matches_any_token(&tokens, b"beta"));
    assert!(matches_any_token(&tokens, b"alpha"));
    assert!(!matches_any_token(&tokens, b"gamma"));
    assert!(!matches_any_token(&Vec::new(), b"alpha"));
}

#[test]
fn test_backoff_reset() {
    let mut backoff = Backoff::new();

    let _ = backoff.next_attempt();
    let _ = backoff.next_attempt();
    assert_eq!(backoff.attempts(), 2);

    backoff.reset();
    assert_eq!(backoff.attempts(), 0);
}

#[test]
fn test_reconnect_manager() {
    let mut manager = ReconnectManager::new(Some(2));

    assert!(manager.should_retry());

    let _ = manager.on_disconnected();
    assert!(manager.should_retry());

    let _ = manager.on_disconnected();
    assert!(manager.should_retry());

    let _ = manager.on_disconnected();
    assert!(!manager.should_retry());
}

#[test]
fn connecting_again_forgets_earlier_failures() {
    let mut manager = ReconnectManager::new(Some(1));
    assert_eq!(manager.on_disconnected(), Some(0));
    assert_eq!(manager.state(), ReconnectState::Backoff);
    manager.start_reconnect();
    assert_eq!(manager.state(), ReconnectState::Reconnecting);
    manager.on_connected();
    assert_eq!(manager.state(), ReconnectState::Connected);
    assert_eq!(manager.on_disconnected(), Some(0));
    assert_eq!(manager.on_disconnected(), None);
    assert_eq!(manager.state(), ReconnectState::Failed);

    let mut patient = ReconnectManager::new(None);
    for attempt in 0..500 {
        assert_eq!(patient.on_disconnected(), Some(attempt));
    }
    assert!(patient.should_retry());
}

#[test]
fn backoff_grows_then_resets() {
    let mut backoff = AcceptBackoff::default();

    let (first, log_first) = backoff.record_failure();
    let (second, _) = backoff.record_failure();
    assert!(second >= first);
    assert!(log_first);

    backoff.reset();
    let (_, log_after_reset) = backoff.record_failure();
    assert!(log_after_reset);
}

#[test]
fn backoff_rate_limits_logging() {
    let mut backoff = AcceptBackoff::default();
    let logged = (0..120).filter(|_| backoff.record_failure().1).count();
    assert_eq!(logged, 3);
}

#[test]
fn accept_backoff_classifies_retryable_accept_errors() {
    for kind in [
        IoErrorKind::Interrupted,
        IoErrorKind::WouldBlock,
        IoErrorKind::ConnectionAborted,
        IoErrorKind::ConnectionReset,
    ] {
        assert!(is_transient_accept_error(&error(kind)));
    }
}

#[test]
fn accept_backoff_classifies_fatal_accept_errors() {
    for kind in [
        IoErrorKind::AddrNotAvailable,
        IoErrorKind::InvalidInput,
        IoErrorKind::PermissionDenied,
    ] {
        assert!(!is_transient_accept_error(&error(kind)));
    }
}

#[test]
fn accept_backoff_classifies_file_descriptor_exhaustion_as_retryable() {
    assert!(is_transient_accept_error(&os_error(libc::EMFILE)));
    assert!(is_transient_accept_error(&os_error(libc::ENFILE)));
}

#[test]
fn accept_errors_classifies_retryable_accept_errors() {
    for kind in [
        IoErrorKind::Interrupted,
        IoErrorKind::WouldBlock,
        IoErrorKind::ConnectionAborted,
        IoErrorKind::ConnectionReset,
    ] {
        assert!(is_transient_with_codes(&error(kind), libc::EMFILE, libc::ENFILE));
    }
}

#[test]
fn accept_errors_classifies_fatal_accept_errors() {
    for kind in [
        IoErrorKind::AddrNotAvailable,
        IoErrorKind::InvalidInput,
        IoErrorKind::PermissionDenied,
    ] {
        assert!(!is_transient_with_codes(&error(kind), libc::EMFILE, libc::ENFILE));
    }
}

#[test]
fn accept_errors_classifies_file_descriptor_exhaustion_as_retryable() {
    assert!(is_transient_accept_error(&os_error(libc::EMFILE)));
    assert!(is_transient_accept_error(&os_error(libc::ENFILE)));
    assert!(is_fd_exhaustion(&os_error(libc::EMFILE)));
    assert!(!is_fd_exhaustion(&os_error(libc::EACCES)));
    assert!(is_fd_exhaustion_with_codes(&os_error(24), 24, 23));
    assert!(!is_fd_exhaustion_with_codes(&os_error(22), 24, 23));
}

#[test]
fn from_common_preserves_skip_verify() {
    let config = TlsConfig {
        enabled: true,
        skip_verify: true,
        server_name: Some("localhost".to_string()),
        ..Default::default()
    };

    let tls = TlsTransportConfig::from_common(&config).expect("TLS should be enabled");

    assert!(tls.skip_verify);
    assert_eq!(tls.server_name.as_deref(), Some("localhost"));
}

#[test]
fn a_disabled_transport_has_no_configuration() {
    assert!(TlsTransportConfig::from_common(&TlsConfig::default()).is_none());
    assert!(QuicTransportConfig::from_common(&QuicConfig::default()).is_none());
    let quic = QuicTransportConfig::from_common(&QuicConfig {
        enabled: true,
        cert_path: Some("c.pem".to_string()),
        keep_alive_interval_secs: Some(3),
        ..Default::default()
    })
    .expect("QUIC is enabled");
    assert_eq!(quic.cert_path, "c.pem");
    assert_eq!(quic.keep_alive_interval_secs, 3);
    assert_eq!(quic.max_idle_timeout_secs, 30);
}

#[test]
fn client_authentication_needs_a_ca() {
    let config = TlsTransportConfig { client_auth: true, ..Default::default() };
    assert_eq!(
        server_client_ca(&config),
        Err(TunnelError::Io(
            "CA certificate path required for client authentication".to_string()
        ))
    );
    let config = TlsTransportConfig {
        client_auth: true,
        ca_cert_path: Some("ca.pem".to_string()),
        ..Default::default()
    };
    assert_eq!(server_client_ca(&config), Ok(Some("ca.pem".to_string())));
    assert_eq!(server_client_ca(&TlsTransportConfig::default()), Ok(None));
}

#[test]
fn a_client_verifies_the_server_unless_told_not_to() {
    let plan = client_tls_plan(&TlsTransportConfig {
        ca_cert_path: Some("ca.pem".to_string()),
        cert_path: "c.pem".to_string(),
        key_path: "k.pem".to_string(),
        ..Default::default()
    })
    .unwrap();
    assert!(matches!(&plan.verification, ServerVerification::Roots(p) if p == "ca.pem"));
    assert_eq!(plan.identity, Some(("c.pem".to_string(), "k.pem".to_string())));

    let plan = client_tls_plan(&TlsTransportConfig { skip_verify: true, ..Default::default() });
    assert!(matches!(plan.unwrap().verification, ServerVerification::Skipped));
    assert!(client_tls_plan(&TlsTransportConfig::default()).is_err());
}

#[test]
fn the_server_name_comes_from_the_configuration_or_the_address() {
    let named = TlsTransportConfig {
        server_name: Some("example.org".to_string()),
        ..Default::default()
    };
    assert_eq!(tls_server_name(&named, "10.0.0.1:7835"), "example.org");
    assert_eq!(tls_server_name(&TlsTransportConfig::default(), "host.test:7835"), "host.test");
}

#[test]
fn addresses_split_into_host_and_port() {
    let split = |addr: &str| split_host_port(addr, None);
    assert_eq!(split("example.org:443"), Ok(("example.org".to_string(), 443)));
    assert_eq!(split("[::1]:8080"), Ok(("::1".to_string(), 8080)));
    assert_eq!(
        split("example.org"),
        Err(TunnelError::Io("missing port in address: example.org".to_string()))
    );
    assert_eq!(
        split("[::1"),
        Err(TunnelError::Io("invalid bracketed address: [::1".to_string()))
    );
    for port in ["70000", "", "+", "8o", "-1", "99999x"] {
        let reason = port.parse::<u16>().unwrap_err().to_string();
        assert_eq!(
            split(&format!("host:{port}")),
            Err(TunnelError::Io(format!("invalid port in address: {reason}")))
        );
    }
    assert_eq!(split("host:+80"), Ok(("host".to_string(), 80)));
    assert_eq!(
        split_host_port("::1", Some(("::1".to_string(), 9))),
        Ok(("::1".to_string(), 9))
    );
}

#[test]
fn a_push_is_retried_until_its_deadline() {
    let mut retry = PushRetry::start(100);
    assert_eq!(retry.step(PushOutcome::Full, 100), PushStep::Retry(1));
    assert_eq!(retry.step(PushOutcome::Full, 101), PushStep::Retry(2));
    assert_eq!(retry.step(PushOutcome::Full, 103), PushStep::Retry(4));
    assert_eq!(retry.step(PushOutcome::Full, 107), PushStep::Retry(8));
    assert_eq!(retry.step(PushOutcome::Full, 115), PushStep::Retry(10));
    assert_eq!(retry.step(PushOutcome::Full, 5097), PushStep::Retry(3));
    assert_eq!(
        retry.step(PushOutcome::Full, 5100),
        PushStep::Fail(TunnelError::Protocol(
            "timed out sending frame to wire channel".to_string()
        ))
    );
    assert_eq!(retry.step(PushOutcome::Sent, 5100), PushStep::Done);
    assert_eq!(
        retry.step(PushOutcome::Closed("gone".to_string()), 0),
        PushStep::Fail(TunnelError::Protocol("gone".to_string()))
    );
}

#[test]
fn quic_splits_into_the_tls_of_each_side() {
    let config = QuicTransportConfig {
        cert_path: "cert.pem".to_string(),
        key_path: "key.pem".to_string(),
        ca_cert_path: Some("ca.pem".to_string()),
        server_name: Some("example.test".to_string()),
        skip_verify: true,
        client_auth: true,
        ..Default::default()
    };
    let client = config.client_tls();
    assert!(client.skip_verify && !client.client_auth);
    assert_eq!(client.server_name.as_deref(), Some("example.test"));
    let server = config.server_tls();
    assert!(!server.skip_verify && server.client_auth);
    assert_eq!(server.cert_path, "cert.pem");
    assert_eq!(server.key_path, "key.pem");
    assert_eq!(server.ca_cert_path.as_deref(), Some("ca.pem"));
}

#[test]
fn failures_in_a_row_are_retried_up_to_the_bound() {
    let mut manager = ReconnectManager::new(Some(3));
    for _ in 0..2 {
        for attempt in 0..3 {
            assert_eq!(manager.on_disconnected(), Some(attempt));
            assert_eq!(manager.state(), ReconnectState::Backoff);
        }
        assert_eq!(manager.on_disconnected(), None);
        assert_eq!(manager.state(), ReconnectState::Failed);
        manager.on_connected();
    }
}
