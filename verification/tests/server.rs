//! The tunnel server: handshakes, sessions and their frames.

use ferrotunnel::accept_backoff::{AcceptBackoff, IoError, IoErrorKind};
use ferrotunnel::config::RateLimitConfig;
use ferrotunnel::error::TunnelError;
use ferrotunnel::frame::{
    CloseReason, Frame, HandshakeFrame, HandshakeStatus, OpenStreamFrame, Protocol, StreamPriority,
};
use ferrotunnel::handshake::{
    authenticate_handshake, check_handshake, clamp_u128_to_u64, initial_handshake_frame,
    negotiate_version, on_first_frame, FirstFrame, HandshakeOutcome,
};
use ferrotunnel::multiplexer::{FrameAction, Multiplexer};
use ferrotunnel::net::{IpAddr, SocketAddr};
use ferrotunnel::rate_limit::{RateLimiterConfig, SessionRateLimiter};
use ferrotunnel::resource_limits::ServerResourceLimits;
use ferrotunnel::session::Session;
use ferrotunnel::sharded::SessionStoreBackend;
use ferrotunnel::transport::{QuicTransportConfig, TransportConfig};
use ferrotunnel::tunnel_server::{
    handle_frame, on_accept_error, process_message, process_quic_control, AcceptStep, ServerStep,
    TunnelServer,
};

fn addr() -> SocketAddr {
    SocketAddr::new(IpAddr::V4(127, 0, 0, 1), 0)
}

fn hello(token: &str, tunnel_id: Option<&str>, min_version: u8, max_version: u8) -> HandshakeFrame {
    HandshakeFrame {
        token: token.to_string(),
        tunnel_id: tunnel_id.map(|t| t.to_string()),
        min_version,
        max_version,
        capabilities: vec!["tcp".to_string()],
    }
}

fn opening(stream_id: u32) -> Frame {
    Frame::OpenStream(Box::new(OpenStreamFrame {
        stream_id,
        protocol: Protocol::TCP,
        headers: vec![],
        body_hint: None,
        priority: StreamPriority::default(),
    }))
}

#[test]
fn test_version_negotiation_success() {
    assert_eq!(negotiate_version(1, 2).unwrap(), 1);
    assert_eq!(negotiate_version(1, 1).unwrap(), 1);
}

#[test]
fn test_version_negotiation_failure() {
    assert!(negotiate_version(3, 5).is_err());
}

#[test]
fn handshake_timeout_releases_session_permit_for_silent_peer() {
    let mut limits = ServerResourceLimits::new(1, 10, 100);
    limits.try_acquire_session().unwrap();
    assert_eq!(limits.available_sessions(), 0);
    assert!(limits.try_acquire_session().is_err());

    let err = initial_handshake_frame(
        FirstFrame::TimedOut,
        "server handshake",
        "server handshake timed out",
    )
    .unwrap_err();
    assert!(matches!(
        err,
        TunnelError::Timeout(msg) if msg.contains("server handshake timed out")
    ));
    limits.release_session();
    assert_eq!(limits.available_sessions(), 1);
}

#[test]
fn a_first_frame_is_awaited() {
    let beat = Frame::Heartbeat { timestamp: 1 };
    assert_eq!(
        initial_handshake_frame(FirstFrame::Arrived(beat.clone()), "ctx", "late"),
        Ok(beat)
    );
    assert!(initial_handshake_frame(FirstFrame::Closed, "ctx", "late").is_err());
    assert!(initial_handshake_frame(FirstFrame::Failed("bad".to_string()), "ctx", "late").is_err());
}

#[test]
fn cleanup_task_spawns_only_once() {
    let mut server = TunnelServer::new(addr(), "token".to_string());
    assert!(!server.cleanup_started);

    assert!(server.start_cleanup_task());
    assert!(!server.start_cleanup_task(), "a second cleanup loop was spawned");
    assert!(server.cleanup_started);
}

#[test]
fn process_messages_enforces_stream_open_rate_limit() {
    let mut multiplexer = Multiplexer::new(false);
    let session_id = uuid::Uuid::new_v4().as_u128();
    let tight =
        RateLimiterConfig { streams_per_sec: 1, bytes_per_sec: 1000, burst_factor: 1 };
    let mut sessions = SessionStoreBackend::default();
    let session = Session::new(
        session_id,
        "tight-tunnel".into(),
        addr(),
        "tok".into(),
        vec![],
        Some(0),
        0,
    )
    .with_rate_limiter(SessionRateLimiter::new(&tight));
    sessions.add(session).unwrap();

    let mut accepted = 0;
    for stream_id in [1u32, 3, 5] {
        match process_message(
            &mut sessions,
            &mut multiplexer,
            session_id,
            opening(stream_id),
            u64::from(stream_id),
            0,
            7,
        ) {
            ServerStep::Route(FrameAction::Announce(_)) => accepted += 1,
            ServerStep::Notify((_, Frame::CloseStream { stream_id: denied, reason })) => {
                assert_eq!(denied, stream_id);
                assert_eq!(reason, CloseReason::Error("rate limited".to_string()));
            }
            other => panic!("unexpected {other:?}"),
        }
    }
    assert_eq!(accepted, 1, "rate limiter must deny stream opens over limit");
    assert_eq!(sessions.get(&session_id).map(|s| s.last_heartbeat), Some(7));
}

#[test]
fn frames_are_handled_by_kind() {
    let mut mux = Multiplexer::new(false);
    assert_eq!(
        handle_frame(&mut mux, Frame::Heartbeat { timestamp: 5 }, true, 0, 99),
        ServerStep::Send((StreamPriority::Normal, Frame::HeartbeatAck { timestamp: 99 }))
    );
    let data = Frame::Data { stream_id: 1, data: vec![1], end_of_stream: false };
    assert_eq!(handle_frame(&mut mux, data.clone(), false, 0, 0), ServerStep::Nothing);
    assert_eq!(
        handle_frame(&mut mux, data, true, 0, 0),
        ServerStep::Route(FrameAction::Ignore)
    );
}

#[test]
fn a_session_that_is_gone_ends() {
    let mut sessions = SessionStoreBackend::default();
    let mut mux = Multiplexer::new(false);
    let step = process_message(
        &mut sessions,
        &mut mux,
        4,
        Frame::Heartbeat { timestamp: 0 },
        0,
        0,
        0,
    );
    assert_eq!(step, ServerStep::Fail(TunnelError::Protocol("Session not found".to_string())));
    assert!(process_quic_control(&mut sessions, 4, Frame::Heartbeat { timestamp: 0 }, 0, 0).is_err());

    sessions
        .add(Session::new(4, "t".into(), addr(), "tok".into(), vec![], None, 0))
        .unwrap();
    assert_eq!(
        process_quic_control(&mut sessions, 4, Frame::Heartbeat { timestamp: 0 }, 11, 3),
        Ok(Some(Frame::HeartbeatAck { timestamp: 11 }))
    );
    assert_eq!(
        process_quic_control(&mut sessions, 4, Frame::HeartbeatAck { timestamp: 0 }, 11, 4),
        Ok(None)
    );
    assert_eq!(sessions.get(&4).map(|s| s.last_heartbeat), Some(4));
}

#[test]
fn handshakes_are_checked() {
    assert_eq!(check_handshake(&hello("secret", None, 1, 9), "secret"), Ok(1));
    assert_eq!(
        check_handshake(&hello("wrong", None, 1, 1), "secret"),
        Err(HandshakeStatus::InvalidToken)
    );
    assert_eq!(check_handshake(&hello("", None, 1, 1), ""), Err(HandshakeStatus::InvalidToken));
    assert_eq!(
        check_handshake(&hello("secret", None, 2, 3), "secret"),
        Err(HandshakeStatus::VersionMismatch)
    );

    let anonymous = authenticate_handshake(hello("secret", None, 1, 1), "secret").unwrap();
    assert_eq!(
        anonymous.tunnel_id,
        uuid::Uuid::from_u128(anonymous.session_id).to_string()
    );
    let another = authenticate_handshake(hello("secret", None, 1, 1), "secret").unwrap();
    assert!(anonymous.session_id != another.session_id);
}

#[test]
fn a_tunnel_id_is_given_once() {
    let mut sessions = SessionStoreBackend::default();
    let rates = RateLimitConfig::default();
    let first = Frame::Handshake(Box::new(hello("secret", Some("mine"), 1, 1)));
    let id = match on_first_frame(&mut sessions, first.clone(), "secret", addr(), 5, rates, true, 3) {
        HandshakeOutcome::Established { session_id, tunnel_id, reply } => {
            assert_eq!(tunnel_id, "mine");
            assert_eq!(
                reply,
                Frame::HandshakeAck {
                    session_id,
                    status: HandshakeStatus::Success,
                    version: 1,
                    server_capabilities: vec!["basic".to_string(), "quic".to_string()],
                }
            );
            session_id
        }
        other => panic!("unexpected {other:?}"),
    };
    assert_eq!(sessions.get_by_tunnel_id("mine").map(|s| s.id), Some(id));
    assert_eq!(sessions.multiplexer_of("mine"), Some(Some(5)));

    match on_first_frame(&mut sessions, first, "secret", addr(), 6, rates, false, 4) {
        HandshakeOutcome::Taken { reply, error } => {
            assert!(matches!(
                reply,
                Frame::HandshakeAck { status: HandshakeStatus::TunnelIdTaken, version: 0, .. }
            ));
            assert_eq!(
                error,
                TunnelError::Protocol("Tunnel ID 'mine' already in use".to_string())
            );
        }
        other => panic!("unexpected {other:?}"),
    }
    assert_eq!(sessions.count(), 1);

    let intruder = Frame::Handshake(Box::new(hello("wrong", Some("other"), 1, 1)));
    match on_first_frame(&mut sessions, intruder, "secret", addr(), 7, rates, false, 5) {
        HandshakeOutcome::Refused { reply } => assert_eq!(
            reply,
            Frame::HandshakeAck {
                session_id: 0,
                status: HandshakeStatus::InvalidToken,
                version: 0,
                server_capabilities: vec![],
            }
        ),
        other => panic!("unexpected {other:?}"),
    }
    assert!(matches!(
        on_first_frame(&mut sessions, opening(1), "secret", addr(), 8, rates, false, 6),
        HandshakeOutcome::Failed(TunnelError::Protocol(_))
    ));
    assert_eq!(sessions.count(), 1);
}

#[test]
fn a_session_keeps_to_the_configured_rates() {
    let mut sessions = SessionStoreBackend::default();
    let rates = RateLimitConfig { streams_per_sec: 1, bytes_per_sec: 10, burst_factor: 0 };
    let first = Frame::Handshake(Box::new(hello("secret", Some("mine"), 1, 1)));
    let id = match on_first_frame(&mut sessions, first, "secret", addr(), 5, rates, false, 3) {
        HandshakeOutcome::Established { session_id, .. } => session_id,
        other => panic!("unexpected {other:?}"),
    };
    let limiter = sessions.rate_limiter(&id).unwrap();
    assert!(limiter.check_stream_open().is_ok());
    assert!(limiter.check_stream_open().is_err());
    assert!(limiter.check_data(11).is_err());
    assert!(limiter.check_data(10).is_ok());
}

#[test]
fn builders_keep_the_other_settings() {
    let server = TunnelServer::new(addr(), "token".to_string())
        .with_handshake_timeout(5)
        .with_tls("c.pem".to_string(), "k.pem".to_string())
        .with_client_auth("ca.pem".to_string())
        .with_sharded_sessions(4)
        .with_resource_limits(ServerResourceLimits::new(3, 4, 5));
    assert_eq!(server.handshake_timeout_millis, 5);
    assert_eq!(server.session_timeout_millis, 90_000);
    assert_eq!(server.resource_limits.available_sessions(), 3);
    match &server.transport_config {
        TransportConfig::Tls(tls) => {
            assert_eq!((tls.cert_path.as_str(), tls.key_path.as_str()), ("c.pem", "k.pem"));
            assert_eq!(tls.ca_cert_path.as_deref(), Some("ca.pem"));
            assert!(tls.client_auth);
        }
        _ => panic!("expected TLS"),
    }
    assert!(server.quic_config().is_err());
    let quic = TunnelServer::new(addr(), "token".to_string())
        .with_transport(TransportConfig::Quic(QuicTransportConfig::default()));
    assert!(quic.quic_config().is_ok());
}

#[test]
fn accept_loops_retry_transient_errors() {
    let mut backoff = AcceptBackoff::default();
    let reset = IoError { kind: IoErrorKind::ConnectionReset, raw_os_error: None };
    let fatal = IoError { kind: IoErrorKind::PermissionDenied, raw_os_error: None };
    assert_eq!(
        on_accept_error(&mut backoff, &reset),
        AcceptStep::Retry { attempt: 0, log: true }
    );
    assert_eq!(
        on_accept_error(&mut backoff, &reset),
        AcceptStep::Retry { attempt: 1, log: false }
    );
    assert_eq!(on_accept_error(&mut backoff, &fatal), AcceptStep::Fail);
}

#[test]
fn times_are_clamped() {
    assert_eq!(clamp_u128_to_u64(7), 7);
    assert_eq!(clamp_u128_to_u64(u128::MAX), u64::MAX);
}

#[test]
fn servers_can_share_their_sessions() {
    let mut sessions = SessionStoreBackend::default();
    assert_eq!(sessions.count(), 0);
    sessions
        .add(Session::new(4, "shared".into(), addr(), "tok".into(), vec![], None, 0))
        .unwrap();
    let server = TunnelServer::new(addr(), "token".to_string()).with_sessions(sessions);
    assert_eq!(server.sessions.count(), 1);
    assert!(server.sessions.get_by_tunnel_id("shared").is_some());
}
