//! The commands of the program: their arguments and what follows from them.

use ferrotunnel::cli_client::{
    after_connection, choose_tunnel_id, client_transport, dashboard_token, dashboard_tunnel_id,
    plan_dashboard, resolve_token, resolve_tunnel_id, rustc_version, setup_dashboard,
    setup_quic_config, stream_handler,
    validate_dashboard_config, validate_tls_args, ClientArgs, ClientFeatureArgs, DashboardConfig,
    TelemetryConfig, TlsConfig,
};
use ferrotunnel::cli_server::{plan_server, resolve_server_token, ServerArgs};
use ferrotunnel::client::{AfterConnection, StreamHandler};
use ferrotunnel::frame::Protocol;
use ferrotunnel::net::{IpAddr, SocketAddr};
use ferrotunnel::transport::TransportConfig;

const LOCALHOST: IpAddr = IpAddr::V4(127, 0, 0, 1);
const UNSPECIFIED: IpAddr = IpAddr::V4(0, 0, 0, 0);

fn client_args(tls_enabled: bool, skip_verify: bool, tls_ca: Option<String>) -> ClientArgs {
    ClientArgs {
        server: "127.0.0.1:7835".to_string(),
        token: Some("token".to_string()),
        log_level: "info".to_string(),
        local_addr: "127.0.0.1:8000".to_string(),
        tunnel_id: None,
        features: ClientFeatureArgs {
            dashboard: DashboardConfig {
                port: 4040,
                bind: LOCALHOST,
                allow_non_loopback: false,
                auth_token: None,
                disabled: true,
            },
            tls: TlsConfig { enabled: tls_enabled, skip_verify },
            telemetry: TelemetryConfig { observability: false, metrics: false },
        },
        tls_ca,
        tls_server_name: None,
        tls_cert: None,
        tls_key: None,
        quic: false,
        quic_0rtt: false,
    }
}

fn dashboard(bind: IpAddr, allow: bool, token: Option<&str>) -> DashboardConfig {
    DashboardConfig {
        port: 4040,
        bind,
        allow_non_loopback: allow,
        auth_token: token.map(|t| t.to_string()),
        disabled: false,
    }
}

fn server_args() -> ServerArgs {
    let any = |port: u16| SocketAddr::new(UNSPECIFIED, port);
    ServerArgs {
        bind: any(7835),
        token: "secret".to_string(),
        log_level: "info".to_string(),
        http_bind: any(8080),
        metrics_bind: any(9090),
        tls_cert: None,
        tls_key: None,
        tls_ca: None,
        tls_client_auth: false,
        tcp_bind: None,
        http3_bind: None,
        http3_cert: None,
        http3_key: None,
        observability: false,
        metrics: false,
        quic_bind: None,
        quic_cert: None,
        quic_key: None,
    }
}

#[test]
fn dashboard_allows_loopback_by_default() {
    let config = dashboard(LOCALHOST, false, None);

    let addr = validate_dashboard_config(&config)
        .expect("loopback bind should be allowed");

    assert!(addr.ip.is_loopback());
}

#[test]
fn dashboard_rejects_non_loopback_without_explicit_opt_in() {
    let config = dashboard(UNSPECIFIED, false, None);

    let err =
        validate_dashboard_config(&config).expect_err("non-loopback bind must fail");

    assert!(err.message().contains("--dashboard-allow-non-loopback"));
    assert!(err.message().contains("0.0.0.0"));
}

#[test]
fn dashboard_rejects_non_loopback_without_auth_token() {
    let config = dashboard(UNSPECIFIED, true, None);

    let err =
        validate_dashboard_config(&config).expect_err("exposed bind must require auth");

    assert!(err.message().contains("auth token"));
}

#[test]
fn dashboard_allows_non_loopback_with_explicit_opt_in() {
    let config = dashboard(UNSPECIFIED, true, Some("secret"));

    let addr = validate_dashboard_config(&config)
        .expect("explicit opt-in should allow exposed bind");

    assert!(!addr.ip.is_loopback());
}

#[test]
fn dashboard_rejects_empty_auth_token() {
    let config = dashboard(LOCALHOST, false, Some(""));

    let err =
        validate_dashboard_config(&config).expect_err("empty auth token must fail");

    assert!(err.message().contains("must not be empty"));
}

#[test]
fn tls_without_ca_requires_explicit_insecure_mode() {
    let args = client_args(true, false, None);

    let err = validate_tls_args(&args).expect_err("TLS without CA must fail");

    assert!(err.message().contains("--tls-ca"));
    assert!(err.message().contains("--tls-skip-verify"));
}

#[test]
fn tls_allows_explicit_skip_verify_without_ca() {
    let args = client_args(true, true, None);

    validate_tls_args(&args).expect("explicit insecure mode should be allowed");
}

#[test]
fn tls_allows_ca_without_skip_verify() {
    let args = client_args(true, false, Some("ca.crt".to_string()));

    validate_tls_args(&args).expect("CA-backed TLS should be allowed");
}

#[test]
fn the_transport_follows_the_arguments() {
    assert!(matches!(client_transport(&client_args(false, false, None)), TransportConfig::Tcp));
    let mut args = client_args(true, false, Some("ca.crt".to_string()));
    args.tls_cert = Some("c.pem".to_string());
    args.tls_server_name = Some("example.org".to_string());
    match client_transport(&args) {
        TransportConfig::Tls(tls) => {
            assert_eq!(tls.ca_cert_path.as_deref(), Some("ca.crt"));
            assert_eq!(tls.server_name.as_deref(), Some("example.org"));
            // A certificate without its key is not used.
            assert_eq!(tls.cert_path, "");
        }
        _ => panic!("expected TLS"),
    }
    args.quic = true;
    args.quic_0rtt = true;
    assert!(matches!(client_transport(&args), TransportConfig::Quic(_)));
    let quic = setup_quic_config(&args);
    assert!(quic.enable_0rtt);
    assert_eq!(quic.cert_path, "c.pem");
}

#[test]
fn tokens_and_tunnel_ids_are_resolved() {
    let given = Some("argument".to_string());
    assert_eq!(resolve_token(&given, Some("env".to_string())), given);
    assert_eq!(resolve_token(&None, Some("env".to_string())), Some("env".to_string()));
    assert_eq!(resolve_token(&None, None), None);

    assert_eq!(choose_tunnel_id(&given, false, 1), given);
    assert_eq!(choose_tunnel_id(&None, true, 1), None);
    let fresh = choose_tunnel_id(&None, false, 5);
    assert_eq!(fresh, Some(uuid::Uuid::from_u128(5).to_string()));
    assert_eq!(dashboard_tunnel_id(&fresh, false), Some(5));
    assert_eq!(dashboard_tunnel_id(&fresh, true), None);
    assert_eq!(dashboard_tunnel_id(&given, false), None);

    let mut args = client_args(false, false, None);
    assert_eq!(resolve_tunnel_id(&args), None);
    args.features.dashboard.disabled = false;
    let drawn = resolve_tunnel_id(&args).expect("the dashboard needs an id");
    assert!(uuid::Uuid::parse_str(&drawn).is_ok());
}

#[test]
fn the_dashboard_is_protected_by_a_token() {
    assert_eq!(dashboard_token(&Some("mine".to_string()), 5), "mine");
    let generated = dashboard_token(&None, 5);
    assert!(!generated.is_empty());

    let mut args = client_args(false, false, None);
    args.features.dashboard.disabled = false;
    let plan = plan_dashboard(&args, 9, 5, 77).unwrap();
    assert_eq!(plan.addr, SocketAddr::new(LOCALHOST, 4040));
    assert!(plan.generated);
    assert_eq!(plan.token, generated);
    assert_eq!(plan.tunnel.id, 9);
    assert_eq!(plan.tunnel.local_addr, "127.0.0.1:8000");
    assert_eq!(plan.tunnel.created_at, 77);
    args.features.dashboard.bind = UNSPECIFIED;
    assert!(plan_dashboard(&args, 9, 5, 77).is_err());
}

#[test]
fn the_client_command_reconnects() {
    assert_eq!(after_connection(false), AfterConnection::Reconnect(5000));
    assert_eq!(stream_handler(Protocol::TCP, false), StreamHandler::Raw);
    assert_eq!(stream_handler(Protocol::HTTP, false), StreamHandler::Http);
}

#[test]
fn the_services_of_a_server_are_planned() {
    let plan = plan_server(&server_args()).unwrap();
    assert!(matches!(plan.transport, TransportConfig::Tcp));
    assert!(plan.http3.is_none() && plan.quic.is_none());
    assert!(!plan.http3_lacks_certs && !plan.quic_lacks_certs);

    let mut args = server_args();
    args.http3_bind = Some(SocketAddr::new(UNSPECIFIED, 443));
    args.quic_bind = Some(SocketAddr::new(UNSPECIFIED, 7836));
    let plan = plan_server(&args).unwrap();
    assert!(plan.http3_lacks_certs && plan.quic_lacks_certs);

    args.tls_cert = Some("c.pem".to_string());
    args.tls_key = Some("k.pem".to_string());
    let plan = plan_server(&args).unwrap();
    assert!(matches!(plan.transport, TransportConfig::Tls(_)));
    let http3 = plan.http3.expect("certificates are there");
    assert_eq!(http3.addr.port, 443);
    assert_eq!(http3.alt_svc, "h3=\":443\"; ma=86400, h3-29=\":443\"; ma=86400");
    assert_eq!(http3.config.cert_path, "c.pem");
    assert_eq!(plan.quic.expect("certificates are there").config.key_path, "k.pem");
}

#[test]
fn tls_client_auth_without_ca_returns_error() {
    let mut args = server_args();
    args.tls_cert = Some("cert.pem".to_string());
    args.tls_key = Some("key.pem".to_string());
    args.tls_client_auth = true;

    let err = plan_server(&args).expect_err("missing CA should be returned as an error");

    assert_eq!(err.message(), "--tls-client-auth requires --tls-ca to be provided");
}

#[test]
fn the_server_token_comes_from_the_environment_or_a_file() {
    let env = Some("env".to_string());
    let file = Some("file".to_string());
    assert_eq!(resolve_server_token(env.clone(), file.clone()), env);
    assert_eq!(resolve_server_token(None, file.clone()), file);
    assert_eq!(resolve_server_token(None, None), None);
}

#[test]
fn the_compiler_version_is_known() {
    assert_eq!(rustc_version(), "1.91+");
}

#[test]
fn a_dashboard_without_a_token_gets_a_new_one() {
    let mut args = client_args(false, false, None);
    let first = setup_dashboard(&args, 9, 77).unwrap();
    let second = setup_dashboard(&args, 9, 77).unwrap();
    assert!(first.generated && second.generated);
    assert_eq!(first.token.len(), 36);
    assert_ne!(first.token, second.token);
    assert_eq!(first.tunnel.id, 9);
    args.features.dashboard.auth_token = Some("secret".to_string());
    let named = setup_dashboard(&args, 9, 77).unwrap();
    assert!(!named.generated);
    assert_eq!(named.token, "secret");
}

#[test]
fn addresses_are_put_in_words() {
    assert_eq!(UNSPECIFIED.words(), "0.0.0.0");
    assert_eq!(SocketAddr::new(LOCALHOST, 80).words(), "127.0.0.1:80");
    for (n, text) in [
        (0x0, "::"),
        (0x1, "::1"),
        (0x10000000000000000000000000000, "1::"),
        (0x20010db8000000000000000000000001, "2001:db8::1"),
        (0x20010db8000000000001000000000001, "2001:db8::1:0:0:1"),
        (0x20010000000000010000000000000001, "2001:0:0:1::1"),
        (0x10002000300040005000600070008, "1:2:3:4:5:6:7:8"),
        (0x10000000300040005000600070008, "1:0:3:4:5:6:7:8"),
        (0xfe80000000000000abcdef0123456789, "fe80::abcd:ef01:2345:6789"),
        (0xffffc0a80001, "::ffff:192.168.0.1"),
        (0xfffec0a80001, "::fffe:c0a8:1"),
        (0xffffffffffffffffffffffffffffffff, "ffff:ffff:ffff:ffff:ffff:ffff:ffff:ffff"),
    ] {
        let ip = IpAddr::V6(n);
        assert_eq!(ip.words(), text);
        assert_eq!(SocketAddr::new(ip, 443).words(), format!("[{text}]:443"));
    }
}
