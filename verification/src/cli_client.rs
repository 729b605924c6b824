//! The client command: what its arguments mean.

use vstd::prelude::*;

use crate::client::{AfterConnection, StreamHandler};
use crate::dashboard::{DashboardTunnelInfo, TunnelStatus, parse_uuid, parsed_uuid};
use crate::error::TunnelError;
use crate::frame::Protocol;
use crate::handshake::{id_text, new_uuid, uuid_text};
use crate::net::{IpAddr, SocketAddr};
use crate::text::opt_text;
use crate::transport::{QuicTransportConfig, TlsTransportConfig, TransportConfig, text_or_empty};

verus! {

/// Seconds between reconnection attempts.
pub const RECONNECT_DELAY_SECS: u64 = 5;

/// Requests that the dashboard remembers.
pub const DASHBOARD_HISTORY: usize = 1000;

/// Dashboard options.
#[derive(Debug, Clone)]
pub struct DashboardConfig {
    /// Dashboard port.
    pub port: u16,
    /// Dashboard bind address.
    pub bind: IpAddr,
    /// Allow the dashboard to bind to a non-loopback address.
    pub allow_non_loopback: bool,
    /// Token required for dashboard API requests.
    pub auth_token: Option<String>,
    /// Disable the dashboard.
    pub disabled: bool,
}

/// TLS options.
#[derive(Debug, Clone, Copy, PartialEq, Eq, Structural)]
pub struct TlsConfig {
    /// Enable TLS. Requires a CA certificate unless verification is skipped.
    pub enabled: bool,
    /// Skip certificate verification. This is insecure and must be explicit.
    pub skip_verify: bool,
}

/// Telemetry options.
#[derive(Debug, Clone, Copy, PartialEq, Eq, Structural)]
pub struct TelemetryConfig {
    /// Enable tracing.
    pub observability: bool,
    /// Enable metrics collection.
    pub metrics: bool,
}

/// Dashboard, TLS and telemetry options.
#[derive(Debug, Clone)]
pub struct ClientFeatureArgs {
    pub dashboard: DashboardConfig,
    pub tls: TlsConfig,
    pub telemetry: TelemetryConfig,
}

/// Arguments of the client command. Paths are kept as text.
#[derive(Debug, Clone)]
pub struct ClientArgs {
    /// Server address (host:port).
    pub server: String,
    /// Authentication token.
    pub token: Option<String>,
    pub log_level: String,
    /// Local service address to forward to (host:port).
    pub local_addr: String,
    /// Tunnel id for HTTP routing.
    pub tunnel_id: Option<String>,
    pub features: ClientFeatureArgs,
    /// Path to the CA certificate.
    pub tls_ca: Option<String>,
    /// Server name for TLS verification.
    pub tls_server_name: Option<String>,
    /// Path to the client certificate for mutual TLS.
    pub tls_cert: Option<String>,
    /// Path to the client private key for mutual TLS.
    pub tls_key: Option<String>,
    /// Use the QUIC transport.
    pub quic: bool,
    /// Request QUIC 0-RTT.
    pub quic_0rtt: bool,
}

fn copy_option(s: &Option<String>) -> (r: Option<String>)
    ensures
        opt_text(r) == opt_text(*s),
{
    match s {
        Some(t) => Some(t.clone()),
        None => None,
    }
}

/// The token that is known without asking: the argument, or else that of the environment.
pub fn resolve_token(argument: &Option<String>, environment: Option<String>) -> (r: Option<String>)
    ensures
        opt_text(r) == (if *argument is Some {
            opt_text(*argument)
        } else {
            opt_text(environment)
        }),
{
    match argument {
        Some(t) => Some(t.clone()),
        None => environment,
    }
}

/// Why TLS options are refused, where they are.
pub open spec fn tls_complaint(args: ClientArgs) -> bool {
    args.features.tls.enabled && !args.features.tls.skip_verify && args.tls_ca is None
}

/// Validates the TLS options: verification needs a CA certificate, and is only skipped where
/// that is asked for.
pub fn validate_tls_args(args: &ClientArgs) -> (r: Result<(), TunnelError>)
    ensures
        r is Err <==> tls_complaint(*args),
        r matches Err(e) ==> e is Config && e.text()
            == "TLS requires --tls-ca for certificate verification; use --tls-skip-verify only for explicit insecure mode"@,
{
    if args.features.tls.enabled && !args.features.tls.skip_verify && args.tls_ca.is_none() {
        return Err(
            TunnelError::Config(
                "TLS requires --tls-ca for certificate verification; use --tls-skip-verify only for explicit insecure mode".to_owned(),
            ),
        );
    }
    Ok(())
}

/// The complaint about dashboard options.
pub open spec fn dashboard_complaint(config: DashboardConfig) -> Option<Seq<char>> {
    if opt_text(config.auth_token) == Some(Seq::<char>::empty()) {
        Some("Dashboard auth token must not be empty"@)
    } else if !config.bind.loopback() && !config.allow_non_loopback {
        Some(
            "Refusing to bind dashboard to non-loopback address "@ + config.bind.text()
                + "; pass --dashboard-allow-non-loopback to expose it"@,
        )
    } else if !config.bind.loopback() && config.auth_token is None {
        Some("Dashboard auth token is required when binding to non-loopback addresses"@)
    } else {
        None
    }
}

/// Validates the dashboard options. The dashboard is exposed beyond this host only where that
/// is asked for and a token protects it.
pub fn validate_dashboard_config(config: &DashboardConfig) -> (r: Result<SocketAddr, TunnelError>)
    ensures
        match r {
            Ok(addr) => dashboard_complaint(*config) is None && addr == (SocketAddr {
                ip: config.bind,
                port: config.port,
            }),
            Err(e) => e is Config && dashboard_complaint(*config) == Some(e.text()),
        },
{
    let empty_token: bool = match &config.auth_token {
        Some(t) => t.as_str().is_empty(),
        None => false,
    };
    proof {
        assert(empty_token <==> opt_text(config.auth_token) == Some(Seq::<char>::empty())) by {
            if config.auth_token is Some {
                let t = config.auth_token->0@;
                if t.len() == 0 {
                    assert(t =~= Seq::<char>::empty());
                }
            }
        }
    }
    if empty_token {
        return Err(TunnelError::Config("Dashboard auth token must not be empty".to_owned()));
    }
    if !config.bind.is_loopback() {
        if !config.allow_non_loopback {
            let mut text = "Refusing to bind dashboard to non-loopback address ".to_owned();
            text.append(config.bind.words().as_str());
            text.append("; pass --dashboard-allow-non-loopback to expose it");
            return Err(TunnelError::Config(text));
        }
        if config.auth_token.is_none() {
            return Err(
                TunnelError::Config(
                    "Dashboard auth token is required when binding to non-loopback addresses".to_owned(),
                ),
            );
        }
    }
    Ok(SocketAddr::new(config.bind, config.port))
}

/// A dashboard that passes validation is either reachable from this host alone, or protected
/// by a token that is not empty.
pub proof fn law_exposed_dashboard_has_a_token(config: DashboardConfig)
    requires
        dashboard_complaint(config) is None,
    ensures
        config.bind.loopback() || (config.allow_non_loopback && config.auth_token is Some
            && opt_text(config.auth_token)->0.len() > 0),
{
    if !config.bind.loopback() && config.auth_token is Some {
        let t = config.auth_token->0@;
        if t.len() == 0 {
            assert(t =~= Seq::<char>::empty());
        }
    }
}

/// The tunnel id of a client: the one that was asked for, or else, for the dashboard, a fresh
/// one in words.
pub fn choose_tunnel_id(asked: &Option<String>, dashboard_disabled: bool, fresh: u128) -> (r: Option<
    String,
>)
    ensures
        opt_text(r) == (if *asked is Some {
            opt_text(*asked)
        } else if dashboard_disabled {
            None
        } else {
            Some(id_text(fresh))
        }),
{
    match asked {
        Some(id) => Some(id.clone()),
        None => if dashboard_disabled {
            None
        } else {
            Some(uuid_text(fresh))
        },
    }
}

/// The tunnel id of a client, drawing a fresh one where it needs one.
pub fn resolve_tunnel_id(args: &ClientArgs) -> (r: Option<String>)
    ensures
        args.tunnel_id is Some ==> opt_text(r) == opt_text(args.tunnel_id),
        args.tunnel_id is None && args.features.dashboard.disabled ==> r is None,
        args.tunnel_id is None && !args.features.dashboard.disabled ==> (exists|id: u128|
            id != 0 && opt_text(r) == Some(#[trigger] id_text(id))),
{
    let fresh: u128 = new_uuid();
    proof {
        assert(fresh != 0 && id_text(fresh) == id_text(fresh));
    }
    choose_tunnel_id(&args.tunnel_id, args.features.dashboard.disabled, fresh)
}

/// The id under which the dashboard shows the tunnel, where there is a dashboard: it is not
/// disabled, and the tunnel id is a UUID.
pub fn dashboard_tunnel_id(tunnel_id: &Option<String>, disabled: bool) -> (r: Option<u128>)
    ensures
        r == (if disabled || *tunnel_id is None {
            None
        } else {
            match parsed_uuid(opt_text(*tunnel_id)->0) {
                Ok(id) => Some(id),
                Err(_) => None,
            }
        }),
{
    if disabled {
        return None;
    }
    match tunnel_id {
        Some(text) => match parse_uuid(text.as_str()) {
            Ok(id) => Some(id),
            Err(_) => None,
        },
        None => None,
    }
}

/// The dashboard's token: the configured one, or else a fresh one in words.
pub fn dashboard_token(configured: &Option<String>, fresh: u128) -> (r: String)
    ensures
        r@ == (match *configured {
            Some(t) => t@,
            None => id_text(fresh),
        }),
{
    match configured {
        Some(t) => t.clone(),
        None => uuid_text(fresh),
    }
}

/// What a client shows of its dashboard at start, and what it registers there.
#[derive(Debug)]
pub struct DashboardPlan {
    pub addr: SocketAddr,
    pub token: String,
    /// Whether the token was drawn, and has to be shown.
    pub generated: bool,
    pub tunnel: DashboardTunnelInfo,
}

/// Whether a plan is the one that the arguments ask for, with `fresh_token` in words where they
/// name no token. A token protects the dashboard in any case.
pub open spec fn dashboard_planned(
    args: ClientArgs,
    tunnel_id: u128,
    fresh_token: u128,
    now_millis: u64,
    plan: DashboardPlan,
) -> bool {
    let config = args.features.dashboard;
    &&& plan.addr == (SocketAddr { ip: config.bind, port: config.port })
    &&& plan.generated == (config.auth_token is None)
    &&& plan.token@ == (match config.auth_token {
        Some(t) => t@,
        None => id_text(fresh_token),
    })
    &&& plan.tunnel.id == tunnel_id
    &&& plan.tunnel.local_addr@ == args.local_addr@
    &&& plan.tunnel.subdomain is None
    &&& plan.tunnel.public_url is None
    &&& plan.tunnel.created_at == now_millis
    &&& plan.tunnel.status == TunnelStatus::Connected
}

/// Plans the dashboard of a tunnel, with the given token where the arguments name none.
pub fn plan_dashboard(
    args: &ClientArgs,
    tunnel_id: u128,
    fresh_token: u128,
    now_millis: u64,
) -> (r: Result<DashboardPlan, TunnelError>)
    ensures
        match r {
            Err(e) => e is Config && dashboard_complaint(args.features.dashboard) == Some(e.text()),
            Ok(plan) => dashboard_complaint(args.features.dashboard) is None && dashboard_planned(
                *args,
                tunnel_id,
                fresh_token,
                now_millis,
                plan,
            ),
        },
{
    let config = &args.features.dashboard;
    match validate_dashboard_config(config) {
        Err(e) => Err(e),
        Ok(addr) => {
            let token = dashboard_token(&config.auth_token, fresh_token);
            let tunnel = DashboardTunnelInfo {
                id: tunnel_id,
                subdomain: None,
                public_url: None,
                local_addr: args.local_addr.clone(),
                created_at: now_millis,
                status: TunnelStatus::Connected,
            };
            Ok(DashboardPlan { addr, token, generated: config.auth_token.is_none(), tunnel })
        },
    }
}

/// Plans the dashboard of a tunnel, drawing a token where the arguments name none.
pub fn setup_dashboard(args: &ClientArgs, tunnel_id: u128, now_millis: u64) -> (r: Result<
    DashboardPlan,
    TunnelError,
>)
    ensures
        match r {
            Err(e) => e is Config && dashboard_complaint(args.features.dashboard) == Some(e.text()),
            Ok(plan) => dashboard_complaint(args.features.dashboard) is None && exists|fresh: u128|
                fresh != 0 && #[trigger] dashboard_planned(
                    *args,
                    tunnel_id,
                    fresh,
                    now_millis,
                    plan,
                ),
        },
{
    plan_dashboard(args, tunnel_id, new_uuid(), now_millis)
}

fn copy_or_empty(s: &Option<String>) -> (r: String)
    ensures
        r@ == text_or_empty(*s),
{
    match s {
        Some(t) => t.clone(),
        None => String::new(),
    }
}

/// Whether a QUIC configuration is the one that the arguments ask for.
pub open spec fn quic_for(args: ClientArgs, config: QuicTransportConfig) -> bool {
    &&& opt_text(config.ca_cert_path) == opt_text(args.tls_ca)
    &&& config.cert_path@ == text_or_empty(args.tls_cert)
    &&& config.key_path@ == text_or_empty(args.tls_key)
    &&& opt_text(config.server_name) == opt_text(args.tls_server_name)
    &&& config.skip_verify == args.features.tls.skip_verify
    &&& config.enable_0rtt == args.quic_0rtt
    &&& !config.client_auth
    &&& config.max_idle_timeout_secs == 30
    &&& config.keep_alive_interval_secs == 10
}

/// Whether a TLS configuration is the one that the arguments ask for: verification by the CA
/// certificate unless it is skipped, and a client certificate where both of its files are
/// given.
pub open spec fn tls_for(args: ClientArgs, config: TlsTransportConfig) -> bool {
    &&& config.skip_verify == args.features.tls.skip_verify
    &&& opt_text(config.ca_cert_path) == (if args.features.tls.skip_verify {
        None
    } else {
        opt_text(args.tls_ca)
    })
    &&& opt_text(config.server_name) == opt_text(args.tls_server_name)
    &&& if args.tls_cert is Some && args.tls_key is Some {
        config.cert_path@ == text_or_empty(args.tls_cert) && config.key_path@ == text_or_empty(
            args.tls_key,
        )
    } else {
        config.cert_path@.len() == 0 && config.key_path@.len() == 0
    }
    &&& !config.client_auth
}

/// The QUIC configuration that the arguments ask for.
pub fn setup_quic_config(args: &ClientArgs) -> (r: QuicTransportConfig)
    ensures
        quic_for(*args, r),
{
    let mut config = QuicTransportConfig::default();
    config.ca_cert_path = copy_option(&args.tls_ca);
    config.cert_path = copy_or_empty(&args.tls_cert);
    config.key_path = copy_or_empty(&args.tls_key);
    config.server_name = copy_option(&args.tls_server_name);
    config.skip_verify = args.features.tls.skip_verify;
    config.enable_0rtt = args.quic_0rtt;
    config
}

/// The transport that the arguments ask for when QUIC is not used: plain TCP or TLS.
pub fn setup_tls(args: &ClientArgs) -> (r: TransportConfig)
    ensures
        if args.features.tls.enabled {
            r matches TransportConfig::Tls(t) && tls_for(*args, t)
        } else {
            r is Tcp
        },
{
    if !args.features.tls.enabled {
        return TransportConfig::Tcp;
    }
    let mut tls = TlsTransportConfig::default();
    if args.features.tls.skip_verify {
        tls.skip_verify = true;
    } else {
        tls.ca_cert_path = copy_option(&args.tls_ca);
    }
    tls.server_name = copy_option(&args.tls_server_name);
    if args.tls_cert.is_some() && args.tls_key.is_some() {
        tls.cert_path = copy_or_empty(&args.tls_cert);
        tls.key_path = copy_or_empty(&args.tls_key);
    }
    TransportConfig::Tls(tls)
}

/// The transport that the arguments ask for.
pub fn client_transport(args: &ClientArgs) -> (r: TransportConfig)
    ensures
        if args.quic {
            r matches TransportConfig::Quic(q) && quic_for(*args, q)
        } else if args.features.tls.enabled {
            r matches TransportConfig::Tls(t) && tls_for(*args, t)
        } else {
            r is Tcp
        },
{
    if args.quic {
        TransportConfig::Quic(setup_quic_config(args))
    } else {
        setup_tls(args)
    }
}

/// With arguments that pass validation, verification of the server is skipped only where that
/// was asked for, and otherwise has a CA certificate to verify with.
pub proof fn law_tls_is_verified_unless_skipped(args: ClientArgs, config: TlsTransportConfig)
    requires
        args.features.tls.enabled,
        !tls_complaint(args),
        tls_for(args, config),
    ensures
        config.skip_verify ==> args.features.tls.skip_verify,
        !config.skip_verify ==> config.ca_cert_path is Some,
{
}

/// Picks what handles a stream that the server opened: over QUIC, and for raw TCP, bytes are
/// copied; the proxy takes the rest.
pub fn stream_handler(protocol: Protocol, over_quic: bool) -> (r: StreamHandler)
    ensures
        r == (if over_quic || protocol == Protocol::TCP {
            StreamHandler::Raw
        } else if protocol == Protocol::GRPC {
            StreamHandler::Grpc
        } else {
            StreamHandler::Http
        }),
{
    if over_quic || protocol == Protocol::TCP {
        StreamHandler::Raw
    } else if protocol == Protocol::GRPC {
        StreamHandler::Grpc
    } else {
        StreamHandler::Http
    }
}

/// Decides what follows a connection that ended: an orderly end stops the client, a failure
/// is followed by another attempt.
pub fn after_connection(succeeded: bool) -> (r: AfterConnection)
    ensures
        r == (if succeeded {
            AfterConnection::Stop
        } else {
            AfterConnection::Reconnect(5_000)
        }),
{
    if succeeded {
        AfterConnection::Stop
    } else {
        AfterConnection::Reconnect(RECONNECT_DELAY_SECS * 1000)
    }
}

/// The Rust version that the program needs.
pub fn rustc_version() -> (r: &'static str)
    ensures
        r@ == "1.91+"@,
{
    "1.91+"
}

/// The token of the command comes before that of the environment.
pub proof fn law_argument_comes_before_environment(
    argument: &Option<String>,
    environment: Option<String>,
    r: Option<String>,
)
    requires
        call_ensures(resolve_token, (argument, environment), r),
    ensures
        *argument matches Some(t) ==> r is Some && (r->0)@ == t@,
        *argument is None ==> (r is Some <==> environment is Some) && (r is Some ==> (r->0)@
            == (environment->0)@),
{
}

/// TLS without a CA certificate is refused, unless verification is skipped.
pub proof fn law_tls_needs_a_certificate(args: &ClientArgs, r: Result<(), TunnelError>)
    requires
        call_ensures(validate_tls_args, (args,), r),
    ensures
        r is Ok <==> !args.features.tls.enabled || args.features.tls.skip_verify || args.tls_ca
            is Some,
        r matches Err(e) ==> e is Config,
{
}

/// A dashboard is accepted exactly where its token, if it has one, is not empty and it is bound to
/// this host alone, or else where exposing it is allowed and it has a token; it listens where it was
/// told to.
pub proof fn law_dashboard_is_local_or_protected(
    config: &DashboardConfig,
    local: bool,
    r: Result<SocketAddr, TunnelError>,
)
    requires
        call_ensures(validate_dashboard_config, (config,), r),
        call_ensures(IpAddr::is_loopback, (config.bind,), local),
    ensures
        r is Ok <==> (config.auth_token is Some ==> (config.auth_token->0)@.len() > 0) && (local || (
        config.allow_non_loopback && config.auth_token is Some)),
        r matches Ok(addr) ==> addr.ip == config.bind && addr.port == config.port,
        r matches Err(e) ==> e is Config,
{
    if let Some(t) = config.auth_token {
        if t@.len() == 0 {
            assert(t@ =~= Seq::<char>::empty());
        }
    }
}

/// A client asks for the tunnel id that it was told to; without one it asks for a fresh one for its
/// dashboard, and without a dashboard for none.
pub proof fn law_tunnel_id_is_the_one_asked_for(
    asked: &Option<String>,
    disabled: bool,
    fresh: u128,
    r: Option<String>,
    args: &ClientArgs,
    resolved: Option<String>,
)
    requires
        call_ensures(choose_tunnel_id, (asked, disabled, fresh), r),
        call_ensures(resolve_tunnel_id, (args,), resolved),
    ensures
        *asked matches Some(t) ==> r is Some && (r->0)@ == t@,
        *asked is None && disabled ==> r is None,
        *asked is None && !disabled ==> r is Some && (r->0)@ == id_text(fresh),
        args.tunnel_id matches Some(t) ==> resolved is Some && (resolved->0)@ == t@,
        args.tunnel_id is None ==> (resolved is Some <==> !args.features.dashboard.disabled),
{
}

/// The dashboard is planned where it was told to listen, with the token that it was given or else a
/// fresh one, and shows the tunnel and its local service.
pub proof fn law_dashboard_is_planned_as_asked(
    args: &ClientArgs,
    tunnel_id: u128,
    fresh: u128,
    now: u64,
    checked: Result<SocketAddr, TunnelError>,
    config: &DashboardConfig,
    r: Result<DashboardPlan, TunnelError>,
    token: String,
)
    requires
        call_ensures(plan_dashboard, (args, tunnel_id, fresh, now), r),
        *config == args.features.dashboard,
        call_ensures(validate_dashboard_config, (config,), checked),
        call_ensures(dashboard_token, (&config.auth_token, fresh), token),
    ensures
        r is Ok <==> checked is Ok,
        config.auth_token matches Some(t) ==> token@ == t@,
        config.auth_token is None ==> token@ == id_text(fresh),
        r matches Ok(plan) ==> {
            &&& plan.addr == checked->Ok_0
            &&& plan.token@ == token@
            &&& plan.generated <==> config.auth_token is None
            &&& plan.tunnel.id == tunnel_id
            &&& plan.tunnel.local_addr@ == args.local_addr@
            &&& plan.tunnel.created_at == now
        },
{
}

/// The transport is QUIC where that is asked for, else TLS where that is, else plain TCP. Either is
/// verified by the CA certificate that was given unless verification is skipped, and skips it only
/// where told to.
pub proof fn law_transport_is_the_one_asked_for(args: &ClientArgs, r: TransportConfig)
    requires
        call_ensures(client_transport, (args,), r),
    ensures
        r is Quic <==> args.quic,
        r is Tls <==> !args.quic && args.features.tls.enabled,
        r is Tcp <==> !args.quic && !args.features.tls.enabled,
        r matches TransportConfig::Quic(q) ==> {
            &&& q.skip_verify == args.features.tls.skip_verify
            &&& q.ca_cert_path is Some <==> args.tls_ca is Some
            &&& q.ca_cert_path is Some ==> (q.ca_cert_path->0)@ == (args.tls_ca->0)@
            &&& q.server_name is Some <==> args.tls_server_name is Some
            &&& q.server_name is Some ==> (q.server_name->0)@ == (args.tls_server_name->0)@
            &&& q.enable_0rtt == args.quic_0rtt
            &&& args.tls_cert is Some ==> q.cert_path@ == (args.tls_cert->0)@
            &&& args.tls_cert is None ==> q.cert_path@.len() == 0
            &&& args.tls_key is Some ==> q.key_path@ == (args.tls_key->0)@
            &&& args.tls_key is None ==> q.key_path@.len() == 0
            &&& q.max_idle_timeout_secs == 30 && q.keep_alive_interval_secs == 10
        },
        r matches TransportConfig::Tls(t) ==> {
            &&& t.skip_verify == args.features.tls.skip_verify
            &&& t.skip_verify ==> t.ca_cert_path is None
            &&& !t.skip_verify ==> (t.ca_cert_path is Some <==> args.tls_ca is Some)
            &&& t.ca_cert_path is Some ==> (t.ca_cert_path->0)@ == (args.tls_ca->0)@
            &&& t.server_name is Some <==> args.tls_server_name is Some
            &&& t.server_name is Some ==> (t.server_name->0)@ == (args.tls_server_name->0)@
            &&& args.tls_cert is Some && args.tls_key is Some ==> t.cert_path@
                == (args.tls_cert->0)@ && t.key_path@ == (args.tls_key->0)@
            &&& args.tls_cert is None || args.tls_key is None ==> t.cert_path@.len() == 0
                && t.key_path@.len() == 0
        },
{
}

/// Bytes are copied as they are over QUIC and for raw TCP; gRPC goes through the proxy over HTTP/2,
/// and all else through the proxy.
pub proof fn law_streams_are_handled_by_their_protocol(
    protocol: Protocol,
    over_quic: bool,
    r: StreamHandler,
)
    requires
        call_ensures(stream_handler, (protocol, over_quic), r),
    ensures
        r == StreamHandler::Raw <==> over_quic || protocol == Protocol::TCP,
        r == StreamHandler::Grpc <==> !over_quic && protocol == Protocol::GRPC,
{
}

/// A client that ended in order stops; one that failed connects again after five seconds.
pub proof fn law_failed_connections_are_made_again(succeeded: bool, r: AfterConnection)
    requires
        call_ensures(after_connection, (succeeded,), r),
    ensures
        succeeded ==> r == AfterConnection::Stop,
        !succeeded ==> r == AfterConnection::Reconnect(5000),
{
}

/// The dashboard shows the tunnel under its id, where it is on and that is one.
pub proof fn law_dashboard_shows_the_tunnel(
    tunnel_id: &Option<String>,
    disabled: bool,
    id: u128,
    r: Option<u128>,
)
    requires
        call_ensures(dashboard_tunnel_id, (tunnel_id, disabled), r),
    ensures
        disabled || *tunnel_id is None ==> r is None,
        !disabled && *tunnel_id is Some && parsed_uuid((tunnel_id->0)@) == Ok::<u128, Seq<char>>(
            id,
        ) ==> r == Some(id),
        *tunnel_id is Some && parsed_uuid((tunnel_id->0)@) is Err ==> r is None,
{
}

/// A dashboard is set up as it is planned: at its address, with the token that was given, or else
/// with one that was drawn and has to be shown.
pub proof fn law_dashboard_is_set_up_as_asked(
    args: &ClientArgs,
    tunnel_id: u128,
    now: u64,
    config: &DashboardConfig,
    checked: Result<SocketAddr, TunnelError>,
    r: Result<DashboardPlan, TunnelError>,
    quic: QuicTransportConfig,
    tls: TransportConfig,
    transport: TransportConfig,
)
    requires
        call_ensures(setup_dashboard, (args, tunnel_id, now), r),
        *config == args.features.dashboard,
        call_ensures(validate_dashboard_config, (config,), checked),
        call_ensures(setup_quic_config, (args,), quic),
        call_ensures(setup_tls, (args,), tls),
        call_ensures(client_transport, (args,), transport),
    ensures
        r is Ok <==> checked is Ok,
        r matches Ok(plan) ==> {
            &&& plan.addr == checked->Ok_0
            &&& config.auth_token matches Some(t) ==> plan.token@ == t@
            &&& plan.generated <==> config.auth_token is None
            &&& plan.tunnel.id == tunnel_id
            &&& plan.tunnel.local_addr@ == args.local_addr@
        },
        quic.skip_verify == args.features.tls.skip_verify,
        tls is Tls <==> args.features.tls.enabled,
        !args.quic ==> (tls is Tls <==> transport is Tls),
{
}

} // verus!
