//! The server command: what its arguments mean.

use vstd::prelude::*;

use crate::error::TunnelError;
use crate::http3_ingress::Http3IngressConfig;
use crate::net::SocketAddr;
use crate::text::opt_text;
use crate::transport::{QuicTransportConfig, TlsTransportConfig, TransportConfig};

verus! {

/// Arguments of the server command. Paths are kept as text.
#[derive(Debug, Clone)]
pub struct ServerArgs {
    /// Address to bind to.
    pub bind: SocketAddr,
    /// Authentication token.
    pub token: String,
    pub log_level: String,
    /// HTTP ingress bind address.
    pub http_bind: SocketAddr,
    /// Metrics bind address.
    pub metrics_bind: SocketAddr,
    /// Path to the TLS certificate file.
    pub tls_cert: Option<String>,
    /// Path to the TLS private key file.
    pub tls_key: Option<String>,
    /// Path to the CA certificate for client authentication.
    pub tls_ca: Option<String>,
    /// Require client certificate authentication.
    pub tls_client_auth: bool,
    /// TCP ingress bind address.
    pub tcp_bind: Option<SocketAddr>,
    /// HTTP/3 ingress bind address (UDP).
    pub http3_bind: Option<SocketAddr>,
    /// Path to the certificate for HTTP/3; that for TLS where there is none.
    pub http3_cert: Option<String>,
    /// Path to the key for HTTP/3; that for TLS where there is none.
    pub http3_key: Option<String>,
    /// Enable tracing.
    pub observability: bool,
    /// Enable the metrics endpoint.
    pub metrics: bool,
    /// QUIC bind address (UDP) for tunnel connections.
    pub quic_bind: Option<SocketAddr>,
    /// Path to the certificate for QUIC; that for TLS where there is none.
    pub quic_cert: Option<String>,
    /// Path to the key for QUIC; that for TLS where there is none.
    pub quic_key: Option<String>,
}

/// The server's token that is known without asking: that of the environment, or else that of
/// a file.
pub fn resolve_server_token(environment: Option<String>, file: Option<String>) -> (r: Option<
    String,
>)
    ensures
        opt_text(r) == first_of(environment, file),
{
    match environment {
        Some(t) => Some(t),
        None => file,
    }
}

/// The first of two optional texts that there is.
pub open spec fn first_of(a: Option<String>, b: Option<String>) -> Option<Seq<char>> {
    if a is Some {
        opt_text(a)
    } else {
        opt_text(b)
    }
}

fn first_text(a: &Option<String>, b: &Option<String>) -> (r: Option<String>)
    ensures
        opt_text(r) == first_of(*a, *b),
{
    match a {
        Some(t) => Some(t.clone()),
        None => match b {
            Some(t) => Some(t.clone()),
            None => None,
        },
    }
}

fn copy_option(s: &Option<String>) -> (r: Option<String>)
    ensures
        opt_text(r) == opt_text(*s),
{
    match s {
        Some(t) => Some(t.clone()),
        None => None,
    }
}

/// The HTTP/3 ingress of a server.
#[derive(Debug)]
pub struct Http3Plan {
    pub addr: SocketAddr,
    pub config: Http3IngressConfig,
    /// The header with which the HTTP ingress advertises it.
    pub alt_svc: String,
}

/// The QUIC endpoint of a server.
#[derive(Debug)]
pub struct QuicPlan {
    pub addr: SocketAddr,
    pub config: QuicTransportConfig,
}

/// The services of a server.
#[derive(Debug)]
pub struct ServerPlan {
    /// The transport of the control plane.
    pub transport: TransportConfig,
    pub http3: Option<Http3Plan>,
    /// Whether HTTP/3 was asked for without certificates.
    pub http3_lacks_certs: bool,
    pub quic: Option<QuicPlan>,
    /// Whether QUIC was asked for without certificates.
    pub quic_lacks_certs: bool,
}

fn plan_transport(args: &ServerArgs) -> (r: TransportConfig)
    ensures
        r is Tls <==> args.tls_cert is Some && args.tls_key is Some,
        !(r is Quic),
        r matches TransportConfig::Tls(t) ==> {
            &&& Some(t.cert_path@) == opt_text(args.tls_cert)
            &&& Some(t.key_path@) == opt_text(args.tls_key)
            &&& opt_text(t.ca_cert_path) == opt_text(args.tls_ca)
            &&& t.client_auth == (args.tls_ca is Some)
            &&& t.server_name is None
            &&& !t.skip_verify
        },
{
    if let (Some(cert), Some(key)) = (&args.tls_cert, &args.tls_key) {
        let mut tls = TlsTransportConfig::default();
        tls.cert_path = cert.clone();
        tls.key_path = key.clone();
        if args.tls_ca.is_some() {
            tls.ca_cert_path = copy_option(&args.tls_ca);
            tls.client_auth = true;
        }
        return TransportConfig::Tls(tls);
    }
    TransportConfig::Tcp
}

/// Plans the services of a server.
///
/// Client authentication needs a CA certificate. The control plane uses TLS where certificate
/// and key are given, and asks for client certificates where a CA is. HTTP/3 and QUIC use
/// their own certificates or else those; without any they are left out.
pub fn plan_server(args: &ServerArgs) -> (r: Result<ServerPlan, TunnelError>)
    ensures
        r is Err <==> args.tls_client_auth && args.tls_ca is None,
        r matches Err(e) ==> e is Config && e.text()
            == "--tls-client-auth requires --tls-ca to be provided"@,
        r matches Ok(plan) ==> {
            let h3_cert = first_of(args.http3_cert, args.tls_cert);
            let h3_key = first_of(args.http3_key, args.tls_key);
            let q_cert = first_of(args.quic_cert, args.tls_cert);
            let q_key = first_of(args.quic_key, args.tls_key);
            &&& plan.transport is Tls <==> args.tls_cert is Some && args.tls_key is Some
            &&& !(plan.transport is Quic)
            &&& plan.transport matches TransportConfig::Tls(t) ==> {
                &&& Some(t.cert_path@) == opt_text(args.tls_cert)
                &&& Some(t.key_path@) == opt_text(args.tls_key)
                &&& opt_text(t.ca_cert_path) == opt_text(args.tls_ca)
                &&& t.client_auth == (args.tls_ca is Some)
                &&& t.server_name is None
                &&& !t.skip_verify
            }
            &&& plan.http3 is Some <==> args.http3_bind is Some && h3_cert is Some && h3_key is Some
            &&& plan.http3_lacks_certs == (args.http3_bind is Some && !(h3_cert is Some && h3_key
                is Some))
            &&& plan.http3 matches Some(h) ==> {
                &&& Some(h.addr) == args.http3_bind
                &&& Some(h.config.cert_path@) == h3_cert
                &&& Some(h.config.key_path@) == h3_key
                &&& opt_text(h.config.ca_cert_path) == opt_text(args.tls_ca)
                &&& h.config.client_auth == args.tls_client_auth
                &&& h.config.default_limits()
                &&& h.alt_svc@ == h.config.advertisement(h.addr.port)
            }
            &&& plan.quic is Some <==> args.quic_bind is Some && q_cert is Some && q_key is Some
            &&& plan.quic_lacks_certs == (args.quic_bind is Some && !(q_cert is Some && q_key
                is Some))
            &&& plan.quic matches Some(q) ==> {
                &&& Some(q.addr) == args.quic_bind
                &&& Some(q.config.cert_path@) == q_cert
                &&& Some(q.config.key_path@) == q_key
                &&& opt_text(q.config.ca_cert_path) == opt_text(args.tls_ca)
                &&& q.config.server_name is None
                &&& !q.config.skip_verify
                &&& !q.config.client_auth
                &&& !q.config.enable_0rtt
                &&& q.config.max_idle_timeout_secs == 30
                &&& q.config.keep_alive_interval_secs == 10
            }
        },
{
    if args.tls_client_auth && args.tls_ca.is_none() {
        return Err(
            TunnelError::Config("--tls-client-auth requires --tls-ca to be provided".to_owned()),
        );
    }
    let transport = plan_transport(args);
    let mut http3_lacks_certs: bool = false;
    let http3: Option<Http3Plan> = match args.http3_bind {
        None => None,
        Some(addr) => {
            let cert = first_text(&args.http3_cert, &args.tls_cert);
            let key = first_text(&args.http3_key, &args.tls_key);
            match (cert, key) {
                (Some(cert), Some(key)) => {
                    let config = Http3IngressConfig::with_certs(cert, key).ca_cert_path(
                        copy_option(&args.tls_ca),
                    ).client_auth(args.tls_client_auth);
                    let alt_svc = config.alt_svc_header_value(addr.port);
                    Some(Http3Plan { addr, config, alt_svc })
                },
                _ => {
                    http3_lacks_certs = true;
                    None
                },
            }
        },
    };
    let mut quic_lacks_certs: bool = false;
    let quic: Option<QuicPlan> = match args.quic_bind {
        None => None,
        Some(addr) => {
            let cert = first_text(&args.quic_cert, &args.tls_cert);
            let key = first_text(&args.quic_key, &args.tls_key);
            match (cert, key) {
                (Some(cert), Some(key)) => {
                    let mut config = QuicTransportConfig::default();
                    config.cert_path = cert;
                    config.key_path = key;
                    config.ca_cert_path = copy_option(&args.tls_ca);
                    Some(QuicPlan { addr, config })
                },
                _ => {
                    quic_lacks_certs = true;
                    None
                },
            }
        },
    };
    Ok(ServerPlan { transport, http3, http3_lacks_certs, quic, quic_lacks_certs })
}

/// Client authentication is refused without a CA certificate. The control plane uses TLS exactly
/// where certificate and key are given, asks for client certificates exactly where a CA certificate
/// is, and never skips verification.
pub proof fn law_server_transport_is_the_one_asked_for(
    args: &ServerArgs,
    r: Result<ServerPlan, TunnelError>,
)
    requires
        call_ensures(plan_server, (args,), r),
    ensures
        r is Err <==> args.tls_client_auth && args.tls_ca is None,
        r matches Ok(plan) ==> {
            &&& plan.transport is Tls <==> args.tls_cert is Some && args.tls_key is Some
            &&& !(plan.transport is Tls) ==> plan.transport is Tcp
            &&& plan.transport matches TransportConfig::Tls(t) ==> {
                &&& t.cert_path@ == (args.tls_cert->0)@
                &&& t.key_path@ == (args.tls_key->0)@
                &&& t.client_auth <==> args.tls_ca is Some
                &&& t.ca_cert_path is Some <==> args.tls_ca is Some
                &&& t.ca_cert_path is Some ==> (t.ca_cert_path->0)@ == (args.tls_ca->0)@
                &&& !t.skip_verify
            }
        },
{
}

/// HTTP/3 and QUIC are served exactly where they are asked for and have a certificate and a key,
/// their own or else those of TLS; where they lack them, that is told. Each listens where it was told
/// to, and HTTP/3 is advertised on its port.
pub proof fn law_http3_and_quic_need_certificates(
    args: &ServerArgs,
    plan: ServerPlan,
    advertised: String,
)
    requires
        call_ensures(plan_server, (args,), Ok(plan)),
        plan.http3 matches Some(h) ==> call_ensures(
            Http3IngressConfig::alt_svc_header_value,
            (&h.config, h.addr.port),
            advertised,
        ),
    ensures
        plan.http3 is Some <==> args.http3_bind is Some && (args.http3_cert is Some || args.tls_cert
            is Some) && (args.http3_key is Some || args.tls_key is Some),
        plan.http3_lacks_certs <==> args.http3_bind is Some && plan.http3 is None,
        plan.http3 matches Some(h) ==> {
            &&& args.http3_bind == Some(h.addr)
            &&& args.http3_cert is Some ==> h.config.cert_path@ == (args.http3_cert->0)@
            &&& args.http3_cert is None ==> h.config.cert_path@ == (args.tls_cert->0)@
            &&& args.http3_key is Some ==> h.config.key_path@ == (args.http3_key->0)@
            &&& args.http3_key is None ==> h.config.key_path@ == (args.tls_key->0)@
            &&& h.config.client_auth == args.tls_client_auth
            &&& h.alt_svc@ == advertised@
        },
        plan.quic is Some <==> args.quic_bind is Some && (args.quic_cert is Some || args.tls_cert
            is Some) && (args.quic_key is Some || args.tls_key is Some),
        plan.quic_lacks_certs <==> args.quic_bind is Some && plan.quic is None,
        plan.quic matches Some(q) ==> {
            &&& args.quic_bind == Some(q.addr)
            &&& args.quic_cert is Some ==> q.config.cert_path@ == (args.quic_cert->0)@
            &&& args.quic_cert is None ==> q.config.cert_path@ == (args.tls_cert->0)@
            &&& args.quic_key is Some ==> q.config.key_path@ == (args.quic_key->0)@
            &&& args.quic_key is None ==> q.config.key_path@ == (args.tls_key->0)@
            &&& !q.config.skip_verify
        },
{
}

/// The server's token is that of the environment, and without one that of the file.
pub proof fn law_environment_comes_before_file(
    environment: Option<String>,
    file: Option<String>,
    r: Option<String>,
)
    requires
        call_ensures(resolve_server_token, (environment, file), r),
    ensures
        environment matches Some(t) ==> r is Some && (r->0)@ == t@,
        environment is None ==> (r is Some <==> file is Some) && (r is Some ==> (r->0)@
            == (file->0)@),
{
}

} // verus!
