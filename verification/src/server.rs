//! The embeddable tunnel server: its builder and its life.

use vstd::prelude::*;

use crate::config::{LimitsConfig, QuicConfig, TlsConfig};
use crate::error::TunnelError;
use crate::net::{IpAddr, SocketAddr};
use crate::text::opt_text;
use crate::transport::{QuicTransportConfig, TlsTransportConfig, TransportConfig};
use crate::tunnel_config::{ServerConfig, server_complaint};

verus! {

/// A tunnel server that can be embedded in an application.
pub struct Server {
    pub config: ServerConfig,
    pub transport_config: TransportConfig,
    /// Whether the services can still be told to stop.
    pub stoppable: bool,
    /// Whether there is a background task, and whether it has finished.
    pub task: Option<bool>,
}

impl Server {
    /// Creates a new server builder.
    pub fn builder() -> (r: ServerBuilder)
        ensures
            r.is_default(),
    {
        ServerBuilder::default()
    }

    /// Starts the server: from now on it has a background task. Fails where it has one
    /// already.
    pub fn start(&mut self) -> (r: Result<(), TunnelError>)
        ensures
            r is Err <==> old(self).task is Some,
            r matches Err(e) ==> e is InvalidState && e.text() == "server already started"@
                && *final(self) == *old(self),
            r is Ok ==> *final(self) == (Server { stoppable: true, task: Some(false), ..*old(self) }),
    {
        if self.task.is_some() {
            return Err(TunnelError::InvalidState("server already started".to_owned()));
        }
        self.stoppable = true;
        self.task = Some(false);
        Ok(())
    }

    /// Whether the control plane runs over QUIC.
    pub fn uses_quic(&self) -> (r: bool)
        ensures
            r == (self.transport_config is Quic),
    {
        match &self.transport_config {
            TransportConfig::Quic(_) => true,
            _ => false,
        }
    }

    /// What a service whose task panicked fails the server with.
    pub fn service_panicked(is_tunnel: bool, error: &str) -> (r: TunnelError)
        ensures
            r is Connection,
            r.text() == (if is_tunnel {
                "Tunnel task panicked: "@
            } else {
                "Ingress task panicked: "@
            }) + error@,
    {
        let mut text = if is_tunnel {
            "Tunnel task panicked: ".to_owned()
        } else {
            "Ingress task panicked: ".to_owned()
        };
        text.append(error);
        TunnelError::Connection(text)
    }

    /// Records that the background task has finished.
    pub fn task_finished(&mut self)
        ensures
            *final(self) == (Server {
                task: if old(self).task is Some {
                    Some(true)
                } else {
                    None
                },
                ..*old(self)
            }),
    {
        if self.task.is_some() {
            self.task = Some(true);
        }
    }

    /// Tells the services to stop; `true` where they are to be signalled.
    pub fn stop(&mut self) -> (r: bool)
        ensures
            r == old(self).stoppable,
            *final(self) == (Server { stoppable: false, ..*old(self) }),
    {
        let signal: bool = self.stoppable;
        self.stoppable = false;
        signal
    }

    /// Shuts the server down: the services are signalled, and the background task is gone.
    pub fn shutdown(&mut self) -> (r: bool)
        ensures
            r == old(self).stoppable,
            *final(self) == (Server { stoppable: false, task: None, ..*old(self) }),
    {
        let signal: bool = self.stop();
        self.task = None;
        signal
    }

    /// Whether the server is running.
    pub fn is_running(&self) -> (r: bool)
        ensures
            r == (match self.task {
                Some(finished) => !finished,
                None => self.stoppable,
            }),
    {
        match self.task {
            Some(finished) => !finished,
            None => self.stoppable,
        }
    }

    /// The configuration.
    pub fn config(&self) -> (r: &ServerConfig)
        ensures
            *r == self.config,
    {
        &self.config
    }
}

/// Builder for a [`Server`].
pub struct ServerBuilder {
    pub config: ServerConfig,
    pub transport_config: Option<TransportConfig>,
}

impl Default for ServerBuilder {
    fn default() -> (r: ServerBuilder)
        ensures
            r.is_default(),
    {
        ServerBuilder { config: ServerConfig::default(), transport_config: None }
    }
}

impl ServerBuilder {
    /// Whether nothing has been set.
    pub open spec fn is_default(&self) -> bool {
        &&& self.config.bind_addr == (SocketAddr { ip: IpAddr::V4(0, 0, 0, 0), port: 7835 })
        &&& self.config.http_bind_addr == (SocketAddr { ip: IpAddr::V4(0, 0, 0, 0), port: 8080 })
        &&& self.config.http3_bind_addr is None
        &&& self.config.http3_cert_path is None
        &&& self.config.http3_key_path is None
        &&& self.config.token@.len() == 0
        &&& self.config.limits == LimitsConfig::defaults()
        &&& self.config.http_response_timeout == 60_000
        &&& self.transport_config is None
    }

    /// Sets the address to bind the tunnel control plane to.
    pub fn bind(self, addr: SocketAddr) -> (r: ServerBuilder)
        ensures
            r == (ServerBuilder {
                config: ServerConfig { bind_addr: addr, ..self.config },
                ..self
            }),
    {
        let mut builder = self;
        builder.config.bind_addr = addr;
        builder
    }

    /// Sets the address to bind the HTTP ingress to.
    pub fn http_bind(self, addr: SocketAddr) -> (r: ServerBuilder)
        ensures
            r == (ServerBuilder {
                config: ServerConfig { http_bind_addr: addr, ..self.config },
                ..self
            }),
    {
        let mut builder = self;
        builder.config.http_bind_addr = addr;
        builder
    }

    /// Adds an HTTP/3 ingress with the given certificate and key files.
    pub fn http3(self, addr: SocketAddr, cert_path: &str, key_path: &str) -> (r: ServerBuilder)
        ensures
            opt_text(r.config.http3_cert_path) == Some(cert_path@),
            opt_text(r.config.http3_key_path) == Some(key_path@),
            r == (ServerBuilder {
                config: ServerConfig {
                    http3_bind_addr: Some(addr),
                    http3_cert_path: r.config.http3_cert_path,
                    http3_key_path: r.config.http3_key_path,
                    ..self.config
                },
                ..self
            }),
    {
        let mut builder = self;
        builder.config.http3_bind_addr = Some(addr);
        builder.config.http3_cert_path = Some(cert_path.to_owned());
        builder.config.http3_key_path = Some(key_path.to_owned());
        builder
    }

    /// Sets the authentication token that clients must provide.
    pub fn token(self, token: &str) -> (r: ServerBuilder)
        ensures
            r.config.token@ == token@,
            r == (ServerBuilder {
                config: ServerConfig { token: r.config.token, ..self.config },
                ..self
            }),
    {
        let mut builder = self;
        builder.config.token = token.to_owned();
        builder
    }

    /// Uses TLS, where the configuration enables it.
    pub fn tls(self, config: &TlsConfig) -> (r: ServerBuilder)
        ensures
            r == (ServerBuilder { transport_config: r.transport_config, ..self }),
            config.enabled ==> (r.transport_config matches Some(TransportConfig::Tls(t)) && t.says(
                *config,
            )),
            !config.enabled ==> r.transport_config == self.transport_config,
    {
        let mut builder = self;
        if let Some(tls) = TlsTransportConfig::from_common(config) {
            builder.transport_config = Some(TransportConfig::Tls(tls));
        }
        builder
    }

    /// Uses QUIC, where the configuration enables it.
    pub fn quic(self, config: &QuicConfig) -> (r: ServerBuilder)
        ensures
            r == (ServerBuilder { transport_config: r.transport_config, ..self }),
            config.enabled ==> (r.transport_config matches Some(TransportConfig::Quic(t)) && t.says(
                *config,
            )),
            !config.enabled ==> r.transport_config == self.transport_config,
    {
        let mut builder = self;
        if let Some(quic) = QuicTransportConfig::from_common(config) {
            builder.transport_config = Some(TransportConfig::Quic(quic));
        }
        builder
    }

    /// Builds the server. Fails where the configuration is not valid.
    pub fn build(self) -> (r: Result<Server, TunnelError>)
        ensures
            r is Ok <==> server_complaint(self.config) is None,
            r matches Err(e) ==> e is Config && server_complaint(self.config) == Some(e.text()),
            r matches Ok(server) ==> {
                &&& server.config == self.config
                &&& server.transport_config == (match self.transport_config {
                    Some(t) => t,
                    None => TransportConfig::Tcp,
                })
                &&& !server.stoppable
                &&& server.task is None
            },
    {
        if let Err(e) = self.config.validate() {
            return Err(e);
        }
        let ServerBuilder { config, transport_config } = self;
        let transport_config = match transport_config {
            Some(t) => t,
            None => TransportConfig::Tcp,
        };
        Ok(Server { config, transport_config, stoppable: false, task: None })
    }
}

/// A server, also one with an HTTP/3 ingress and its files, is built exactly where it has a token,
/// with what the builder was told, over the transport that was chosen or else plain TCP.
pub proof fn law_server_is_built_as_told(
    fresh: ServerBuilder,
    bind: SocketAddr,
    http: SocketAddr,
    http3: SocketAddr,
    cert: &str,
    key: &str,
    token: &str,
    a: ServerBuilder,
    b: ServerBuilder,
    c: ServerBuilder,
    d: ServerBuilder,
    r: Result<Server, TunnelError>,
    plain: Result<Server, TunnelError>,
)
    requires
        call_ensures(Server::builder, (), fresh),
        call_ensures(ServerBuilder::bind, (fresh, bind), a),
        call_ensures(ServerBuilder::http_bind, (a, http), b),
        call_ensures(ServerBuilder::http3, (b, http3, cert, key), c),
        call_ensures(ServerBuilder::token, (c, token), d),
        call_ensures(ServerBuilder::build, (d,), r),
        call_ensures(ServerBuilder::build, (fresh,), plain),
    ensures
        plain is Err && plain->Err_0->Config_0@ == "token is required"@,
        fresh.config.bind_addr.port == 7835 && fresh.config.http_bind_addr.port == 8080,
        r is Ok <==> token@.len() > 0,
        r matches Ok(server) ==> {
            &&& server.config.bind_addr == bind
            &&& server.config.http_bind_addr == http
            &&& server.config.http3_bind_addr == Some(http3)
            &&& server.config.http3_cert_path is Some && (server.config.http3_cert_path->0)@ == cert@
            &&& server.config.http3_key_path is Some && (server.config.http3_key_path->0)@ == key@
            &&& server.config.token@ == token@
            &&& server.config.http_response_timeout == 60 * 1000
            &&& server.transport_config is Tcp
            &&& server.task is None
        },
{
}

/// A server uses TLS or QUIC exactly where that is enabled, the one chosen last.
pub proof fn law_server_transport_is_chosen(
    builder: ServerBuilder,
    tls: &TlsConfig,
    quic: &QuicConfig,
    a: ServerBuilder,
    b: ServerBuilder,
    r: Result<Server, TunnelError>,
    over_quic: bool,
)
    requires
        call_ensures(ServerBuilder::tls, (builder, tls), a),
        call_ensures(ServerBuilder::quic, (a, quic), b),
        call_ensures(ServerBuilder::build, (b,), r),
        builder.transport_config is None,
        r matches Ok(server) ==> call_ensures(Server::uses_quic, (&server,), over_quic),
    ensures
        r matches Ok(server) ==> {
            &&& over_quic <==> quic.enabled
            &&& server.transport_config is Quic <==> quic.enabled
            &&& server.transport_config is Tls <==> !quic.enabled && tls.enabled
            &&& server.transport_config is Tls ==> server.transport_config->Tls_0.client_auth
                == tls.client_auth
            &&& server.config == builder.config
        },
{
}

/// A server starts once and runs until it is shut down or finished; after a shutdown it can be
/// started again.
pub proof fn law_server_starts_once(
    server: &mut Server,
    r: Result<(), TunnelError>,
    running: bool,
    again: &mut Server,
    second: Result<(), TunnelError>,
    down: &mut Server,
    signalled: bool,
    still: bool,
    anew: &mut Server,
    third: Result<(), TunnelError>,
)
    requires
        call_ensures(Server::start, (server,), r),
        call_ensures(Server::is_running, (&*final(server),), running),
        *old(again) == *final(server),
        call_ensures(Server::start, (again,), second),
        *old(down) == *final(server),
        call_ensures(Server::shutdown, (down,), signalled),
        call_ensures(Server::is_running, (&*final(down),), still),
        *old(anew) == *final(down),
        call_ensures(Server::start, (anew,), third),
    ensures
        r is Ok <==> old(server).task is None,
        r is Ok ==> running && signalled,
        second is Err && second->Err_0 is InvalidState,
        !still,
        third is Ok,
        final(server).config == old(server).config,
{
}

/// A server that was told to stop is signalled once; one whose task has finished no longer runs.
pub proof fn law_server_is_signalled_once(
    server: &mut Server,
    first: bool,
    again: &mut Server,
    second: bool,
    done: &mut Server,
    running: bool,
)
    requires
        call_ensures(Server::stop, (server,), first),
        *old(again) == *final(server),
        call_ensures(Server::stop, (again,), second),
        old(done).task is Some,
        call_ensures(Server::task_finished, (done,), ()),
        call_ensures(Server::is_running, (&*final(done),), running),
    ensures
        first == old(server).stoppable,
        !second,
        !running,
{
}

} // verus!
