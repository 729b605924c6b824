//! The embeddable tunnel client: its builder and its life.

use vstd::prelude::*;

use crate::config::{LimitsConfig, QuicConfig, TlsConfig};
use crate::error::TunnelError;
use crate::frame::Protocol;
use crate::text::opt_text;
use crate::transport::{QuicTransportConfig, TlsTransportConfig, TransportConfig};
use crate::tunnel_config::{ClientConfig, TunnelInfo, client_complaint};

verus! {

/// What handles a stream that the server opened.
#[derive(Debug, Clone, Copy, PartialEq, Eq, Structural)]
pub enum StreamHandler {
    /// The HTTP proxy.
    Http,
    /// The HTTP proxy, over HTTP/2.
    Grpc,
    /// A copy of the bytes to and from the local service.
    Raw,
}

/// Picks what handles a stream of the embedded client: over QUIC the bytes are copied, else
/// the proxy takes it.
pub fn client_stream_handler(protocol: Protocol, over_quic: bool) -> (r: StreamHandler)
    ensures
        r == (if over_quic {
            StreamHandler::Raw
        } else if protocol == Protocol::GRPC {
            StreamHandler::Grpc
        } else {
            StreamHandler::Http
        }),
{
    if over_quic {
        StreamHandler::Raw
    } else if protocol == Protocol::GRPC {
        StreamHandler::Grpc
    } else {
        StreamHandler::Http
    }
}

/// What follows the end of a connection.
#[derive(Debug, Clone, Copy, PartialEq, Eq, Structural)]
pub enum AfterConnection {
    /// Stop.
    Stop,
    /// Connect again after this many milliseconds.
    Reconnect(u64),
}

/// A tunnel client that can be embedded in an application.
pub struct Client {
    pub config: ClientConfig,
    pub transport_config: TransportConfig,
    /// Whether the background task can still be told to stop.
    pub stoppable: bool,
    /// Whether there is a background task, and whether it has finished.
    pub task: Option<bool>,
    /// Whether the details of the connection were published.
    pub published: bool,
}

impl Client {
    /// Creates a new client builder.
    pub fn builder() -> (r: ClientBuilder)
        ensures
            r.is_default(),
    {
        ClientBuilder::default()
    }

    /// Starts the client: from now on it has a background task. Fails where it has one already.
    pub fn start(&mut self) -> (r: Result<(), TunnelError>)
        ensures
            r is Err <==> old(self).task is Some,
            r matches Err(e) ==> e is InvalidState && e.text() == "client already started"@
                && *final(self) == *old(self),
            r is Ok ==> *final(self) == (Client {
                stoppable: true,
                task: Some(false),
                published: false,
                ..*old(self)
            }),
    {
        if self.task.is_some() {
            return Err(TunnelError::InvalidState("client already started".to_owned()));
        }
        self.stoppable = true;
        self.task = Some(false);
        self.published = false;
        Ok(())
    }

    /// Decides what follows a connection that ended: an orderly end stops the client, a
    /// failure does so unless it reconnects.
    pub fn after_connection(&self, succeeded: bool) -> (r: AfterConnection)
        ensures
            r == (if succeeded || !self.config.auto_reconnect {
                AfterConnection::Stop
            } else {
                AfterConnection::Reconnect(self.config.reconnect_delay)
            }),
    {
        if succeeded || !self.config.auto_reconnect {
            AfterConnection::Stop
        } else {
            AfterConnection::Reconnect(self.config.reconnect_delay)
        }
    }

    /// The details of the connection for whoever waits for the start, the first time that the
    /// server assigned a session.
    pub fn publish_tunnel_info(&mut self, session_id: u128) -> (r: Option<TunnelInfo>)
        ensures
            r is Some <==> !old(self).published,
            r matches Some(info) ==> info.session_id == Some(session_id) && info.public_url is None,
            *final(self) == (Client { published: true, ..*old(self) }),
    {
        if self.published {
            return None;
        }
        self.published = true;
        Some(TunnelInfo { session_id: Some(session_id), public_url: None })
    }

    /// What the start fails with where the background task ends before it connected.
    pub fn connection_failed() -> (r: TunnelError)
        ensures
            r is Connection,
            r.text() == "Failed to establish connection"@,
    {
        TunnelError::Connection("Failed to establish connection".to_owned())
    }

    /// Records that the background task has finished.
    pub fn task_finished(&mut self)
        ensures
            *final(self) == (Client {
                task: if old(self).task is Some {
                    Some(true)
                } else {
                    None
                },
                ..*old(self)
            }),
    {
        if self.task.is_some() {
            self.task = Some(true);
        }
    }

    /// Tells the background task to stop; `true` where it is to be signalled.
    pub fn stop(&mut self) -> (r: bool)
        ensures
            r == old(self).stoppable,
            *final(self) == (Client { stoppable: false, ..*old(self) }),
    {
        let signal: bool = self.stoppable;
        self.stoppable = false;
        signal
    }

    /// Shuts the client down: the background task is signalled, and then gone.
    pub fn shutdown(&mut self) -> (r: bool)
        ensures
            r == old(self).stoppable,
            *final(self) == (Client { stoppable: false, task: None, ..*old(self) }),
    {
        let signal: bool = self.stop();
        self.task = None;
        signal
    }

    /// Whether the client is running.
    pub fn is_running(&self) -> (r: bool)
        ensures
            r == (self.task == Some(false)),
    {
        match self.task {
            Some(finished) => !finished,
            None => false,
        }
    }

    /// The configuration.
    pub fn config(&self) -> (r: &ClientConfig)
        ensures
            *r == self.config,
    {
        &self.config
    }
}

/// Builder for a [`Client`].
pub struct ClientBuilder {
    pub config: ClientConfig,
    pub transport_config: Option<TransportConfig>,
}

impl Default for ClientBuilder {
    fn default() -> (r: ClientBuilder)
        ensures
            r.is_default(),
    {
        ClientBuilder { config: ClientConfig::default(), transport_config: None }
    }
}

impl ClientBuilder {
    /// Whether nothing has been set.
    pub open spec fn is_default(&self) -> bool {
        &&& self.config.server_addr@.len() == 0
        &&& self.config.token@.len() == 0
        &&& self.config.local_addr@ == "127.0.0.1:8080"@
        &&& self.config.tunnel_id is None
        &&& self.config.auto_reconnect
        &&& self.config.reconnect_delay == 5_000
        &&& self.config.startup_timeout == Some(30_000u64)
        &&& self.config.limits == LimitsConfig::defaults()
        &&& self.transport_config is None
    }

    /// Sets the server address to connect to (`host:port`).
    pub fn server_addr(self, addr: &str) -> (r: ClientBuilder)
        ensures
            r.config.server_addr@ == addr@,
            r == (ClientBuilder {
                config: ClientConfig { server_addr: r.config.server_addr, ..self.config },
                ..self
            }),
    {
        let mut builder = self;
        builder.config.server_addr = addr.to_owned();
        builder
    }

    /// Sets the authentication token.
    pub fn token(self, token: &str) -> (r: ClientBuilder)
        ensures
            r.config.token@ == token@,
            r == (ClientBuilder {
                config: ClientConfig { token: r.config.token, ..self.config },
                ..self
            }),
    {
        let mut builder = self;
        builder.config.token = token.to_owned();
        builder
    }

    /// Sets the local address to forward traffic to.
    pub fn local_addr(self, addr: &str) -> (r: ClientBuilder)
        ensures
            r.config.local_addr@ == addr@,
            r == (ClientBuilder {
                config: ClientConfig { local_addr: r.config.local_addr, ..self.config },
                ..self
            }),
    {
        let mut builder = self;
        builder.config.local_addr = addr.to_owned();
        builder
    }

    /// Sets the tunnel id used for HTTP routing. Without one the server assigns one.
    pub fn tunnel_id(self, id: &str) -> (r: ClientBuilder)
        ensures
            opt_text(r.config.tunnel_id) == Some(id@),
            r == (ClientBuilder {
                config: ClientConfig { tunnel_id: r.config.tunnel_id, ..self.config },
                ..self
            }),
    {
        let mut builder = self;
        builder.config.tunnel_id = Some(id.to_owned());
        builder
    }

    /// Enables or disables automatic reconnection.
    pub fn auto_reconnect(self, enabled: bool) -> (r: ClientBuilder)
        ensures
            r == (ClientBuilder {
                config: ClientConfig { auto_reconnect: enabled, ..self.config },
                ..self
            }),
    {
        let mut builder = self;
        builder.config.auto_reconnect = enabled;
        builder
    }

    /// Sets the delay between reconnection attempts, in milliseconds.
    pub fn reconnect_delay(self, delay: u64) -> (r: ClientBuilder)
        ensures
            r == (ClientBuilder {
                config: ClientConfig { reconnect_delay: delay, ..self.config },
                ..self
            }),
    {
        let mut builder = self;
        builder.config.reconnect_delay = delay;
        builder
    }

    /// Sets the resource limits.
    pub fn limits(self, limits: &LimitsConfig) -> (r: ClientBuilder)
        ensures
            r == (ClientBuilder {
                config: ClientConfig { limits: *limits, ..self.config },
                ..self
            }),
    {
        let mut builder = self;
        builder.config.limits = *limits;
        builder
    }

    /// Uses TLS, where the configuration enables it.
    pub fn tls(self, config: &TlsConfig) -> (r: ClientBuilder)
        ensures
            r == (ClientBuilder { transport_config: r.transport_config, ..self }),
            config.enabled ==> (r.transport_config matches Some(TransportConfig::Tls(t)) && t.says(
                *config,
            )),
            !config.enabled ==> r.transport_config == self.transport_config,
    {
        let mut builder = self;
        if let Some(tls) = TlsTransportConfig::from_common(config) {
            builder.transport_config = Some(TransportConfig::Tls(tls));
        }
        builder
    }

    /// Uses QUIC, where the configuration enables it.
    pub fn quic(self, config: &QuicConfig) -> (r: ClientBuilder)
        ensures
            r == (ClientBuilder { transport_config: r.transport_config, ..self }),
            config.enabled ==> (r.transport_config matches Some(TransportConfig::Quic(t)) && t.says(
                *config,
            )),
            !config.enabled ==> r.transport_config == self.transport_config,
    {
        let mut builder = self;
        if let Some(quic) = QuicTransportConfig::from_common(config) {
            builder.transport_config = Some(TransportConfig::Quic(quic));
        }
        builder
    }

    /// Builds the client. Fails where the configuration is not valid.
    pub fn build(self) -> (r: Result<Client, TunnelError>)
        ensures
            r is Ok <==> client_complaint(self.config) is None,
            r matches Err(e) ==> e is Config && client_complaint(self.config) == Some(e.text()),
            r matches Ok(client) ==> {
                &&& client.config == self.config
                &&& client.transport_config == (match self.transport_config {
                    Some(t) => t,
                    None => TransportConfig::Tcp,
                })
                &&& !client.stoppable
                &&& client.task is None
                &&& !client.published
            },
    {
        if let Err(e) = self.config.validate() {
            return Err(e);
        }
        let ClientBuilder { config, transport_config } = self;
        let transport_config = match transport_config {
            Some(t) => t,
            None => TransportConfig::Tcp,
        };
        Ok(Client { config, transport_config, stoppable: false, task: None, published: false })
    }
}

/// A client is built exactly where it has a server, a token, a local address and usable limits, with
/// what the builder was told, over the transport that was chosen last or else plain TCP.
pub proof fn law_client_is_built_as_told(
    fresh: ClientBuilder,
    addr: &str,
    token: &str,
    local: &str,
    id: &str,
    with_addr: ClientBuilder,
    with_token: ClientBuilder,
    with_local: ClientBuilder,
    with_id: ClientBuilder,
    r: Result<Client, TunnelError>,
)
    requires
        call_ensures(Client::builder, (), fresh),
        call_ensures(ClientBuilder::server_addr, (fresh, addr), with_addr),
        call_ensures(ClientBuilder::token, (with_addr, token), with_token),
        call_ensures(ClientBuilder::local_addr, (with_token, local), with_local),
        call_ensures(ClientBuilder::tunnel_id, (with_local, id), with_id),
        call_ensures(ClientBuilder::build, (with_id,), r),
    ensures
        r is Ok <==> addr@.len() > 0 && token@.len() > 0 && local@.len() > 0,
        r matches Err(e) ==> e is Config,
        r matches Ok(client) ==> {
            &&& client.config.server_addr@ == addr@
            &&& client.config.token@ == token@
            &&& client.config.local_addr@ == local@
            &&& client.config.tunnel_id is Some && (client.config.tunnel_id->0)@ == id@
            &&& client.config.auto_reconnect
            &&& client.config.reconnect_delay == 5 * 1000
            &&& client.config.startup_timeout == Some(30_000u64)
            &&& client.transport_config is Tcp
            &&& client.task is None
        },
        addr@.len() == 0 ==> r is Err && r->Err_0->Config_0@ == "server_addr is required"@,
        addr@.len() > 0 && token@.len() == 0 ==> r is Err && r->Err_0->Config_0@
            == "token is required"@,
{
}

/// Each setting of the builder is what it was told, and leaves the others alone; a transport that is
/// not enabled changes nothing.
pub proof fn law_client_settings_are_kept(
    builder: ClientBuilder,
    enabled: bool,
    delay: u64,
    limits: &LimitsConfig,
    tls: &TlsConfig,
    quic: &QuicConfig,
    a: ClientBuilder,
    b: ClientBuilder,
    c: ClientBuilder,
    d: ClientBuilder,
    e: ClientBuilder,
)
    requires
        call_ensures(ClientBuilder::auto_reconnect, (builder, enabled), a),
        call_ensures(ClientBuilder::reconnect_delay, (a, delay), b),
        call_ensures(ClientBuilder::limits, (b, limits), c),
        call_ensures(ClientBuilder::tls, (c, tls), d),
        call_ensures(ClientBuilder::quic, (d, quic), e),
    ensures
        e.config.auto_reconnect == enabled,
        e.config.reconnect_delay == delay,
        e.config.limits == *limits,
        e.config.token@ == builder.config.token@,
        e.config.server_addr@ == builder.config.server_addr@,
        e.config.local_addr@ == builder.config.local_addr@,
        quic.enabled ==> e.transport_config is Some && e.transport_config->0 is Quic
            && e.transport_config->0->Quic_0.skip_verify == quic.skip_verify,
        !quic.enabled && tls.enabled ==> e.transport_config is Some && e.transport_config->0 is Tls
            && e.transport_config->0->Tls_0.skip_verify == tls.skip_verify,
        !quic.enabled && !tls.enabled ==> e.transport_config == builder.transport_config,
{
}

/// A client starts once and runs until it is stopped, shut down or finished; after a shutdown it can
/// be started again.
pub proof fn law_client_starts_once(
    client: &mut Client,
    r: Result<(), TunnelError>,
    running: bool,
    again: &mut Client,
    second: Result<(), TunnelError>,
    down: &mut Client,
    signalled: bool,
    still: bool,
    anew: &mut Client,
    third: Result<(), TunnelError>,
)
    requires
        call_ensures(Client::start, (client,), r),
        call_ensures(Client::is_running, (&*final(client),), running),
        *old(again) == *final(client),
        call_ensures(Client::start, (again,), second),
        *old(down) == *final(client),
        call_ensures(Client::shutdown, (down,), signalled),
        call_ensures(Client::is_running, (&*final(down),), still),
        *old(anew) == *final(down),
        call_ensures(Client::start, (anew,), third),
    ensures
        r is Ok <==> old(client).task is None,
        r is Ok ==> running && signalled,
        second is Err && second->Err_0 is InvalidState,
        !still,
        third is Ok,
        final(client).config == old(client).config,
{
}

/// After a connection that ended in order a client stops, and after one that failed too unless it
/// reconnects, which it does after the delay that was set.
pub proof fn law_client_reconnects_where_told_to(
    client: &Client,
    succeeded: bool,
    r: AfterConnection,
)
    requires
        call_ensures(Client::after_connection, (client, succeeded), r),
    ensures
        r == AfterConnection::Stop <==> succeeded || !client.config.auto_reconnect,
        r matches AfterConnection::Reconnect(delay) ==> delay == client.config.reconnect_delay,
{
}

/// The session of a connection is published the first time, and only then; a start makes it possible
/// again.
pub proof fn law_session_is_published_once(
    client: &mut Client,
    id: u128,
    r: Option<TunnelInfo>,
    again: &mut Client,
    other: u128,
    second: Option<TunnelInfo>,
)
    requires
        call_ensures(Client::publish_tunnel_info, (client, id), r),
        *old(again) == *final(client),
        call_ensures(Client::publish_tunnel_info, (again, other), second),
    ensures
        r is Some <==> !old(client).published,
        r matches Some(info) ==> info.session_id == Some(id),
        second is None,
{
}

/// Over QUIC bytes are copied as they are; else gRPC goes through the proxy over HTTP/2, and all else
/// through the proxy.
pub proof fn law_client_streams_are_handled_by_their_protocol(
    protocol: Protocol,
    over_quic: bool,
    r: StreamHandler,
)
    requires
        call_ensures(client_stream_handler, (protocol, over_quic), r),
    ensures
        r == StreamHandler::Raw <==> over_quic,
        r == StreamHandler::Grpc <==> !over_quic && protocol == Protocol::GRPC,
{
}

/// A client that was told to stop is signalled once; one whose task has finished no longer runs.
pub proof fn law_client_is_signalled_once(
    client: &mut Client,
    first: bool,
    again: &mut Client,
    second: bool,
    done: &mut Client,
    running: bool,
)
    requires
        call_ensures(Client::stop, (client,), first),
        *old(again) == *final(client),
        call_ensures(Client::stop, (again,), second),
        call_ensures(Client::task_finished, (done,), ()),
        call_ensures(Client::is_running, (&*final(done),), running),
    ensures
        first == old(client).stoppable,
        !second,
        !running,
{
}

} // verus!
