//! TCP ingress: raw connections through a tunnel, whatever protocol they carry.

use vstd::prelude::*;

use crate::error::TunnelError;
use crate::net::SocketAddr;
use crate::sharded::SessionStoreBackend;

verus! {

/// Size of the buffers between client and tunnel: what one data frame carries.
pub const TCP_COPY_BUFFER_SIZE: usize = 65536;

/// Limits and timeouts of the TCP ingress. Timeouts are in milliseconds.
#[derive(Debug, Clone, Copy, PartialEq, Eq, Structural)]
pub struct TcpIngressConfig {
    /// Maximum concurrent TCP connections.
    pub max_connections: usize,
    /// Timeout for establishing the tunnel connection.
    pub connection_timeout_millis: u64,
    /// Idle timeout for inactive connections.
    pub idle_timeout_millis: u64,
    /// Buffer size in each direction.
    pub buffer_size: usize,
}

impl Default for TcpIngressConfig {
    fn default() -> (r: TcpIngressConfig)
        ensures
            r == (TcpIngressConfig {
                max_connections: 1000,
                connection_timeout_millis: 10_000,
                idle_timeout_millis: 300_000,
                buffer_size: 65536,
            }),
    {
        TcpIngressConfig {
            max_connections: 1000,
            connection_timeout_millis: 10_000,
            idle_timeout_millis: 300_000,
            buffer_size: 65536,
        }
    }
}

/// What becomes of a connection.
#[derive(Debug, Clone, Copy, PartialEq, Eq, Structural)]
pub enum TcpAdmission {
    /// It is dropped: as many are open as may be.
    AtCapacity,
    /// It is dropped: no session offers TCP.
    NoTunnel,
    /// It goes through this multiplexer.
    Serve(u64),
}

/// What becomes of an open connection.
#[derive(Debug, Clone, Copy, PartialEq, Eq, Structural)]
pub enum IdleStep {
    /// It is closed: nothing has passed for too long.
    Close,
    /// It stays open, and is looked at again after so many milliseconds.
    Wait(u64),
}

/// A TCP ingress.
#[derive(Debug, Clone, Copy, PartialEq, Eq, Structural)]
pub struct TcpIngress {
    pub addr: SocketAddr,
    pub config: TcpIngressConfig,
    /// The connections that are open.
    pub active: usize,
}

impl TcpIngress {
    /// Whether no more connections are open than may be.
    pub open spec fn wf(&self) -> bool {
        self.active <= self.config.max_connections
    }

    /// Creates an ingress with the default limits.
    pub fn new(addr: SocketAddr) -> (r: TcpIngress)
        ensures
            r.wf(),
            r == (TcpIngress {
                addr,
                config: TcpIngressConfig {
                    max_connections: 1000,
                    connection_timeout_millis: 10_000,
                    idle_timeout_millis: 300_000,
                    buffer_size: 65536,
                },
                active: 0,
            }),
    {
        let config = TcpIngressConfig::default();
        TcpIngress::with_config(addr, config)
    }

    /// Creates an ingress with the given limits.
    pub fn with_config(addr: SocketAddr, config: TcpIngressConfig) -> (r: TcpIngress)
        ensures
            r.wf(),
            r == (TcpIngress { addr, config, active: 0 }),
    {
        TcpIngress { addr, config, active: 0 }
    }

    /// Decides what becomes of a connection: it goes through some session that offers TCP, as
    /// long as there is room.
    pub fn on_connection(&mut self, sessions: &SessionStoreBackend) -> (r: TcpAdmission)
        requires
            old(self).wf(),
        ensures
            final(self).wf(),
            final(self).addr == old(self).addr,
            final(self).config == old(self).config,
            r == TcpAdmission::AtCapacity <==> old(self).active >= old(self).config.max_connections,
            final(self).active == (if r is Serve {
                old(self).active + 1
            } else {
                old(self).active as int
            }),
            old(self).active < old(self).config.max_connections ==> (r is Serve
                <==> sessions.offers_capability("tcp"@)),
            r matches TcpAdmission::Serve(m) ==> sessions.has_capable("tcp"@, m),
    {
        if self.active >= self.config.max_connections {
            return TcpAdmission::AtCapacity;
        }
        match sessions.find_multiplexer_with_capability("tcp") {
            Some(multiplexer) => {
                self.active = self.active + 1;
                TcpAdmission::Serve(multiplexer)
            },
            None => TcpAdmission::NoTunnel,
        }
    }

    /// Decides what becomes of a connection on which nothing has passed, either way, for so
    /// many milliseconds. One on which something passes in time stays open, however old it is.
    pub fn on_quiet(&self, quiet_millis: u64) -> (r: IdleStep)
        ensures
            r == (if quiet_millis >= self.config.idle_timeout_millis {
                IdleStep::Close
            } else {
                IdleStep::Wait((self.config.idle_timeout_millis - quiet_millis) as u64)
            }),
    {
        if quiet_millis >= self.config.idle_timeout_millis {
            IdleStep::Close
        } else {
            IdleStep::Wait(self.config.idle_timeout_millis - quiet_millis)
        }
    }

    /// Records that a connection was closed.
    pub fn on_closed(&mut self)
        requires
            old(self).wf(),
            old(self).active > 0,
        ensures
            final(self).wf(),
            *final(self) == (TcpIngress { active: (old(self).active - 1) as usize, ..*old(self) }),
    {
        self.active = self.active - 1;
    }
}

/// What a tunnel stream that could not be opened in time means for its connection.
pub fn tunnel_connection_timeout() -> (r: TunnelError)
    ensures
        r is Io,
        r.text() == "Tunnel connection timeout"@,
{
    TunnelError::Io("Tunnel connection timeout".to_owned())
}

/// A connection is served, by a session that offers TCP, exactly where there is one and room is
/// left; one that ends leaves its room to another.
pub proof fn law_tcp_connections_find_a_session(
    ingress: &mut TcpIngress,
    sessions: &SessionStoreBackend,
    r: TcpAdmission,
    found: Option<u64>,
    ending: &mut TcpIngress,
)
    requires
        old(ingress).active <= old(ingress).config.max_connections,
        call_ensures(TcpIngress::on_connection, (ingress, sessions), r),
        call_ensures(
            SessionStoreBackend::find_multiplexer_with_capability,
            (sessions, "tcp"),
            found,
        ),
        0 < old(ending).active <= old(ending).config.max_connections,
        call_ensures(TcpIngress::on_closed, (ending,), ()),
    ensures
        r == TcpAdmission::AtCapacity <==> old(ingress).active == old(ingress).config.max_connections,
        old(ingress).active < old(ingress).config.max_connections ==> (r is Serve <==> found is Some)
            && (r == TcpAdmission::NoTunnel <==> found is None),
        r is Serve ==> final(ingress).active == old(ingress).active + 1,
        !(r is Serve) ==> final(ingress).active == old(ingress).active,
        r matches TcpAdmission::Serve(m) ==> match *sessions {
            SessionStoreBackend::Default(s) => exists|id: u128, j: int|
                s@.sessions.contains_key(id) && s@.sessions[id].multiplexer == Some(m) && 0 <= j
                    < s@.sessions[id].capabilities@.len()
                    && #[trigger] s@.sessions[id].capabilities@[j]@ == "tcp"@,
            SessionStoreBackend::Sharded(s) => exists|k: int, id: u128, j: int|
                0 <= k < s@.len() && s@[k].sessions.contains_key(id)
                    && s@[k].sessions[id].multiplexer == Some(m) && 0 <= j
                    < s@[k].sessions[id].capabilities@.len()
                    && #[trigger] s@[k].sessions[id].capabilities@[j]@ == "tcp"@,
        },
        final(ending).active == old(ending).active - 1,
{
    if let TcpAdmission::Serve(m) = r {
        match *sessions {
            SessionStoreBackend::Default(s) => {
                let id = choose|id: u128| #[trigger]
                    s@.sessions.contains_key(id) && s@.sessions[id].multiplexer == Some(m)
                        && s@.sessions[id].offers("tcp"@);
                let j = choose|j: int|
                    0 <= j < s@.sessions[id].capabilities@.len()
                        && #[trigger] s@.sessions[id].capabilities@[j]@ == "tcp"@;
                assert(s@.sessions[id].capabilities@[j]@ == "tcp"@);
            },
            SessionStoreBackend::Sharded(s) => {
                let (k, id) = choose|k: int, id: u128|
                    0 <= k < s@.len() && (#[trigger] s@[k].sessions.contains_key(id))
                        && s@[k].sessions[id].multiplexer == Some(m)
                        && s@[k].sessions[id].offers("tcp"@);
                let j = choose|j: int|
                    0 <= j < s@[k].sessions[id].capabilities@.len()
                        && #[trigger] s@[k].sessions[id].capabilities@[j]@ == "tcp"@;
                assert(s@[k].sessions[id].capabilities@[j]@ == "tcp"@);
            },
        }
    }
}

/// A connection is closed exactly where nothing has passed for as long as it may be idle; else it is
/// looked at again when that would be.
pub proof fn law_only_idle_connections_are_closed(ingress: &TcpIngress, quiet: u64, r: IdleStep)
    requires
        call_ensures(TcpIngress::on_quiet, (ingress, quiet), r),
    ensures
        r == IdleStep::Close <==> quiet >= ingress.config.idle_timeout_millis,
        r matches IdleStep::Wait(millis) ==> quiet + millis == ingress.config.idle_timeout_millis,
{
}

/// An ingress starts without connections, with the limits that it was given, by default 1000
/// connections, ten seconds to connect and five minutes to be idle.
pub proof fn law_tcp_ingress_starts_empty(
    addr: SocketAddr,
    config: TcpIngressConfig,
    usual: TcpIngress,
    custom: TcpIngress,
)
    requires
        call_ensures(TcpIngress::new, (addr,), usual),
        call_ensures(TcpIngress::with_config, (addr, config), custom),
    ensures
        usual.addr == addr && usual.active == 0,
        usual.config.max_connections == 1000,
        usual.config.connection_timeout_millis == 10 * 1000,
        usual.config.idle_timeout_millis == 5 * 60 * 1000,
        usual.config.buffer_size == 64 * 1024,
        custom.addr == addr && custom.config == config && custom.active == 0,
{
}

} // verus!
