//! The tunnel server: its configuration, and what it does with each frame of a session.

use vstd::prelude::*;

use crate::accept_backoff::{AcceptBackoff, IoError, is_transient_accept_error, transient_kind};
use crate::error::TunnelError;
use crate::frame::{CloseReason, CloseReasonView, Frame, FrameView, StreamPriority};
use crate::multiplexer::{FrameAction, Multiplexer, MultiplexerView, PrioritizedFrame,
    priority_of_frame};
use crate::net::SocketAddr;
use crate::rate_limit::{Admission, SessionRateLimiter};
use crate::reconnect::Backoff;
use crate::resource_limits::ServerResourceLimits;
use crate::session::{Session, SessionStore, empty_store};
use crate::sharded::{SessionStoreBackend, ShardedSessionStore};
use crate::transport::{QuicTransportConfig, TlsTransportConfig, TransportConfig};

verus! {

/// Milliseconds that a client has for its handshake, unless configured.
pub const DEFAULT_HANDSHAKE_TIMEOUT_MILLIS: u64 = 10_000;

/// Milliseconds between two passes that clean up stale sessions.
pub const SESSION_CLEANUP_INTERVAL_MILLIS: u64 = 30_000;

/// Milliseconds without a sign of life after which a session is stale.
pub const SESSION_TIMEOUT_MILLIS: u64 = 90_000;

/// A tunnel server.
pub struct TunnelServer {
    pub addr: SocketAddr,
    pub auth_token: String,
    pub sessions: SessionStoreBackend,
    pub session_timeout_millis: u64,
    pub handshake_timeout_millis: u64,
    pub resource_limits: ServerResourceLimits,
    pub transport_config: TransportConfig,
    /// Whether the periodic cleanup runs.
    pub cleanup_started: bool,
}

impl TunnelServer {
    /// Creates a server with the defaults: plain TCP, one session store.
    pub fn new(addr: SocketAddr, auth_token: String) -> (r: TunnelServer)
        ensures
            r.addr == addr,
            r.auth_token == auth_token,
            r.sessions matches SessionStoreBackend::Default(s) && s@ == empty_store(),
            r.session_timeout_millis == 90_000,
            r.handshake_timeout_millis == 10_000,
            r.resource_limits == (ServerResourceLimits {
                max_sessions: 1000,
                active_sessions: 0,
                max_streams_per_session: 100,
                max_inflight_frames: 100,
            }),
            r.transport_config is Tcp,
            !r.cleanup_started,
    {
        TunnelServer {
            addr,
            auth_token,
            sessions: SessionStoreBackend::Default(SessionStore::new()),
            session_timeout_millis: SESSION_TIMEOUT_MILLIS,
            handshake_timeout_millis: DEFAULT_HANDSHAKE_TIMEOUT_MILLIS,
            resource_limits: ServerResourceLimits::default(),
            transport_config: TransportConfig::Tcp,
            cleanup_started: false,
        }
    }

    /// Uses a sharded session store, for many lookups of tunnel ids at once.
    pub fn with_sharded_sessions(self, n_shards: usize) -> (r: TunnelServer)
        ensures
            r.sessions matches SessionStoreBackend::Sharded(s) && s@ == Seq::new(
                n_shards as nat,
                |i: int| empty_store(),
            ),
            r == (TunnelServer { sessions: r.sessions, ..self }),
    {
        let mut server = self;
        server.sessions =
        SessionStoreBackend::Sharded(ShardedSessionStore::with_shards(n_shards));
        server
    }

    /// Uses other resource limits.
    pub fn with_resource_limits(self, limits: ServerResourceLimits) -> (r: TunnelServer)
        ensures
            r == (TunnelServer { resource_limits: limits, ..self }),
    {
        let mut server = self;
        server.resource_limits = limits;
        server
    }

    /// Uses another handshake timeout.
    pub fn with_handshake_timeout(self, timeout_millis: u64) -> (r: TunnelServer)
        ensures
            r == (TunnelServer { handshake_timeout_millis: timeout_millis, ..self }),
    {
        let mut server = self;
        server.handshake_timeout_millis = timeout_millis;
        server
    }

    /// Uses another transport.
    pub fn with_transport(self, config: TransportConfig) -> (r: TunnelServer)
        ensures
            r == (TunnelServer { transport_config: config, ..self }),
    {
        let mut server = self;
        server.transport_config = config;
        server
    }

    /// Uses an existing session store, so that several listeners share their sessions.
    pub fn with_sessions(self, sessions: SessionStoreBackend) -> (r: TunnelServer)
        ensures
            r == (TunnelServer { sessions, ..self }),
    {
        let mut server = self;
        server.sessions = sessions;
        server
    }

    /// Uses TLS with the given certificate and key files; other TLS settings stay.
    pub fn with_tls(self, cert_path: String, key_path: String) -> (r: TunnelServer)
        ensures
            r == (TunnelServer { transport_config: r.transport_config, ..self }),
            r.transport_config matches TransportConfig::Tls(tls) && tls.cert_path == cert_path
                && tls.key_path == key_path && match self.transport_config {
                TransportConfig::Tls(before) => tls == (TlsTransportConfig {
                    cert_path,
                    key_path,
                    ..before
                }),
                _ => tls.ca_cert_path is None && tls.server_name is None && !tls.client_auth
                    && !tls.skip_verify,
            },
    {
        let TunnelServer {
            addr,
            auth_token,
            sessions,
            session_timeout_millis,
            handshake_timeout_millis,
            resource_limits,
            transport_config,
            cleanup_started,
        } = self;
        let mut tls = match transport_config {
            TransportConfig::Tls(tls) => tls,
            _ => TlsTransportConfig::default(),
        };
        tls.cert_path = cert_path;
        tls.key_path = key_path;
        TunnelServer {
            addr,
            auth_token,
            sessions,
            session_timeout_millis,
            handshake_timeout_millis,
            resource_limits,
            transport_config: TransportConfig::Tls(tls),
            cleanup_started,
        }
    }

    /// Requires client certificates that the given CA signed; other TLS settings stay.
    pub fn with_client_auth(self, ca_path: String) -> (r: TunnelServer)
        ensures
            r == (TunnelServer { transport_config: r.transport_config, ..self }),
            r.transport_config matches TransportConfig::Tls(tls) && tls.ca_cert_path == Some(
                ca_path,
            ) && tls.client_auth && match self.transport_config {
                TransportConfig::Tls(before) => tls == (TlsTransportConfig {
                    ca_cert_path: Some(ca_path),
                    client_auth: true,
                    ..before
                }),
                _ => tls.cert_path@.len() == 0 && tls.key_path@.len() == 0 && tls.server_name
                    is None && !tls.skip_verify,
            },
    {
        let TunnelServer {
            addr,
            auth_token,
            sessions,
            session_timeout_millis,
            handshake_timeout_millis,
            resource_limits,
            transport_config,
            cleanup_started,
        } = self;
        let mut tls = match transport_config {
            TransportConfig::Tls(tls) => tls,
            _ => TlsTransportConfig::default(),
        };
        tls.ca_cert_path = Some(ca_path);
        tls.client_auth = true;
        TunnelServer {
            addr,
            auth_token,
            sessions,
            session_timeout_millis,
            handshake_timeout_millis,
            resource_limits,
            transport_config: TransportConfig::Tls(tls),
            cleanup_started,
        }
    }

    /// Marks the periodic cleanup as running, and tells whether it is to be started: only the
    /// first call does.
    pub fn start_cleanup_task(&mut self) -> (r: bool)
        ensures
            r == !old(self).cleanup_started,
            *final(self) == (TunnelServer { cleanup_started: true, ..*old(self) }),
    {
        let first: bool = !self.cleanup_started;
        self.cleanup_started = true;
        first
    }

    /// The configuration that the QUIC server needs.
    pub fn quic_config(&self) -> (r: Result<&QuicTransportConfig, TunnelError>)
        ensures
            r is Ok <==> self.transport_config is Quic,
            r matches Ok(c) ==> self.transport_config == TransportConfig::Quic(*c),
            r matches Err(e) ==> e is Config && e.text()
                == "QUIC transport config required for run_quic()"@,
    {
        match &self.transport_config {
            TransportConfig::Quic(config) => Ok(config),
            _ => Err(
                TunnelError::Config("QUIC transport config required for run_quic()".to_owned()),
            ),
        }
    }
}

/// What an accept loop does about an error.
#[derive(Debug, Clone, Copy, PartialEq, Eq, Structural)]
pub enum AcceptStep {
    /// Wait, for the delay of this attempt, and accept again; log the error if told to.
    Retry { attempt: u32, log: bool },
    /// Stop.
    Fail,
}

/// Decides what an accept loop does about an error: a transient one is retried after a delay.
pub fn on_accept_error(backoff: &mut AcceptBackoff, error: &IoError) -> (r: AcceptStep)
    requires
        old(backoff).consecutive < u64::MAX,
    ensures
        transient_kind(error.kind) ==> r is Retry,
        !transient_kind(error.kind) && error.raw_os_error is None ==> r is Fail,
        r is Fail ==> *final(backoff) == *old(backoff),
        r matches AcceptStep::Retry { attempt, log } ==> attempt == old(backoff).backoff.attempt
            && final(backoff).backoff.attempt == Backoff::following(attempt)
            && final(backoff).consecutive == old(backoff).consecutive + 1 && log == (
        final(backoff).consecutive == 1 || final(backoff).consecutive % 50 == 0),
{
    if is_transient_accept_error(error) {
        let (attempt, log) = backoff.record_failure();
        AcceptStep::Retry { attempt, log }
    } else {
        AcceptStep::Fail
    }
}

/// What the server does with a frame of a session.
#[derive(Debug, PartialEq)]
pub enum ServerStep {
    /// Nothing.
    Nothing,
    /// Send this frame; a failure ends the session.
    Send(PrioritizedFrame),
    /// Send this frame if that can be done.
    Notify(PrioritizedFrame),
    /// Do what the multiplexer decided.
    Route(FrameAction),
    /// End the session.
    Fail(TunnelError),
}

/// The notice to a client whose stream is denied.
pub open spec fn denial(stream_id: u32) -> FrameView {
    FrameView::CloseStream { stream_id, reason: CloseReasonView::Error("rate limited"@) }
}

/// Whether `step` is what the server does with a frame that keeps within the limits, or does
/// not: a heartbeat is answered; a stream that is over the limit is denied, and data that is
/// over it dropped; all else goes to the multiplexer.
pub open spec fn handled(
    before: MultiplexerView,
    after: MultiplexerView,
    frame: Frame,
    within_limits: bool,
    fresh: u64,
    unix_millis: u64,
    step: ServerStep,
) -> bool {
    if frame is Heartbeat {
        &&& step matches ServerStep::Send((priority, f)) && priority == StreamPriority::Normal && f@
            == (FrameView::HeartbeatAck { timestamp: unix_millis })
        &&& after == before
    } else if !within_limits && frame is OpenStream {
        &&& step matches ServerStep::Notify((priority, f)) && f@ == denial(
            frame->OpenStream_0.stream_id,
        ) && priority == priority_of_frame(f, before.priorities)
        &&& after == before
    } else if !within_limits && frame is Data {
        step == ServerStep::Nothing && after == before
    } else {
        step matches ServerStep::Route(action) && routed(before, after, frame, fresh, action)
    }
}

/// Handles a frame of a session, for what the rate limits say of it.
pub fn handle_frame(
    multiplexer: &mut Multiplexer,
    frame: Frame,
    within_limits: bool,
    fresh: u64,
    unix_millis: u64,
) -> (r: ServerStep)
    ensures
        handled(
            old(multiplexer)@,
            final(multiplexer)@,
            frame,
            within_limits,
            fresh,
            unix_millis,
            r,
        ),
{
    if !within_limits {
        match &frame {
            Frame::OpenStream(open) => {
                let stream_id: u32 = open.stream_id;
                let reason = CloseReason::Error("rate limited".to_owned());
                let notice = multiplexer.prioritize(Frame::CloseStream { stream_id, reason });
                return ServerStep::Notify(notice);
            },
            Frame::Data { .. } => {
                return ServerStep::Nothing;
            },
            _ => {},
        }
    }
    match &frame {
        Frame::Heartbeat { .. } => ServerStep::Send(
            multiplexer.prioritize(Frame::HeartbeatAck { timestamp: unix_millis }),
        ),
        _ => ServerStep::Route(multiplexer.process_frame(frame, fresh)),
    }
}

/// Whether `action` is what a multiplexer decides for a frame, and `after` what it holds then.
pub open spec fn routed(
    before: MultiplexerView,
    after: MultiplexerView,
    frame: Frame,
    fresh: u64,
    action: FrameAction,
) -> bool {
    match frame {
        Frame::OpenStream(o) => if before.channels.contains_key(o.stream_id) {
            action == FrameAction::Ignore && after == before
        } else {
            action == FrameAction::Announce(
                crate::multiplexer::IncomingStream {
                    stream_id: o.stream_id,
                    channel: fresh,
                    priority: o.priority,
                    protocol: o.protocol,
                },
            ) && after == crate::multiplexer::with_stream(before, o.stream_id, fresh, o.priority)
        },
        Frame::Data { stream_id, .. } => after == crate::multiplexer::looked_up(before, stream_id)
            && match crate::multiplexer::route(before, stream_id) {
            Some(channel) => action == (FrameAction::DeliverData { stream_id, channel, frame }),
            None => action == FrameAction::Ignore,
        },
        Frame::CloseStream { stream_id, .. } => after == crate::multiplexer::without_stream(
            crate::multiplexer::looked_up(before, stream_id),
            stream_id,
        ) && match crate::multiplexer::route(before, stream_id) {
            Some(channel) => action == (FrameAction::DeliverClose { channel, frame }),
            None => action == FrameAction::Ignore,
        },
        _ => action == FrameAction::Ignore && after == before,
    }
}

/// Whether a session's rate limits may answer so about a frame. Openings are held to the limit
/// on openings and data to that on bytes; other frames always pass.
pub open spec fn may_answer(
    limiter: Option<SessionRateLimiter>,
    frame: Frame,
    within_limits: bool,
) -> bool {
    match limiter {
        Some(l) => match frame {
            Frame::OpenStream(_) => l.may_open(within_limits),
            Frame::Data { data, .. } => l.may_send(data@.len(), within_limits),
            _ => within_limits,
        },
        None => within_limits,
    }
}

/// Asks a session's rate limits about a frame.
pub fn frame_within_limits(limiter: &Option<SessionRateLimiter>, frame: &Frame) -> (r: bool)
    ensures
        may_answer(*limiter, *frame, r),
{
    match limiter {
        Some(l) => match frame {
            Frame::OpenStream(_) => l.check_stream_open().is_ok(),
            Frame::Data { data, .. } => l.check_data(data.len()).is_ok(),
            _ => true,
        },
        None => true,
    }
}

/// Handles a frame of a session over TCP.
///
/// Any frame is a sign of life. A session that is no longer in the store ends.
pub fn process_message(
    sessions: &mut SessionStoreBackend,
    multiplexer: &mut Multiplexer,
    session_id: u128,
    frame: Frame,
    fresh: u64,
    unix_millis: u64,
    now: u128,
) -> (r: ServerStep)
    ensures
        r is Fail <==> old(sessions).session(session_id) is None,
        r matches ServerStep::Fail(e) ==> e is Protocol && e.text() == "Session not found"@
            && final(multiplexer)@ == old(multiplexer)@ && old(sessions).unchanged(final(sessions)),
        old(sessions).session(session_id) is Some ==> {
            &&& final(sessions).session(session_id) == Some(
                Session { last_heartbeat: now, ..old(sessions).session(session_id)->0 },
            )
            &&& old(sessions).touched(final(sessions), session_id, now)
            &&& exists|within_limits: bool| #[trigger]
                may_answer(old(sessions).session(session_id)->0.rate_limiter, frame, within_limits)
                    && handled(
                    old(multiplexer)@,
                    final(multiplexer)@,
                    frame,
                    within_limits,
                    fresh,
                    unix_millis,
                    r,
                )
        },
{
    if !sessions.update_heartbeat(&session_id, now) {
        return ServerStep::Fail(TunnelError::Protocol("Session not found".to_owned()));
    }
    let limiter: Option<SessionRateLimiter> = sessions.rate_limiter(&session_id);
    let within: bool = frame_within_limits(&limiter, &frame);
    handle_frame(multiplexer, frame, within, fresh, unix_millis)
}

/// Handles a frame on the control stream of a session over QUIC: a heartbeat is answered, and
/// nothing else is expected there.
pub fn process_quic_control(
    sessions: &mut SessionStoreBackend,
    session_id: u128,
    frame: Frame,
    unix_millis: u64,
    now: u128,
) -> (r: Result<Option<Frame>, TunnelError>)
    ensures
        r is Err <==> old(sessions).session(session_id) is None,
        r matches Err(e) ==> e is Protocol && e.text() == "Session not found"@
            && old(sessions).unchanged(final(sessions)),
        r matches Ok(reply) ==> {
            &&& final(sessions).session(session_id) == Some(
                Session { last_heartbeat: now, ..old(sessions).session(session_id)->0 },
            )
            &&& old(sessions).touched(final(sessions), session_id, now)
            &&& reply is Some <==> frame is Heartbeat
            &&& reply matches Some(f) ==> f@ == (FrameView::HeartbeatAck { timestamp: unix_millis })
        },
{
    if !sessions.update_heartbeat(&session_id, now) {
        return Err(TunnelError::Protocol("Session not found".to_owned()));
    }
    match frame {
        Frame::Heartbeat { .. } => Ok(Some(Frame::HeartbeatAck { timestamp: unix_millis })),
        _ => Ok(None),
    }
}

/// Within the limits, data of a stream that is open reaches the channel of that stream, whole, and
/// so does a close; a stream that the client opens is announced.
pub proof fn law_frames_within_the_limits_reach_their_stream(
    mux: &mut Multiplexer,
    frame: Frame,
    fresh: u64,
    unix_millis: u64,
    r: ServerStep,
)
    requires
        call_ensures(handle_frame, (mux, frame, true, fresh, unix_millis), r),
        old(mux)@.last matches Some((id, channel)) ==> !old(mux)@.channels.contains_key(id)
            || old(mux)@.channels[id] == channel,
    ensures
        frame matches Frame::Data { stream_id, .. } ==> {
            &&& old(mux)@.channels.contains_key(stream_id) ==> r == ServerStep::Route(
                FrameAction::DeliverData {
                    stream_id,
                    channel: old(mux)@.channels[stream_id],
                    frame,
                },
            )
            &&& final(mux)@.channels == old(mux)@.channels
            &&& final(mux)@.priorities == old(mux)@.priorities
        },
        frame matches Frame::CloseStream { stream_id, .. } ==> {
            &&& old(mux)@.channels.contains_key(stream_id) ==> r == ServerStep::Route(
                FrameAction::DeliverClose { channel: old(mux)@.channels[stream_id], frame },
            )
            &&& final(mux)@.channels == old(mux)@.channels.remove(stream_id)
            &&& final(mux)@.priorities == old(mux)@.priorities.remove(stream_id)
        },
        frame matches Frame::OpenStream(o) ==> !old(mux)@.channels.contains_key(o.stream_id) ==> {
            &&& r == ServerStep::Route(
                FrameAction::Announce(
                    crate::multiplexer::IncomingStream {
                        stream_id: o.stream_id,
                        channel: fresh,
                        priority: o.priority,
                        protocol: o.protocol,
                    },
                ),
            )
            &&& final(mux)@.channels == old(mux)@.channels.insert(o.stream_id, fresh)
            &&& final(mux)@.priorities == old(mux)@.priorities.insert(o.stream_id, o.priority)
        },
{
}

/// What the server does with a frame is what its multiplexer does with it, but for heartbeats and
/// for what goes beyond the limits.
pub proof fn law_server_routes_as_its_multiplexer(
    mux: &mut Multiplexer,
    same: &mut Multiplexer,
    frame: Frame,
    within_limits: bool,
    fresh: u64,
    unix_millis: u64,
    action: FrameAction,
    r: ServerStep,
)
    requires
        call_ensures(handle_frame, (mux, frame, within_limits, fresh, unix_millis), r),
        call_ensures(Multiplexer::process_frame, (same, frame, fresh), action),
        old(mux)@ == old(same)@,
        !(frame is Heartbeat),
        within_limits || !(frame is Data || frame is OpenStream),
    ensures
        r == ServerStep::Route(action),
        final(mux)@ == final(same)@,
{
}

/// Beyond the limits, data is dropped, and a stream is denied with a close that tells the client so;
/// the multiplexer stays as it is. A heartbeat is answered with the time, whatever the limits say.
pub proof fn law_limits_and_heartbeats(
    mux: &mut Multiplexer,
    frame: Frame,
    within_limits: bool,
    fresh: u64,
    unix_millis: u64,
    r: ServerStep,
)
    requires
        call_ensures(handle_frame, (mux, frame, within_limits, fresh, unix_millis), r),
    ensures
        !within_limits && frame is Data ==> r == ServerStep::Nothing && final(mux)@ == old(mux)@,
        !within_limits ==> (frame matches Frame::OpenStream(o) ==> {
            &&& r is Notify
            &&& r->Notify_0.1 is CloseStream
            &&& r->Notify_0.1->CloseStream_stream_id == o.stream_id
            &&& r->Notify_0.1->CloseStream_reason is Error
            &&& r->Notify_0.1->CloseStream_reason->Error_0@ == "rate limited"@
            &&& r->Notify_0.0 == (if old(mux)@.priorities.contains_key(o.stream_id) {
                old(mux)@.priorities[o.stream_id]
            } else {
                StreamPriority::Normal
            })
            &&& final(mux)@ == old(mux)@
        }),
        frame is Heartbeat ==> {
            &&& r is Send
            &&& r->Send_0.0 == StreamPriority::Normal
            &&& r->Send_0.1 == (Frame::HeartbeatAck { timestamp: unix_millis })
            &&& final(mux)@ == old(mux)@
        },
        r is Send ==> frame is Heartbeat,
        r is Notify ==> frame is OpenStream && !within_limits,
        r == ServerStep::Nothing ==> frame is Data && !within_limits,
        !(r is Fail),
{
}

/// A session without a limiter is never limited; one with a limiter is limited only in openings and
/// data, and never in empty data. Openings are let pass exactly as the limiter of openings answers,
/// and data as that of bytes answers for its length.
pub proof fn law_only_openings_and_data_are_limited(
    limiter: &Option<SessionRateLimiter>,
    frame: &Frame,
    r: bool,
)
    requires
        call_ensures(frame_within_limits, (limiter, frame), r),
    ensures
        limiter is None ==> r,
        !(*frame is OpenStream || *frame is Data) ==> r,
        *frame matches Frame::Data { data, .. } ==> data@.len() == 0 ==> r,
        limiter matches Some(l) ==> (*frame matches Frame::Data { data, .. } ==> l.bytes_burst()
            < data@.len() <= u32::MAX ==> !r),
        limiter matches Some(l) ==> (*frame is OpenStream ==> exists|answer: Admission| #[trigger]
            l.answers_opening(answer) && r == (answer == Admission::Admitted)),
        limiter matches Some(l) ==> (*frame matches Frame::Data { data, .. } ==> 0 < data@.len()
            <= u32::MAX ==> exists|answer: Admission| #[trigger]
            l.answers_bytes(data@.len() as u32, answer) && r == (answer == Admission::Admitted)),
{
}

/// Every frame of a session that is in the store is a sign of life, and is handled as within its
/// limits or as beyond them; a session that is not in the store ends.
pub proof fn law_session_frames_are_signs_of_life(
    sessions: &mut SessionStoreBackend,
    mux: &mut Multiplexer,
    session_id: u128,
    frame: Frame,
    fresh: u64,
    unix_millis: u64,
    now: u128,
    r: ServerStep,
)
    requires
        call_ensures(
            process_message,
            (sessions, mux, session_id, frame, fresh, unix_millis, now),
            r,
        ),
        old(mux)@.last matches Some((id, channel)) ==> !old(mux)@.channels.contains_key(id)
            || old(mux)@.channels[id] == channel,
    ensures
        r is Fail <==> old(sessions).session(session_id) is None,
        old(sessions).session(session_id) is Some ==> {
            &&& final(sessions).session(session_id) is Some
            &&& final(sessions).session(session_id)->0.last_heartbeat == now
            &&& final(sessions).session(session_id)->0.tunnel_id == old(sessions).session(
                session_id,
            )->0.tunnel_id
            &&& final(sessions).session(session_id)->0.multiplexer == old(sessions).session(
                session_id,
            )->0.multiplexer
            &&& frame is Heartbeat ==> r is Send && r->Send_0.1 == (Frame::HeartbeatAck {
                timestamp: unix_millis,
            })
            &&& frame matches Frame::Data { stream_id, .. } ==> old(mux)@.channels.contains_key(
                stream_id,
            ) ==> r == ServerStep::Nothing || r == ServerStep::Route(
                FrameAction::DeliverData {
                    stream_id,
                    channel: old(mux)@.channels[stream_id],
                    frame,
                },
            )
            &&& frame matches Frame::Data { stream_id, .. } ==> old(sessions).session(
                session_id,
            )->0.rate_limiter is None ==> r is Route
            &&& frame matches Frame::CloseStream { stream_id, .. } ==> old(mux)@.channels.contains_key(stream_id) ==> r == ServerStep::Route(
                FrameAction::DeliverClose { channel: old(mux)@.channels[stream_id], frame },
            )
        },
{
}

/// On the control stream of a session over QUIC a heartbeat is answered with the time and any other
/// frame is not; every frame is a sign of life, and a session that is not in the store ends.
pub proof fn law_quic_control_answers_heartbeats(
    sessions: &mut SessionStoreBackend,
    session_id: u128,
    frame: Frame,
    unix_millis: u64,
    now: u128,
    r: Result<Option<Frame>, TunnelError>,
)
    requires
        call_ensures(process_quic_control, (sessions, session_id, frame, unix_millis, now), r),
    ensures
        r is Err <==> old(sessions).session(session_id) is None,
        r matches Ok(reply) ==> {
            &&& frame is Heartbeat ==> reply == Some(
                Frame::HeartbeatAck { timestamp: unix_millis },
            )
            &&& !(frame is Heartbeat) ==> reply is None
            &&& final(sessions).session(session_id) is Some
            &&& final(sessions).session(session_id)->0.last_heartbeat == now
        },
{
}

/// The cleanup is to be started by the first call and by no other.
pub proof fn law_cleanup_starts_once(server: &mut TunnelServer, again: &mut TunnelServer, a: bool, b: bool)
    requires
        call_ensures(TunnelServer::start_cleanup_task, (server,), a),
        *old(again) == *final(server),
        call_ensures(TunnelServer::start_cleanup_task, (again,), b),
    ensures
        a <==> !old(server).cleanup_started,
        !b,
{
}

/// A server with a certificate and a key serves TLS with them; one that was told to ask for client
/// certificates still does, and each setting leaves the others alone.
pub proof fn law_tls_settings_add_up(
    server: TunnelServer,
    cert: String,
    key: String,
    ca: String,
    with_tls: TunnelServer,
    with_both: TunnelServer,
)
    requires
        call_ensures(TunnelServer::with_tls, (server, cert, key), with_tls),
        call_ensures(TunnelServer::with_client_auth, (with_tls, ca), with_both),
    ensures
        with_tls.transport_config is Tls,
        with_both.transport_config is Tls,
        with_both.transport_config->Tls_0.cert_path@ == cert@,
        with_both.transport_config->Tls_0.key_path@ == key@,
        with_both.transport_config->Tls_0.ca_cert_path == Some(ca),
        with_both.transport_config->Tls_0.client_auth,
        !(server.transport_config is Tls) ==> !with_tls.transport_config->Tls_0.client_auth
            && !with_both.transport_config->Tls_0.skip_verify,
        with_both.addr == server.addr,
        with_both.auth_token == server.auth_token,
        with_both.sessions == server.sessions,
        with_both.resource_limits == server.resource_limits,
{
}

/// QUIC is served exactly with the configuration that the server was given for it.
pub proof fn law_quic_is_served_as_configured(
    server: TunnelServer,
    config: TransportConfig,
    set: TunnelServer,
    r: Result<&QuicTransportConfig, TunnelError>,
)
    requires
        call_ensures(TunnelServer::with_transport, (server, config), set),
        call_ensures(TunnelServer::quic_config, (&set,), r),
    ensures
        config matches TransportConfig::Quic(c) ==> r is Ok && *r->Ok_0 == c,
        !(config is Quic) ==> r is Err && r->Err_0 is Config,
{
}

/// A server starts over plain TCP, with room for a thousand sessions, ten seconds for a
/// handshake and ninety of silence; and each setting is what it was told and leaves the others alone.
pub proof fn law_server_settings_are_kept(
    addr: SocketAddr,
    token: String,
    fresh: TunnelServer,
    limits: ServerResourceLimits,
    timeout: u64,
    sessions: SessionStoreBackend,
    a: TunnelServer,
    b: TunnelServer,
    c: TunnelServer,
)
    requires
        call_ensures(TunnelServer::new, (addr, token), fresh),
        call_ensures(TunnelServer::with_resource_limits, (fresh, limits), a),
        call_ensures(TunnelServer::with_handshake_timeout, (a, timeout), b),
        call_ensures(TunnelServer::with_sessions, (b, sessions), c),
    ensures
        fresh.resource_limits.max_sessions == 1000,
        fresh.handshake_timeout_millis == 10 * 1000,
        fresh.session_timeout_millis == 90 * 1000,
        fresh.transport_config is Tcp,
        !fresh.cleanup_started,
        c.addr == addr,
        c.auth_token@ == token@,
        c.resource_limits == limits,
        c.handshake_timeout_millis == timeout,
        c.sessions == sessions,
        c.session_timeout_millis == 90 * 1000,
{
}

/// An accept loop goes on after errors that pass by themselves, each from the attempt that is next,
/// logs the first of a row and then each fiftieth, and stops at an error that does not pass.
pub proof fn law_accept_loop_goes_on(backoff: &mut AcceptBackoff, error: &IoError, r: AcceptStep)
    requires
        old(backoff).consecutive < u64::MAX,
        old(backoff).backoff.attempt < u32::MAX,
        call_ensures(on_accept_error, (backoff, error), r),
    ensures
        error.kind == crate::accept_backoff::IoErrorKind::Interrupted || error.kind
            == crate::accept_backoff::IoErrorKind::WouldBlock || error.kind
            == crate::accept_backoff::IoErrorKind::ConnectionAborted || error.kind
            == crate::accept_backoff::IoErrorKind::ConnectionReset ==> r is Retry,
        error.raw_os_error is None && (error.kind
            == crate::accept_backoff::IoErrorKind::AddrNotAvailable || error.kind
            == crate::accept_backoff::IoErrorKind::InvalidInput || error.kind
            == crate::accept_backoff::IoErrorKind::PermissionDenied || error.kind
            == crate::accept_backoff::IoErrorKind::Other) ==> r is Fail,
        r matches AcceptStep::Retry { attempt, log } ==> {
            &&& attempt == old(backoff).backoff.attempt
            &&& final(backoff).backoff.attempt == attempt + 1
            &&& final(backoff).consecutive == old(backoff).consecutive + 1
            &&& log <==> old(backoff).consecutive == 0 || (old(backoff).consecutive + 1) % 50 == 0
        },
        r is Fail ==> *final(backoff) == *old(backoff),
{
}

/// Every frame of every session can be handled, whatever the limits say.
pub proof fn law_any_session_frame_can_be_handled(
    sessions: &mut SessionStoreBackend,
    mux: &mut Multiplexer,
    session_id: u128,
    frame: Frame,
    within_limits: bool,
    fresh: u64,
    unix_millis: u64,
    now: u128,
)
    ensures
        call_requires(handle_frame, (mux, frame, within_limits, fresh, unix_millis)),
        call_requires(
            process_message,
            (sessions, mux, session_id, frame, fresh, unix_millis, now),
        ),
        call_requires(process_quic_control, (sessions, session_id, frame, unix_millis, now)),
{
}

} // verus!
