//! The handshake: authentication, version negotiation and registration of a client.

use vstd::prelude::*;
use vstd::utf8::encode_utf8;

use crate::auth::{constant_time_eq, token_complaint, validate_token_format};
use crate::config::RateLimitConfig;
use crate::constants::{MAX_PROTOCOL_VERSION, MIN_PROTOCOL_VERSION};
use crate::error::TunnelError;
use crate::frame::{Frame, FrameView, HandshakeFrame, HandshakeStatus};
use crate::net::SocketAddr;
use crate::rate_limit::{RateLimiterConfig, SessionRateLimiter};
use crate::session::{Session, StoreView, added};
use crate::sharded::SessionStoreBackend;
use crate::text::{append_decimal, decimal_text, hex_digit, opt_text, texts};

verus! {

/// The number itself, or the largest 64-bit number where it exceeds that.
pub fn clamp_u128_to_u64(i: u128) -> (r: u64)
    ensures
        r == (if i <= u64::MAX {
            i as u64
        } else {
            u64::MAX
        }),
{
    if i <= u64::MAX as u128 {
        i as u64
    } else {
        u64::MAX
    }
}

/// How waiting for the first frame of a connection ended.
#[derive(Debug, PartialEq)]
pub enum FirstFrame {
    Arrived(Frame),
    TimedOut,
    Closed,
    Failed(String),
}

/// What the wait for the first frame yields. `context` tells the sides apart in messages, and
/// `timeout` is the bound in words.
pub fn initial_handshake_frame(first: FirstFrame, context: &str, timeout: &str) -> (r: Result<
    Frame,
    TunnelError,
>)
    ensures
        match first {
            FirstFrame::Arrived(f) => r == Ok::<Frame, TunnelError>(f),
            FirstFrame::TimedOut => r is Err && r->Err_0 is Timeout && r->Err_0.text() == context@
                + " handshake timed out after "@ + timeout@,
            FirstFrame::Closed => r is Err && r->Err_0 is Connection && r->Err_0.text() == context@
                + " handshake stream closed"@,
            FirstFrame::Failed(m) => r is Err && r->Err_0 is Io && r->Err_0.text() == m@,
        },
{
    match first {
        FirstFrame::Arrived(frame) => Ok(frame),
        FirstFrame::TimedOut => {
            let mut text = context.to_owned();
            text.append(" handshake timed out after ");
            text.append(timeout);
            Err(TunnelError::Timeout(text))
        },
        FirstFrame::Closed => {
            let mut text = context.to_owned();
            text.append(" handshake stream closed");
            Err(TunnelError::Connection(text))
        },
        FirstFrame::Failed(message) => Err(TunnelError::Io(message)),
    }
}

/// Negotiates the protocol version: the newest that both sides speak.
pub fn negotiate_version(client_min: u8, client_max: u8) -> (r: Result<u8, TunnelError>)
    ensures
        r is Ok <==> client_min <= MAX_PROTOCOL_VERSION && client_max >= MIN_PROTOCOL_VERSION,
        r matches Ok(v) ==> v == settled_version(client_max),
        r matches Err(e) ==> e is Protocol && e.text()
            == "No compatible protocol version. Server: "@ + decimal_text(
            MIN_PROTOCOL_VERSION as nat,
        ) + "-"@ + decimal_text(MAX_PROTOCOL_VERSION as nat) + ", Client: "@ + decimal_text(
            client_min as nat,
        ) + "-"@ + decimal_text(client_max as nat),
{
    if client_max < MIN_PROTOCOL_VERSION || client_min > MAX_PROTOCOL_VERSION {
        let mut text = "No compatible protocol version. Server: ".to_owned();
        append_decimal(&mut text, MIN_PROTOCOL_VERSION as u64);
        text.append("-");
        append_decimal(&mut text, MAX_PROTOCOL_VERSION as u64);
        text.append(", Client: ");
        append_decimal(&mut text, client_min as u64);
        text.append("-");
        append_decimal(&mut text, client_max as u64);
        return Err(TunnelError::Protocol(text));
    }
    if client_max <= MAX_PROTOCOL_VERSION {
        Ok(client_max)
    } else {
        Ok(MAX_PROTOCOL_VERSION)
    }
}

/// Whether both a client and this side speak a version.
pub open spec fn both_speak(client_min: u8, client_max: u8, version: u8) -> bool {
    client_min <= version <= client_max && MIN_PROTOCOL_VERSION <= version <= MAX_PROTOCOL_VERSION
}

/// The version that is settled on is one that both sides speak, and they speak no newer one in
/// common.
pub proof fn law_settled_version_is_newest_shared(client_min: u8, client_max: u8)
    requires
        client_min <= client_max,
        client_min <= MAX_PROTOCOL_VERSION && client_max >= MIN_PROTOCOL_VERSION,
    ensures
        both_speak(client_min, client_max, settled_version(client_max)),
        forall|other: u8| #[trigger]
            both_speak(client_min, client_max, other) ==> other <= settled_version(client_max),
{
}

/// Draws a new id: `uuid::Uuid::new_v4`. It is random, and never zero.
#[verifier::external_body]
pub(crate) fn new_uuid() -> (r: u128)
    ensures
        r != 0,
{
    uuid::Uuid::new_v4().as_u128()
}

/// An id in words: 32 hexadecimal digits, most significant first, in groups of 8, 4,
/// 4, 4 and 12 with hyphens between them.
pub open spec fn id_text(id: u128) -> Seq<char> {
    Seq::new(
        36,
        |i: int|
            if i == 8 || i == 13 || i == 18 || i == 23 {
                '-'
            } else {
                let hyphens: int = if i < 8 {
                    0
                } else if i < 13 {
                    1
                } else if i < 18 {
                    2
                } else if i < 23 {
                    3
                } else {
                    4
                };
                hex_digit((id >> ((124 - 4 * (i - hyphens)) as u128)) & 15)
            },
    )
}

/// Puts an id in words: `uuid::Uuid` as text, in lower case with hyphens.
#[verifier::external_body]
pub(crate) fn uuid_text(id: u128) -> (r: String)
    ensures
        r@ == id_text(id),
{
    uuid::Uuid::from_u128(id).to_string()
}

/// Longest token that a handshake may carry, in bytes.
pub const MAX_HANDSHAKE_TOKEN_LEN: usize = 256;

/// Why a handshake is refused, where it is: a token that is malformed or not the expected
/// one, or else versions that do not overlap.
pub open spec fn handshake_refusal(
    token: Seq<char>,
    min_version: u8,
    max_version: u8,
    expected_token: Seq<char>,
) -> Option<HandshakeStatus> {
    if token_complaint(token, MAX_HANDSHAKE_TOKEN_LEN) is Some || token != expected_token {
        Some(HandshakeStatus::InvalidToken)
    } else if min_version > MAX_PROTOCOL_VERSION || max_version < MIN_PROTOCOL_VERSION {
        Some(HandshakeStatus::VersionMismatch)
    } else {
        None
    }
}

/// The version that an accepted handshake settles on.
pub open spec fn settled_version(max_version: u8) -> u8 {
    if max_version <= MAX_PROTOCOL_VERSION {
        max_version
    } else {
        MAX_PROTOCOL_VERSION
    }
}

/// Checks a handshake: the version it settles on, or why it is refused.
pub fn check_handshake(handshake: &HandshakeFrame, expected_token: &str) -> (r: Result<
    u8,
    HandshakeStatus,
>)
    ensures
        match r {
            Ok(version) => handshake_refusal(
                handshake.token@,
                handshake.min_version,
                handshake.max_version,
                expected_token@,
            ) is None && version == settled_version(handshake.max_version),
            Err(status) => handshake_refusal(
                handshake.token@,
                handshake.min_version,
                handshake.max_version,
                expected_token@,
            ) == Some(status),
        },
{
    if validate_token_format(handshake.token.as_str(), MAX_HANDSHAKE_TOKEN_LEN).is_err() {
        return Err(HandshakeStatus::InvalidToken);
    }
    if !constant_time_eq(handshake.token.as_str().as_bytes(), expected_token.as_bytes()) {
        return Err(HandshakeStatus::InvalidToken);
    }
    proof {
        vstd::utf8::encode_utf8_decode_utf8(handshake.token@);
        vstd::utf8::encode_utf8_decode_utf8(expected_token@);
        assert(handshake.token@ == expected_token@);
    }
    match negotiate_version(handshake.min_version, handshake.max_version) {
        Ok(version) => Ok(version),
        Err(_) => Err(HandshakeStatus::VersionMismatch),
    }
}

/// A client whose handshake was accepted.
#[derive(Debug)]
pub struct AuthenticatedHandshake {
    pub session_id: u128,
    pub tunnel_id: String,
    pub negotiated_version: u8,
    pub token: String,
    pub capabilities: Vec<String>,
}

/// The tunnel id of a client: the one it asked for, or else its session id in words.
pub open spec fn tunnel_id_for(asked: Option<Seq<char>>, session_id: u128) -> Seq<char> {
    match asked {
        Some(t) => t,
        None => id_text(session_id),
    }
}

/// Admits a client whose handshake settled on `version`, under a session id.
pub fn admit_client(handshake: HandshakeFrame, version: u8, session_id: u128) -> (r: AuthenticatedHandshake)
    ensures
        r.session_id == session_id,
        r.tunnel_id@ == tunnel_id_for(opt_text(handshake.tunnel_id), session_id),
        r.negotiated_version == version,
        r.token == handshake.token,
        r.capabilities == handshake.capabilities,
{
    let HandshakeFrame { token, tunnel_id, min_version: _, max_version: _, capabilities } =
        handshake;
    let tunnel_id = match tunnel_id {
        Some(t) => t,
        None => uuid_text(session_id),
    };
    AuthenticatedHandshake {
        session_id,
        tunnel_id,
        negotiated_version: version,
        token,
        capabilities,
    }
}

/// Validates and authenticates a handshake, and admits the client under a new session id.
pub fn authenticate_handshake(handshake: HandshakeFrame, expected_token: &str) -> (r: Result<
    AuthenticatedHandshake,
    HandshakeStatus,
>)
    ensures
        match r {
            Ok(auth) => handshake_refusal(
                handshake.token@,
                handshake.min_version,
                handshake.max_version,
                expected_token@,
            ) is None && auth.session_id != 0 && auth.tunnel_id@ == tunnel_id_for(
                opt_text(handshake.tunnel_id),
                auth.session_id,
            ) && auth.negotiated_version == settled_version(handshake.max_version) && auth.token
                == handshake.token && auth.capabilities == handshake.capabilities,
            Err(status) => handshake_refusal(
                handshake.token@,
                handshake.min_version,
                handshake.max_version,
                expected_token@,
            ) == Some(status),
        },
{
    match check_handshake(&handshake, expected_token) {
        Ok(version) => Ok(admit_client(handshake, version, new_uuid())),
        Err(status) => Err(status),
    }
}

/// How a connection goes on after its first frame.
#[derive(Debug)]
pub enum HandshakeOutcome {
    /// The client is registered: send the reply and serve the session.
    Established { session_id: u128, tunnel_id: String, reply: Frame },
    /// The client is refused: send the reply and close.
    Refused { reply: Frame },
    /// The tunnel id is taken: send the reply and fail.
    Taken { reply: Frame, error: TunnelError },
    /// The peer did not start with a handshake: fail.
    Failed(TunnelError),
}

/// The capabilities of the server over a transport.
pub open spec fn server_capabilities(quic: bool) -> Seq<Seq<char>> {
    if quic {
        seq!["basic"@, "quic"@]
    } else {
        seq!["basic"@]
    }
}

fn capability_list(quic: bool) -> (r: Vec<String>)
    ensures
        texts(r@) == server_capabilities(quic),
{
    let mut list: Vec<String> = Vec::new();
    list.push("basic".to_owned());
    if quic {
        list.push("quic".to_owned());
    }
    proof {
        assert(texts(list@) =~= server_capabilities(quic));
    }
    list
}

fn handshake_reply(
    status: HandshakeStatus,
    session_id: u128,
    version: u8,
    server_capabilities: Vec<String>,
) -> (r: Frame)
    ensures
        r@ == (FrameView::HandshakeAck {
            session_id,
            status,
            version,
            server_capabilities: texts(server_capabilities@),
        }),
{
    Frame::HandshakeAck { session_id, status, version, server_capabilities }
}

/// The reply to a client that is not admitted.
pub open spec fn refusal_reply(status: HandshakeStatus, session_id: u128) -> FrameView {
    FrameView::HandshakeAck { session_id, status, version: 0, server_capabilities: Seq::empty() }
}

fn no_capabilities() -> (r: Vec<String>)
    ensures
        texts(r@) == Seq::<Seq<char>>::empty(),
{
    let r: Vec<String> = Vec::new();
    proof {
        assert(texts(r@) =~= Seq::empty());
    }
    r
}

/// Whether a tunnel id is registered by another session than this one.
pub open spec fn held_by_another(store: StoreView, tunnel_id: Seq<char>, session_id: u128) -> bool {
    store.index.contains_key(tunnel_id) && store.index[tunnel_id] != session_id
}

/// Registers an authenticated client.
///
/// The session is added unless another session has its tunnel id; the reply tells the client
/// which. It is served by the multiplexer with the given handle, within the given rates.
pub fn register_client(
    sessions: &mut SessionStoreBackend,
    auth: AuthenticatedHandshake,
    addr: SocketAddr,
    multiplexer: u64,
    rates: RateLimitConfig,
    quic: bool,
    now: u128,
) -> (r: HandshakeOutcome)
    requires
        old(sessions).wf(),
    ensures
        !(r is Failed) && !(r is Refused),
        r is Taken <==> held_by_another(
            old(sessions).part(auth.tunnel_id@),
            auth.tunnel_id@,
            auth.session_id,
        ),
        r matches HandshakeOutcome::Taken { reply, error } ==> {
            &&& reply@ == refusal_reply(HandshakeStatus::TunnelIdTaken, auth.session_id)
            &&& error is Protocol
            &&& error.text() == "Tunnel ID '"@ + auth.tunnel_id@ + "' already in use"@
            &&& old(sessions).unchanged(final(sessions))
        },
        r matches HandshakeOutcome::Established { session_id, tunnel_id, reply } ==> {
            &&& session_id == auth.session_id
            &&& tunnel_id@ == auth.tunnel_id@
            &&& reply@ == (FrameView::HandshakeAck {
                session_id: auth.session_id,
                status: HandshakeStatus::Success,
                version: auth.negotiated_version,
                server_capabilities: server_capabilities(quic),
            })
            &&& exists|session: Session|
                {
                    &&& session.id == auth.session_id
                    &&& session.tunnel_id@ == auth.tunnel_id@
                    &&& session.client_addr == addr
                    &&& session.token == auth.token
                    &&& session.connected_at == now
                    &&& session.last_heartbeat == now
                    &&& session.capabilities == auth.capabilities
                    &&& session.multiplexer == Some(multiplexer)
                    &&& session.limited_by(RateLimiterConfig::of_config(rates))
                    &&& old(sessions).updated(
                        final(sessions),
                        auth.tunnel_id@,
                        #[trigger] added(old(sessions).part(auth.tunnel_id@), session),
                    )
                }
        },
{
    let AuthenticatedHandshake { session_id, tunnel_id, negotiated_version, token, capabilities } =
        auth;
    let limiter = SessionRateLimiter::new(&RateLimiterConfig::from(rates));
    let session = Session::new(
        session_id,
        tunnel_id.clone(),
        addr,
        token,
        capabilities,
        Some(multiplexer),
        now,
    ).with_rate_limiter(limiter);
    let ghost s = session;
    match sessions.add(session) {
        Err(_) => {
            let reply = handshake_reply(
                HandshakeStatus::TunnelIdTaken,
                session_id,
                0,
                no_capabilities(),
            );
            let mut text = "Tunnel ID '".to_owned();
            text.append(tunnel_id.as_str());
            text.append("' already in use");
            HandshakeOutcome::Taken { reply, error: TunnelError::Protocol(text) }
        },
        Ok(()) => {
            let reply = handshake_reply(
                HandshakeStatus::Success,
                session_id,
                negotiated_version,
                capability_list(quic),
            );
            proof {
                assert(old(sessions).updated(
                    sessions,
                    tunnel_id@,
                    added(old(sessions).part(tunnel_id@), s),
                ));
            }
            HandshakeOutcome::Established { session_id, tunnel_id, reply }
        },
    }
}

/// Decides how a connection goes on after its first frame: a client is authenticated and
/// registered under a new session id, with the given rates.
pub fn on_first_frame(
    sessions: &mut SessionStoreBackend,
    frame: Frame,
    expected_token: &str,
    addr: SocketAddr,
    multiplexer: u64,
    rates: RateLimitConfig,
    quic: bool,
    now: u128,
) -> (r: HandshakeOutcome)
    requires
        old(sessions).wf(),
    ensures
        r is Failed <==> !(frame is Handshake),
        r matches HandshakeOutcome::Failed(e) ==> e is Protocol && e.text() == (if quic {
            "Expected handshake on QUIC control stream"@
        } else {
            "Expected handshake"@
        }) && old(sessions).unchanged(final(sessions)),
        frame matches Frame::Handshake(h) ==> {
            let refusal = handshake_refusal(h.token@, h.min_version, h.max_version, expected_token@);
            &&& r is Refused <==> refusal is Some
            &&& r matches HandshakeOutcome::Refused { reply } ==> reply@ == refusal_reply(
                refusal->0,
                0,
            ) && old(sessions).unchanged(final(sessions))
            &&& refusal is None && h.tunnel_id is Some && !old(sessions).part(
                h.tunnel_id->0@,
            ).index.contains_key(h.tunnel_id->0@) ==> r is Established
            &&& r matches HandshakeOutcome::Established { session_id, tunnel_id, reply } ==> {
                &&& session_id != 0
                &&& tunnel_id@ == tunnel_id_for(opt_text(h.tunnel_id), session_id)
                &&& !held_by_another(old(sessions).part(tunnel_id@), tunnel_id@, session_id)
                &&& reply@ == (FrameView::HandshakeAck {
                    session_id,
                    status: HandshakeStatus::Success,
                    version: settled_version(h.max_version),
                    server_capabilities: server_capabilities(quic),
                })
                &&& exists|session: Session|
                    session.id == session_id && session.tunnel_id@ == tunnel_id@
                        && session.client_addr == addr && session.token == h.token
                        && session.capabilities == h.capabilities && session.connected_at == now
                        && session.last_heartbeat == now && session.multiplexer == Some(multiplexer)
                        && session.limited_by(RateLimiterConfig::of_config(rates))
                        && old(sessions).updated(
                        final(sessions),
                        tunnel_id@,
                        #[trigger] added(old(sessions).part(tunnel_id@), session),
                    )
            }
            &&& r matches HandshakeOutcome::Taken { reply, error } ==> {
                &&& old(sessions).unchanged(final(sessions))
                &&& exists|id: u128|
                    {
                        let tunnel_id = tunnel_id_for(opt_text(h.tunnel_id), id);
                        &&& id != 0
                        &&& held_by_another(old(sessions).part(tunnel_id), tunnel_id, id)
                        &&& reply@ == #[trigger] refusal_reply(HandshakeStatus::TunnelIdTaken, id)
                        &&& error is Protocol
                        &&& error.text() == "Tunnel ID '"@ + tunnel_id + "' already in use"@
                    }
            }
        },
{
    match frame {
        Frame::Handshake(handshake) => {
            match authenticate_handshake(*handshake, expected_token) {
                Err(status) => HandshakeOutcome::Refused {
                    reply: handshake_reply(status, 0, 0, no_capabilities()),
                },
                Ok(auth) => register_client(
                    sessions,
                    auth,
                    addr,
                    multiplexer,
                    rates,
                    quic,
                    now,
                ),
            }
        },
        _ => {
            let text = if quic {
                "Expected handshake on QUIC control stream".to_owned()
            } else {
                "Expected handshake".to_owned()
            };
            HandshakeOutcome::Failed(TunnelError::Protocol(text))
        },
    }
}

/// A client is admitted exactly where it presents the expected token, which is of 1 to 256
/// characters with code points from 32 to 126, and speaks version 1; that version is settled on.
/// A token that is not the expected one is told before versions that do not match.
pub proof fn law_right_token_is_admitted(
    handshake: &HandshakeFrame,
    expected: &str,
    r: Result<u8, HandshakeStatus>,
)
    requires
        call_ensures(check_handshake, (handshake, expected), r),
    ensures
        ({
            let right = handshake.token@ == expected@ && 1 <= expected@.len() <= 256 && forall|i: int|
                0 <= i < expected@.len() ==> 32 <= (#[trigger] expected@[i]) as int <= 126;
            &&& right && handshake.min_version <= 1 <= handshake.max_version ==> r == Ok::<
                u8,
                HandshakeStatus,
            >(1)
            &&& right && !(handshake.min_version <= 1 <= handshake.max_version) ==> r == Err::<
                u8,
                HandshakeStatus,
            >(HandshakeStatus::VersionMismatch)
            &&& !right ==> r == Err::<u8, HandshakeStatus>(HandshakeStatus::InvalidToken)
        }),
{
    let token = handshake.token@;
    if forall|i: int| 0 <= i < expected@.len() ==> 32 <= (#[trigger] expected@[i]) as int <= 126 {
        assert(vstd::utf8::is_ascii_chars(expected@));
        vstd::utf8::is_ascii_chars_encode_utf8(expected@);
    } else if token == expected@ {
        let i = choose|i: int|
            0 <= i < expected@.len() && !(32 <= (#[trigger] expected@[i]) as int <= 126);
        assert(!crate::auth::token_char(token[i]));
    }
}

/// Versions are settled exactly where the client speaks version 1, and then on that one.
pub proof fn law_shared_version_is_settled_on(
    min: u8,
    max: u8,
    r: Result<u8, TunnelError>,
)
    requires
        min <= max,
        call_ensures(negotiate_version, (min, max), r),
    ensures
        r is Ok <==> min <= 1 <= max,
        r matches Ok(v) ==> v == 1,
        r matches Err(e) ==> e is Protocol,
{
}

/// A client is known by the session id that was drawn for it, and by the tunnel id that it asked
/// for or, where it asked for none, by its session id in words.
pub proof fn law_client_gets_the_tunnel_it_asked_for(
    handshake: HandshakeFrame,
    version: u8,
    session_id: u128,
    r: AuthenticatedHandshake,
    drawn: Result<AuthenticatedHandshake, HandshakeStatus>,
    expected: &str,
    checked: Result<u8, HandshakeStatus>,
)
    requires
        call_ensures(admit_client, (handshake, version, session_id), r),
        call_ensures(authenticate_handshake, (handshake, expected), drawn),
        call_ensures(check_handshake, (&handshake, expected), checked),
    ensures
        r.session_id == session_id,
        r.negotiated_version == version,
        r.token@ == handshake.token@,
        r.capabilities@ == handshake.capabilities@,
        handshake.tunnel_id matches Some(t) ==> r.tunnel_id@ == t@,
        handshake.tunnel_id is None ==> r.tunnel_id@ == id_text(session_id),
        checked matches Err(status) ==> drawn is Err && drawn->Err_0 == status,
        checked matches Ok(v) ==> {
            &&& drawn is Ok
            &&& drawn->Ok_0.session_id != 0
            &&& drawn->Ok_0.negotiated_version == v
            &&& drawn->Ok_0.token@ == handshake.token@
            &&& drawn->Ok_0.capabilities@ == handshake.capabilities@
            &&& handshake.tunnel_id matches Some(t) ==> drawn->Ok_0.tunnel_id@ == t@
            &&& handshake.tunnel_id is None ==> drawn->Ok_0.tunnel_id@ == id_text(
                drawn->Ok_0.session_id,
            )
        },
{
}

/// A client that is registered is found under its tunnel id at once, by the multiplexer that serves
/// it, and no other tunnel is touched; one whose tunnel id another session has is refused, told so,
/// and changes nothing.
pub proof fn law_registered_client_is_reachable(
    sessions: &mut SessionStoreBackend,
    auth: AuthenticatedHandshake,
    addr: SocketAddr,
    multiplexer: u64,
    rates: RateLimitConfig,
    quic: bool,
    now: u128,
    r: HandshakeOutcome,
    id: &str,
    found: Option<Option<u64>>,
    other: &str,
    before: Option<Option<u64>>,
    after: Option<Option<u64>>,
)
    requires
        old(sessions).wf(),
        call_ensures(register_client, (sessions, auth, addr, multiplexer, rates, quic, now), r),
        id@ == auth.tunnel_id@,
        other@ != auth.tunnel_id@,
        call_ensures(SessionStoreBackend::multiplexer_of, (&*final(sessions), id), found),
        call_ensures(SessionStoreBackend::multiplexer_of, (&*old(sessions), other), before),
        call_ensures(SessionStoreBackend::multiplexer_of, (&*final(sessions), other), after),
        old(sessions).session(auth.session_id) is None,
    ensures
        r is Established || r is Taken,
        r matches HandshakeOutcome::Established { session_id, tunnel_id, reply } ==> {
            &&& session_id == auth.session_id
            &&& tunnel_id@ == auth.tunnel_id@
            &&& found == Some(Some(multiplexer))
            &&& before is Some ==> after == before
            &&& reply is HandshakeAck
            &&& reply->HandshakeAck_status == HandshakeStatus::Success
            &&& reply->HandshakeAck_session_id == auth.session_id
            &&& reply->HandshakeAck_version == auth.negotiated_version
        },
        r matches HandshakeOutcome::Taken { reply, error } ==> {
            &&& old(sessions).part(auth.tunnel_id@).index.contains_key(auth.tunnel_id@)
            &&& after == before
            &&& reply is HandshakeAck
            &&& reply->HandshakeAck_status == HandshakeStatus::TunnelIdTaken
            &&& error is Protocol
        },
        !old(sessions).part(auth.tunnel_id@).index.contains_key(auth.tunnel_id@) ==> r
            is Established,
        old(sessions).part(auth.tunnel_id@).index.contains_key(auth.tunnel_id@) && old(sessions).part(auth.tunnel_id@).index[auth.tunnel_id@] != auth.session_id ==> r is Taken,
{
    if let SessionStoreBackend::Sharded(s) = *old(sessions) {
        crate::sharded::lemma_holder(s@, auth.session_id, 0);
        let k = crate::sharded::shard_of(auth.tunnel_id@, s@.len());
        assert(0 <= k < s@.len());
        let j = crate::sharded::shard_of(other@, s@.len());
        assert(0 <= j < s@.len());
    }
}

/// A connection that does not start with a handshake fails; one with a handshake that is refused is
/// told the reason that the check gives, under no session id; and every other gets a session with
/// the tunnel that it asked for, unless that is taken.
pub proof fn law_first_frame_decides(
    sessions: &mut SessionStoreBackend,
    frame: Frame,
    handshake: &HandshakeFrame,
    expected: &str,
    addr: SocketAddr,
    multiplexer: u64,
    rates: RateLimitConfig,
    quic: bool,
    now: u128,
    checked: Result<u8, HandshakeStatus>,
    r: HandshakeOutcome,
)
    requires
        old(sessions).wf(),
        call_ensures(
            on_first_frame,
            (sessions, frame, expected, addr, multiplexer, rates, quic, now),
            r,
        ),
        frame is Handshake ==> *handshake == *frame->Handshake_0,
        call_ensures(check_handshake, (handshake, expected), checked),
    ensures
        !(frame is Handshake) ==> r is Failed && r->Failed_0 is Protocol,
        frame is Handshake ==> {
            &&& checked matches Err(status) ==> {
                &&& r is Refused
                &&& r->Refused_reply is HandshakeAck
                &&& r->Refused_reply->HandshakeAck_status == status
                &&& r->Refused_reply->HandshakeAck_session_id == 0
            }
            &&& checked matches Ok(version) ==> {
                &&& r is Established || r is Taken
                &&& r is Established ==> {
                    &&& r->Established_session_id != 0
                    &&& handshake.tunnel_id matches Some(t) ==> r->Established_tunnel_id@ == t@
                    &&& handshake.tunnel_id is None ==> r->Established_tunnel_id@ == id_text(
                        r->Established_session_id,
                    )
                    &&& r->Established_reply is HandshakeAck
                    &&& r->Established_reply->HandshakeAck_status == HandshakeStatus::Success
                    &&& r->Established_reply->HandshakeAck_version == version
                    &&& r->Established_reply->HandshakeAck_session_id == r->Established_session_id
                }
                &&& handshake.tunnel_id matches Some(t) ==> !old(sessions).part(
                    t@,
                ).index.contains_key(t@) ==> r is Established
            }
        },
{
}

/// A session that the first frame establishes is found under its tunnel id at once, by the
/// multiplexer that serves it.
pub proof fn law_established_session_is_reachable(
    sessions: &mut SessionStoreBackend,
    frame: Frame,
    expected: &str,
    addr: SocketAddr,
    multiplexer: u64,
    rates: RateLimitConfig,
    quic: bool,
    now: u128,
    r: HandshakeOutcome,
    id: &str,
    found: Option<Option<u64>>,
)
    requires
        old(sessions).wf(),
        call_ensures(
            on_first_frame,
            (sessions, frame, expected, addr, multiplexer, rates, quic, now),
            r,
        ),
        r is Established,
        id@ == r->Established_tunnel_id@,
        call_ensures(SessionStoreBackend::multiplexer_of, (&*final(sessions), id), found),
    ensures
        found == Some(Some(multiplexer)),
{
    if let SessionStoreBackend::Sharded(s) = *old(sessions) {
        let k = crate::sharded::shard_of(id@, s@.len());
        assert(0 <= k < s@.len());
    }
}

/// The first frame that arrives is the one that is read; a connection on which none does fails as
/// what kept it: a timeout, an end, or the failure itself.
pub proof fn law_first_frame_is_the_one_that_arrives(
    first: FirstFrame,
    context: &str,
    timeout: &str,
    r: Result<Frame, TunnelError>,
)
    requires
        call_ensures(initial_handshake_frame, (first, context, timeout), r),
    ensures
        first matches FirstFrame::Arrived(f) ==> r == Ok::<Frame, TunnelError>(f),
        first == FirstFrame::TimedOut ==> r is Err && r->Err_0 is Timeout,
        first == FirstFrame::Closed ==> r is Err && r->Err_0 is Connection,
        first is Failed ==> r is Err && r->Err_0 is Io,
{
}

/// A session that is registered is held to the configured rates: as much per second as they say, and
/// as much at once as the burst factor multiplies that to; a zero counts as one.
pub proof fn law_registered_session_keeps_to_its_rates(
    sessions: &mut SessionStoreBackend,
    auth: AuthenticatedHandshake,
    addr: SocketAddr,
    multiplexer: u64,
    rates: RateLimitConfig,
    quic: bool,
    now: u128,
    r: HandshakeOutcome,
    id: &u128,
    limiter: Option<SessionRateLimiter>,
    factor: u32,
    stream_burst: u32,
    bytes_burst: u32,
)
    requires
        old(sessions).wf(),
        call_ensures(register_client, (sessions, auth, addr, multiplexer, rates, quic, now), r),
        r is Established,
        *id == auth.session_id,
        old(sessions).session(*id) is None,
        call_ensures(SessionStoreBackend::rate_limiter, (&*final(sessions), id), limiter),
        0 < rates.streams_per_sec,
        0 < rates.bytes_per_sec <= u32::MAX,
        factor == (if rates.burst_factor == 0 {
            1u32
        } else {
            rates.burst_factor
        }),
        call_ensures(
            crate::rate_limit::scaled_burst,
            (rates.streams_per_sec, factor),
            stream_burst,
        ),
        call_ensures(
            crate::rate_limit::scaled_burst,
            (rates.bytes_per_sec as u32, factor),
            bytes_burst,
        ),
    ensures
        limiter is Some,
        limiter->0.stream_rate() == rates.streams_per_sec,
        limiter->0.bytes_rate() == rates.bytes_per_sec,
        limiter->0.stream_burst() == stream_burst,
        limiter->0.bytes_burst() == bytes_burst,
{
    if let SessionStoreBackend::Sharded(s) = *old(sessions) {
        crate::sharded::lemma_holder(s@, *id, 0);
        let k = crate::sharded::shard_of(auth.tunnel_id@, s@.len());
        assert(0 <= k < s@.len());
        if let SessionStoreBackend::Sharded(t) = *final(sessions) {
            crate::sharded::lemma_holder(t@, *id, 0);
            assert(t@[k].sessions.contains_key(*id));
        }
    }
}

/// What a client is told that it can do: over QUIC also QUIC, and nothing where it is refused.
pub proof fn law_server_tells_its_capabilities(
    sessions: &mut SessionStoreBackend,
    auth: AuthenticatedHandshake,
    addr: SocketAddr,
    multiplexer: u64,
    rates: RateLimitConfig,
    quic: bool,
    now: u128,
    r: HandshakeOutcome,
)
    requires
        old(sessions).wf(),
        call_ensures(register_client, (sessions, auth, addr, multiplexer, rates, quic, now), r),
    ensures
        r is Established ==> {
            let told = r->Established_reply->HandshakeAck_server_capabilities@;
            &&& told.len() == (if quic {
                2nat
            } else {
                1
            })
            &&& told[0]@ == "basic"@
            &&& quic ==> told[1]@ == "quic"@
        },
        r is Taken ==> r->Taken_reply->HandshakeAck_server_capabilities@.len() == 0,
{
    if r is Established {
        let told = r->Established_reply->HandshakeAck_server_capabilities@;
        assert(texts(told).len() == told.len());
        assert(texts(told)[0] == told[0]@);
        if quic {
            assert(texts(told)[1] == told[1]@);
        }
    }
    if r is Taken {
        let told = r->Taken_reply->HandshakeAck_server_capabilities@;
        assert(texts(told).len() == told.len());
    }
}

/// A number is kept where it fits in 64 bits, and else is the largest that does.
pub proof fn law_numbers_are_clamped(n: u128, r: u64)
    requires
        call_ensures(clamp_u128_to_u64, (n,), r),
    ensures
        n <= u64::MAX ==> r == n,
        n > u64::MAX ==> r == u64::MAX,
{
}

/// Every handshake can be checked, and every first frame answered where there is a store for its
/// session.
pub proof fn law_any_handshake_can_be_checked(
    handshake: HandshakeFrame,
    expected: &str,
    sessions: &mut SessionStoreBackend,
    frame: Frame,
    addr: SocketAddr,
    multiplexer: u64,
    rates: RateLimitConfig,
    quic: bool,
    now: u128,
    min: u8,
    max: u8,
)
    ensures
        call_requires(check_handshake, (&handshake, expected)),
        call_requires(authenticate_handshake, (handshake, expected)),
        call_requires(negotiate_version, (min, max)),
        (*old(sessions) is Default || old(sessions)->Sharded_0@.len() > 0) ==> call_requires(
            on_first_frame,
            (sessions, frame, expected, addr, multiplexer, rates, quic, now),
        ),
{
}

} // verus!
