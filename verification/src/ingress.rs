//! HTTP ingress: how a request from outside is routed to a tunnel, and what is answered when
//! that fails.
//!
//! A request goes through a fixed series of steps. Whoever serves it performs each step and
//! reports how it ended; the answer is decided here.

use vstd::prelude::*;

use crate::frame::Protocol;
use crate::http::{Headers, contains, copy_bytes, field_text, fields_without, parts_of, split_all,
    starts_with, str_views, text_contains, text_starts_with, to_text, trim, trimmed, value_from,
    value_text, all_usable, check_uri, uri_complaint, usable_field};
use crate::session::{Session, lookup};
use crate::sharded::SessionStoreBackend;
use crate::text::{find_char, first_at, lower_text, number_value, opt_str, opt_text, parse_number,
    same_ignoring_case, same_text, text_pairs, to_lower};

verus! {

/// Limits and timeouts of the HTTP ingress. Timeouts are in milliseconds.
#[derive(Debug, Clone)]
pub struct IngressConfig {
    /// Maximum concurrent connections.
    pub max_connections: usize,
    /// Maximum request body size in bytes.
    pub max_request_body_size: usize,
    /// Maximum response body size in bytes.
    pub max_response_size: usize,
    /// Timeout for the upstream handshake.
    pub handshake_timeout_millis: u64,
    /// Timeout for the upstream response.
    pub response_timeout_millis: u64,
    /// Value of the header that advertises the HTTP/3 ingress.
    pub alt_svc_header: Option<Vec<u8>>,
}

impl Default for IngressConfig {
    fn default() -> (r: IngressConfig)
        ensures
            r.max_connections == 10_000,
            r.max_request_body_size == 104_857_600,
            r.max_response_size == 104_857_600,
            r.handshake_timeout_millis == 10_000,
            r.response_timeout_millis == 60_000,
            r.alt_svc_header is None,
    {
        IngressConfig {
            max_connections: 10_000,
            max_request_body_size: 104_857_600,
            max_response_size: 104_857_600,
            handshake_timeout_millis: 10_000,
            response_timeout_millis: 60_000,
            alt_svc_header: None,
        }
    }
}

/// A plain answer: a status and a text.
#[derive(Debug, Clone, PartialEq, Eq)]
pub struct Reply {
    pub status: u16,
    pub body: String,
}

impl Reply {
    /// Whether the answer has this status and text.
    pub open spec fn is(&self, status: u16, body: Seq<char>) -> bool {
        self.status == status && self.body@ == body
    }
}

/// A plain answer.
pub fn full_response(status: u16, body: &str) -> (r: Reply)
    ensures
        r.is(status, body@),
{
    Reply { status, body: body.to_owned() }
}

/// Whether the length that a request declares exceeds `max_size`.
pub open spec fn declared_too_long(fields: Seq<(Seq<char>, Seq<u8>)>, max_size: nat) -> bool {
    match field_text(fields, "content-length"@) {
        Some(text) => number_value(text, u64::MAX as nat) matches Some(n) && n > max_size,
        None => false,
    }
}

/// Whether the request declares a length larger than `max_size`; a length that is missing or
/// no number is none.
pub fn content_length_exceeds(headers: &Headers, max_size: usize) -> (r: bool)
    ensures
        r == declared_too_long(headers@, max_size as nat),
{
    match headers.get_text("content-length") {
        Some(text) => match parse_number(text.as_str(), u64::MAX) {
            Some(n) => n > max_size as u64,
            None => false,
        },
        None => false,
    }
}

/// Whether header fields are those of a gRPC message.
pub open spec fn grpc_fields(fields: Seq<(Seq<char>, Seq<u8>)>) -> bool {
    field_text(fields, "content-type"@) matches Some(t) && text_starts_with(
        t,
        "application/grpc"@,
    )
}

/// Whether a message is gRPC.
pub fn is_grpc(headers: &Headers) -> (r: bool)
    ensures
        r == grpc_fields(headers@),
{
    match headers.get_text("content-type") {
        Some(text) => starts_with(text.as_str(), "application/grpc"),
        None => false,
    }
}

/// Whether header fields ask for an upgrade to WebSocket: `Upgrade` says so, and `Connection`
/// lists the upgrade.
pub open spec fn websocket_fields(fields: Seq<(Seq<char>, Seq<u8>)>) -> bool {
    &&& field_text(fields, "upgrade"@) matches Some(u) && lower_text(u) == lower_text(
        "websocket"@,
    )
    &&& field_text(fields, "connection"@) matches Some(c) && names_upgrade(c)
}

/// Whether a list between commas names the upgrade.
pub open spec fn names_upgrade(value: Seq<char>) -> bool {
    exists|i: int|
        0 <= i < parts_of(value, ',').len() && lower_text(
            #[trigger] trimmed(parts_of(value, ',')[i]),
        ) == lower_text("upgrade"@)
}

/// Whether a request asks for an upgrade to WebSocket.
pub fn is_websocket_upgrade(headers: &Headers) -> (r: bool)
    ensures
        r == websocket_fields(headers@),
{
    let upgrade: bool = match headers.get_text("upgrade") {
        Some(text) => same_ignoring_case(text.as_str(), "websocket"),
        None => false,
    };
    let connection: bool = match headers.get_text("connection") {
        Some(text) => lists_upgrade(text.as_str()),
        None => false,
    };
    upgrade && connection
}

fn lists_upgrade(value: &str) -> (r: bool)
    ensures
        r == names_upgrade(value@),
{
    let parts = split_all(value, ',');
    let ghost all = parts_of(value@, ',');
    proof {
        assert(str_views(parts@) == all);
        assert(parts@.len() == all.len());
    }
    let mut i: usize = 0;
    while i < parts.len()
        invariant
            i <= parts@.len(),
            parts@.len() == all.len(),
            str_views(parts@) == all,
            all == parts_of(value@, ','),
            forall|j: int|
                0 <= j < i ==> lower_text(#[trigger] trimmed(all[j])) != lower_text("upgrade"@),
        decreases parts@.len() - i,
    {
        proof {
            assert(str_views(parts@)[i as int] == parts@[i as int]@);
        }
        if same_ignoring_case(trim(parts[i]), "upgrade") {
            proof {
                assert(lower_text(trimmed(all[i as int])) == lower_text("upgrade"@));
            }
            return true;
        }
        i += 1;
    }
    false
}

/// The number of times a character stands in a text.
pub open spec fn occurrences(s: Seq<char>, c: char) -> nat
    decreases s.len(),
{
    if s.len() == 0 {
        0
    } else {
        occurrences(s.drop_last(), c) + if s.last() == c {
            1nat
        } else {
            0nat
        }
    }
}

fn count_char(s: &str, c: char) -> (r: usize)
    ensures
        r == occurrences(s@, c),
        r <= s@.len(),
{
    let n: usize = s.unicode_len();
    let mut count: usize = 0;
    let mut i: usize = 0;
    proof {
        assert(s@.take(0) =~= Seq::empty());
    }
    while i < n
        invariant
            n == s@.len(),
            i <= n,
            count <= i,
            count == occurrences(s@.take(i as int), c),
        decreases n - i,
    {
        proof {
            assert(s@.take(i + 1).drop_last() =~= s@.take(i as int));
            assert(s@.take(i + 1).last() == s@[i as int]);
        }
        if s.get_char(i) == c {
            count += 1;
        }
        i += 1;
    }
    proof {
        assert(s@.take(n as int) =~= s@);
    }
    count
}

/// The host that a trimmed host header names: an address in brackets without them, an IPv6
/// address as it is, else what stands before the port.
pub open spec fn named_host(host: Seq<char>) -> Option<Seq<char>> {
    if host.len() > 0 && host[0] == '[' {
        match first_at(host, ']', 0) {
            Some(end) => Some(host.subrange(1, end)),
            None => None,
        }
    } else if occurrences(host, ':') > 1 {
        Some(host)
    } else {
        match first_at(host, ':', 0) {
            Some(i) => Some(host.take(i)),
            None => Some(host),
        }
    }
}

/// A host in its normal form: lower case, and without a dot at its end.
pub open spec fn normal_host(host: Seq<char>) -> Seq<char> {
    let low = lower_text(host);
    if low.len() > 0 && low.last() == '.' {
        low.drop_last()
    } else {
        low
    }
}

/// The tunnel id that a host header leads to, or why it leads to none.
pub open spec fn host_of(header: Option<Seq<u8>>) -> Result<Seq<char>, Seq<char>> {
    match header {
        None => Err("Missing or invalid Host header"@),
        Some(value) => match value_text(value) {
            None => Err("Missing or invalid Host header"@),
            Some(text) => if text.len() == 0 {
                Err("Empty Host header"@)
            } else {
                match named_host(trimmed(text)) {
                    None => Err("Invalid IPv6 Host header format"@),
                    Some(host) => if normal_host(host).len() == 0 {
                        Err("Empty host after normalization"@)
                    } else {
                        Ok(normal_host(host))
                    },
                }
            },
        },
    }
}

fn extract_host<'a>(host: &'a str) -> (r: Option<&'a str>)
    ensures
        match r {
            Some(h) => named_host(host@) == Some(h@),
            None => named_host(host@) is None,
        },
{
    let n: usize = host.unicode_len();
    if n > 0 && host.get_char(0) == '[' {
        match find_char(host, ']', 0) {
            Some(end) => {
                proof {
                    crate::text::lemma_first_at(host@, ']', 0);
                }
                Some(host.substring_char(1, end))
            },
            None => None,
        }
    } else if count_char(host, ':') > 1 {
        Some(host)
    } else {
        match find_char(host, ':', 0) {
            Some(i) => {
                let head = host.substring_char(0, i);
                proof {
                    assert(head@ =~= host@.take(i as int));
                }
                Some(head)
            },
            None => Some(host),
        }
    }
}

fn normalize(host: &str) -> (r: String)
    ensures
        r@ == normal_host(host@),
{
    let low = to_lower(host);
    let n: usize = low.as_str().unicode_len();
    if n > 0 && low.as_str().get_char(n - 1) == '.' {
        let cut = low.as_str().substring_char(0, n - 1);
        proof {
            assert(cut@ =~= low@.drop_last());
        }
        return cut.to_owned();
    }
    low
}

/// Parses and normalizes the Host header for routing: blanks, brackets and the port are taken
/// off, letters put in lower case, and a dot at the end dropped.
pub fn parse_and_normalize_host(host_header: Option<&Vec<u8>>) -> (r: Result<String, &'static str>)
    ensures
        match r {
            Ok(host) => host_of(opt_value(host_header)) == Ok::<Seq<char>, Seq<char>>(host@),
            Err(e) => host_of(opt_value(host_header)) == Err::<Seq<char>, Seq<char>>(e@),
        },
{
    let text = match host_header {
        Some(value) => match to_text(value.as_slice()) {
            Some(t) => t,
            None => {
                return Err("Missing or invalid Host header");
            },
        },
        None => {
            return Err("Missing or invalid Host header");
        },
    };
    if text.as_str().is_empty() {
        return Err("Empty Host header");
    }
    match extract_host(trim(text.as_str())) {
        Some(host) => {
            let normal = normalize(host);
            if normal.as_str().is_empty() {
                return Err("Empty host after normalization");
            }
            Ok(normal)
        },
        None => Err("Invalid IPv6 Host header format"),
    }
}

/// The bytes of an optional header value.
pub open spec fn opt_value(value: Option<&Vec<u8>>) -> Option<Seq<u8>> {
    match value {
        Some(v) => Some(v@),
        None => None,
    }
}

/// The same host in any mix of upper and lower case leads to the same tunnel.
pub proof fn law_host_ignores_case(a: Seq<char>, b: Seq<char>)
    requires
        lower_text(a) == lower_text(b),
    ensures
        normal_host(a) == normal_host(b),
{
}

/// A host in normal form holds no upper case letter.
pub proof fn law_normal_host_is_lower(host: Seq<char>)
    ensures
        lower_text(normal_host(host)) == normal_host(host),
{
    let low = lower_text(host);
    crate::text::lemma_lower_twice(host);
    if low.len() > 0 && low.last() == '.' {
        assert forall|i: int| 0 <= i < low.len() - 1 implies crate::text::lower(low[i])
            == low[i] by {
            assert(lower_text(low)[i] == low[i]);
        }
        assert(lower_text(low.drop_last()) =~= low.drop_last());
    }
}

/// How plugin hooks decided about a request or a response.
#[derive(Debug, PartialEq)]
pub enum HookOutcome {
    /// Go on, with what the hooks made of it.
    Proceed,
    /// Refuse.
    Reject { status: u16, reason: String },
    /// Answer in the upstream's place.
    Respond { status: u16, headers: Vec<(String, String)>, body: Vec<u8> },
    /// A hook failed.
    Failed,
}

/// How an upstream step ended.
#[derive(Debug, Clone, Copy, PartialEq, Eq, Structural)]
pub enum UpstreamEnd {
    Done,
    Failed,
    TimedOut,
}

/// What to do next with a request.
#[derive(Debug, PartialEq)]
pub enum IngressStep {
    /// Answer, and be done.
    Answer(Reply),
    /// Answer with what a plugin said, and be done.
    AnswerAs { status: u16, headers: Vec<(String, String)>, body: Vec<u8> },
    /// Run the request hooks.
    RunRequestHooks,
    /// Open a stream on this multiplexer.
    OpenStream { multiplexer: u64, protocol: Protocol },
    /// Shake hands upstream, over HTTP/2 or HTTP/1.
    Handshake { http2: bool },
    /// Send the request upstream.
    SendRequest,
    /// Join the upgraded connections.
    Upgrade,
    /// Stream the response to the client.
    StreamResponse,
    /// Collect the response for the response hooks.
    BufferResponse,
    /// Run the response hooks.
    RunResponseHooks,
    /// Send the response that the hooks left.
    SendResponse,
}

/// A status that a plugin gave, or `fallback` where it is no HTTP status.
pub open spec fn valid_status(status: u16, fallback: u16) -> u16 {
    if 100 <= status <= 999 {
        status
    } else {
        fallback
    }
}

/// The step that a hook's decision leads to, where it ends the request. An answer with a
/// header field that cannot be one is not given.
pub open spec fn hook_ends(outcome: HookOutcome, step: IngressStep) -> bool {
    match outcome {
        HookOutcome::Proceed => false,
        HookOutcome::Reject { status, reason } => step matches IngressStep::Answer(reply)
            && reply.is(valid_status(status, 403), reason@),
        HookOutcome::Respond { status, headers, body } => if forall|i: int|
            0 <= i < headers@.len() ==> usable_field(#[trigger] text_pairs(headers@)[i]) {
            step == (IngressStep::AnswerAs { status: valid_status(status, 200), headers, body })
        } else {
            step matches IngressStep::Answer(reply) && reply.is(
                500,
                "Failed to build plugin response"@,
            )
        },
        HookOutcome::Failed => step matches IngressStep::Answer(reply) && reply.is(
            500,
            "Plugin processing error"@,
        ),
    }
}

/// The step that a hook's decision leads to, where it ends the request.
pub(crate) fn end_by_hook(outcome: HookOutcome) -> (r: Option<IngressStep>)
    ensures
        r is None <==> outcome is Proceed,
        r matches Some(step) ==> hook_ends(outcome, step),
{
    match outcome {
        HookOutcome::Proceed => None,
        HookOutcome::Reject { status, reason } => {
            let status: u16 = if status >= 100 && status <= 999 {
                status
            } else {
                403
            };
            Some(IngressStep::Answer(Reply { status, body: reason }))
        },
        HookOutcome::Respond { status, headers, body } => {
            if !all_usable(&headers) {
                return Some(IngressStep::Answer(plugin_response_failed()));
            }
            let status: u16 = if status >= 100 && status <= 999 {
                status
            } else {
                200
            };
            Some(IngressStep::AnswerAs { status, headers, body })
        },
        HookOutcome::Failed => Some(
            IngressStep::Answer(full_response(500, "Plugin processing error")),
        ),
    }
}

/// The answer where a plugin's response cannot be built.
pub fn plugin_response_failed() -> (r: Reply)
    ensures
        r.is(500, "Failed to build plugin response"@),
{
    full_response(500, "Failed to build plugin response")
}

/// Takes hop-by-hop header fields off a request. A WebSocket upgrade needs them.
pub fn strip_for_upstream(headers: &mut Headers, is_ws: bool)
    ensures
        final(headers)@ == stripped(old(headers)@, is_ws),
{
    if !is_ws {
        headers.remove("connection");
        headers.remove("transfer-encoding");
        headers.remove("upgrade");
    }
}

/// Header fields without those that concern only one hop, unless they negotiate an upgrade.
pub open spec fn stripped(fields: Seq<(Seq<char>, Seq<u8>)>, is_ws: bool) -> Seq<
    (Seq<char>, Seq<u8>),
> {
    if is_ws {
        fields
    } else {
        fields_without(
            fields_without(fields_without(fields, "connection"@), "transfer-encoding"@),
            "upgrade"@,
        )
    }
}

/// A request on its way through the ingress.
#[derive(Debug, Clone, PartialEq, Eq)]
pub struct IngressRequest {
    /// The tunnel that the request is for.
    pub tunnel_id: String,
    /// Whether it asks for an upgrade to WebSocket.
    pub is_ws: bool,
    /// Whether it is gRPC, as the hooks left it.
    pub is_grpc: bool,
}

/// How the session of a tunnel is found: the answer where there is none, or none that is
/// ready.
pub open spec fn routing_failure(session: Option<Session>, reply: Reply) -> bool {
    match session {
        None => reply.is(404, "Tunnel not found"@),
        Some(s) => s.multiplexer is None && reply.is(502, "Tunnel not ready"@),
    }
}

/// The protocol of a request's stream.
pub open spec fn stream_protocol(is_ws: bool, is_grpc: bool) -> Protocol {
    if is_ws {
        Protocol::WebSocket
    } else if is_grpc {
        Protocol::GRPC
    } else {
        Protocol::HTTP
    }
}

/// The answer to a request for the health check, or to one whose host leads nowhere.
pub open spec fn early_answer(path: Seq<char>, host: Option<Seq<u8>>) -> Option<(u16, Seq<char>)> {
    if path == "/health"@ {
        Some((200, "OK"@))
    } else {
        match host_of(host) {
            Err(message) => Some((400, message)),
            Ok(_) => None,
        }
    }
}

impl IngressRequest {
    /// Starts to serve a request. The health check is answered at once; a request without a
    /// usable host is refused; any other goes to the request hooks.
    pub fn start(path: &str, headers: &Headers) -> (r: Result<IngressRequest, Reply>)
        ensures
            match r {
                Err(reply) => early_answer(path@, value_from(headers@, "host"@, 0)) == Some(
                    (reply.status, reply.body@),
                ),
                Ok(request) => early_answer(path@, value_from(headers@, "host"@, 0)) is None
                    && host_of(value_from(headers@, "host"@, 0)) == Ok::<Seq<char>, Seq<char>>(
                    request.tunnel_id@,
                ) && request.is_ws == websocket_fields(headers@) && !request.is_grpc,
            },
    {
        if same_text(path, "/health") {
            return Err(full_response(200, "OK"));
        }
        match parse_and_normalize_host(headers.get("host")) {
            Ok(tunnel_id) => Ok(
                IngressRequest { tunnel_id, is_ws: is_websocket_upgrade(headers), is_grpc: false },
            ),
            Err(message) => Err(full_response(400, message)),
        }
    }

    /// Goes on after the request hooks, which left the header fields `headers`.
    ///
    /// A hook may end the request. Otherwise the session of its tunnel is looked up, a body
    /// that declares itself too long is refused, hop-by-hop fields are taken off, and a stream
    /// is opened.
    pub fn after_request_hooks(
        &mut self,
        outcome: HookOutcome,
        headers: &mut Headers,
        sessions: &SessionStoreBackend,
        config: &IngressConfig,
    ) -> (r: IngressStep)
        requires
            sessions.wf(),
        ensures
            final(self).tunnel_id == old(self).tunnel_id,
            final(self).is_ws == old(self).is_ws,
            !(outcome is Proceed) ==> hook_ends(outcome, r) && final(headers)@ == old(headers)@
                && final(self).is_grpc == old(self).is_grpc,
            outcome is Proceed ==> {
                let session = lookup(
                    sessions.part(old(self).tunnel_id@),
                    old(self).tunnel_id@,
                );
                let grpc = grpc_fields(old(headers)@);
                if session is None || session->0.multiplexer is None {
                    (r matches IngressStep::Answer(reply) && routing_failure(session, reply))
                        && final(headers)@ == old(headers)@ && final(self).is_grpc == old(self).is_grpc
                } else {
                    &&& final(self).is_grpc == grpc
                    &&& if declared_too_long(
                        old(headers)@,
                        config.max_request_body_size as nat,
                    ) {
                        (r matches IngressStep::Answer(reply) && reply.is(
                            413,
                            "Request body too large"@,
                        )) && final(headers)@ == old(headers)@
                    } else {
                        r == (IngressStep::OpenStream {
                            multiplexer: session->0.multiplexer->0,
                            protocol: stream_protocol(old(self).is_ws, grpc),
                        }) && final(headers)@ == stripped(old(headers)@, old(self).is_ws)
                    }
                }
            },
    {
        if let Some(step) = end_by_hook(outcome) {
            return step;
        }
        let multiplexer: u64 = match sessions.multiplexer_of(self.tunnel_id.as_str()) {
            None => {
                return IngressStep::Answer(full_response(404, "Tunnel not found"));
            },
            Some(None) => {
                return IngressStep::Answer(full_response(502, "Tunnel not ready"));
            },
            Some(Some(m)) => m,
        };
        self.is_grpc = is_grpc(headers);
        if content_length_exceeds(headers, config.max_request_body_size) {
            return IngressStep::Answer(full_response(413, "Request body too large"));
        }
        let protocol = if self.is_ws {
            Protocol::WebSocket
        } else if self.is_grpc {
            Protocol::GRPC
        } else {
            Protocol::HTTP
        };
        strip_for_upstream(headers, self.is_ws);
        IngressStep::OpenStream { multiplexer, protocol }
    }

    /// Goes on after the stream was opened, or could not be.
    pub fn after_open(&self, opened: bool) -> (r: IngressStep)
        ensures
            opened ==> r == (IngressStep::Handshake { http2: self.is_grpc }),
            !opened ==> (r matches IngressStep::Answer(reply) && reply.is(
                500,
                "Failed to open stream"@,
            )),
    {
        if opened {
            IngressStep::Handshake { http2: self.is_grpc }
        } else {
            IngressStep::Answer(full_response(500, "Failed to open stream"))
        }
    }

    /// Goes on after the handshake upstream.
    pub fn after_handshake(&self, end: UpstreamEnd) -> (r: IngressStep)
        ensures
            match end {
                UpstreamEnd::Done => r == IngressStep::SendRequest,
                UpstreamEnd::Failed => r matches IngressStep::Answer(reply) && reply.is(
                    502,
                    if self.is_grpc {
                        "gRPC tunnel handshake failed"@
                    } else {
                        "Tunnel handshake failed"@
                    },
                ),
                UpstreamEnd::TimedOut => r matches IngressStep::Answer(reply) && reply.is(
                    504,
                    if self.is_grpc {
                        "gRPC tunnel handshake timeout"@
                    } else {
                        "Tunnel handshake timeout"@
                    },
                ),
            },
    {
        match end {
            UpstreamEnd::Done => IngressStep::SendRequest,
            UpstreamEnd::Failed => IngressStep::Answer(
                full_response(
                    502,
                    if self.is_grpc {
                        "gRPC tunnel handshake failed"
                    } else {
                        "Tunnel handshake failed"
                    },
                ),
            ),
            UpstreamEnd::TimedOut => IngressStep::Answer(
                full_response(
                    504,
                    if self.is_grpc {
                        "gRPC tunnel handshake timeout"
                    } else {
                        "Tunnel handshake timeout"
                    },
                ),
            ),
        }
    }

    /// Goes on after the request was sent, for the status that came back.
    ///
    /// A body that turned out too long while it was sent is told from other failures. An
    /// accepted upgrade is carried out; a gRPC response, and any other that no plugin wants to
    /// see whole, is streamed.
    pub fn after_send(
        &self,
        end: UpstreamEnd,
        body_oversized: bool,
        status: u16,
        needs_buffering: bool,
    ) -> (r: IngressStep)
        ensures
            match end {
                UpstreamEnd::Failed => r matches IngressStep::Answer(reply) && if body_oversized {
                    reply.is(413, "Request body too large"@)
                } else {
                    reply.is(
                        502,
                        if self.is_grpc {
                            "gRPC request failed"@
                        } else {
                            "Failed to send request"@
                        },
                    )
                },
                UpstreamEnd::TimedOut => r matches IngressStep::Answer(reply) && reply.is(
                    504,
                    if self.is_grpc {
                        "gRPC upstream response timeout"@
                    } else {
                        "Upstream response timeout"@
                    },
                ),
                UpstreamEnd::Done => r == (if self.is_grpc {
                    IngressStep::StreamResponse
                } else if self.is_ws && status == 101 {
                    IngressStep::Upgrade
                } else if needs_buffering {
                    IngressStep::BufferResponse
                } else {
                    IngressStep::StreamResponse
                }),
            },
    {
        match end {
            UpstreamEnd::Failed => {
                if body_oversized {
                    return IngressStep::Answer(full_response(413, "Request body too large"));
                }
                IngressStep::Answer(
                    full_response(
                        502,
                        if self.is_grpc {
                            "gRPC request failed"
                        } else {
                            "Failed to send request"
                        },
                    ),
                )
            },
            UpstreamEnd::TimedOut => IngressStep::Answer(
                full_response(
                    504,
                    if self.is_grpc {
                        "gRPC upstream response timeout"
                    } else {
                        "Upstream response timeout"
                    },
                ),
            ),
            UpstreamEnd::Done => {
                if self.is_grpc {
                    IngressStep::StreamResponse
                } else if self.is_ws && status == 101 {
                    IngressStep::Upgrade
                } else if needs_buffering {
                    IngressStep::BufferResponse
                } else {
                    IngressStep::StreamResponse
                }
            },
        }
    }

    /// Goes on after the response was collected.
    pub fn after_buffer(&self, failure: Option<BodyCollectError>) -> (r: IngressStep)
        ensures
            match failure {
                None => r == IngressStep::RunResponseHooks,
                Some(e) => r matches IngressStep::Answer(reply) && reply.is(e.code(), e.text()),
            },
    {
        match failure {
            None => IngressStep::RunResponseHooks,
            Some(e) => IngressStep::Answer(full_response(e.status(), e.message())),
        }
    }

    /// Goes on after the response hooks. Their decision is honoured as that of request hooks.
    pub fn after_response_hooks(&self, outcome: HookOutcome) -> (r: IngressStep)
        ensures
            outcome is Proceed ==> r == IngressStep::SendResponse,
            !(outcome is Proceed) ==> hook_ends(outcome, r),
    {
        match end_by_hook(outcome) {
            Some(step) => step,
            None => IngressStep::SendResponse,
        }
    }
}

/// The absolute form of the URI of a gRPC request that has only a path, where there is a host
/// to put before it: the host header and the path, or the root.
pub open spec fn absolute_uri(
    has_authority: bool,
    fields: Seq<(Seq<char>, Seq<u8>)>,
    path_and_query: Option<Seq<char>>,
) -> Option<Seq<char>> {
    match field_text(fields, "host"@) {
        Some(host) => if has_authority {
            None
        } else {
            Some(
                "http://"@ + host + (match path_and_query {
                    Some(p) => p,
                    None => "/"@,
                }),
            )
        },
        None => None,
    }
}

/// The URI in the place of a gRPC request's own, which HTTP/2 needs: its absolute form, where
/// it has only a path and that form is a URI.
pub fn canonical_uri(has_authority: bool, headers: &Headers, path_and_query: Option<&str>) -> (r: Option<
    String,
>)
    ensures
        ({
            let uri = absolute_uri(has_authority, headers@, opt_str(path_and_query));
            opt_text(r) == usable_uri(
                uri,
                match uri {
                    Some(uri) => uri_complaint(uri),
                    None => None,
                },
            )
        }),
{
    let uri = candidate_uri(has_authority, headers, path_and_query);
    let complaint: Option<String> = match &uri {
        Some(uri) => check_uri(uri.as_str()),
        None => None,
    };
    accept_uri(uri, complaint)
}

/// A URI, unless something is wrong with it.
pub open spec fn usable_uri(uri: Option<Seq<char>>, complaint: Option<Seq<char>>) -> Option<Seq<char>> {
    if complaint is None {
        uri
    } else {
        None
    }
}

/// Takes a URI, for what was found wrong with it.
pub fn accept_uri(uri: Option<String>, complaint: Option<String>) -> (r: Option<String>)
    ensures
        opt_text(r) == usable_uri(opt_text(uri), opt_text(complaint)),
{
    match complaint {
        None => uri,
        Some(_) => None,
    }
}

/// The absolute form of the URI of a gRPC request that has only a path.
pub fn candidate_uri(has_authority: bool, headers: &Headers, path_and_query: Option<&str>) -> (r: Option<
    String,
>)
    ensures
        opt_text(r) == absolute_uri(
            has_authority,
            headers@,
            opt_str(path_and_query),
        ),
{
    if has_authority {
        return None;
    }
    match headers.get_text("host") {
        Some(host) => {
            let mut uri = "http://".to_owned();
            uri.append(host.as_str());
            match path_and_query {
                Some(p) => uri.append(p),
                None => uri.append("/"),
            }
            Some(uri)
        },
        None => None,
    }
}

/// Adds the header that advertises the HTTP/3 ingress, where there is one.
pub fn with_alt_svc_header(headers: &mut Headers, config: &IngressConfig)
    ensures
        final(headers)@ == match config.alt_svc_header {
            Some(value) => fields_without(old(headers)@, "alt-svc"@).push(("alt-svc"@, value@)),
            None => old(headers)@,
        },
{
    if let Some(value) = &config.alt_svc_header {
        headers.set("alt-svc", copy_bytes(value));
    }
}

/// The bytes of a request body that may still be forwarded.
#[derive(Debug, Clone, Copy, PartialEq, Eq, Structural)]
pub struct LimitedBody {
    pub remaining: usize,
    /// Whether the body went past its limit.
    pub exceeded: bool,
}

impl LimitedBody {
    /// A body of which at most `limit` bytes are forwarded.
    pub fn new(limit: usize) -> (r: LimitedBody)
        ensures
            r == (LimitedBody { remaining: limit, exceeded: false }),
    {
        LimitedBody { remaining: limit, exceeded: false }
    }

    /// Decides whether a frame of `len` bytes is forwarded. The first that goes past the limit
    /// is not, and is remembered.
    pub fn forward(&mut self, len: usize) -> (r: bool)
        ensures
            r == (len <= old(self).remaining),
            r ==> *final(self) == (LimitedBody {
                remaining: (old(self).remaining - len) as usize,
                ..*old(self)
            }),
            !r ==> *final(self) == (LimitedBody { exceeded: true, ..*old(self) }),
    {
        if len > self.remaining {
            self.exceeded = true;
            return false;
        }
        self.remaining = self.remaining - len;
        true
    }
}

/// The number of bytes of a body with frames of the given lengths that are forwarded.
pub open spec fn forwarded(limit: nat, frames: Seq<nat>) -> nat
    decreases frames.len(),
{
    if frames.len() == 0 {
        0
    } else if frames[0] <= limit {
        frames[0] + forwarded((limit - frames[0]) as nat, frames.skip(1))
    } else {
        0
    }
}

/// However a body is cut into frames, no more of it is forwarded than the limit allows.
pub proof fn law_body_limit_holds(limit: nat, frames: Seq<nat>)
    ensures
        forwarded(limit, frames) <= limit,
    decreases frames.len(),
{
    if frames.len() > 0 && frames[0] <= limit {
        law_body_limit_holds((limit - frames[0]) as nat, frames.skip(1));
    }
}

/// The deadline for the next frame of a response body. Moments are in milliseconds.
#[derive(Debug, Clone, Copy, PartialEq, Eq, Structural)]
pub struct TimeoutBody {
    pub timeout: u64,
    pub deadline: u64,
}

impl TimeoutBody {
    /// The moment `timeout` after `now`; the last moment there is where that is beyond it.
    pub open spec fn after(now: u64, timeout: u64) -> u64 {
        if now as int + timeout as int <= u64::MAX {
            (now + timeout) as u64
        } else {
            u64::MAX
        }
    }

    /// Starts to wait for the first frame.
    pub fn new(timeout: u64, now: u64) -> (r: TimeoutBody)
        ensures
            r == (TimeoutBody { timeout, deadline: TimeoutBody::after(now, timeout) }),
    {
        TimeoutBody { timeout, deadline: now.saturating_add(timeout) }
    }

    /// Records a frame: the wait starts anew.
    pub fn on_frame(&mut self, now: u64)
        ensures
            *final(self) == (TimeoutBody {
                deadline: TimeoutBody::after(now, old(self).timeout),
                ..*old(self)
            }),
    {
        self.deadline = now.saturating_add(self.timeout);
    }

    /// Whether the wait for the next frame is over.
    pub fn expired(&self, now: u64) -> (r: bool)
        ensures
            r == (now >= self.deadline),
    {
        now >= self.deadline
    }
}

/// Why a response body could not be collected.
#[derive(Debug, Clone, Copy, PartialEq, Eq, Structural)]
pub enum BodyCollectError {
    /// A frame did not arrive in time.
    Timeout,
    /// The body exceeds its limit.
    TooLarge,
    /// Reading the body failed.
    Read,
}

impl BodyCollectError {
    /// The status that the client gets.
    pub open spec fn code(self) -> u16 {
        match self {
            BodyCollectError::Timeout => 504,
            BodyCollectError::TooLarge | BodyCollectError::Read => 502,
        }
    }

    /// The message that the client gets.
    pub open spec fn text(self) -> Seq<char> {
        match self {
            BodyCollectError::Timeout => "Upstream response body timeout"@,
            BodyCollectError::TooLarge => "Response body too large"@,
            BodyCollectError::Read => "Error reading response body"@,
        }
    }

    /// The status that the client gets.
    pub fn status(self) -> (r: u16)
        ensures
            r == self.code(),
    {
        match self {
            BodyCollectError::Timeout => 504,
            BodyCollectError::TooLarge | BodyCollectError::Read => 502,
        }
    }

    /// The message that the client gets.
    pub fn message(self) -> (r: &'static str)
        ensures
            r@ == self.text(),
    {
        match self {
            BodyCollectError::Timeout => "Upstream response body timeout",
            BodyCollectError::TooLarge => "Response body too large",
            BodyCollectError::Read => "Error reading response body",
        }
    }
}

/// What came of waiting for a frame of a response body.
#[derive(Debug, PartialEq)]
pub enum BodyEvent {
    /// Data.
    Data(Vec<u8>),
    /// A frame without data.
    Other,
    /// The end of the body.
    End,
    /// A failure.
    Failed,
    /// Nothing in time.
    TimedOut,
}

/// What collecting a body asks for next.
#[derive(Debug, Clone, Copy, PartialEq, Eq, Structural)]
pub enum CollectStep {
    /// Wait for another frame.
    More,
    /// The body is complete.
    Complete,
    /// The body cannot be collected.
    Failed(BodyCollectError),
}

/// A response body that is being collected, up to a limit.
#[derive(Debug)]
pub struct BodyCollector {
    pub collected: Vec<u8>,
    pub max_size: usize,
}

impl BodyCollector {
    /// Starts to collect.
    pub fn new(max_size: usize) -> (r: BodyCollector)
        ensures
            r.collected@.len() == 0,
            r.max_size == max_size,
    {
        BodyCollector { collected: Vec::new(), max_size }
    }

    /// Takes in what came of waiting for a frame. A body never grows beyond its limit.
    pub fn collect(&mut self, event: BodyEvent) -> (r: CollectStep)
        requires
            old(self).collected@.len() <= old(self).max_size,
        ensures
            final(self).max_size == old(self).max_size,
            final(self).collected@.len() <= final(self).max_size,
            match event {
                BodyEvent::Data(data) => if old(self).collected@.len() + data@.len() <= old(self).max_size {
                    r == CollectStep::More && final(self).collected@ == old(self).collected@ + data@
                } else {
                    r == CollectStep::Failed(BodyCollectError::TooLarge)
                        && final(self).collected@ == old(self).collected@
                },
                BodyEvent::Other => r == CollectStep::More && final(self).collected@ == old(self).collected@,
                BodyEvent::End => r == CollectStep::Complete && final(self).collected@ == old(self).collected@,
                BodyEvent::Failed => r == CollectStep::Failed(BodyCollectError::Read)
                    && final(self).collected@ == old(self).collected@,
                BodyEvent::TimedOut => r == CollectStep::Failed(BodyCollectError::Timeout)
                    && final(self).collected@ == old(self).collected@,
            },
    {
        match event {
            BodyEvent::Data(data) => {
                if data.len() > self.max_size - self.collected.len() {
                    return CollectStep::Failed(BodyCollectError::TooLarge);
                }
                self.collected.extend_from_slice(data.as_slice());
                CollectStep::More
            },
            BodyEvent::Other => CollectStep::More,
            BodyEvent::End => CollectStep::Complete,
            BodyEvent::Failed => CollectStep::Failed(BodyCollectError::Read),
            BodyEvent::TimedOut => CollectStep::Failed(BodyCollectError::Timeout),
        }
    }
}

/// Whether an error message is that of a connection that was merely closed.
pub fn is_connection_close_error(message: &str) -> (r: bool)
    ensures
        r == (text_contains(message@, "connection closed"@) || text_contains(
            message@,
            "reset by peer"@,
        ) || text_contains(message@, "broken pipe"@)),
{
    contains(message, "connection closed") || contains(message, "reset by peer") || contains(
        message,
        "broken pipe",
    )
}

proof fn lemma_occurrences_push(s: Seq<char>, last: char, c: char)
    ensures
        occurrences(s.push(last), c) == occurrences(s, c) + (if last == c {
            1nat
        } else {
            0nat
        }),
{
    assert(s.push(last).drop_last() =~= s);
}

proof fn lemma_occurrences_concat(a: Seq<char>, b: Seq<char>, c: char)
    ensures
        occurrences(a + b, c) == occurrences(a, c) + occurrences(b, c),
    decreases b.len(),
{
    if b.len() == 0 {
        assert(a + b =~= a);
    } else {
        lemma_occurrences_concat(a, b.drop_last(), c);
        assert((a + b).drop_last() =~= a + b.drop_last());
    }
}

proof fn lemma_no_occurrence(s: Seq<char>, c: char)
    requires
        !s.contains(c),
    ensures
        occurrences(s, c) == 0,
    decreases s.len(),
{
    if s.len() > 0 {
        assert(s.contains(s.last()));
        assert forall|i: int| 0 <= i < s.drop_last().len() implies s.drop_last()[i] != c by {
            assert(s.contains(s[i]));
        }
        lemma_no_occurrence(s.drop_last(), c);
    }
}

proof fn lemma_two_occurrences(s: Seq<char>, c: char, i: int, j: int)
    requires
        0 <= i < j < s.len(),
        s[i] == c,
        s[j] == c,
    ensures
        occurrences(s, c) > 1,
{
    let a = s.take(j);
    let b = s.skip(j);
    assert(s =~= a + b);
    lemma_occurrences_concat(a, b, c);
    lemma_one_occurrence(a, c, i);
    lemma_one_occurrence(b, c, 0);
}

proof fn lemma_one_occurrence(s: Seq<char>, c: char, i: int)
    requires
        0 <= i < s.len(),
        s[i] == c,
    ensures
        occurrences(s, c) > 0,
    decreases s.len(),
{
    if i < s.len() - 1 {
        lemma_one_occurrence(s.drop_last(), c, i);
    }
}

/// Whether a text is only blanks.
pub open spec fn blanks(s: Seq<char>) -> bool {
    forall|i: int| 0 <= i < s.len() ==> (#[trigger] s[i]) == ' ' || s[i] == '\t'
}

/// Whether a text neither starts nor ends with a blank.
pub open spec fn tight(s: Seq<char>) -> bool {
    s.len() > 0 && s[0] != ' ' && s[0] != '\t' && s.last() != ' ' && s.last() != '\t'
}

/// Whether `host` is `name` with each letter from `A` to `Z` moved up by 32 code points, and
/// without a dot at its end.
pub open spec fn normal_form(name: Seq<char>, host: Seq<char>) -> bool {
    &&& host.len() == name.len() - (if name.last() == '.' {
        1int
    } else {
        0
    })
    &&& forall|i: int|
        #![trigger host[i]]
        0 <= i < host.len() ==> host[i] as int == name[i] as int + (if 65 <= name[i] as int <= 90 {
            32int
        } else {
            0
        })
}

proof fn lemma_normal_form(name: Seq<char>)
    requires
        name.len() > 0,
    ensures
        normal_form(name, normal_host(name)),
{
    let low = lower_text(name);
    assert(low.len() == name.len());
    assert(low.last() == crate::text::lower(name.last()));
    assert((low.last() == '.') == (name.last() == '.'));
}

/// A host name leads to the tunnel with that name, in lower case and without a dot at its end,
/// whatever port stands behind it and whatever blanks around it.
pub proof fn law_port_does_not_matter(
    value: &Vec<u8>,
    left: Seq<char>,
    name: Seq<char>,
    port: Seq<char>,
    right: Seq<char>,
    r: Result<String, &'static str>,
)
    requires
        call_ensures(parse_and_normalize_host, (Some(value),), r),
        crate::http::spells(value@, left + (name + port) + right),
        blanks(left),
        blanks(right),
        tight(name),
        tight(name + port),
        name[0] != '[',
        !name.contains(':'),
        port.len() > 0 ==> port[0] == ':' && !port.skip(1).contains(':'),
    ensures
        name != "."@ ==> r is Ok && normal_form(name, r->Ok_0@),
        name == "."@ ==> r is Err && r->Err_0@ == "Empty host after normalization"@,
{
    let core = name + port;
    crate::http::lemma_spelled(value@, left + core + right);
    crate::http::lemma_trims_to(left, core, right);
    lemma_no_occurrence(name, ':');
    lemma_occurrences_concat(name, port, ':');
    crate::text::lemma_first_at(core, ':', 0);
    assert(core[0] == name[0]);
    if port.len() > 0 {
        let behind = port.skip(1);
        lemma_no_occurrence(behind, ':');
        lemma_occurrences_concat(seq![':'], behind, ':');
        assert(port =~= seq![':'] + behind);
        assert(seq![':'].drop_last() =~= Seq::empty());
        assert(occurrences(seq![':'], ':') == 1) by {
            lemma_occurrences_push(Seq::empty(), ':', ':');
            assert(Seq::<char>::empty().push(':') =~= seq![':']);
        }
        assert(core[name.len() as int] == ':');
        let i = first_at(core, ':', 0)->0;
        if i < name.len() {
            assert(name.contains(name[i]));
        }
        assert(core.take(i) =~= name);
    } else {
        assert(core =~= name);
        assert(occurrences(port, ':') == 0);
        if let Some(i) = first_at(core, ':', 0) {
            assert(name.contains(name[i]));
        }
    }
    assert(named_host(core) == Some(name));
    lemma_normal_form(name);
    reveal_strlit(".");
    if name != "."@ {
        if normal_host(name).len() == 0 {
            assert(name.len() == 1 && name.last() == '.');
            assert(name =~= "."@);
        }
    }
}

/// An address in brackets leads to the tunnel with that address, whatever stands behind the
/// brackets; brackets that are not closed lead nowhere.
pub proof fn law_brackets_hold_the_host(
    value: &Vec<u8>,
    left: Seq<char>,
    address: Seq<char>,
    behind: Seq<char>,
    right: Seq<char>,
    r: Result<String, &'static str>,
)
    requires
        call_ensures(parse_and_normalize_host, (Some(value),), r),
        blanks(left),
        blanks(right),
        !address.contains(']'),
    ensures
        crate::http::spells(value@, left + (seq!['['] + address + behind) + right) && address.len()
            > 0 && address != "."@ && behind.len() > 0 && behind[0] == ']' && behind.last() != ' '
            && behind.last() != '\t' ==> r is Ok && normal_form(address, r->Ok_0@),
        crate::http::spells(value@, left + (seq!['['] + address) + right) && (address.len() > 0
            ==> address.last() != ' ' && address.last() != '\t') ==> r is Err && r->Err_0@
            == "Invalid IPv6 Host header format"@,
{
    if crate::http::spells(value@, left + (seq!['['] + address + behind) + right) && address.len()
        > 0 && address != "."@ && behind.len() > 0 && behind[0] == ']' && behind.last() != ' '
        && behind.last() != '\t' {
        let core = seq!['['] + address + behind;
        crate::http::lemma_spelled(value@, left + core + right);
        crate::http::lemma_trims_to(left, core, right);
        crate::text::lemma_first_at(core, ']', 0);
        assert(core[address.len() as int + 1] == ']');
        let i = first_at(core, ']', 0)->0;
        if 0 < i < 1 + address.len() {
            assert(address.contains(address[i - 1]));
        }
        assert(core.subrange(1, i) =~= address);
        lemma_normal_form(address);
        reveal_strlit(".");
        if normal_host(address).len() == 0 {
            assert(address =~= "."@);
        }
    }
    if crate::http::spells(value@, left + (seq!['['] + address) + right) && (address.len() > 0
        ==> address.last() != ' ' && address.last() != '\t') {
        let core = seq!['['] + address;
        crate::http::lemma_spelled(value@, left + core + right);
        crate::http::lemma_trims_to(left, core, right);
        crate::text::lemma_first_at(core, ']', 0);
        if let Some(i) = first_at(core, ']', 0) {
            assert(core[0] == '[');
            assert(address.contains(address[i - 1]));
        }
    }
}

/// An IPv6 address without brackets, which holds more than one colon, is the host as it stands.
pub proof fn law_bare_address_is_the_host(
    value: &Vec<u8>,
    left: Seq<char>,
    address: Seq<char>,
    right: Seq<char>,
    i: int,
    j: int,
    r: Result<String, &'static str>,
)
    requires
        call_ensures(parse_and_normalize_host, (Some(value),), r),
        crate::http::spells(value@, left + address + right),
        blanks(left),
        blanks(right),
        tight(address),
        address[0] != '[',
        0 <= i < j < address.len(),
        address[i] == ':',
        address[j] == ':',
    ensures
        r is Ok && normal_form(address, r->Ok_0@),
{
    crate::http::lemma_spelled(value@, left + address + right);
    crate::http::lemma_trims_to(left, address, right);
    lemma_two_occurrences(address, ':', i, j);
    lemma_normal_form(address);
}

/// A host header that is missing, holds a byte that is no text, or is empty or blank leads
/// nowhere.
pub proof fn law_unusable_host_leads_nowhere(
    header: Option<&Vec<u8>>,
    k: int,
    r: Result<String, &'static str>,
)
    requires
        call_ensures(parse_and_normalize_host, (header,), r),
    ensures
        header is None ==> r is Err && r->Err_0@ == "Missing or invalid Host header"@,
        header matches Some(v) ==> {
            &&& 0 <= k < v@.len() && v@[k] != 9 && !(32 <= v@[k] <= 126) ==> r is Err && r->Err_0@
                == "Missing or invalid Host header"@
            &&& v@.len() == 0 ==> r is Err && r->Err_0@ == "Empty Host header"@
            &&& v@.len() > 0 && (forall|i: int|
                0 <= i < v@.len() ==> (#[trigger] v@[i]) == 32 || v@[i] == 9) ==> r is Err
                && r->Err_0@ == "Empty host after normalization"@
        },
{
    if let Some(v) = header {
        if 0 <= k < v@.len() && v@[k] != 9 && !(32 <= v@[k] <= 126) {
            assert(!crate::http::visible(v@[k]));
        }
        if v@.len() > 0 && (forall|i: int|
            0 <= i < v@.len() ==> (#[trigger] v@[i]) == 32 || v@[i] == 9) {
            let text = Seq::new(v@.len(), |i: int| v@[i] as char);
            assert(crate::http::spells(v@, text)) by {
                assert forall|i: int| 0 <= i < v@.len() implies (#[trigger] v@[i]) as int
                    == text[i] as int && (v@[i] == 9 || 32 <= v@[i] <= 126) by {}
            }
            crate::http::lemma_spelled(v@, text);
            let none = Seq::<char>::empty();
            crate::http::lemma_trims_to(text, none, none);
            assert(text + none + none =~= text);
            crate::text::lemma_first_at(none, ':', 0);
            assert(lower_text(none) =~= none);
        }
    }
}

/// A message is gRPC exactly where its content type is that of gRPC followed by anything, also by
/// nothing; one without a content type is not.
pub proof fn law_grpc_is_told_by_content_type(headers: &Headers, content_type: Seq<char>, r: bool)
    requires
        call_ensures(is_grpc, (headers,), r),
    ensures
        crate::http::has_field(headers, "content-type"@, content_type) ==> (r
            <==> exists|suffix: Seq<char>|
            content_type == #[trigger] ("application/grpc"@ + suffix)),
        crate::http::lacks_field(headers, "content-type"@) ==> !r,
{
    crate::http::lemma_has_field(headers, "content-type"@, content_type);
    let start = "application/grpc"@;
    if text_starts_with(content_type, start) {
        assert(content_type =~= start + content_type.skip(start.len() as int));
    }
    if exists|suffix: Seq<char>| content_type == #[trigger] (start + suffix) {
        let suffix = choose|suffix: Seq<char>| content_type == #[trigger] (start + suffix);
        assert(content_type.take(start.len() as int) =~= start);
    }
}

/// Whether a text is another one but for the case of letters, and blanks around it.
pub open spec fn names(text: Seq<char>, word: Seq<char>) -> bool {
    exists|left: Seq<char>, core: Seq<char>, right: Seq<char>|
        text == #[trigger] (left + core + right) && blanks(left) && blanks(right) && core.len()
            == word.len() && forall|i: int|
            #![trigger core[i]]
            0 <= i < core.len() ==> core[i] as int + (if 65 <= core[i] as int <= 90 {
                32int
            } else {
                0
            }) == word[i] as int
}

/// A text is a word but for case and blanks exactly where it is that word, trimmed and in lower case.
pub proof fn lemma_names(text: Seq<char>, word: Seq<char>)
    requires
        tight(word),
        lower_text(word) == word,
    ensures
        names(text, word) <==> lower_text(trimmed(text)) == word,
{
    if names(text, word) {
        let (left, core, right) = choose|left: Seq<char>, core: Seq<char>, right: Seq<char>|
            text == #[trigger] (left + core + right) && blanks(left) && blanks(right) && core.len()
                == word.len() && forall|i: int|
                #![trigger core[i]]
                0 <= i < core.len() ==> core[i] as int + (if 65 <= core[i] as int <= 90 {
                    32int
                } else {
                    0
                }) == word[i] as int;
        assert(core[0] as int + 0 >= 0);
        assert(core.last() == core[core.len() - 1]);
        crate::http::lemma_trims_to(left, core, right);
        assert(lower_text(core) =~= word);
    }
    if lower_text(trimmed(text)) == word {
        let (left, right) = crate::http::lemma_trimmed(text);
        let core = trimmed(text);
        assert forall|i: int| #![trigger core[i]] 0 <= i < core.len() implies core[i] as int + (if 65
            <= core[i] as int <= 90 {
            32int
        } else {
            0
        }) == word[i] as int by {
            assert(lower_text(core)[i] == word[i]);
        }
        assert(text == left + core + right);
        assert(names(text, word));
    }
}

/// A request asks for an upgrade to WebSocket exactly where its upgrade field is that word and its
/// connection field lists the upgrade between commas, in whatever case.
pub proof fn law_upgrade_is_told_by_both_fields(
    headers: &Headers,
    upgrade: Seq<char>,
    connection: &str,
    parts: Vec<&str>,
    r: bool,
)
    requires
        call_ensures(is_websocket_upgrade, (headers,), r),
        call_ensures(split_all, (connection, ','), parts),
    ensures
        crate::http::has_field(headers, "upgrade"@, upgrade) && crate::http::has_field(
            headers,
            "connection"@,
            connection@,
        ) ==> (r <==> upgrade.len() == 9 && tight(upgrade) && names(upgrade, "websocket"@)
            && exists|i: int| 0 <= i < parts@.len() && #[trigger] names(parts@[i]@, "upgrade"@)),
        crate::http::lacks_field(headers, "upgrade"@) || crate::http::lacks_field(
            headers,
            "connection"@,
        ) ==> !r,
{
    crate::http::lemma_has_field(headers, "upgrade"@, upgrade);
    crate::http::lemma_has_field(headers, "connection"@, connection@);
    reveal_strlit("websocket");
    reveal_strlit("upgrade");
    assert(lower_text("websocket"@) =~= "websocket"@);
    assert(lower_text("upgrade"@) =~= "upgrade"@);
    lemma_names(upgrade, "websocket"@);
    let all = parts_of(connection@, ',');
    assert(str_views(parts@).len() == parts@.len());
    assert forall|i: int| 0 <= i < parts@.len() implies (#[trigger] names(parts@[i]@, "upgrade"@)
        <==> lower_text(trimmed(all[i])) == lower_text("upgrade"@)) by {
        assert(str_views(parts@)[i] == parts@[i]@);
        lemma_names(parts@[i]@, "upgrade"@);
    }
    if names_upgrade(connection@) {
        let i = choose|i: int|
            0 <= i < all.len() && lower_text(#[trigger] trimmed(all[i])) == lower_text("upgrade"@);
        assert(names(parts@[i]@, "upgrade"@));
    }
    if exists|i: int| 0 <= i < parts@.len() && #[trigger] names(parts@[i]@, "upgrade"@) {
        let i = choose|i: int| 0 <= i < parts@.len() && #[trigger] names(parts@[i]@, "upgrade"@);
        assert(lower_text(trimmed(all[i])) == lower_text("upgrade"@));
    }
    if lower_text(upgrade) == "websocket"@ {
        assert(upgrade.len() == 9);
        assert(lower_text(upgrade)[0] == 'w' && lower_text(upgrade)[8] == 't');
        crate::http::lemma_nothing_to_trim(upgrade);
    }
    if upgrade.len() == 9 && tight(upgrade) {
        crate::http::lemma_nothing_to_trim(upgrade);
    }
}

/// A request declares too long a body exactly where its content length is a number above the
/// limit.
pub proof fn law_declared_length_is_held_to_the_limit(
    headers: &Headers,
    max_size: usize,
    text: &str,
    n: Option<u64>,
    r: bool,
)
    requires
        call_ensures(content_length_exceeds, (headers, max_size), r),
        call_ensures(parse_number, (text, u64::MAX), n),
    ensures
        crate::http::has_field(headers, "content-length"@, text@) ==> (r <==> n is Some && n->0
            > max_size),
        crate::http::lacks_field(headers, "content-length"@) ==> !r,
{
    crate::http::lemma_has_field(headers, "content-length"@, text@);
}

/// What goes upstream has none of the fields that concern one hop, unless they negotiate an
/// upgrade, and keeps the value of every other.
pub proof fn law_hop_fields_stay_behind(
    headers: &mut Headers,
    is_ws: bool,
    name: &str,
    before: Option<&Vec<u8>>,
    after: Option<&Vec<u8>>,
)
    requires
        call_ensures(strip_for_upstream, (headers, is_ws), ()),
        call_ensures(Headers::get, (&*old(headers), name), before),
        call_ensures(Headers::get, (&*final(headers), name), after),
    ensures
        !is_ws && (name@ == "connection"@ || name@ == "transfer-encoding"@ || name@ == "upgrade"@)
            ==> after is None,
        is_ws || (name@ != "connection"@ && name@ != "transfer-encoding"@ && name@ != "upgrade"@)
            ==> (before is Some <==> after is Some) && (before is Some ==> (before->0)@
            == (after->0)@),
{
    let fields = old(headers)@;
    let a = fields_without(fields, "connection"@);
    let b = fields_without(a, "transfer-encoding"@);
    let c = fields_without(b, "upgrade"@);
    crate::http::lemma_without(fields, "connection", name);
    crate::http::lemma_without(a, "transfer-encoding", name);
    crate::http::lemma_without(b, "upgrade", name);
}

/// The health check is answered with 200 whatever the fields say; any other request is refused
/// with 400, in the words that say what is wrong with its host, or else is for the tunnel that its
/// host names, and an upgrade exactly where its fields ask for one.
pub proof fn law_request_starts_by_its_host(
    path: &str,
    headers: &Headers,
    r: Result<IngressRequest, Reply>,
    header: Option<&Vec<u8>>,
    host: Result<String, &'static str>,
    upgrade: bool,
)
    requires
        call_ensures(IngressRequest::start, (path, headers), r),
        call_ensures(Headers::get, (headers, "host"), header),
        call_ensures(parse_and_normalize_host, (header,), host),
        call_ensures(is_websocket_upgrade, (headers,), upgrade),
    ensures
        path@ == "/health"@ ==> r is Err && r->Err_0.status == 200 && r->Err_0.body@ == "OK"@,
        path@ != "/health"@ ==> match host {
            Ok(name) => r is Ok && r->Ok_0.tunnel_id@ == name@ && r->Ok_0.is_ws == upgrade
                && !r->Ok_0.is_grpc,
            Err(words) => r is Err && r->Err_0.status == 400 && r->Err_0.body@ == words@,
        },
{
}

/// A request that the hooks let pass goes to the session that its tunnel id is registered for: over
/// that session's multiplexer, as WebSocket where it asks for the upgrade, else as gRPC where it is
/// gRPC, else as HTTP. Without such a session it is answered 404, without a multiplexer 502, and
/// with too long a body 413.
pub proof fn law_request_goes_to_its_tunnel(
    request: &mut IngressRequest,
    headers: &mut Headers,
    sessions: &SessionStoreBackend,
    config: &IngressConfig,
    grpc: bool,
    too_long: bool,
    id: &str,
    found: Option<Option<u64>>,
    r: IngressStep,
)
    requires
        sessions.wf(),
        call_ensures(
            IngressRequest::after_request_hooks,
            (request, HookOutcome::Proceed, headers, sessions, config),
            r,
        ),
        call_ensures(is_grpc, (&*old(headers),), grpc),
        call_ensures(
            content_length_exceeds,
            (&*old(headers), config.max_request_body_size),
            too_long,
        ),
        id@ == old(request).tunnel_id@,
        call_ensures(SessionStoreBackend::multiplexer_of, (sessions, id), found),
    ensures
        found is None ==> r is Answer && r->Answer_0.status == 404 && r->Answer_0.body@
            == "Tunnel not found"@,
        found == Some(None::<u64>) ==> r is Answer && r->Answer_0.status == 502 && r->Answer_0.body@
            == "Tunnel not ready"@,
        found matches Some(Some(m)) ==> {
            &&& final(request).is_grpc == grpc
            &&& too_long ==> r is Answer && r->Answer_0.status == 413 && r->Answer_0.body@
                == "Request body too large"@
            &&& !too_long ==> r == (IngressStep::OpenStream {
                multiplexer: m,
                protocol: if old(request).is_ws {
                    Protocol::WebSocket
                } else if grpc {
                    Protocol::GRPC
                } else {
                    Protocol::HTTP
                },
            })
        },
        final(request).tunnel_id@ == old(request).tunnel_id@,
        final(request).is_ws == old(request).is_ws,
{
}

/// Whether a step is the answer that a hook decided on: its status where that is one, and its text
/// or body, with its fields where they are `usable`.
pub open spec fn has_last_word(outcome: HookOutcome, usable: bool, step: IngressStep) -> bool {
    match outcome {
        HookOutcome::Reject { status, reason } => step is Answer && step->Answer_0.body@ == reason@
            && step->Answer_0.status == (if 100 <= status <= 999 {
            status
        } else {
            403
        }),
        HookOutcome::Respond { status, headers, body } => if usable {
            step == (IngressStep::AnswerAs {
                status: if 100 <= status <= 999 {
                    status
                } else {
                    200
                },
                headers,
                body,
            })
        } else {
            step is Answer && step->Answer_0.status == 500 && step->Answer_0.body@
                == "Failed to build plugin response"@
        },
        HookOutcome::Failed => step is Answer && step->Answer_0.status == 500
            && step->Answer_0.body@ == "Plugin processing error"@,
        HookOutcome::Proceed => false,
    }
}

/// A hook that refuses a request, or answers it, has the last word, before or after the upstream:
/// its status where that is one, its text or body, and its fields where they can be fields. A hook
/// that fails is answered 500.
pub proof fn law_hooks_have_the_last_word(
    request: &mut IngressRequest,
    outcome: HookOutcome,
    headers: &mut Headers,
    sessions: &SessionStoreBackend,
    config: &IngressConfig,
    before: IngressStep,
    after: IngressStep,
    usable: bool,
)
    requires
        sessions.wf(),
        !(outcome is Proceed),
        call_ensures(
            IngressRequest::after_request_hooks,
            (request, outcome, headers, sessions, config),
            before,
        ),
        call_ensures(IngressRequest::after_response_hooks, (&*old(request), outcome), after),
        outcome matches HookOutcome::Respond { headers: h, .. } ==> call_ensures(
            all_usable,
            (&h,),
            usable,
        ),
    ensures
        final(headers)@ == old(headers)@,
        has_last_word(outcome, usable, before),
        has_last_word(outcome, usable, after),
{
    if let HookOutcome::Respond { headers: h, .. } = outcome {
        let list = text_pairs(h@);
        if usable {
            assert forall|i: int| 0 <= i < h@.len() implies usable_field(#[trigger] list[i]) by {}
        } else {
            assert(!crate::http::usable_fields(list));
        }
    }
}

/// A stream that was opened is shaken hands over, with HTTP/2 exactly for gRPC; then the request is
/// sent; and what fails or takes too long upstream is answered 500, 502 or 504.
pub proof fn law_upstream_steps_follow_each_other(
    request: &IngressRequest,
    opened: bool,
    end: UpstreamEnd,
    open_step: IngressStep,
    handshake_step: IngressStep,
)
    requires
        call_ensures(IngressRequest::after_open, (request, opened), open_step),
        call_ensures(IngressRequest::after_handshake, (request, end), handshake_step),
    ensures
        opened ==> open_step == (IngressStep::Handshake { http2: request.is_grpc }),
        !opened ==> open_step is Answer && open_step->Answer_0.status == 500
            && open_step->Answer_0.body@ == "Failed to open stream"@,
        end == UpstreamEnd::Done ==> handshake_step == IngressStep::SendRequest,
        end == UpstreamEnd::Failed ==> handshake_step is Answer && handshake_step->Answer_0.status
            == 502 && handshake_step->Answer_0.body@ == (if request.is_grpc {
            "gRPC tunnel handshake failed"@
        } else {
            "Tunnel handshake failed"@
        }),
        end == UpstreamEnd::TimedOut ==> handshake_step is Answer && handshake_step->Answer_0.status
            == 504 && handshake_step->Answer_0.body@ == (if request.is_grpc {
            "gRPC tunnel handshake timeout"@
        } else {
            "Tunnel handshake timeout"@
        }),
{
}

/// A response is streamed, unless an upgrade was asked for and accepted, or a plugin wants to see
/// it whole and it is not gRPC. A body that was cut off for its length is answered 413, any other
/// failure 502, and one that took too long 504.
pub proof fn law_response_is_streamed_unless_wanted_whole(
    request: &IngressRequest,
    end: UpstreamEnd,
    oversized: bool,
    status: u16,
    buffering: bool,
    r: IngressStep,
)
    requires
        call_ensures(IngressRequest::after_send, (request, end, oversized, status, buffering), r),
    ensures
        end == UpstreamEnd::Done ==> {
            &&& r == IngressStep::Upgrade <==> !request.is_grpc && request.is_ws && status == 101
            &&& r == IngressStep::BufferResponse <==> !request.is_grpc && buffering && !(
            request.is_ws && status == 101)
            &&& r == IngressStep::Upgrade || r == IngressStep::BufferResponse || r
                == IngressStep::StreamResponse
        },
        end == UpstreamEnd::Failed && oversized ==> r is Answer && r->Answer_0.status == 413
            && r->Answer_0.body@ == "Request body too large"@,
        end == UpstreamEnd::Failed && !oversized ==> r is Answer && r->Answer_0.status == 502
            && r->Answer_0.body@ == (if request.is_grpc {
            "gRPC request failed"@
        } else {
            "Failed to send request"@
        }),
        end == UpstreamEnd::TimedOut ==> r is Answer && r->Answer_0.status == 504
            && r->Answer_0.body@ == (if request.is_grpc {
            "gRPC upstream response timeout"@
        } else {
            "Upstream response timeout"@
        }),
{
}

/// A response that was collected goes to the hooks, and what they let pass to the client; one that
/// could not be collected is answered 504 where it took too long, else 502.
pub proof fn law_collected_response_reaches_the_client(
    request: &IngressRequest,
    failure: Option<BodyCollectError>,
    r: IngressStep,
    sent: IngressStep,
)
    requires
        call_ensures(IngressRequest::after_buffer, (request, failure), r),
        call_ensures(IngressRequest::after_response_hooks, (request, HookOutcome::Proceed), sent),
    ensures
        sent == IngressStep::SendResponse,
        failure is None ==> r == IngressStep::RunResponseHooks,
        failure matches Some(e) ==> r is Answer && r->Answer_0.status == (if e
            == BodyCollectError::Timeout {
            504u16
        } else {
            502
        }),
{
}

/// A gRPC request that has only a path gets the absolute URI of its host and that path, where the
/// host is given and that is a URI; one that has an authority keeps its own.
pub proof fn law_grpc_uri_is_host_and_path(
    has_authority: bool,
    headers: &Headers,
    path: Option<&str>,
    host: Seq<char>,
    r: Option<String>,
    candidate: Option<String>,
)
    requires
        call_ensures(canonical_uri, (has_authority, headers, path), r),
        call_ensures(candidate_uri, (has_authority, headers, path), candidate),
    ensures
        has_authority ==> r is None && candidate is None,
        crate::http::lacks_field(headers, "host"@) ==> r is None && candidate is None,
        !has_authority && crate::http::has_field(headers, "host"@, host) ==> {
            &&& candidate is Some
            &&& path matches Some(p) ==> (candidate->0)@ == "http://"@ + host + p@
            &&& path is None ==> (candidate->0)@ == "http://"@ + host + "/"@
            &&& r is Some <==> uri_complaint((candidate->0)@) is None
            &&& r is Some ==> (r->0)@ == (candidate->0)@
        },
{
    crate::http::lemma_has_field(headers, "host"@, host);
}

/// Responses carry the advertisement of the HTTP/3 ingress, once, exactly where there is one, and
/// their other fields as they were.
pub proof fn law_advertisement_is_carried(
    headers: &mut Headers,
    config: &IngressConfig,
    name: &str,
    before: Option<&Vec<u8>>,
    after: Option<&Vec<u8>>,
)
    requires
        call_ensures(with_alt_svc_header, (headers, config), ()),
        call_ensures(Headers::get, (&*old(headers), name), before),
        call_ensures(Headers::get, (&*final(headers), name), after),
    ensures
        name@ == "alt-svc"@ ==> (config.alt_svc_header matches Some(v) ==> after is Some
            && (after->0)@ == v@),
        name@ != "alt-svc"@ || config.alt_svc_header is None ==> (before is Some <==> after is Some)
            && (before is Some ==> (before->0)@ == (after->0)@),
{
    if let Some(v) = config.alt_svc_header {
        let left = fields_without(old(headers)@, "alt-svc"@);
        crate::http::lemma_value_push(left, ("alt-svc"@, v@), name@);
        crate::http::lemma_without(old(headers)@, "alt-svc", name);
    }
}

/// Frames of a request body are forwarded as long as they fit into what is left of the limit, and
/// the first that does not is told.
pub proof fn law_frames_are_forwarded_within_the_limit(
    limit: usize,
    body: LimitedBody,
    now: &mut LimitedBody,
    len: usize,
    r: bool,
)
    requires
        call_ensures(LimitedBody::new, (limit,), body),
        call_ensures(LimitedBody::forward, (now, len), r),
    ensures
        body.remaining == limit && !body.exceeded,
        r <==> len <= old(now).remaining,
        r ==> final(now).remaining + len == old(now).remaining && final(now).exceeded == old(
            now,
        ).exceeded,
        !r ==> final(now).exceeded && final(now).remaining == old(now).remaining,
{
}

/// A response body may pause for just under the timeout between two frames, however long it takes
/// in all.
pub proof fn law_only_a_pause_runs_out(
    body: &mut TimeoutBody,
    fresh: TimeoutBody,
    timeout: u64,
    now: u64,
    later: u64,
    r: bool,
    fresh_r: bool,
)
    requires
        call_ensures(TimeoutBody::on_frame, (body, now), ()),
        call_ensures(TimeoutBody::new, (timeout, now), fresh),
        call_ensures(TimeoutBody::expired, (&*final(body), later), r),
        call_ensures(TimeoutBody::expired, (&fresh, later), fresh_r),
        now as int + timeout as int <= u64::MAX,
        now as int + old(body).timeout as int <= u64::MAX,
        later >= now,
    ensures
        r <==> later - now >= old(body).timeout,
        fresh_r <==> later - now >= timeout,
        final(body).timeout == old(body).timeout,
{
}

/// What is collected of a response body is all its data in order, up to the limit: a frame that
/// would go beyond it fails, as a failure and a pause that is too long do, and the end completes it.
pub proof fn law_body_is_collected_in_order(
    body: &mut BodyCollector,
    event: BodyEvent,
    fresh: BodyCollector,
    max_size: usize,
    r: CollectStep,
)
    requires
        old(body).collected@.len() <= old(body).max_size,
        call_ensures(BodyCollector::collect, (body, event), r),
        call_ensures(BodyCollector::new, (max_size,), fresh),
    ensures
        fresh.collected@ == Seq::<u8>::empty() && fresh.max_size == max_size,
        final(body).max_size == old(body).max_size,
        event matches BodyEvent::Data(data) ==> {
            let grown = old(body).collected@ + data@;
            &&& r == CollectStep::More <==> grown.len() <= old(body).max_size
            &&& r == CollectStep::More ==> final(body).collected@ == grown
            &&& r != CollectStep::More ==> r == CollectStep::Failed(BodyCollectError::TooLarge)
        },
        event == BodyEvent::Other ==> r == CollectStep::More,
        event == BodyEvent::End ==> r == CollectStep::Complete,
        event == BodyEvent::Failed ==> r == CollectStep::Failed(BodyCollectError::Read),
        event == BodyEvent::TimedOut ==> r == CollectStep::Failed(BodyCollectError::Timeout),
        !(event is Data) ==> final(body).collected@ == old(body).collected@,
{
    assert(fresh.collected@ =~= Seq::<u8>::empty());
}

/// The message of an error is that of a closed connection exactly where it holds one of three
/// phrases.
pub proof fn law_closed_connections_are_told_by_their_words(message: &str, r: bool)
    requires
        call_ensures(is_connection_close_error, (message,), r),
    ensures
        r <==> exists|a: Seq<char>, b: Seq<char>|
            message@ == #[trigger] (a + "connection closed"@ + b) || message@ == a
                + "reset by peer"@ + b || message@ == a + "broken pipe"@ + b,
{
    lemma_between(message@, "connection closed"@);
    lemma_between(message@, "reset by peer"@);
    lemma_between(message@, "broken pipe"@);
    if text_contains(message@, "reset by peer"@) {
        let (a, b) = choose|a: Seq<char>, b: Seq<char>|
            message@ == #[trigger] (a + "reset by peer"@ + b);
        let _ = a + "connection closed"@ + b;
    }
    if text_contains(message@, "broken pipe"@) {
        let (a, b) = choose|a: Seq<char>, b: Seq<char>|
            message@ == #[trigger] (a + "broken pipe"@ + b);
        let _ = a + "connection closed"@ + b;
    }
}

proof fn lemma_between(s: Seq<char>, part: Seq<char>)
    ensures
        text_contains(s, part) <==> exists|a: Seq<char>, b: Seq<char>|
            s == #[trigger] (a + part + b),
{
    if text_contains(s, part) {
        let i = choose|i: int|
            0 <= i <= s.len() - part.len() && #[trigger] s.subrange(i, i + part.len()) == part;
        assert(s =~= s.take(i) + part + s.skip(i + part.len()));
    }
    if exists|a: Seq<char>, b: Seq<char>| s == #[trigger] (a + part + b) {
        let (a, b) = choose|a: Seq<char>, b: Seq<char>| s == #[trigger] (a + part + b);
        let i = a.len() as int;
        assert(s.subrange(i, i + part.len()) =~= part);
    }
}

/// A field that is garbled says nothing: the message is not gRPC for its content type, asks for no
/// upgrade and declares no length.
pub proof fn law_garbled_fields_say_nothing(
    headers: &Headers,
    max_size: usize,
    grpc: bool,
    upgrade: bool,
    too_long: bool,
)
    requires
        call_ensures(is_grpc, (headers,), grpc),
        call_ensures(is_websocket_upgrade, (headers,), upgrade),
        call_ensures(content_length_exceeds, (headers, max_size), too_long),
    ensures
        crate::http::garbled_field(headers, "content-type"@) ==> !grpc,
        crate::http::garbled_field(headers, "upgrade"@) || crate::http::garbled_field(
            headers,
            "connection"@,
        ) ==> !upgrade,
        crate::http::garbled_field(headers, "content-length"@) ==> !too_long,
{
    if crate::http::garbled_field(headers, "content-type"@) {
        crate::http::lemma_garbled_field(headers, "content-type"@);
    }
    if crate::http::garbled_field(headers, "upgrade"@) {
        crate::http::lemma_garbled_field(headers, "upgrade"@);
    }
    if crate::http::garbled_field(headers, "connection"@) {
        crate::http::lemma_garbled_field(headers, "connection"@);
    }
    if crate::http::garbled_field(headers, "content-length"@) {
        crate::http::lemma_garbled_field(headers, "content-length"@);
    }
}

/// The fields of a request that goes upstream are stripped as requests are, and those of one that is
/// answered stay as they are.
pub proof fn law_request_is_stripped_on_its_way(
    request: &mut IngressRequest,
    headers: &mut Headers,
    sessions: &SessionStoreBackend,
    config: &IngressConfig,
    r: IngressStep,
    same: &mut Headers,
)
    requires
        sessions.wf(),
        call_ensures(
            IngressRequest::after_request_hooks,
            (request, HookOutcome::Proceed, headers, sessions, config),
            r,
        ),
        old(same)@ == old(headers)@,
        call_ensures(strip_for_upstream, (same, old(request).is_ws), ()),
    ensures
        r is OpenStream ==> final(headers)@ == final(same)@,
        r is Answer ==> final(headers)@ == old(headers)@,
        r is OpenStream || r is Answer,
{
}

/// Answers have the status and the text that they are made with; a body that could not be collected
/// is answered by its own, and a plugin's answer that cannot be built with 500.
pub proof fn law_answers_are_as_made(
    status: u16,
    body: &str,
    r: Reply,
    failed: Reply,
    error: BodyCollectError,
    code: u16,
    message: &'static str,
    uri: Option<String>,
    complaint: Option<String>,
    accepted: Option<String>,
    config: IngressConfig,
)
    requires
        call_ensures(full_response, (status, body), r),
        call_ensures(plugin_response_failed, (), failed),
        call_ensures(BodyCollectError::status, (error,), code),
        call_ensures(BodyCollectError::message, (error,), message),
        call_ensures(accept_uri, (uri, complaint), accepted),
        call_ensures(IngressConfig::default, (), config),
    ensures
        r.status == status && r.body@ == body@,
        failed.status == 500,
        code == (if error == BodyCollectError::Timeout {
            504u16
        } else {
            502
        }),
        error == BodyCollectError::Timeout ==> message@ == "Upstream response body timeout"@,
        error == BodyCollectError::TooLarge ==> message@ == "Response body too large"@,
        error == BodyCollectError::Read ==> message@ == "Error reading response body"@,
        complaint is Some ==> accepted is None,
        complaint is None ==> (accepted is Some <==> uri is Some) && (uri is Some ==> (accepted->0)@
            == (uri->0)@),
        config.max_connections == 10 * 1000,
        config.max_request_body_size == 100 * 1024 * 1024,
        config.max_response_size == 100 * 1024 * 1024,
        config.handshake_timeout_millis == 10 * 1000,
        config.response_timeout_millis == 60 * 1000,
        config.alt_svc_header is None,
{
}

/// Every host header, every set of fields and every path can be asked about.
pub proof fn law_any_request_can_be_routed(
    header: Option<&Vec<u8>>,
    headers: &Headers,
    path: &str,
    size: usize,
    request: &IngressRequest,
    end: UpstreamEnd,
    outcome: HookOutcome,
)
    ensures
        call_requires(parse_and_normalize_host, (header,)),
        call_requires(is_grpc, (headers,)),
        call_requires(is_websocket_upgrade, (headers,)),
        call_requires(content_length_exceeds, (headers, size)),
        call_requires(IngressRequest::start, (path, headers)),
        call_requires(IngressRequest::after_handshake, (request, end)),
        call_requires(IngressRequest::after_response_hooks, (request, outcome)),
{
}

} // verus!
