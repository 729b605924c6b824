//! HTTP/3 ingress: its configuration, and where its requests go another way than those of the
//! HTTP ingress.

use vstd::prelude::*;

use crate::error::TunnelError;
use crate::frame::Protocol;
use crate::http::{Headers, copy_bytes, field_text, fields_without, parts_of, split_all, str_views,
    to_text, trim, trimmed, value_from, value_text, check_uri, only_usable, uri_complaint,
    usable_field};
use crate::ingress::{BodyCollectError, HookOutcome, IngressRequest, IngressStep, Reply, UpstreamEnd, full_response,
    grpc_fields, hook_ends, host_of, is_grpc, parse_and_normalize_host, routing_failure,
    valid_status};
use crate::session::lookup;
use crate::sharded::SessionStoreBackend;
use crate::text::{append_decimal, decimal_text, lower_text, opt_str, opt_text, same_text,
    text_pairs, to_lower};
use crate::transport::TlsTransportConfig;

verus! {

/// Limits, timeouts and certificates of the HTTP/3 ingress. Timeouts are in milliseconds.
#[derive(Debug, Clone)]
#[non_exhaustive]
pub struct Http3IngressConfig {
    pub cert_path: String,
    pub key_path: String,
    pub ca_cert_path: Option<String>,
    pub client_auth: bool,
    pub max_connections: usize,
    pub max_request_body_size: usize,
    pub max_response_size: usize,
    pub handshake_timeout_millis: u64,
    pub response_timeout_millis: u64,
    /// Seconds for which clients may remember the ingress.
    pub alt_svc_max_age: u64,
    /// Idle timeout of a QUIC connection.
    pub idle_timeout_millis: u64,
    /// Keep-alive interval of a QUIC connection.
    pub keep_alive_interval_millis: u64,
    /// Maximum concurrent bidirectional streams of a connection.
    pub max_concurrent_bidi_streams: u32,
}

impl Http3IngressConfig {
    /// Whether everything but the certificates is as by default.
    pub open spec fn default_limits(&self) -> bool {
        &&& self.max_connections == 10_000
        &&& self.max_request_body_size == 104_857_600
        &&& self.max_response_size == 104_857_600
        &&& self.handshake_timeout_millis == 10_000
        &&& self.response_timeout_millis == 60_000
        &&& self.alt_svc_max_age == 86_400
        &&& self.idle_timeout_millis == 30_000
        &&& self.keep_alive_interval_millis == 10_000
        &&& self.max_concurrent_bidi_streams == 256
    }

    /// The header value that advertises the ingress on a port.
    pub open spec fn advertisement(&self, port: u16) -> Seq<char> {
        "h3=\":"@ + decimal_text(port as nat) + "\"; ma="@ + decimal_text(
            self.alt_svc_max_age as nat,
        ) + ", h3-29=\":"@ + decimal_text(port as nat) + "\"; ma="@ + decimal_text(
            self.alt_svc_max_age as nat,
        )
    }

    /// Creates a configuration with the given certificate files and the default limits.
    pub fn with_certs(cert_path: String, key_path: String) -> (r: Http3IngressConfig)
        ensures
            r.cert_path == cert_path,
            r.key_path == key_path,
            r.ca_cert_path is None,
            !r.client_auth,
            r.default_limits(),
    {
        let mut config = Http3IngressConfig::default();
        config.cert_path = cert_path;
        config.key_path = key_path;
        config
    }

    /// Uses another CA certificate.
    pub fn ca_cert_path(self, path: Option<String>) -> (r: Http3IngressConfig)
        ensures
            r == (Http3IngressConfig { ca_cert_path: path, ..self }),
    {
        let mut config = self;
        config.ca_cert_path = path;
        config
    }

    /// Requires client certificates, or does not.
    pub fn client_auth(self, enabled: bool) -> (r: Http3IngressConfig)
        ensures
            r == (Http3IngressConfig { client_auth: enabled, ..self }),
    {
        let mut config = self;
        config.client_auth = enabled;
        config
    }

    /// Builds the `Alt-Svc` header that advertises both `h3` and `h3-29` on a port.
    pub fn alt_svc_header_value(&self, port: u16) -> (r: String)
        ensures
            r@ == self.advertisement(port),
    {
        let mut text = "h3=\":".to_owned();
        append_decimal(&mut text, port as u64);
        text.append("\"; ma=");
        append_decimal(&mut text, self.alt_svc_max_age);
        text.append(", h3-29=\":");
        append_decimal(&mut text, port as u64);
        text.append("\"; ma=");
        append_decimal(&mut text, self.alt_svc_max_age);
        text
    }

    /// The TLS configuration of the endpoint, which needs a certificate and a key.
    pub fn endpoint_tls(&self) -> (r: Result<TlsTransportConfig, TunnelError>)
        ensures
            r is Err <==> self.cert_path@.len() == 0 || self.key_path@.len() == 0,
            r matches Err(e) ==> e is Config && e.text()
                == "HTTP/3 ingress requires certificate and key paths"@,
            r matches Ok(tls) ==> {
                &&& opt_text(tls.ca_cert_path) == opt_text(self.ca_cert_path)
                &&& tls.cert_path@ == self.cert_path@
                &&& tls.key_path@ == self.key_path@
                &&& tls.server_name is None
                &&& tls.client_auth == self.client_auth
                &&& !tls.skip_verify
            },
    {
        if self.cert_path.as_str().is_empty() || self.key_path.as_str().is_empty() {
            return Err(
                TunnelError::Config("HTTP/3 ingress requires certificate and key paths".to_owned()),
            );
        }
        let ca_cert_path: Option<String> = match &self.ca_cert_path {
            Some(p) => Some(p.clone()),
            None => None,
        };
        Ok(
            TlsTransportConfig {
                ca_cert_path,
                cert_path: self.cert_path.clone(),
                key_path: self.key_path.clone(),
                server_name: None,
                client_auth: self.client_auth,
                skip_verify: false,
            },
        )
    }
}

impl Default for Http3IngressConfig {
    fn default() -> (r: Http3IngressConfig)
        ensures
            r.cert_path@.len() == 0,
            r.key_path@.len() == 0,
            r.ca_cert_path is None,
            !r.client_auth,
            r.default_limits(),
    {
        Http3IngressConfig {
            cert_path: String::new(),
            key_path: String::new(),
            ca_cert_path: None,
            client_auth: false,
            max_connections: 10_000,
            max_request_body_size: 104_857_600,
            max_response_size: 104_857_600,
            handshake_timeout_millis: 10_000,
            response_timeout_millis: 60_000,
            alt_svc_max_age: 86_400,
            idle_timeout_millis: 30_000,
            keep_alive_interval_millis: 10_000,
            max_concurrent_bidi_streams: 256,
        }
    }
}

/// What becomes of a chunk of a request body.
#[derive(Debug, Clone, Copy, PartialEq, Eq, Structural)]
pub enum ChunkStep {
    /// It is empty: read on.
    Skip,
    /// Pass it on.
    Forward,
    /// It goes past the limit: report that, and stop.
    TooLarge,
}

/// The budget of a request body that is read in chunks.
#[derive(Debug, Clone, Copy, PartialEq, Eq, Structural)]
pub struct BodyBudget {
    pub bytes_read: usize,
    pub max_size: usize,
}

impl BodyBudget {
    /// A budget of which nothing is used.
    pub fn new(max_size: usize) -> (r: BodyBudget)
        ensures
            r == (BodyBudget { bytes_read: 0, max_size }),
    {
        BodyBudget { bytes_read: 0, max_size }
    }

    /// Decides about a chunk of `len` bytes, before it is copied.
    pub fn chunk(&mut self, len: usize) -> (r: ChunkStep)
        requires
            old(self).bytes_read <= old(self).max_size,
        ensures
            final(self).bytes_read <= final(self).max_size,
            final(self).max_size == old(self).max_size,
            r == (if len == 0 {
                ChunkStep::Skip
            } else if old(self).bytes_read + len > old(self).max_size {
                ChunkStep::TooLarge
            } else {
                ChunkStep::Forward
            }),
            final(self).bytes_read == (if r == ChunkStep::Forward {
                old(self).bytes_read + len
            } else {
                old(self).bytes_read as int
            }),
    {
        if len == 0 {
            return ChunkStep::Skip;
        }
        if len > self.max_size - self.bytes_read {
            return ChunkStep::TooLarge;
        }
        self.bytes_read = self.bytes_read + len;
        ChunkStep::Forward
    }
}

/// Whether a name, in lower case, is that of a field that concerns only one hop.
pub open spec fn hop_by_hop(name: Seq<char>) -> bool {
    name == "connection"@ || name == "keep-alive"@ || name == "proxy-authenticate"@ || name
        == "proxy-authorization"@ || name == "proxy-connection"@ || name == "te"@ || name
        == "trailer"@ || name == "transfer-encoding"@ || name == "upgrade"@
}

fn is_hop_by_hop(name: &str) -> (r: bool)
    ensures
        r == hop_by_hop(name@),
{
    same_text(name, "connection") || same_text(name, "keep-alive") || same_text(
        name,
        "proxy-authenticate",
    ) || same_text(name, "proxy-authorization") || same_text(name, "proxy-connection")
        || same_text(name, "te") || same_text(name, "trailer") || same_text(
        name,
        "transfer-encoding",
    ) || same_text(name, "upgrade")
}

/// Whether the `Connection` header names a field, by its name in lower case.
pub open spec fn named_by_connection(fields: Seq<(Seq<char>, Seq<u8>)>, name: Seq<char>) -> bool {
    field_text(fields, "connection"@) matches Some(value) && lists_name(value, name)
}

/// Whether a list between commas holds a name, in whatever case.
pub open spec fn lists_name(value: Seq<char>, name: Seq<char>) -> bool {
    exists|i: int|
        0 <= i < parts_of(value, ',').len() && lower_text(
            #[trigger] trimmed(parts_of(value, ',')[i]),
        ) == name
}

/// The fields of a message that go beyond one hop: those that are neither hop-by-hop fields
/// nor named by the `Connection` header.
pub open spec fn end_to_end(fields: Seq<(Seq<char>, Seq<u8>)>) -> Seq<(Seq<char>, Seq<u8>)> {
    fields.filter(
        |f: (Seq<char>, Seq<u8>)| !hop_by_hop(f.0) && !named_by_connection(fields, f.0),
    )
}

fn list_has_name(value: &str, name: &str) -> (r: bool)
    ensures
        r == lists_name(value@, name@),
{
    let parts = split_all(value, ',');
    let ghost all = parts_of(value@, ',');
    proof {
        assert(str_views(parts@) == all);
        assert(parts@.len() == all.len());
    }
    let mut i: usize = 0;
    while i < parts.len()
        invariant
            i <= parts@.len(),
            parts@.len() == all.len(),
            str_views(parts@) == all,
            all == parts_of(value@, ','),
            forall|j: int| 0 <= j < i ==> lower_text(#[trigger] trimmed(all[j])) != name@,
        decreases parts@.len() - i,
    {
        proof {
            assert(str_views(parts@)[i as int] == parts@[i as int]@);
        }
        let low = to_lower(trim(parts[i]));
        if same_text(low.as_str(), name) {
            proof {
                assert(lower_text(trimmed(all[i as int])) == name@);
            }
            return true;
        }
        i += 1;
    }
    false
}

/// Takes the fields that concern only one hop off a message.
pub fn strip_hop_by_hop_headers(headers: &Headers) -> (r: Headers)
    ensures
        r@ == end_to_end(headers@),
{
    let connection = headers.get_text("connection");
    let mut kept = Headers { fields: Vec::new() };
    let ghost all = headers@;
    let ghost p = |f: (Seq<char>, Seq<u8>)| !hop_by_hop(f.0) && !named_by_connection(all, f.0);
    let mut i: usize = 0;
    proof {
        reveal(Seq::filter);
        assert(all.take(0) =~= Seq::empty());
        assert(kept@ =~= all.take(0).filter(p));
    }
    while i < headers.fields.len()
        invariant
            i <= headers.fields@.len(),
            all == headers@,
            p == (|f: (Seq<char>, Seq<u8>)| !hop_by_hop(f.0) && !named_by_connection(all, f.0)),
            match connection {
                Some(c) => field_text(all, "connection"@) == Some(c@),
                None => field_text(all, "connection"@) is None,
            },
            kept@ == all.take(i as int).filter(p),
        decreases headers.fields@.len() - i,
    {
        let ghost before = kept@;
        let field = &headers.fields[i];
        proof {
            reveal(Seq::filter);
            assert(all.take(i + 1).drop_last() =~= all.take(i as int));
            assert(all.take(i + 1).last() == (field.name@, field.value@));
        }
        let named: bool = match &connection {
            Some(list) => list_has_name(list.as_str(), field.name.as_str()),
            None => false,
        };
        if !is_hop_by_hop(field.name.as_str()) && !named {
            kept.fields.push(
                crate::http::HeaderField {
                    name: field.name.clone(),
                    value: copy_bytes(&field.value),
                },
            );
            proof {
                assert(kept@ =~= before.push((field.name@, field.value@)));
            }
        }
        i += 1;
    }
    proof {
        assert(all.take(i as int) =~= all);
    }
    kept
}

/// The host of a request: its host header, or else the authority of its URI.
pub open spec fn request_host(
    fields: Seq<(Seq<char>, Seq<u8>)>,
    authority: Option<Seq<u8>>,
) -> Option<Seq<u8>> {
    match value_from(fields, "host"@, 0) {
        Some(value) => Some(value),
        None => authority,
    }
}

/// The host of a request: its host header, or else the authority of its URI.
pub fn host_header_value(headers: &Headers, authority: Option<Vec<u8>>) -> (r: Option<Vec<u8>>)
    ensures
        match r {
            Some(v) => request_host(
                headers@,
                match authority {
                    Some(a) => Some(a@),
                    None => None,
                },
            ) == Some(v@),
            None => value_from(headers@, "host"@, 0) is None && authority is None,
        },
{
    match headers.get("host") {
        Some(value) => Some(copy_bytes(value)),
        None => authority,
    }
}

/// What starting a request over HTTP/3 leads to.
#[derive(Debug)]
pub enum Http3Start {
    /// Answer, and be done.
    Answer(Reply),
    /// Run the request hooks; the host is the one that is passed upstream.
    RunRequestHooks { request: IngressRequest, host: Vec<u8> },
    /// End the stream without an answer.
    Fail(String),
}

/// Starts to serve a request. A request without a usable host ends without an answer.
pub fn start_request(path: &str, headers: &Headers, authority: Option<Vec<u8>>) -> (r: Http3Start)
    ensures
        ({
            let host = request_host(
                headers@,
                match authority {
                    Some(a) => Some(a@),
                    None => None,
                },
            );
            if path@ == "/health"@ {
                r matches Http3Start::Answer(reply) && reply.is(200, "OK"@)
            } else {
                match host_of(host) {
                    Err(message) => r matches Http3Start::Fail(m) && m@ == message,
                    Ok(tunnel_id) => r matches Http3Start::RunRequestHooks { request, host: h }
                        && request.tunnel_id@ == tunnel_id && !request.is_ws && !request.is_grpc
                        && host == Some(h@),
                }
            }
        }),
{
    if same_text(path, "/health") {
        return Http3Start::Answer(full_response(200, "OK"));
    }
    match host_header_value(headers, authority) {
        None => Http3Start::Fail("Missing or invalid Host header".to_owned()),
        Some(host) => match parse_and_normalize_host(Some(&host)) {
            Ok(tunnel_id) => Http3Start::RunRequestHooks {
                request: IngressRequest { tunnel_id, is_ws: false, is_grpc: false },
                host,
            },
            Err(message) => Http3Start::Fail(message.to_owned()),
        },
    }
}

/// The step that a hook's decision leads to, where it ends the request. Of the header fields
/// of an answer, those that can be none are left out.
pub open spec fn http3_hook_ends(outcome: HookOutcome, step: IngressStep) -> bool {
    match outcome {
        HookOutcome::Respond { status, headers, body } => step matches IngressStep::AnswerAs {
            status: s,
            headers: h,
            body: b,
        } && s == valid_status(status, 200) && text_pairs(h@) == text_pairs(headers@).filter(
            |p: (Seq<char>, Seq<char>)| usable_field(p),
        ) && b == body,
        _ => hook_ends(outcome, step),
    }
}

fn end_by_hook(outcome: HookOutcome) -> (r: Option<IngressStep>)
    ensures
        r is None <==> outcome is Proceed,
        r matches Some(step) ==> http3_hook_ends(outcome, step),
{
    match outcome {
        HookOutcome::Respond { status, headers, body } => {
            let status: u16 = if status >= 100 && status <= 999 {
                status
            } else {
                200
            };
            Some(IngressStep::AnswerAs { status, headers: only_usable(&headers), body })
        },
        _ => crate::ingress::end_by_hook(outcome),
    }
}

/// Goes on after the request hooks, which left the header fields `headers`: a hook may end the
/// request, else the session of its tunnel is looked up and a stream opened.
pub fn after_request_hooks(
    request: &mut IngressRequest,
    outcome: HookOutcome,
    headers: &Headers,
    sessions: &SessionStoreBackend,
) -> (r: IngressStep)
    requires
        sessions.wf(),
    ensures
        final(request).tunnel_id == old(request).tunnel_id,
        final(request).is_ws == old(request).is_ws,
        !(outcome is Proceed) ==> http3_hook_ends(outcome, r) && final(request).is_grpc == old(request).is_grpc,
        outcome is Proceed ==> {
            let session = lookup(sessions.part(old(request).tunnel_id@), old(request).tunnel_id@);
            if session is None || session->0.multiplexer is None {
                (r matches IngressStep::Answer(reply) && routing_failure(session, reply)) && final(request).is_grpc == old(request).is_grpc
            } else {
                &&& final(request).is_grpc == grpc_fields(headers@)
                &&& r == (IngressStep::OpenStream {
                    multiplexer: session->0.multiplexer->0,
                    protocol: if grpc_fields(headers@) {
                        Protocol::GRPC
                    } else {
                        Protocol::HTTP
                    },
                })
            }
        },
{
    if let Some(step) = end_by_hook(outcome) {
        return step;
    }
    match sessions.multiplexer_of(request.tunnel_id.as_str()) {
        None => IngressStep::Answer(full_response(404, "Tunnel not found")),
        Some(None) => IngressStep::Answer(full_response(502, "Tunnel not ready")),
        Some(Some(multiplexer)) => {
            request.is_grpc = is_grpc(headers);
            let protocol = if request.is_grpc {
                Protocol::GRPC
            } else {
                Protocol::HTTP
            };
            IngressStep::OpenStream { multiplexer, protocol }
        },
    }
}

/// What is sent upstream for a request.
#[derive(Debug)]
pub struct ForwardRequest {
    /// Whether it is sent over HTTP/2.
    pub http2: bool,
    pub headers: Headers,
    /// The URI in the place of the request's own, where it needs another.
    pub uri: Option<String>,
}

/// The header fields that are sent upstream: those that go beyond one hop, with the host that
/// the request was routed by; gRPC also asks for trailers.
pub open spec fn forward_fields(
    fields: Seq<(Seq<char>, Seq<u8>)>,
    host: Seq<u8>,
    grpc: bool,
) -> Seq<(Seq<char>, Seq<u8>)> {
    let routed = fields_without(end_to_end(fields), "host"@).push(("host"@, host));
    if grpc {
        fields_without(routed, "te"@).push(("te"@, vstd::utf8::encode_utf8("trailers"@)))
    } else {
        routed
    }
}

/// The URI in the place of a request's own: for a gRPC request that has none that is absolute
/// the host and the path; for any other the path alone.
pub open spec fn forward_uri(
    host: Seq<u8>,
    is_grpc: bool,
    has_authority: bool,
    path_and_query: Option<Seq<char>>,
) -> Option<Seq<char>> {
    if !is_grpc {
        path_and_query
    } else if has_authority {
        None
    } else {
        Some(
            "https://"@ + value_text(host)->0 + (match path_and_query {
                Some(p) => p,
                None => "/"@,
            }),
        )
    }
}

/// What is wrong with the URI that a gRPC request is given, where something is.
pub open spec fn forward_complaint(
    host: Seq<u8>,
    is_grpc: bool,
    has_authority: bool,
    path_and_query: Option<Seq<char>>,
) -> Option<Seq<char>> {
    match forward_uri(host, is_grpc, has_authority, path_and_query) {
        Some(uri) => if is_grpc {
            uri_complaint(uri)
        } else {
            None
        },
        None => None,
    }
}

/// Builds what is sent upstream. A gRPC request gets an absolute URI where it has none, which
/// must be a URI; any other is sent by its path alone.
pub fn build_forward_request(
    headers: &Headers,
    host: &Vec<u8>,
    is_grpc: bool,
    has_authority: bool,
    path_and_query: Option<&str>,
) -> (r: Result<ForwardRequest, String>)
    ensures
        ({
            let path = opt_str(path_and_query);
            let complaint = forward_complaint(host@, is_grpc, has_authority, path);
            if is_grpc && !has_authority && value_text(host@) is None {
                r matches Err(e) && e@ == "Invalid Host header for gRPC request"@
            } else if complaint is Some {
                r matches Err(e) && e@ == "Invalid gRPC URI: "@ + complaint->0
            } else {
                r matches Ok(f) && f.http2 == is_grpc && f.headers@ == forward_fields(
                    headers@,
                    host@,
                    is_grpc,
                ) && opt_text(f.uri) == forward_uri(host@, is_grpc, has_authority, path)
            }
        }),
{
    match forward_candidate(headers, host, is_grpc, has_authority, path_and_query) {
        Err(e) => Err(e),
        Ok(forward) => {
            let complaint: Option<String> = match &forward.uri {
                Some(uri) => if is_grpc {
                    check_uri(uri.as_str())
                } else {
                    None
                },
                None => None,
            };
            accept_forward(forward, complaint)
        },
    }
}

/// Takes what is to be sent upstream, for what was found wrong with its URI.
pub fn accept_forward(forward: ForwardRequest, complaint: Option<String>) -> (r: Result<
    ForwardRequest,
    String,
>)
    ensures
        complaint is None ==> r == Ok::<ForwardRequest, String>(forward),
        complaint matches Some(c) ==> r is Err && r->Err_0@ == "Invalid gRPC URI: "@ + c@,
{
    match complaint {
        None => Ok(forward),
        Some(c) => {
            let mut text = "Invalid gRPC URI: ".to_owned();
            text.append(c.as_str());
            Err(text)
        },
    }
}

/// What is sent upstream, where its URI is one.
pub fn forward_candidate(
    headers: &Headers,
    host: &Vec<u8>,
    is_grpc: bool,
    has_authority: bool,
    path_and_query: Option<&str>,
) -> (r: Result<ForwardRequest, String>)
    ensures
        r is Err <==> is_grpc && !has_authority && value_text(host@) is None,
        r matches Err(e) ==> e@ == "Invalid Host header for gRPC request"@,
        r matches Ok(f) ==> {
            &&& f.http2 == is_grpc
            &&& f.headers@ == forward_fields(headers@, host@, is_grpc)
            &&& opt_text(f.uri) == forward_uri(
                host@,
                is_grpc,
                has_authority,
                opt_str(path_and_query),
            )
        },
{
    let mut forward = strip_hop_by_hop_headers(headers);
    forward.set("host", copy_bytes(host));
    if is_grpc {
        forward.set("te", "trailers".as_bytes_vec());
        let uri: Option<String> = if has_authority {
            None
        } else {
            match to_text(host.as_slice()) {
                None => {
                    return Err("Invalid Host header for gRPC request".to_owned());
                },
                Some(text) => {
                    let mut uri = "https://".to_owned();
                    uri.append(text.as_str());
                    match path_and_query {
                        Some(p) => uri.append(p),
                        None => uri.append("/"),
                    }
                    Some(uri)
                },
            }
        };
        Ok(ForwardRequest { http2: true, headers: forward, uri })
    } else {
        let uri: Option<String> = match path_and_query {
            Some(p) => Some(p.to_owned()),
            None => None,
        };
        Ok(ForwardRequest { http2: false, headers: forward, uri })
    }
}

/// The answer where what is sent upstream cannot be built.
pub fn forward_request_failed(message: &str) -> (r: Reply)
    ensures
        r.is(400, message@),
{
    full_response(400, message)
}

/// Goes on after the request was sent upstream: a response that a plugin wants to see whole is
/// collected, any other streamed.
pub fn after_send(request: &IngressRequest, end: UpstreamEnd, needs_buffering: bool) -> (r:
    IngressStep)
    ensures
        match end {
            UpstreamEnd::Failed => r matches IngressStep::Answer(reply) && reply.is(
                502,
                if request.is_grpc {
                    "gRPC request failed"@
                } else {
                    "Failed to send request"@
                },
            ),
            UpstreamEnd::TimedOut => r matches IngressStep::Answer(reply) && reply.is(
                504,
                if request.is_grpc {
                    "gRPC upstream response timeout"@
                } else {
                    "Upstream response timeout"@
                },
            ),
            UpstreamEnd::Done => r == (if needs_buffering {
                IngressStep::BufferResponse
            } else {
                IngressStep::StreamResponse
            }),
        },
{
    match end {
        UpstreamEnd::Done => if needs_buffering {
            IngressStep::BufferResponse
        } else {
            IngressStep::StreamResponse
        },
        _ => request.after_send(end, false, 0, false),
    }
}

/// Goes on after the response hooks. Their decision is honoured as that of request hooks.
pub fn after_response_hooks(outcome: HookOutcome) -> (r: IngressStep)
    ensures
        outcome is Proceed ==> r == IngressStep::SendResponse,
        !(outcome is Proceed) ==> http3_hook_ends(outcome, r),
{
    match end_by_hook(outcome) {
        Some(step) => step,
        None => IngressStep::SendResponse,
    }
}

/// The message with which a response body that could not be collected ends the stream;
/// `cause` says why it could not be read, where it could not.
pub fn collect_failure_message(error: BodyCollectError, cause: &str) -> (r: String)
    ensures
        r@ == match error {
            BodyCollectError::Timeout => "upstream body collection inactivity timeout"@,
            BodyCollectError::TooLarge => "HTTP/3 upstream response body too large"@,
            BodyCollectError::Read => "Failed to read upstream response body: "@ + cause@,
        },
{
    match error {
        BodyCollectError::Timeout => "upstream body collection inactivity timeout".to_owned(),
        BodyCollectError::TooLarge => "HTTP/3 upstream response body too large".to_owned(),
        BodyCollectError::Read => {
            let mut text = "Failed to read upstream response body: ".to_owned();
            text.append(cause);
            text
        },
    }
}

/// A client cannot drop or replace the host that its request was routed by: the host field of
/// what is sent upstream is that host.
pub proof fn law_forwarded_host_is_the_routed_one(
    fields: Seq<(Seq<char>, Seq<u8>)>,
    host: Seq<u8>,
    grpc: bool,
)
    ensures
        value_from(forward_fields(fields, host, grpc), "host"@, 0) == Some(host),
{
    reveal_strlit("host");
    reveal_strlit("te");
    let base = fields_without(end_to_end(fields), "host"@);
    let routed = base.push(("host"@, host));
    lemma_no_name(end_to_end(fields), "host"@);
    assert("host"@ != "te"@) by {
        assert("host"@.len() == 4 && "te"@.len() == 2);
    }
    if grpc {
        let p = |f: (Seq<char>, Seq<u8>)| f.0 != "te"@;
        reveal(Seq::filter);
        assert(routed.drop_last() =~= base);
        let kept = base.filter(p);
        assert(fields_without(routed, "te"@) =~= kept.push(("host"@, host)));
        lemma_filter_keeps_absence(base, "host"@, p);
        let full = forward_fields(fields, host, grpc);
        lemma_value_behind(kept, "host"@, host, full, 0);
    } else {
        lemma_value_behind(base, "host"@, host, routed, 0);
    }
}

proof fn lemma_no_name(fields: Seq<(Seq<char>, Seq<u8>)>, name: Seq<char>)
    ensures
        forall|i: int|
            0 <= i < fields_without(fields, name).len() ==> (#[trigger] fields_without(
                fields,
                name,
            )[i]).0 != name,
{
    broadcast use vstd::seq_lib::group_filter_ensures;

}

proof fn lemma_filter_keeps_absence(
    fields: Seq<(Seq<char>, Seq<u8>)>,
    name: Seq<char>,
    p: spec_fn((Seq<char>, Seq<u8>)) -> bool,
)
    requires
        forall|i: int| 0 <= i < fields.len() ==> (#[trigger] fields[i]).0 != name,
    ensures
        forall|i: int|
            0 <= i < fields.filter(p).len() ==> (#[trigger] fields.filter(p)[i]).0 != name,
    decreases fields.len(),
{
    reveal(Seq::filter);
    if fields.len() > 0 {
        let init = fields.drop_last();
        lemma_filter_keeps_absence(init, name, p);
        assert(fields.last().0 != name);
        assert forall|i: int| 0 <= i < fields.filter(p).len() implies (
        #[trigger] fields.filter(p)[i]).0 != name by {
            if i < init.filter(p).len() {
                assert(fields.filter(p)[i] == init.filter(p)[i]);
            }
        }
    }
}

proof fn lemma_value_behind(
    before: Seq<(Seq<char>, Seq<u8>)>,
    name: Seq<char>,
    value: Seq<u8>,
    whole: Seq<(Seq<char>, Seq<u8>)>,
    from: int,
)
    requires
        0 <= from <= before.len(),
        whole.len() > before.len(),
        forall|i: int| 0 <= i < before.len() ==> whole[i] == before[i],
        whole[before.len() as int] == (name, value),
        forall|i: int| 0 <= i < before.len() ==> (#[trigger] before[i]).0 != name,
    ensures
        value_from(whole, name, from) == Some(value),
    decreases before.len() - from,
{
    if from < before.len() {
        assert(before[from].0 != name);
        lemma_value_behind(before, name, value, whole, from + 1);
    }
}

/// The request target that goes upstream is the client's own: of a request that is not gRPC its
/// path and query as they stand; of a gRPC request without an authority the host and that path;
/// of one with an authority nothing else than it has.
pub proof fn law_request_target_is_passed_on(
    headers: &Headers,
    host: &Vec<u8>,
    host_text: Seq<char>,
    k: int,
    grpc: bool,
    has_authority: bool,
    path: Option<&str>,
    r: Result<ForwardRequest, String>,
    built: Result<ForwardRequest, String>,
)
    requires
        call_ensures(forward_candidate, (headers, host, grpc, has_authority, path), r),
        call_ensures(build_forward_request, (headers, host, grpc, has_authority, path), built),
    ensures
        !grpc ==> {
            &&& r is Ok && built is Ok
            &&& !r->Ok_0.http2 && !built->Ok_0.http2
            &&& path matches Some(p) ==> r->Ok_0.uri is Some && (r->Ok_0.uri->0)@ == p@
                && built->Ok_0.uri is Some && (built->Ok_0.uri->0)@ == p@
            &&& path is None ==> r->Ok_0.uri is None && built->Ok_0.uri is None
        },
        grpc && has_authority ==> {
            &&& r is Ok && built is Ok
            &&& r->Ok_0.http2 && built->Ok_0.http2
            &&& r->Ok_0.uri is None && built->Ok_0.uri is None
        },
        grpc && !has_authority && crate::http::spells(host@, host_text) ==> {
            let target = "https://"@ + host_text + (match path {
                Some(p) => p@,
                None => "/"@,
            });
            &&& r is Ok && r->Ok_0.http2 && r->Ok_0.uri is Some && (r->Ok_0.uri->0)@ == target
            &&& built is Ok <==> uri_complaint(target) is None
            &&& built matches Ok(f) ==> f.http2 && f.uri is Some && (f.uri->0)@ == target
            &&& built matches Err(e) ==> e@ == "Invalid gRPC URI: "@ + uri_complaint(target)->0
        },
        grpc && !has_authority && 0 <= k < host@.len() && host@[k] != 9 && !(32 <= host@[k] <= 126)
            ==> r is Err && built is Err && built->Err_0@ == "Invalid Host header for gRPC request"@,
{
    if crate::http::spells(host@, host_text) {
        crate::http::lemma_spelled(host@, host_text);
    }
    if 0 <= k < host@.len() && host@[k] != 9 && !(32 <= host@[k] <= 126) {
        assert(!crate::http::visible(host@[k]));
    }
}

/// Two requests with different paths never reach the same target.
pub proof fn law_targets_are_kept_apart(
    headers: &Headers,
    host: &Vec<u8>,
    host_text: Seq<char>,
    grpc: bool,
    a: &str,
    b: &str,
    to_a: ForwardRequest,
    to_b: ForwardRequest,
)
    requires
        a@ != b@,
        crate::http::spells(host@, host_text),
        call_ensures(build_forward_request, (headers, host, grpc, false, Some(a)), Ok(to_a)),
        call_ensures(build_forward_request, (headers, host, grpc, false, Some(b)), Ok(to_b)),
    ensures
        to_a.uri is Some,
        to_b.uri is Some,
        (to_a.uri->0)@ != (to_b.uri->0)@,
{
    crate::http::lemma_spelled(host@, host_text);
    let start = "https://"@ + host_text;
    if start + a@ == start + b@ {
        assert(a@ =~= (start + a@).skip(start.len() as int));
        assert(b@ =~= (start + b@).skip(start.len() as int));
    }
}

/// Of the fields of a message, those stay behind that concern one hop, by their name or because
/// the connection field lists them between commas; every other keeps its value.
pub proof fn law_fields_of_one_hop_stay_behind(
    headers: &Headers,
    kept: Headers,
    name: &str,
    connection: &str,
    parts: Vec<&str>,
    before: Option<&Vec<u8>>,
    after: Option<&Vec<u8>>,
)
    requires
        call_ensures(strip_hop_by_hop_headers, (headers,), kept),
        call_ensures(Headers::get, (headers, name), before),
        call_ensures(Headers::get, (&kept, name), after),
        call_ensures(split_all, (connection, ','), parts),
        crate::ingress::tight(name@),
        forall|i: int| 0 <= i < name@.len() ==> !('A' <= #[trigger] name@[i] <= 'Z'),
        crate::http::has_field(headers, "connection"@, connection@) || (crate::http::lacks_field(
            headers,
            "connection"@,
        ) && parts@.len() == 0),
    ensures
        ({
            let listed = exists|i: int|
                0 <= i < parts@.len() && #[trigger] crate::ingress::names(parts@[i]@, name@);
            let one_hop = name@ == "connection"@ || name@ == "keep-alive"@ || name@
                == "proxy-authenticate"@ || name@ == "proxy-authorization"@ || name@
                == "proxy-connection"@ || name@ == "te"@ || name@ == "trailer"@ || name@
                == "transfer-encoding"@ || name@ == "upgrade"@;
            &&& one_hop || listed ==> after is None
            &&& !one_hop && !listed ==> (before is Some <==> after is Some) && (before is Some ==> (
            before->0)@ == (after->0)@)
        }),
{
    lemma_kept_value(headers, name);
    crate::http::lemma_has_field(headers, "connection"@, connection@);
    assert(lower_text(name@) =~= name@);
    let all = parts_of(connection@, ',');
    assert(str_views(parts@).len() == parts@.len());
    assert forall|i: int| 0 <= i < parts@.len() implies (#[trigger] crate::ingress::names(
        parts@[i]@,
        name@,
    ) <==> lower_text(trimmed(all[i])) == name@) by {
        assert(str_views(parts@)[i] == parts@[i]@);
        crate::ingress::lemma_names(parts@[i]@, name@);
    }
    if lists_name(connection@, name@) {
        let i = choose|i: int|
            0 <= i < all.len() && lower_text(#[trigger] trimmed(all[i])) == name@;
        assert(crate::ingress::names(parts@[i]@, name@));
    }
    if exists|i: int|
        0 <= i < parts@.len() && #[trigger] crate::ingress::names(parts@[i]@, name@) {
        let i = choose|i: int|
            0 <= i < parts@.len() && #[trigger] crate::ingress::names(parts@[i]@, name@);
        assert(lower_text(trimmed(all[i])) == name@);
    }
}

proof fn lemma_kept_value(headers: &Headers, name: &str)
    ensures
        value_from(end_to_end(headers@), name@, 0) == (if hop_by_hop(name@) || named_by_connection(
            headers@,
            name@,
        ) {
            None
        } else {
            value_from(headers@, name@, 0)
        }),
{
    broadcast use vstd::seq_lib::group_filter_ensures;

    let p = |f: (Seq<char>, Seq<u8>)| !hop_by_hop(f.0) && !named_by_connection(headers@, f.0);
    assert(end_to_end(headers@) == headers@.filter(p));
    if hop_by_hop(name@) || named_by_connection(headers@, name@) {
        let kept = headers@.filter(p);
        assert forall|i: int| 0 <= i < kept.len() implies (#[trigger] kept[i]).0 != name@ by {
            assert(p(kept[i]));
        }
        crate::http::lemma_no_value(kept, name@);
    } else {
        crate::http::lemma_value_filter(headers@, p, name@);
    }
}

/// What goes upstream has the host that the request was routed by, for gRPC the wish for trailers,
/// and of the other fields those that go beyond one hop.
pub proof fn law_forwarded_fields_are_the_clients(
    headers: &Headers,
    host: &Vec<u8>,
    grpc: bool,
    has_authority: bool,
    path: Option<&str>,
    forward: ForwardRequest,
    kept: Headers,
    name: &str,
    before: Option<&Vec<u8>>,
    after: Option<&Vec<u8>>,
)
    requires
        call_ensures(build_forward_request, (headers, host, grpc, has_authority, path), Ok(forward)),
        call_ensures(strip_hop_by_hop_headers, (headers,), kept),
        call_ensures(Headers::get, (&kept, name), before),
        call_ensures(Headers::get, (&forward.headers, name), after),
    ensures
        name@ == "host"@ ==> after is Some && (after->0)@ == host@,
        name@ == "te"@ && grpc ==> after is Some && crate::http::spells((after->0)@, "trailers"@),
        name@ != "host"@ && !(name@ == "te"@ && grpc) ==> (before is Some <==> after is Some) && (
        before is Some ==> (before->0)@ == (after->0)@),
{
    reveal_strlit("host");
    reveal_strlit("te");
    reveal_strlit("trailers");
    assert("host"@.len() == 4 && "te"@.len() == 2);
    let ends = end_to_end(headers@);
    let a = fields_without(ends, "host"@);
    let routed = a.push(("host"@, host@));
    crate::http::lemma_without(ends, "host", name);
    crate::http::lemma_value_push(a, ("host"@, host@), name@);
    if grpc {
        let b = fields_without(routed, "te"@);
        let te = vstd::utf8::encode_utf8("trailers"@);
        crate::http::lemma_without(routed, "te", name);
        crate::http::lemma_value_push(b, ("te"@, te), name@);
        vstd::utf8::is_ascii_chars_encode_utf8("trailers"@);
        assert(crate::http::spells(te, "trailers"@)) by {
            let word = "trailers"@;
            assert forall|i: int| 0 <= i < te.len() implies (#[trigger] te[i]) as int
                == word[i] as int && (te[i] == 9 || 32 <= te[i] <= 126) by {
                assert(te[i] == word[i] as u8);
            }
        }
    }
}

/// The host of a request is that of its host field, and without one the authority of its target.
pub proof fn law_host_field_comes_before_authority(
    headers: &Headers,
    authority: Option<Vec<u8>>,
    field: Option<&Vec<u8>>,
    r: Option<Vec<u8>>,
)
    requires
        call_ensures(host_header_value, (headers, authority), r),
        call_ensures(Headers::get, (headers, "host"), field),
    ensures
        field matches Some(v) ==> r is Some && (r->0)@ == v@,
        field is None ==> (r is Some <==> authority is Some) && (r is Some ==> (r->0)@
            == (authority->0)@),
{
}

/// The health check is answered with 200; any other request is for the tunnel that its host names,
/// with that host to pass on, and fails in the words that say what is wrong with its host.
pub proof fn law_http3_request_starts_by_its_host(
    path: &str,
    headers: &Headers,
    authority: Option<Vec<u8>>,
    r: Http3Start,
    host: Option<Vec<u8>>,
    value: &Vec<u8>,
    name: Result<String, &'static str>,
)
    requires
        call_ensures(start_request, (path, headers, authority), r),
        call_ensures(host_header_value, (headers, authority), host),
        host is Some ==> (host->0)@ == value@,
        call_ensures(
            parse_and_normalize_host,
            (if host is Some {
                Some(value)
            } else {
                None
            },),
            name,
        ),
    ensures
        path@ == "/health"@ ==> r is Answer && r->Answer_0.status == 200 && r->Answer_0.body@
            == "OK"@,
        path@ != "/health"@ ==> match name {
            Ok(id) => r is RunRequestHooks && r->request.tunnel_id@ == id@ && !r->request.is_ws
                && !r->request.is_grpc && r->host@ == value@,
            Err(words) => r is Fail && r->Fail_0@ == words@,
        },
{
}

/// A request that the hooks let pass goes to the session that its tunnel id is registered for, as
/// gRPC exactly where it is gRPC; without such a session it is answered 404, without a multiplexer
/// 502.
pub proof fn law_http3_request_goes_to_its_tunnel(
    request: &mut IngressRequest,
    headers: &Headers,
    sessions: &SessionStoreBackend,
    grpc: bool,
    id: &str,
    found: Option<Option<u64>>,
    r: IngressStep,
)
    requires
        sessions.wf(),
        call_ensures(after_request_hooks, (request, HookOutcome::Proceed, headers, sessions), r),
        call_ensures(is_grpc, (headers,), grpc),
        id@ == old(request).tunnel_id@,
        call_ensures(SessionStoreBackend::multiplexer_of, (sessions, id), found),
    ensures
        found is None ==> r is Answer && r->Answer_0.status == 404 && r->Answer_0.body@
            == "Tunnel not found"@,
        found == Some(None::<u64>) ==> r is Answer && r->Answer_0.status == 502 && r->Answer_0.body@
            == "Tunnel not ready"@,
        found matches Some(Some(m)) ==> final(request).is_grpc == grpc && r == (
        IngressStep::OpenStream {
            multiplexer: m,
            protocol: if grpc {
                Protocol::GRPC
            } else {
                Protocol::HTTP
            },
        }),
        final(request).tunnel_id@ == old(request).tunnel_id@,
{
}

/// A hook that refuses a request, or answers it, has the last word, before or after the upstream:
/// an answer goes out with those of its fields that can be fields.
pub proof fn law_http3_hooks_have_the_last_word(
    request: &mut IngressRequest,
    outcome: HookOutcome,
    headers: &Headers,
    sessions: &SessionStoreBackend,
    before: IngressStep,
    after: IngressStep,
)
    requires
        sessions.wf(),
        !(outcome is Proceed),
        call_ensures(after_request_hooks, (request, outcome, headers, sessions), before),
        call_ensures(after_response_hooks, (outcome,), after),
    ensures
        !(outcome is Respond) ==> crate::ingress::has_last_word(outcome, true, before)
            && crate::ingress::has_last_word(outcome, true, after),
        outcome matches HookOutcome::Respond { status, headers: h, body } ==> {
            let given = if 100 <= status <= 999 {
                status
            } else {
                200
            };
            &&& before is AnswerAs && before->AnswerAs_status == given && before->AnswerAs_body@
                == body@
            &&& after is AnswerAs && after->AnswerAs_status == given && after->AnswerAs_body@
                == body@
            &&& crate::http::usable_fields(text_pairs(h@)) ==> text_pairs(before->AnswerAs_headers@)
                == text_pairs(h@) && text_pairs(after->AnswerAs_headers@) == text_pairs(h@)
        },
{
    if let HookOutcome::Respond { status, headers: h, body } = outcome {
        let p = |p: (Seq<char>, Seq<char>)| usable_field(p);
        crate::http::lemma_filter_all(text_pairs(h@), p);
        assert(text_pairs(before->AnswerAs_headers@) == text_pairs(h@).filter(p));
    }
}

/// What fails upstream is answered 502 and what takes too long 504; a response is collected exactly
/// where a plugin wants to see it whole, and what the hooks let pass is sent.
pub proof fn law_http3_response_is_streamed_unless_wanted_whole(
    request: &IngressRequest,
    end: UpstreamEnd,
    buffering: bool,
    r: IngressStep,
    sent: IngressStep,
)
    requires
        call_ensures(after_send, (request, end, buffering), r),
        call_ensures(after_response_hooks, (HookOutcome::Proceed,), sent),
    ensures
        sent == IngressStep::SendResponse,
        end == UpstreamEnd::Failed ==> r is Answer && r->Answer_0.status == 502 && r->Answer_0.body@
            == (if request.is_grpc {
            "gRPC request failed"@
        } else {
            "Failed to send request"@
        }),
        end == UpstreamEnd::TimedOut ==> r is Answer && r->Answer_0.status == 504
            && r->Answer_0.body@ == (if request.is_grpc {
            "gRPC upstream response timeout"@
        } else {
            "Upstream response timeout"@
        }),
        end == UpstreamEnd::Done && buffering ==> r == IngressStep::BufferResponse,
        end == UpstreamEnd::Done && !buffering ==> r == IngressStep::StreamResponse,
{
}

/// The advertisement names the port of the ingress, for both versions of the protocol, and for how
/// long to remember it.
pub proof fn law_advertisement_names_port_and_age(
    config: &Http3IngressConfig,
    port: u16,
    r: String,
    port_text: String,
    age_text: String,
)
    requires
        call_ensures(Http3IngressConfig::alt_svc_header_value, (config, port), r),
        call_ensures(crate::text::decimal, (port as u64,), port_text),
        call_ensures(crate::text::decimal, (config.alt_svc_max_age,), age_text),
    ensures
        exists|rest: Seq<char>|
            r@ == #[trigger] ("h3=\":"@ + port_text@ + "\"; ma="@ + age_text@ + rest),
        exists|front: Seq<char>|
            r@ == #[trigger] (front + (", h3-29=\":"@ + port_text@ + "\"; ma="@ + age_text@)),
{
    let first = "h3=\":"@ + port_text@ + "\"; ma="@ + age_text@;
    let second = ", h3-29=\":"@ + port_text@ + "\"; ma="@ + age_text@;
    assert(r@ =~= first + second);
    assert(r@ == "h3=\":"@ + port_text@ + "\"; ma="@ + age_text@ + second);
    assert(r@ == first + (", h3-29=\":"@ + port_text@ + "\"; ma="@ + age_text@));
}

/// Chunks of a request body pass as long as all of them together keep within the limit; an empty
/// one is skipped, and one that goes beyond is refused and not counted.
pub proof fn law_chunks_pass_within_the_limit(
    budget: &mut BodyBudget,
    fresh: BodyBudget,
    max_size: usize,
    len: usize,
    r: ChunkStep,
)
    requires
        old(budget).bytes_read <= old(budget).max_size,
        call_ensures(BodyBudget::chunk, (budget, len), r),
        call_ensures(BodyBudget::new, (max_size,), fresh),
    ensures
        fresh.bytes_read == 0 && fresh.max_size == max_size,
        final(budget).max_size == old(budget).max_size,
        r == ChunkStep::Skip <==> len == 0,
        r == ChunkStep::TooLarge <==> len > old(budget).max_size - old(budget).bytes_read,
        r == ChunkStep::Forward ==> final(budget).bytes_read == old(budget).bytes_read + len,
        r != ChunkStep::Forward ==> final(budget).bytes_read == old(budget).bytes_read,
{
}

/// The ingress serves with its own certificate and key and cannot do without either; it asks
/// clients for certificates exactly where it is told to, and never skips verification.
pub proof fn law_http3_needs_certificate_and_key(
    config: &Http3IngressConfig,
    r: Result<TlsTransportConfig, TunnelError>,
)
    requires
        call_ensures(Http3IngressConfig::endpoint_tls, (config,), r),
    ensures
        r is Ok <==> config.cert_path@.len() > 0 && config.key_path@.len() > 0,
        r matches Ok(tls) ==> tls.cert_path@ == config.cert_path@ && tls.key_path@
            == config.key_path@ && tls.client_auth == config.client_auth && !tls.skip_verify && (
        tls.ca_cert_path is Some <==> config.ca_cert_path is Some) && (tls.ca_cert_path is Some ==> (
        tls.ca_cert_path->0)@ == (config.ca_cert_path->0)@),
        r matches Err(e) ==> e is Config,
{
}

/// An ingress has the certificate and key that it was given, the client authentication that it was
/// told, and otherwise 10000 connections, bodies up to 100 MiB, ten seconds to shake hands, sixty to
/// respond and thirty to be idle.
pub proof fn law_http3_configuration_is_as_told(
    cert: String,
    key: String,
    ca: Option<String>,
    enabled: bool,
    a: Http3IngressConfig,
    b: Http3IngressConfig,
    c: Http3IngressConfig,
)
    requires
        call_ensures(Http3IngressConfig::with_certs, (cert, key), a),
        call_ensures(Http3IngressConfig::ca_cert_path, (a, ca), b),
        call_ensures(Http3IngressConfig::client_auth, (b, enabled), c),
    ensures
        c.cert_path@ == cert@,
        c.key_path@ == key@,
        c.ca_cert_path == ca,
        c.client_auth == enabled,
        !a.client_auth,
        c.max_connections == 10 * 1000,
        c.max_request_body_size == 100 * 1024 * 1024,
        c.max_response_size == 100 * 1024 * 1024,
        c.handshake_timeout_millis == 10 * 1000,
        c.response_timeout_millis == 60 * 1000,
        c.idle_timeout_millis == 30 * 1000,
        c.keep_alive_interval_millis == 10 * 1000,
        c.alt_svc_max_age == 24 * 60 * 60,
        c.max_concurrent_bidi_streams == 256,
{
}

/// A request whose target is no URI is refused in the words of the complaint, and answered 400; any
/// other goes on as it is.
pub proof fn law_unusable_target_is_refused(
    forward: ForwardRequest,
    complaint: Option<String>,
    r: Result<ForwardRequest, String>,
    message: &str,
    reply: Reply,
    error: BodyCollectError,
    cause: &str,
    words: String,
)
    requires
        call_ensures(accept_forward, (forward, complaint), r),
        call_ensures(forward_request_failed, (message,), reply),
        call_ensures(collect_failure_message, (error, cause), words),
    ensures
        complaint is None ==> r == Ok::<ForwardRequest, String>(forward),
        complaint matches Some(c) ==> r is Err && r->Err_0@ == "Invalid gRPC URI: "@ + c@,
        reply.status == 400 && reply.body@ == message@,
        error == BodyCollectError::Read ==> words@ == "Failed to read upstream response body: "@
            + cause@,
        error == BodyCollectError::TooLarge ==> words@ == "HTTP/3 upstream response body too large"@,
{
}

/// Every request can be started and passed on.
pub proof fn law_any_http3_request_can_be_passed_on(
    path: &str,
    headers: &Headers,
    authority: Option<Vec<u8>>,
    host: &Vec<u8>,
    grpc: bool,
    has_authority: bool,
    target: Option<&str>,
    outcome: HookOutcome,
)
    ensures
        call_requires(start_request, (path, headers, authority)),
        call_requires(strip_hop_by_hop_headers, (headers,)),
        call_requires(build_forward_request, (headers, host, grpc, has_authority, target)),
        call_requires(forward_candidate, (headers, host, grpc, has_authority, target)),
        call_requires(after_response_hooks, (outcome,)),
{
}

} // verus!
